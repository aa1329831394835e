use ocean::ClanSystem;

#[test]
fn new_clan_system_is_empty() {
    let clans = ClanSystem::new();
    assert_eq!(clans.get_clan_count(), 0);
    assert_eq!(clans.get_clan_member_count("A"), 0);
    assert!(clans.get_clan_member_names("A").is_empty());
}

#[test]
fn members_are_listed_in_joining_order() {
    let mut clans = ClanSystem::new();
    clans.add_clan_member("A", "x");
    clans.add_clan_member("B", "y");
    clans.add_clan_member("A", "z");
    assert_eq!(clans.get_clan_member_names("A"), vec!["x".to_string(), "z".to_string()]);
    assert_eq!(clans.get_clan_member_names("B"), vec!["y".to_string()]);
    assert_eq!(clans.get_clan_member_count("A"), 2);
    assert_eq!(clans.get_clan_count(), 2);
}

#[test]
fn clan_system_does_not_check_duplicates() {
    let mut clans = ClanSystem::new();
    clans.add_clan_member("A", "x");
    clans.add_clan_member("A", "x");
    clans.add_clan_member("B", "x");
    assert_eq!(clans.get_clan_member_count("A"), 2);
    assert!(clans.has_member("x"));
    assert!(!clans.has_member("w"));
}

#[test]
fn largest_clan_is_found() {
    let mut clans = ClanSystem::new();
    clans.add_clan_member("A", "a1");
    clans.add_clan_member("A", "a2");
    clans.add_clan_member("A", "a3");
    clans.add_clan_member("B", "b1");
    assert_eq!(clans.get_largest_clan_id(), Some("A".to_string()));
}

#[test]
fn tied_largest_clans_give_none() {
    let mut clans = ClanSystem::new();
    clans.add_clan_member("A", "a1");
    clans.add_clan_member("A", "a2");
    clans.add_clan_member("B", "b1");
    clans.add_clan_member("B", "b2");
    assert_eq!(clans.get_largest_clan_id(), None);
}

#[test]
fn no_clans_give_no_largest() {
    assert_eq!(ClanSystem::new().get_largest_clan_id(), None);
}

#[test]
fn later_larger_clan_beats_earlier_tie() {
    let mut clans = ClanSystem::new();
    clans.add_clan_member("A", "a1");
    clans.add_clan_member("B", "b1");
    clans.add_clan_member("C", "c1");
    clans.add_clan_member("C", "c2");
    assert_eq!(clans.get_largest_clan_id(), Some("C".to_string()));
}
