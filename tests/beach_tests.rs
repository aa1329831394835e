use ocean::beach::{FIRST_CLAN_EMPTY, SECOND_CLAN_EMPTY};
use ocean::crab::OFFSPRING_SPEED;
use ocean::{Beach, Crab};

fn crab(name: &str, speed: u32) -> Crab {
    Crab::new(name.to_string(), speed)
}

fn beach_with(speeds: &[(&str, u32)]) -> Beach {
    let mut beach = Beach::new();
    for (name, speed) in speeds {
        beach.add_crab(crab(name, *speed));
    }
    beach
}

#[test]
fn added_crabs_are_kept_in_call_order() {
    let mut beach = Beach::new();
    assert_eq!(beach.size(), 0);
    beach.add_crab(crab("ann", 3));
    beach.add_crab(crab("bob", 7));
    beach.add_crab(crab("ann", 9));
    assert_eq!(beach.size(), 3);
    assert_eq!(beach.get_crab(0).name(), "ann");
    assert_eq!(beach.get_crab(0).speed(), 3);
    assert_eq!(beach.get_crab(1).name(), "bob");
    assert_eq!(beach.get_crab(1).speed(), 7);
    assert_eq!(beach.get_crab(2).name(), "ann");
    assert_eq!(beach.get_crab(2).speed(), 9);
    let speeds: Vec<u32> = beach.crabs().iter().map(|c| c.speed()).collect();
    assert_eq!(speeds, vec![3, 7, 9]);
}

#[test]
fn fastest_crab_of_empty_beach_is_absent() {
    let beach = Beach::new();
    assert!(beach.get_fastest_crab().is_none());
}

#[test]
fn fastest_crab_is_first_of_equal_maxima() {
    let beach = beach_with(&[("a", 10), ("b", 40), ("c", 40), ("d", 5)]);
    let fastest = beach.get_fastest_crab().unwrap();
    assert_eq!(fastest.name(), "b");
    assert_eq!(fastest.speed(), 40);
    assert!(std::ptr::eq(fastest, beach.get_crab(1)));
}

#[test]
fn fastest_crab_when_all_speeds_are_zero_is_the_first() {
    let beach = beach_with(&[("a", 0), ("b", 0), ("c", 0)]);
    let fastest = beach.get_fastest_crab().unwrap();
    assert!(std::ptr::eq(fastest, beach.get_crab(0)));
}

#[test]
fn crabs_found_by_exact_name_in_order() {
    let beach = beach_with(&[("sam", 1), ("sammy", 2), ("sam", 3), ("Sam", 4)]);
    let found = beach.find_crabs_by_name("sam");
    assert_eq!(found.len(), 2);
    assert_eq!(found[0].speed(), 1);
    assert_eq!(found[1].speed(), 3);
    assert!(beach.find_crabs_by_name("nobody").is_empty());
}

#[test]
fn breeding_appends_one_named_offspring() {
    let mut beach = beach_with(&[("mom", 12), ("dad", 30)]);
    beach.breed_crabs(0, 1, "kid".to_string());
    assert_eq!(beach.size(), 3);
    assert_eq!(beach.get_crab(2).name(), "kid");
    assert_eq!(beach.get_crab(2).speed(), OFFSPRING_SPEED);
    assert_eq!(beach.get_crab(0).name(), "mom");
    assert_eq!(beach.get_crab(1).name(), "dad");
}

#[test]
fn breeding_a_crab_with_itself_is_allowed() {
    let mut beach = beach_with(&[("solo", 8)]);
    beach.breed_crabs(0, 0, "clone".to_string());
    assert_eq!(beach.size(), 2);
    assert_eq!(beach.get_crab(1).name(), "clone");
}

#[test]
fn crab_name_joins_only_its_first_clan() {
    let mut beach = beach_with(&[("x", 1)]);
    beach.add_member_to_clan("A", "x");
    beach.add_member_to_clan("B", "x");
    let clans = beach.get_clan_system();
    assert_eq!(clans.get_clan_member_names("A"), vec!["x".to_string()]);
    assert!(clans.get_clan_member_names("B").is_empty());
    assert_eq!(clans.get_clan_count(), 1);
}

#[test]
fn same_crab_name_is_not_added_twice_to_one_clan() {
    let mut beach = Beach::new();
    beach.add_member_to_clan("A", "x");
    beach.add_member_to_clan("A", "x");
    assert_eq!(beach.get_clan_system().get_clan_member_count("A"), 1);
}

fn competing_beach(a: &[(&str, u32)], b: &[(&str, u32)]) -> Beach {
    let mut beach = Beach::new();
    for (name, speed) in a {
        beach.add_crab(crab(name, *speed));
        beach.add_member_to_clan("A", name);
    }
    for (name, speed) in b {
        beach.add_crab(crab(name, *speed));
        beach.add_member_to_clan("B", name);
    }
    beach
}

#[test]
fn faster_clan_wins() {
    let beach = competing_beach(&[("a1", 10), ("a2", 30)], &[("b1", 5), ("b2", 15), ("b3", 10)]);
    assert_eq!(beach.get_winner_clan("A", "B"), Ok(Some("A".to_string())));
    assert_eq!(beach.get_winner_clan("B", "A"), Ok(Some("A".to_string())));
}

#[test]
fn equal_means_give_no_winner() {
    let beach = competing_beach(&[("a1", 10), ("a2", 20)], &[("b1", 15)]);
    assert_eq!(beach.get_winner_clan("A", "B"), Ok(None));
}

#[test]
fn clan_mean_is_truncated() {
    // A: (10 + 11) / 2 = 10, B: 10.
    let beach = competing_beach(&[("a1", 10), ("a2", 11)], &[("b1", 10)]);
    assert_eq!(beach.get_winner_clan("A", "B"), Ok(None));
}

#[test]
fn member_name_resolves_to_first_crab() {
    let mut beach = competing_beach(&[("a1", 20)], &[("b1", 10)]);
    beach.add_crab(crab("b1", 90));
    assert_eq!(beach.get_winner_clan("A", "B"), Ok(Some("A".to_string())));
}

#[test]
fn unknown_first_clan_is_an_error() {
    let beach = competing_beach(&[("a1", 20)], &[("b1", 10)]);
    assert_eq!(beach.get_winner_clan("Z", "B"), Err(FIRST_CLAN_EMPTY.to_string()));
    assert_eq!(beach.get_winner_clan("Z", "Y"), Err("id1 doesn't exist".to_string()));
}

#[test]
fn unknown_second_clan_is_an_error() {
    let beach = competing_beach(&[("a1", 20)], &[("b1", 10)]);
    assert_eq!(beach.get_winner_clan("A", "Y"), Err(SECOND_CLAN_EMPTY.to_string()));
    assert_eq!(beach.get_winner_clan("A", "Y"), Err("id2 doesn't exist".to_string()));
}
