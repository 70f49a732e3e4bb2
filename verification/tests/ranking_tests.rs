use race_sim::ranking::{qualification_tiers, rank_results};
use race_sim::RaceResult;

fn entry(name: &str, time: u8, dnf: bool) -> RaceResult {
    RaceResult::new(name.to_string(), "Team".to_string(), 0, time, dnf)
}

#[test]
fn qualification_ranking_sorts_ascending_with_positions() {
    let input = vec![
        entry("d", 45, false),
        entry("a", 41, false),
        entry("c", 44, false),
        entry("b", 43, false),
    ];
    let ranked = rank_results(input, false);
    let names: Vec<&str> = ranked.iter().map(|r| r.driver_name.as_str()).collect();
    assert_eq!(names, ["a", "b", "c", "d"]);
    let times: Vec<u8> = ranked.iter().map(|r| r.finish_time_seconds).collect();
    assert_eq!(times, [41, 43, 44, 45]);
    let positions: Vec<u8> = ranked.iter().map(|r| r.finish_position).collect();
    assert_eq!(positions, [1, 2, 3, 4]);
}

#[test]
fn qualification_ranking_is_a_permutation() {
    let input = vec![
        entry("x", 50, false),
        entry("y", 48, false),
        entry("z", 52, false),
    ];
    let ranked = rank_results(input, false);
    assert_eq!(ranked.len(), 3);
    let mut names: Vec<&str> = ranked.iter().map(|r| r.driver_name.as_str()).collect();
    names.sort();
    assert_eq!(names, ["x", "y", "z"]);
}

#[test]
fn equal_times_keep_their_input_order() {
    let input = vec![
        entry("first", 40, false),
        entry("second", 40, false),
        entry("third", 39, false),
        entry("fourth", 40, false),
    ];
    let ranked = rank_results(input, false);
    let names: Vec<&str> = ranked.iter().map(|r| r.driver_name.as_str()).collect();
    assert_eq!(names, ["third", "first", "second", "fourth"]);
}

#[test]
fn race_ranking_demotes_every_dnf_entry() {
    let input = vec![
        entry("slow_finisher", 99, false),
        entry("fast_dnf", 10, true),
        entry("quick_finisher", 30, false),
        entry("late_dnf", 90, true),
    ];
    let ranked = rank_results(input, true);
    let names: Vec<&str> = ranked.iter().map(|r| r.driver_name.as_str()).collect();
    assert_eq!(
        names,
        ["quick_finisher", "slow_finisher", "fast_dnf", "late_dnf"]
    );
    let positions: Vec<u8> = ranked.iter().map(|r| r.finish_position).collect();
    assert_eq!(positions, [1, 2, 3, 4]);
    for finisher in ranked.iter().filter(|r| !r.dnf) {
        for retired in ranked.iter().filter(|r| r.dnf) {
            assert!(finisher.finish_position < retired.finish_position);
        }
    }
}

#[test]
fn ranking_twice_yields_an_identical_ordering() {
    let input = vec![
        entry("d", 45, true),
        entry("a", 41, false),
        entry("c", 41, false),
        entry("b", 43, true),
    ];
    let once = rank_results(input, true);
    let again: Vec<RaceResult> = once.clone();
    let twice = rank_results(again, true);
    assert_eq!(once.len(), twice.len());
    for (first, second) in once.iter().zip(twice.iter()) {
        assert_eq!(first.driver_name, second.driver_name);
        assert_eq!(first.team_name, second.team_name);
        assert_eq!(first.finish_position, second.finish_position);
        assert_eq!(first.finish_time_seconds, second.finish_time_seconds);
        assert_eq!(first.dnf, second.dnf);
    }
}

#[test]
fn twenty_finishers_take_positions_one_to_twenty() {
    let mut input = Vec::new();
    for i in 0..20u8 {
        input.push(entry(&format!("driver{}", i), 60 - (i % 7), false));
    }
    let ranked = rank_results(input, true);
    assert_eq!(ranked.len(), 20);
    let mut positions: Vec<u8> = ranked.iter().map(|r| r.finish_position).collect();
    assert_eq!(positions, (1..=20).collect::<Vec<u8>>());
    positions.sort();
    positions.dedup();
    assert_eq!(positions.len(), 20);
}

#[test]
fn tiers_cut_at_ten_and_fifteen_for_a_full_grid() {
    let mut input = Vec::new();
    for i in 0..20u8 {
        input.push(entry(&format!("driver{}", i), 40 + i, false));
    }
    let ranked = rank_results(input, false);
    let (advancing, out_in_q2, out_in_q1) = qualification_tiers(&ranked);
    assert_eq!(advancing.len(), 10);
    assert_eq!(out_in_q2.len(), 5);
    assert_eq!(out_in_q1.len(), 5);
    let q3_positions: Vec<u8> = advancing.iter().map(|r| r.finish_position).collect();
    assert_eq!(q3_positions, (1..=10).collect::<Vec<u8>>());
    let q2_positions: Vec<u8> = out_in_q2.iter().map(|r| r.finish_position).collect();
    assert_eq!(q2_positions, (11..=15).collect::<Vec<u8>>());
    let q1_positions: Vec<u8> = out_in_q1.iter().map(|r| r.finish_position).collect();
    assert_eq!(q1_positions, (16..=20).collect::<Vec<u8>>());
}

#[test]
fn tiers_of_a_short_grid_leave_the_tail_empty() {
    let mut input = Vec::new();
    for i in 0..12u8 {
        input.push(entry(&format!("driver{}", i), 40 + i, false));
    }
    let ranked = rank_results(input, false);
    let (advancing, out_in_q2, out_in_q1) = qualification_tiers(&ranked);
    assert_eq!(advancing.len(), 10);
    assert_eq!(out_in_q2.len(), 2);
    assert_eq!(out_in_q1.len(), 0);
}

#[test]
fn ranking_an_empty_list_yields_an_empty_list() {
    let ranked = rank_results(Vec::new(), false);
    assert!(ranked.is_empty());
    let (advancing, out_in_q2, out_in_q1) = qualification_tiers(&ranked);
    assert!(advancing.is_empty());
    assert!(out_in_q2.is_empty());
    assert!(out_in_q1.is_empty());
}

#[test]
fn ranking_a_single_entry_gives_it_position_one() {
    let ranked = rank_results(vec![entry("only", 77, false)], false);
    assert_eq!(ranked.len(), 1);
    assert_eq!(ranked[0].driver_name, "only");
    assert_eq!(ranked[0].finish_position, 1);
}

#[test]
fn tiers_do_not_disturb_the_input() {
    let mut input = Vec::new();
    for i in 0..20u8 {
        input.push(entry(&format!("driver{}", i), 40 + i, false));
    }
    let ranked = rank_results(input, false);
    let before: Vec<String> = ranked.iter().map(|r| r.driver_name.clone()).collect();
    let _ = qualification_tiers(&ranked);
    let after: Vec<String> = ranked.iter().map(|r| r.driver_name.clone()).collect();
    assert_eq!(before, after);
}
