use tournament::Phase;
use tournament::Tournament;

fn id(s: &str) -> Vec<u8> {
    s.as_bytes().to_vec()
}

#[test]
fn full_tournament_settles_by_rank() {
    // Entry fee 100; A, B and C stake 100 each; scores 5000, 8000, -2000.
    let mut t = Tournament::init(100);
    assert_eq!(t.register_agent(id("A"), 0, id("pa"), 100, 1), Ok(()));
    assert_eq!(t.register_agent(id("B"), 1, id("pb"), 100, 2), Ok(()));
    assert_eq!(t.register_agent(id("C"), 2, id("pc"), 100, 3), Ok(()));
    assert_eq!(t.start_tournament(true), Ok(()));
    assert_eq!(t.update_score(&id("A"), 5000, true), Ok(()));
    assert_eq!(t.update_score(&id("B"), 8000, true), Ok(()));
    assert_eq!(t.update_score(&id("C"), -2000, true), Ok(()));
    assert_eq!(t.get_prize_pool(), 300);

    let lb = t.get_leaderboard();
    assert_eq!(lb.len(), 3);
    assert_eq!(lb[0].agent_id, id("B"));
    assert_eq!(lb[0].final_roi, 8000);
    assert_eq!(lb[1].agent_id, id("A"));
    assert_eq!(lb[1].final_roi, 5000);
    assert_eq!(lb[2].agent_id, id("C"));
    assert_eq!(lb[2].final_roi, -2000);

    let report = t.end_tournament(true).unwrap();
    assert_eq!(report.len(), 3);
    assert_eq!(report[0].agent_id, id("B"));
    assert_eq!(report[0].player_address, id("pb"));
    assert_eq!(report[0].amount, 150);
    assert_eq!(report[1].agent_id, id("A"));
    assert_eq!(report[1].player_address, id("pa"));
    assert_eq!(report[1].amount, 90);
    assert_eq!(report[2].agent_id, id("C"));
    assert_eq!(report[2].player_address, id("pc"));
    assert_eq!(report[2].amount, 60);
    let paid: u64 = report.iter().map(|p| p.amount).sum();
    assert_eq!(paid, 300);

    assert_eq!(t.get_tournament_state_view(), Phase::Ended);
    assert_eq!(t.get_prize_pool(), 0);
}

#[test]
fn rounding_dust_stays_unaccounted() {
    // Pool 301: the floored shares pay 150 + 90 + 60 = 300, leaving 1 unit.
    let mut t = Tournament::init(100);
    assert_eq!(t.register_agent(id("A"), 0, id("pa"), 101, 1), Ok(()));
    assert_eq!(t.register_agent(id("B"), 1, id("pb"), 100, 2), Ok(()));
    assert_eq!(t.register_agent(id("C"), 2, id("pc"), 100, 3), Ok(()));
    assert_eq!(t.get_prize_pool(), 301);
    assert_eq!(t.start_tournament(true), Ok(()));
    assert_eq!(t.update_score(&id("A"), 3, true), Ok(()));
    assert_eq!(t.update_score(&id("B"), 2, true), Ok(()));
    assert_eq!(t.update_score(&id("C"), 1, true), Ok(()));
    let report = t.end_tournament(true).unwrap();
    assert_eq!(report[0].amount, 150);
    assert_eq!(report[1].amount, 90);
    assert_eq!(report[2].amount, 60);
    let paid: u64 = report.iter().map(|p| p.amount).sum();
    assert_eq!(paid, 300);
    assert_eq!(t.get_prize_pool(), 0);
}

#[test]
fn fewer_than_three_entries_fill_the_leading_ranks() {
    let mut t = Tournament::init(10);
    assert_eq!(t.register_agent(id("A"), 0, id("pa"), 60, 1), Ok(()));
    assert_eq!(t.register_agent(id("B"), 1, id("pb"), 40, 2), Ok(()));
    assert_eq!(t.start_tournament(true), Ok(()));
    assert_eq!(t.update_score(&id("B"), 10, true), Ok(()));
    let report = t.end_tournament(true).unwrap();
    assert_eq!(report.len(), 2);
    assert_eq!(report[0].agent_id, id("B"));
    assert_eq!(report[0].amount, 50);
    assert_eq!(report[1].agent_id, id("A"));
    assert_eq!(report[1].amount, 30);
}

#[test]
fn end_on_empty_registry_returns_an_empty_report() {
    // The public lifecycle cannot reach an active phase with no entries,
    // but settlement is specified for that state all the same.
    let mut t = Tournament {
        tournament_state: Phase::Active,
        entry_fee: 100,
        prize_pool: 0,
        agents: Vec::new(),
    };
    let report = t.end_tournament(true).unwrap();
    assert!(report.is_empty());
    assert_eq!(t.get_tournament_state_view(), Phase::Ended);
    assert_eq!(t.get_prize_pool(), 0);
}

#[test]
fn leaderboard_is_stable_on_equal_scores() {
    let mut t = Tournament::init(10);
    assert_eq!(t.register_agent(id("A"), 0, id("pa"), 10, 1), Ok(()));
    assert_eq!(t.register_agent(id("B"), 1, id("pb"), 10, 2), Ok(()));
    assert_eq!(t.register_agent(id("C"), 2, id("pc"), 10, 3), Ok(()));
    assert_eq!(t.register_agent(id("D"), 0, id("pd"), 10, 4), Ok(()));
    assert_eq!(t.start_tournament(true), Ok(()));
    // Equal scores written in a scrambled order: the tie-break must still be
    // registration order, whatever the order of the updates.
    assert_eq!(t.update_score(&id("C"), 7000, true), Ok(()));
    assert_eq!(t.update_score(&id("A"), 7000, true), Ok(()));
    assert_eq!(t.update_score(&id("D"), 9000, true), Ok(()));
    assert_eq!(t.update_score(&id("B"), 7000, true), Ok(()));
    let lb = t.get_leaderboard();
    assert_eq!(lb[0].agent_id, id("D"));
    assert_eq!(lb[1].agent_id, id("A"));
    assert_eq!(lb[2].agent_id, id("B"));
    assert_eq!(lb[3].agent_id, id("C"));
}

#[test]
fn leaderboard_without_scores_is_registration_order() {
    let mut t = Tournament::init(10);
    assert_eq!(t.register_agent(id("x"), 0, id("p1"), 10, 1), Ok(()));
    assert_eq!(t.register_agent(id("y"), 1, id("p2"), 10, 2), Ok(()));
    assert_eq!(t.register_agent(id("z"), 2, id("p3"), 10, 3), Ok(()));
    let lb = t.get_leaderboard();
    assert_eq!(lb[0].agent_id, id("x"));
    assert_eq!(lb[1].agent_id, id("y"));
    assert_eq!(lb[2].agent_id, id("z"));
}

#[test]
fn leaderboard_mixes_ties_and_distinct_scores_stably() {
    let mut t = Tournament::init(1);
    assert_eq!(t.register_agent(id("e1"), 0, id("p1"), 1, 1), Ok(()));
    assert_eq!(t.register_agent(id("e2"), 1, id("p2"), 1, 2), Ok(()));
    assert_eq!(t.register_agent(id("e3"), 2, id("p3"), 1, 3), Ok(()));
    assert_eq!(t.register_agent(id("e4"), 0, id("p4"), 1, 4), Ok(()));
    assert_eq!(t.register_agent(id("e5"), 1, id("p5"), 1, 5), Ok(()));
    assert_eq!(t.start_tournament(true), Ok(()));
    assert_eq!(t.update_score(&id("e1"), -100, true), Ok(()));
    assert_eq!(t.update_score(&id("e2"), 500, true), Ok(()));
    assert_eq!(t.update_score(&id("e3"), -100, true), Ok(()));
    assert_eq!(t.update_score(&id("e4"), 500, true), Ok(()));
    assert_eq!(t.update_score(&id("e5"), 0, true), Ok(()));
    let lb = t.get_leaderboard();
    let order: Vec<Vec<u8>> = lb.iter().map(|e| e.agent_id.clone()).collect();
    assert_eq!(order, vec![id("e2"), id("e4"), id("e5"), id("e1"), id("e3")]);
}

#[test]
fn negative_scores_rank_below_zero_scores() {
    let mut t = Tournament::init(1);
    assert_eq!(t.register_agent(id("m"), 0, id("p1"), 1, 1), Ok(()));
    assert_eq!(t.register_agent(id("n"), 1, id("p2"), 1, 2), Ok(()));
    assert_eq!(t.start_tournament(true), Ok(()));
    assert_eq!(t.update_score(&id("m"), -1, true), Ok(()));
    let lb = t.get_leaderboard();
    assert_eq!(lb[0].agent_id, id("n"));
    assert_eq!(lb[1].agent_id, id("m"));
}

#[test]
fn single_entry_takes_only_the_first_share() {
    let mut t = Tournament::init(100);
    assert_eq!(t.register_agent(id("solo"), 0, id("p"), 1000, 1), Ok(()));
    assert_eq!(t.start_tournament(true), Ok(()));
    let report = t.end_tournament(true).unwrap();
    assert_eq!(report.len(), 1);
    assert_eq!(report[0].amount, 500);
    assert_eq!(t.get_prize_pool(), 0);
}
