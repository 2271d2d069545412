use qkc_mining_assistant::allowances::AllowanceInfo;
use qkc_mining_assistant::config::{IniParameters, MinerIni};
use qkc_mining_assistant::scheduler::{
    decide, refresh, Action, Decision, Event, Outcome, Phase, Scheduler, Selected,
};
use qkc_mining_assistant::selection::{
    beats, candidate_pool, choose_winner, find_update, latest_snapshots,
};
use qkc_mining_assistant::types::{AddressError, QkcAddress};
use qkc_mining_assistant::worker::WorkerError;
use std::sync::Arc;

fn wallet_of(tag: u8) -> String {
    format!("0x{:02x}d041434910ad2c1893c6a77537b16cb7b8ef5b00010000", tag)
}

fn target(tag: u8, difficulty: u128, priority: u16, used: u32, allowances: u32) -> AllowanceInfo {
    AllowanceInfo {
        config: Arc::new(IniParameters {
            spawn_args: vec!["-config".to_string(), format!("{}.ini", tag)],
            path: format!("{}.ini", tag),
            root_chain: false,
            allowances_to_use: None,
            mine_at_free_allowances_from_max: 2,
            priority,
        }),
        config_ini: Arc::new(MinerIni { wallet: wallet_of(tag) }),
        address: Arc::new(QkcAddress::new_full(&wallet_of(tag)).unwrap()),
        difficulty,
        used,
        allowances,
    }
}

fn ready(tag: u8, difficulty: u128, priority: u16) -> AllowanceInfo {
    target(tag, difficulty, priority, 0, 10)
}

fn busy(tag: u8, difficulty: u128, priority: u16) -> AllowanceInfo {
    target(tag, difficulty, priority, 9, 10)
}

fn spent(tag: u8, difficulty: u128, priority: u16) -> AllowanceInfo {
    target(tag, difficulty, priority, 10, 10)
}

fn fallback_params() -> Arc<IniParameters> {
    Arc::new(IniParameters {
        spawn_args: vec!["-config".to_string(), "fallback.ini".to_string()],
        path: "fallback.ini".to_string(),
        root_chain: false,
        allowances_to_use: None,
        mine_at_free_allowances_from_max: 0,
        priority: 0,
    })
}

fn coordinator() -> Scheduler {
    Scheduler::new(fallback_params(), Arc::new(MinerIni { wallet: wallet_of(0xfa) })).unwrap()
}

fn running(info: &AllowanceInfo) -> Scheduler {
    let mut s = coordinator();
    let out = s.step(Event::Woke(vec![info.clone()]));
    assert_eq!(out, Outcome { action: Action::Spawn(info.config.clone()), error: None });
    let out = s.step(Event::Spawned(true));
    assert_eq!(out, Outcome { action: Action::Wait, error: None });
    assert_eq!(s.current(), Some(Selected::Target(info.clone())));
    assert!(s.holds_worker());
    s
}

fn on_fallback() -> Scheduler {
    let mut s = coordinator();
    let out = s.step(Event::Woke(vec![busy(1, 100, 1)]));
    assert_eq!(out.action, Action::Spawn(fallback_params()));
    s.step(Event::Spawned(true));
    assert_eq!(s.current(), Some(Selected::Fallback));
    s
}

#[test]
fn a_new_coordinator_has_nothing() {
    let s = coordinator();
    assert_eq!(s.current(), None);
    assert!(!s.holds_worker());
    assert_eq!(s.phase(), Phase::Idle);
    let fallback = s.fallback();
    assert_eq!(fallback.difficulty, 0);
    assert_eq!(fallback.used, 0);
    assert_eq!(fallback.allowances, 0);
    assert_eq!(fallback.config, fallback_params());
    assert_eq!(fallback.address.to_string(), wallet_of(0xfa));
}

#[test]
fn a_coordinator_needs_a_fallback_wallet_that_is_an_address() {
    let made = Scheduler::new(fallback_params(), Arc::new(MinerIni { wallet: "0x00".to_string() }));
    assert_eq!(made.err(), Some(AddressError::TooShort));
    let wallet = "0xzzd041434910ad2c1893c6a77537b16cb7b8ef5b00010000".to_string();
    let made = Scheduler::new(fallback_params(), Arc::new(MinerIni { wallet }));
    assert_eq!(made.err(), Some(AddressError::InvalidHex));
}

#[test]
fn winner_has_least_difficulty_then_highest_priority() {
    let pool = vec![ready(1, 500, 9), ready(2, 300, 1), ready(3, 300, 4), ready(4, 301, 8)];
    assert_eq!(choose_winner(&pool), Some(2));
    assert_eq!(choose_winner(&Vec::new()), None);
    assert_eq!(choose_winner(&vec![ready(1, 5, 5)]), Some(0));
}

#[test]
fn winner_among_equals_is_the_last() {
    let pool = vec![ready(1, 300, 4), ready(2, 300, 4), ready(3, 400, 4)];
    assert_eq!(choose_winner(&pool), Some(1));
}

#[test]
fn winner_does_not_depend_on_the_order() {
    let items = vec![ready(1, 500, 2), ready(2, 300, 1), ready(3, 300, 3), ready(4, 700, 9)];
    let orders: Vec<Vec<usize>> = vec![
        vec![0, 1, 2, 3],
        vec![3, 2, 1, 0],
        vec![2, 0, 3, 1],
        vec![1, 3, 0, 2],
        vec![2, 1, 0, 3],
    ];
    for order in orders {
        let pool: Vec<AllowanceInfo> = order.iter().map(|&i| items[i].clone()).collect();
        let w = choose_winner(&pool).unwrap();
        assert_eq!(pool[w], items[2]);
    }
}

#[test]
fn winner_is_what_sorting_and_taking_the_maximum_gives() {
    let pool = vec![
        ready(1, 9, 1),
        ready(2, 4, 2),
        ready(3, 4, 7),
        ready(4, 4, 7),
        ready(5, 6, 9),
        ready(6, 4, 3),
    ];
    let mut sorted: Vec<&AllowanceInfo> = pool.iter().collect();
    sorted.sort_by_key(|k| k.difficulty());
    let least = sorted[0].difficulty();
    let expected =
        sorted.iter().filter(|i| i.difficulty() == least).max_by_key(|i| i.priority()).unwrap();
    assert_eq!(pool[choose_winner(&pool).unwrap()], **expected);
    assert_eq!(choose_winner(&pool), Some(3));
}

#[test]
fn beating_is_strict() {
    let b = ready(2, 300, 1);
    assert!(beats(&ready(1, 299, 0), &b));
    assert!(beats(&ready(1, 300, 2), &b));
    assert!(!beats(&ready(1, 300, 1), &b));
    assert!(!beats(&ready(1, 300, 0), &b));
    assert!(!beats(&ready(1, 301, 9), &b));
}

#[test]
fn pool_holds_the_ready_under_the_bound() {
    let fresh = vec![ready(1, 500, 1), busy(2, 100, 2), ready(3, 300, 3), spent(4, 50, 4)];
    assert_eq!(candidate_pool(&fresh, None), vec![fresh[0].clone(), fresh[2].clone()]);
    assert_eq!(candidate_pool(&fresh, Some(500)), vec![fresh[2].clone()]);
    assert_eq!(candidate_pool(&fresh, Some(501)), vec![fresh[0].clone(), fresh[2].clone()]);
    assert_eq!(candidate_pool(&fresh, Some(300)), Vec::new());
    assert_eq!(candidate_pool(&fresh, Some(0)), Vec::new());
    assert_eq!(candidate_pool(&Vec::new(), None), Vec::new());
}

#[test]
fn only_the_last_snapshot_of_a_target_counts() {
    let drained = vec![ready(1, 500, 1), ready(2, 300, 2), busy(1, 400, 1), ready(3, 7, 3), spent(2, 1, 2)];
    let fresh = latest_snapshots(&drained);
    assert_eq!(fresh, vec![drained[2].clone(), drained[3].clone(), drained[4].clone()]);
    assert_eq!(latest_snapshots(&Vec::new()), Vec::new());
    assert_eq!(latest_snapshots(&vec![ready(1, 1, 1)]), vec![ready(1, 1, 1)]);
}

#[test]
fn update_is_found_by_address() {
    let fresh = vec![ready(1, 500, 1), ready(2, 300, 2)];
    assert_eq!(find_update(&fresh, &busy(2, 9, 9)), Some(1));
    assert_eq!(find_update(&fresh, &busy(1, 9, 9)), Some(0));
    assert_eq!(find_update(&fresh, &busy(3, 9, 9)), None);
    assert_eq!(find_update(&Vec::new(), &busy(3, 9, 9)), None);
}

#[test]
fn refresh_takes_the_latest_snapshot_of_the_running_target() {
    let fresh = vec![ready(1, 500, 1), busy(2, 250, 2)];
    let now = refresh(Some(Selected::Target(ready(2, 300, 2))), &fresh);
    assert_eq!(now, Some(Selected::Target(busy(2, 250, 2))));
    let kept = refresh(Some(Selected::Target(ready(3, 300, 2))), &fresh);
    assert_eq!(kept, Some(Selected::Target(ready(3, 300, 2))));
    assert_eq!(refresh(Some(Selected::Fallback), &fresh), Some(Selected::Fallback));
    assert_eq!(refresh(None, &fresh), None);
}

#[test]
fn decisions() {
    let a = ready(1, 500, 2);
    let b = ready(2, 300, 1);
    let fresh = vec![a.clone(), b.clone()];
    assert_eq!(decide(&None, &fresh), Decision::Start(Selected::Target(b.clone())));
    assert_eq!(decide(&None, &vec![busy(1, 5, 5)]), Decision::Start(Selected::Fallback));
    assert_eq!(decide(&Some(Selected::Fallback), &fresh), Decision::Replace(b.clone()));
    assert_eq!(decide(&Some(Selected::Fallback), &vec![busy(1, 5, 5)]), Decision::Keep);
    let current = Some(Selected::Target(a.clone()));
    assert_eq!(decide(&current, &fresh), Decision::Replace(b.clone()));
    let current = Some(Selected::Target(b.clone()));
    assert_eq!(decide(&current, &fresh), Decision::Keep);
    let current = Some(Selected::Target(spent(1, 500, 2)));
    assert_eq!(
        decide(&current, &vec![spent(1, 500, 2), b.clone()]),
        Decision::StopThenStart(Selected::Target(b))
    );
    assert_eq!(
        decide(&current, &vec![spent(1, 500, 2)]),
        Decision::StopThenStart(Selected::Fallback)
    );
    assert_eq!(decide(&current, &vec![busy(3, 1, 1)]), Decision::Keep);
}

#[test]
fn starts_the_less_difficult_of_two_ready_targets() {
    let a = ready(0xa, 500, 2);
    let b = ready(0xb, 300, 1);
    let mut s = coordinator();
    let out = s.step(Event::Woke(vec![a, b.clone()]));
    assert_eq!(out, Outcome { action: Action::Spawn(b.config.clone()), error: None });
    assert_eq!(s.phase(), Phase::Starting(Selected::Target(b.clone())));
    assert!(!s.holds_worker());
    let out = s.step(Event::Spawned(true));
    assert_eq!(out, Outcome { action: Action::Wait, error: None });
    assert_eq!(s.current(), Some(Selected::Target(b)));
    assert!(s.holds_worker());
    assert_eq!(s.phase(), Phase::Idle);
}

#[test]
fn equal_difficulty_does_not_enter_the_pool_of_a_running_target() {
    let b = ready(0xb, 300, 1);
    let a = ready(0xa, 300, 2);
    assert!(beats(&a, &b));
    let mut s = running(&b);
    let out = s.step(Event::Woke(vec![a]));
    assert_eq!(out, Outcome { action: Action::Wait, error: None });
    assert_eq!(s.current(), Some(Selected::Target(b)));
    assert!(s.holds_worker());
}

#[test]
fn lower_difficulty_replaces_the_running_target() {
    let b = ready(0xb, 300, 9);
    let a = ready(0xa, 299, 1);
    let mut s = running(&b);
    let out = s.step(Event::Woke(vec![a.clone()]));
    assert_eq!(out, Outcome { action: Action::Kill, error: None });
    assert_eq!(s.phase(), Phase::Replacing(Selected::Target(a.clone())));
    let out = s.step(Event::Killed(true));
    assert_eq!(out, Outcome { action: Action::Spawn(a.config.clone()), error: None });
    assert!(!s.holds_worker());
    assert_eq!(s.current(), None);
    let out = s.step(Event::Spawned(true));
    assert_eq!(out, Outcome { action: Action::Wait, error: None });
    assert_eq!(s.current(), Some(Selected::Target(a)));
    assert!(s.holds_worker());
}

#[test]
fn a_target_out_of_quota_is_stopped_and_the_selection_cleared() {
    let b = ready(0xb, 300, 1);
    let mut s = running(&b);
    let out = s.step(Event::Woke(vec![spent(0xb, 300, 1)]));
    assert_eq!(out, Outcome { action: Action::Kill, error: None });
    let out = s.step(Event::Killed(true));
    assert_eq!(s.current(), None);
    assert!(!s.holds_worker());
    assert_eq!(out, Outcome { action: Action::Spawn(fallback_params()), error: None });
    let out = s.step(Event::Spawned(true));
    assert_eq!(out, Outcome { action: Action::Wait, error: None });
    assert_eq!(s.current(), Some(Selected::Fallback));
    assert!(s.holds_worker());
}

#[test]
fn a_target_out_of_quota_gives_way_to_any_ready_target() {
    let b = ready(0xb, 300, 1);
    let a = ready(0xa, 900, 1);
    let mut s = running(&b);
    let out = s.step(Event::Woke(vec![a.clone(), spent(0xb, 300, 1)]));
    assert_eq!(out.action, Action::Kill);
    assert_eq!(s.phase(), Phase::Stopping(Selected::Target(a.clone())));
    assert_eq!(s.step(Event::Killed(true)).action, Action::Spawn(a.config.clone()));
    s.step(Event::Spawned(true));
    assert_eq!(s.current(), Some(Selected::Target(a)));
}

#[test]
fn fallback_is_started_when_nothing_is_ready() {
    let mut s = coordinator();
    let out = s.step(Event::Woke(vec![busy(1, 100, 1), spent(2, 50, 2)]));
    assert_eq!(out, Outcome { action: Action::Spawn(fallback_params()), error: None });
    assert_eq!(s.phase(), Phase::Starting(Selected::Fallback));
    s.step(Event::Spawned(true));
    assert_eq!(s.current(), Some(Selected::Fallback));
    assert!(s.holds_worker());
}

#[test]
fn any_ready_target_ends_the_fallback() {
    let mut s = on_fallback();
    let a = ready(0xa, 1_000_000, 1);
    let out = s.step(Event::Woke(vec![a.clone()]));
    assert_eq!(out, Outcome { action: Action::Kill, error: None });
    assert_eq!(s.step(Event::Killed(true)).action, Action::Spawn(a.config.clone()));
    s.step(Event::Spawned(true));
    assert_eq!(s.current(), Some(Selected::Target(a)));
}

#[test]
fn fallback_stays_while_nothing_is_ready() {
    let mut s = on_fallback();
    let out = s.step(Event::Woke(vec![busy(1, 0, 9)]));
    assert_eq!(out, Outcome { action: Action::Wait, error: None });
    assert_eq!(s.current(), Some(Selected::Fallback));
}

#[test]
fn a_wake_up_without_snapshots_does_nothing() {
    let mut s = coordinator();
    let out = s.step(Event::Woke(Vec::new()));
    assert_eq!(out, Outcome { action: Action::Wait, error: None });
    assert_eq!(s.current(), None);
    assert_eq!(s.phase(), Phase::Idle);
    let b = ready(0xb, 300, 1);
    let mut s = running(&b);
    assert_eq!(s.step(Event::Woke(Vec::new())).action, Action::Wait);
    assert_eq!(s.current(), Some(Selected::Target(b)));
}

#[test]
fn the_running_target_takes_on_its_latest_snapshot() {
    let b = ready(0xb, 300, 1);
    let mut s = running(&b);
    let newer = busy(0xb, 200, 1);
    let out = s.step(Event::Woke(vec![ready(0xb, 250, 1), newer.clone(), ready(0xa, 200, 9)]));
    assert_eq!(out.action, Action::Wait);
    assert_eq!(s.current(), Some(Selected::Target(newer)));
}

#[test]
fn a_failed_launch_leaves_nothing_selected() {
    let mut s = coordinator();
    let b = ready(0xb, 300, 1);
    s.step(Event::Woke(vec![b.clone()]));
    let out = s.step(Event::Spawned(false));
    assert_eq!(out, Outcome { action: Action::Wait, error: Some(WorkerError::Launch) });
    assert_eq!(s.current(), None);
    assert!(!s.holds_worker());
    let out = s.step(Event::Woke(vec![b.clone()]));
    assert_eq!(out.action, Action::Spawn(b.config.clone()));
}

#[test]
fn a_refused_stop_changes_nothing() {
    let b = ready(0xb, 300, 1);
    let mut s = running(&b);
    s.step(Event::Woke(vec![spent(0xb, 300, 1)]));
    let out = s.step(Event::Killed(false));
    assert_eq!(out, Outcome { action: Action::Wait, error: Some(WorkerError::Termination) });
    assert!(s.holds_worker());
    assert_eq!(s.current(), Some(Selected::Target(spent(0xb, 300, 1))));
    assert_eq!(s.phase(), Phase::Idle);
}

#[test]
fn a_replacement_is_started_though_the_old_worker_would_not_end() {
    let b = ready(0xb, 300, 1);
    let a = ready(0xa, 100, 1);
    let mut s = running(&b);
    s.step(Event::Woke(vec![a.clone()]));
    let out = s.step(Event::Killed(false));
    assert_eq!(
        out,
        Outcome { action: Action::Spawn(a.config.clone()), error: Some(WorkerError::Termination) }
    );
    assert!(s.holds_worker());
    assert_eq!(s.current(), Some(Selected::Target(b.clone())));
    let out = s.step(Event::Spawned(true));
    assert_eq!(out, Outcome { action: Action::Wait, error: None });
    assert!(s.holds_worker());
    assert_eq!(s.current(), Some(Selected::Target(a)));
}

#[test]
fn a_replacement_that_fails_twice_keeps_the_old_worker() {
    let b = ready(0xb, 300, 1);
    let a = ready(0xa, 100, 1);
    let mut s = running(&b);
    s.step(Event::Woke(vec![a]));
    s.step(Event::Killed(false));
    let out = s.step(Event::Spawned(false));
    assert_eq!(out, Outcome { action: Action::Wait, error: Some(WorkerError::Launch) });
    assert!(s.holds_worker());
    assert_eq!(s.current(), Some(Selected::Target(b)));
}

#[test]
fn a_replacement_that_cannot_start_leaves_nothing() {
    let b = ready(0xb, 300, 1);
    let a = ready(0xa, 100, 1);
    let mut s = running(&b);
    s.step(Event::Woke(vec![a]));
    s.step(Event::Killed(true));
    let out = s.step(Event::Spawned(false));
    assert_eq!(out, Outcome { action: Action::Wait, error: Some(WorkerError::Launch) });
    assert!(!s.holds_worker());
    assert_eq!(s.current(), None);
}

#[test]
fn an_event_out_of_turn_repeats_the_request() {
    let mut s = coordinator();
    assert_eq!(s.step(Event::Killed(true)), Outcome { action: Action::Wait, error: None });
    assert_eq!(s.step(Event::Spawned(true)), Outcome { action: Action::Wait, error: None });
    assert_eq!(s.current(), None);
    assert!(!s.holds_worker());
    let b = ready(0xb, 300, 1);
    s.step(Event::Woke(vec![b.clone()]));
    let again = Outcome { action: Action::Spawn(b.config.clone()), error: None };
    assert_eq!(s.step(Event::Killed(true)), again);
    assert_eq!(s.step(Event::Woke(vec![ready(0xa, 1, 1)])), again);
    assert_eq!(s.phase(), Phase::Starting(Selected::Target(b.clone())));
    s.step(Event::Spawned(true));
    s.step(Event::Woke(vec![ready(0xa, 1, 1)]));
    assert_eq!(s.step(Event::Spawned(true)), Outcome { action: Action::Kill, error: None });
    assert_eq!(s.current(), Some(Selected::Target(b)));
}

#[test]
fn a_worker_is_held_exactly_while_something_is_selected() {
    let mut s = coordinator();
    let events = vec![
        Event::Woke(vec![ready(1, 500, 1), ready(2, 300, 2)]),
        Event::Spawned(true),
        Event::Woke(vec![ready(3, 100, 1)]),
        Event::Killed(false),
        Event::Spawned(true),
        Event::Woke(vec![spent(3, 100, 1)]),
        Event::Killed(true),
        Event::Spawned(false),
        Event::Woke(vec![busy(1, 1, 1)]),
        Event::Spawned(true),
        Event::Woke(vec![ready(1, 1, 1)]),
        Event::Killed(true),
        Event::Spawned(true),
        Event::Woke(Vec::new()),
    ];
    for event in events {
        s.step(event);
        assert_eq!(s.current().is_some(), s.holds_worker());
    }
    assert_eq!(s.current(), Some(Selected::Target(ready(1, 1, 1))));
}
