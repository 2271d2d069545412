//! The coordinator of one group: from the snapshots of a wake-up to the
//! target that runs, one request to the operating system at a time.

use crate::allowances::{share, AllowanceInfo};
use crate::config::{IniParameters, MinerIni};
use crate::selection::{
    beats, candidate_pool, candidates, choose_winner, eligible, find_update, latest,
    latest_snapshots, lemma_pool_empty, lemma_pool_winner_beats, lemma_winner_exists, outranks,
    place_of, winner,
};
use crate::types::{AddressError, AddressView, QkcAddress};
use crate::worker::{handles, replaced, started, stopped, WorkerController, WorkerError};
use std::sync::Arc;
use vstd::prelude::*;
use vstd::string::StringSliceAdditionalSpecFns;

verus! {

/// The seconds between two wake-ups of the coordinator.
pub const WAKE_INTERVAL: u64 = 10;

/// For whom the worker runs, or is to run.
#[derive(Debug, Clone, PartialEq)]
pub enum Selected {
    /// A configured target, with the snapshot it was chosen on.
    Target(AllowanceInfo),
    /// The fallback, which has no quota.
    Fallback,
}

/// What a cycle decides, before anything is asked of the operating system.
#[derive(Debug, Clone, PartialEq)]
pub enum Decision {
    /// Leave things as they are.
    Keep,
    /// Nothing runs: start the worker for this.
    Start(Selected),
    /// End the running worker and start one for this target.
    Replace(AllowanceInfo),
    /// The running target is out of quota: stop it, then start the worker for this.
    StopThenStart(Selected),
}

/// What the coordinator waits for.
#[derive(Debug, Clone, PartialEq)]
pub enum Phase {
    /// The next wake-up.
    Idle,
    /// The end of the worker of a target that is out of quota.
    Stopping(Selected),
    /// The end of the worker that is being replaced.
    Replacing(Selected),
    /// The start of a worker.
    Starting(Selected),
}

/// What the caller is to do next.
#[derive(Debug, Clone, PartialEq)]
pub enum Action {
    /// Sleep for the interval, then hand over the snapshots that are pending.
    Wait,
    /// Ask the operating system to end the worker process.
    Kill,
    /// Start the worker executable with the arguments of this configuration.
    Spawn(Arc<IniParameters>),
}

/// What the caller reports.
#[derive(Debug, Clone, PartialEq)]
pub enum Event {
    /// A wake-up, with the snapshots that were pending.
    Woke(Vec<AllowanceInfo>),
    /// The worker process was asked to end: whether it did.
    Killed(bool),
    /// The worker executable was started: whether it came up.
    Spawned(bool),
}

/// The answer to an event: the next request, and a failure to log.
#[derive(Debug, Clone, PartialEq)]
pub struct Outcome {
    pub action: Action,
    pub error: Option<WorkerError>,
}

/// The state of a coordinator.
pub struct SchedulerState {
    pub fallback: AllowanceInfo,
    pub current: Option<Selected>,
    pub held: bool,
    pub phase: Phase,
}

/// The coordinator of one group, the only writer of its state.
pub struct Scheduler {
    fallback: AllowanceInfo,
    current: Option<Selected>,
    worker: WorkerController,
    phase: Phase,
}

/// The selection once the snapshots of a wake-up are in: a running target
/// takes on its latest snapshot.
pub open spec fn refreshed(current: Option<Selected>, fresh: Seq<AllowanceInfo>) -> Option<
    Selected,
> {
    match current {
        Some(Selected::Target(info)) => match place_of(fresh, info.identity()) {
            Some(i) => Some(Selected::Target(fresh[i])),
            None => current,
        },
        _ => current,
    }
}

/// Whom to start when nothing runs: the winner among all that may start,
/// else the fallback.
pub open spec fn newcomer(fresh: Seq<AllowanceInfo>) -> Selected {
    let pool = candidates(fresh, None);
    match winner(pool) {
        Some(w) => Selected::Target(pool[w]),
        None => Selected::Fallback,
    }
}

/// What a cycle decides on the selection as `refreshed` left it and on
/// the snapshots that count, of which there is at least one.
pub open spec fn decision(current: Option<Selected>, fresh: Seq<AllowanceInfo>) -> Decision {
    match current {
        None => Decision::Start(newcomer(fresh)),
        Some(Selected::Fallback) => {
            let pool = candidates(fresh, None);
            match winner(pool) {
                Some(w) => Decision::Replace(pool[w]),
                None => Decision::Keep,
            }
        },
        Some(Selected::Target(info)) => {
            if place_of(fresh, info.identity()) is Some && !info.continue_mining() {
                Decision::StopThenStart(newcomer(fresh))
            } else {
                let pool = candidates(fresh, Some(info.difficulty));
                match winner(pool) {
                    Some(w) => if outranks(pool[w], info) {
                        Decision::Replace(pool[w])
                    } else {
                        Decision::Keep
                    },
                    None => Decision::Keep,
                }
            }
        },
    }
}

/// The configuration whose arguments start the worker for `whom`.
pub open spec fn launch_config(fallback: AllowanceInfo, whom: Selected) -> Arc<IniParameters> {
    match whom {
        Selected::Target(info) => info.config,
        Selected::Fallback => fallback.config,
    }
}

/// The request that a phase waits on.
pub open spec fn pending(fallback: AllowanceInfo, phase: Phase) -> Action {
    match phase {
        Phase::Idle => Action::Wait,
        Phase::Stopping(_) => Action::Kill,
        Phase::Replacing(_) => Action::Kill,
        Phase::Starting(whom) => Action::Spawn(launch_config(fallback, whom)),
    }
}

/// After a wake-up with these snapshots.
pub open spec fn woke(s: SchedulerState, drained: Seq<AllowanceInfo>) -> (SchedulerState, Outcome) {
    if drained.len() == 0 {
        (s, Outcome { action: Action::Wait, error: None })
    } else {
        let fresh = latest(drained);
        let current = refreshed(s.current, fresh);
        let phase = match decision(current, fresh) {
            Decision::Keep => Phase::Idle,
            Decision::Start(whom) => Phase::Starting(whom),
            Decision::Replace(info) => Phase::Replacing(Selected::Target(info)),
            Decision::StopThenStart(whom) => Phase::Stopping(whom),
        };
        (
            SchedulerState { current, phase, ..s },
            Outcome { action: pending(s.fallback, phase), error: None },
        )
    }
}

/// After the worker process was asked to end. Where the end was needed
/// (`must`) and refused, the cycle is over and nothing has changed; else
/// the start follows, whether or not the old process ended.
pub open spec fn killed(s: SchedulerState, whom: Selected, must: bool, ended: bool) -> (
    SchedulerState,
    Outcome,
) {
    let (held, stop) = stopped(s.held, ended);
    let error = if stop is Err {
        Some(WorkerError::Termination)
    } else {
        None
    };
    if must && stop is Err {
        (SchedulerState { phase: Phase::Idle, ..s }, Outcome { action: Action::Wait, error })
    } else {
        let phase = Phase::Starting(whom);
        (
            SchedulerState {
                current: if held {
                    s.current
                } else {
                    None
                },
                held,
                phase,
                ..s
            },
            Outcome { action: pending(s.fallback, phase), error },
        )
    }
}

/// After the worker executable was started.
pub open spec fn spawned(s: SchedulerState, whom: Selected, launched: bool) -> (
    SchedulerState,
    Outcome,
) {
    let (held, start) = started(s.held, launched);
    (
        SchedulerState {
            current: if start is Ok {
                Some(whom)
            } else {
                s.current
            },
            held,
            phase: Phase::Idle,
            ..s
        },
        Outcome {
            action: Action::Wait,
            error: match start {
                Ok(_) => None,
                Err(e) => Some(e),
            },
        },
    )
}

/// The state and the answer that follow an event. An event that the phase
/// does not wait for changes nothing, and the pending request is made again.
pub open spec fn next(s: SchedulerState, event: Event) -> (SchedulerState, Outcome) {
    match (s.phase, event) {
        (Phase::Idle, Event::Woke(drained)) => woke(s, drained@),
        (Phase::Stopping(whom), Event::Killed(ended)) => killed(s, whom, true, ended),
        (Phase::Replacing(whom), Event::Killed(ended)) => killed(s, whom, false, ended),
        (Phase::Starting(whom), Event::Spawned(launched)) => spawned(s, whom, launched),
        _ => (s, Outcome { action: pending(s.fallback, s.phase), error: None }),
    }
}

/// A worker is held exactly while something is selected, and a phase that
/// waits for the end of a process has one to end.
pub open spec fn consistent(s: SchedulerState) -> bool {
    &&& s.current is Some <==> s.held
    &&& s.phase is Stopping ==> s.held
    &&& s.phase is Replacing ==> s.held
}

/// The fallback as a snapshot: no difficulty, nothing used, no quota.
pub open spec fn is_fallback(
    info: AllowanceInfo,
    config: Arc<IniParameters>,
    ini: Arc<MinerIni>,
    address: AddressView,
) -> bool {
    &&& info.config == config
    &&& info.config_ini == ini
    &&& info.address@ == address
    &&& info.difficulty == 0
    &&& info.used == 0
    &&& info.allowances == 0
}

/// A running target is replaced only by one that is strictly less
/// difficult: with the same difficulty, no priority is enough.
pub proof fn lemma_replacement_is_less_difficult(current: AllowanceInfo, fresh: Seq<AllowanceInfo>)
    ensures
        decision(Some(Selected::Target(current)), fresh) matches Decision::Replace(next)
            ==> next.difficulty < current.difficulty && next.ready_to_mine(),
{
    let pool = candidates(fresh, Some(current.difficulty));
    if pool.len() > 0 {
        lemma_winner_exists(pool);
        let w = winner(pool).unwrap();
        lemma_pool_winner_beats(fresh, current, w);
        fresh.lemma_filter_pred(
            |info: AllowanceInfo| eligible(info, Some(current.difficulty)),
            w,
        );
    }
}

/// Once the fallback runs, any target that may start takes its place,
/// whatever its difficulty; while none may, the fallback stays.
pub proof fn lemma_fallback_gives_way(fresh: Seq<AllowanceInfo>)
    ensures
        (exists|i: int| 0 <= i < fresh.len() && (#[trigger] fresh[i]).ready_to_mine())
            <==> decision(Some(Selected::Fallback), fresh) is Replace,
        decision(Some(Selected::Fallback), fresh) matches Decision::Replace(next)
            ==> next.ready_to_mine(),
        !(decision(Some(Selected::Fallback), fresh) is Replace) ==> decision(
            Some(Selected::Fallback),
            fresh,
        ) is Keep,
{
    let pool = candidates(fresh, None);
    lemma_pool_empty(fresh, None);
    if pool.len() > 0 {
        lemma_winner_exists(pool);
        fresh.lemma_filter_pred(|info: AllowanceInfo| eligible(info, None), winner(pool).unwrap());
        let k = choose|k: int| 0 <= k < fresh.len() && eligible(#[trigger] fresh[k], None);
        assert(fresh[k].ready_to_mine());
    } else {
        assert forall|i: int| 0 <= i < fresh.len() implies !(#[trigger] fresh[i]).ready_to_mine() by {
            assert(!eligible(fresh[i], None));
        }
    }
}

/// With nothing selected, the worker is started: for a target that may
/// start if there is one, else for the fallback.
pub proof fn lemma_start_when_idle(fresh: Seq<AllowanceInfo>)
    ensures
        decision(None, fresh) == Decision::Start(newcomer(fresh)),
        newcomer(fresh) is Fallback <==> forall|i: int|
            0 <= i < fresh.len() ==> !(#[trigger] fresh[i]).ready_to_mine(),
        newcomer(fresh) matches Selected::Target(next) ==> next.ready_to_mine(),
{
    let pool = candidates(fresh, None);
    lemma_pool_empty(fresh, None);
    if pool.len() > 0 {
        lemma_winner_exists(pool);
        fresh.lemma_filter_pred(|info: AllowanceInfo| eligible(info, None), winner(pool).unwrap());
        let k = choose|k: int| 0 <= k < fresh.len() && eligible(#[trigger] fresh[k], None);
        assert(fresh[k].ready_to_mine());
    } else {
        assert forall|i: int| 0 <= i < fresh.len() implies !(#[trigger] fresh[i]).ready_to_mine() by {
            assert(!eligible(fresh[i], None));
        }
    }
}

/// A running target whose latest snapshot is at or over its quota is
/// stopped, whether or not anything can take its place.
pub proof fn lemma_out_of_quota_stops(current: AllowanceInfo, fresh: Seq<AllowanceInfo>, i: int)
    requires
        place_of(fresh, current.identity()) == Some(i),
        0 <= i < fresh.len(),
        fresh[i].identity() == current.identity(),
        !fresh[i].continue_mining(),
    ensures
        decision(refreshed(Some(Selected::Target(current)), fresh), fresh) is StopThenStart,
{
    assert(place_of(fresh, fresh[i].identity()) is Some);
}

/// Whatever happens, a worker is held exactly while something is
/// selected, there is never more than one, and a start is asked for
/// from rest only when no worker is held.
pub proof fn lemma_one_worker(s: SchedulerState, event: Event)
    requires
        consistent(s),
    ensures
        consistent(next(s, event).0),
        handles(next(s, event).0.held) <= 1,
        s.phase is Idle && next(s, event).1.action is Spawn ==> !s.held,
        next(s, event).1.action is Kill ==> s.held,
{
}

/// A replacement does to the slot what replacing does: the old worker is
/// asked to end, and the new one is started whether or not it did.
pub proof fn lemma_replacing_replaces(s: SchedulerState, whom: Selected, ended: bool, launched: bool)
    requires
        s.phase == Phase::Replacing(whom),
    ensures
        ({
            let (between, first) = next(s, Event::Killed(ended));
            let (after, second) = next(between, Event::Spawned(launched));
            &&& first.action == Action::Spawn(launch_config(s.fallback, whom))
            &&& second.action is Wait
            &&& after.held == replaced(s.held, ended, launched).0
            &&& after.phase is Idle
            &&& launched ==> after.current == Some(whom)
            &&& first.error is Some <==> stopped(s.held, ended).1 is Err
            &&& second.error is Some <==> !launched
        }),
{
}

/// A stop that is refused ends the cycle: nothing is started, and the
/// state is as it was before the stop was asked for.
pub proof fn lemma_refused_stop_ends_cycle(s: SchedulerState, whom: Selected)
    requires
        s.phase == Phase::Stopping(whom),
        s.held,
    ensures
        next(s, Event::Killed(false)) == (
            SchedulerState { phase: Phase::Idle, ..s },
            Outcome { action: Action::Wait, error: Some(WorkerError::Termination) },
        ),
{
}

impl View for Scheduler {
    type V = SchedulerState;

    closed spec fn view(&self) -> SchedulerState {
        SchedulerState {
            fallback: self.fallback,
            current: self.current,
            held: self.worker@,
            phase: self.phase,
        }
    }
}

impl Selected {
    /// The same choice once more.
    pub fn duplicate(&self) -> (copy: Selected)
        ensures
            copy == *self,
    {
        match self {
            Selected::Target(info) => Selected::Target(info.duplicate()),
            Selected::Fallback => Selected::Fallback,
        }
    }
}

impl Phase {
    /// The same phase once more.
    pub fn duplicate(&self) -> (copy: Phase)
        ensures
            copy == *self,
    {
        match self {
            Phase::Idle => Phase::Idle,
            Phase::Stopping(whom) => Phase::Stopping(whom.duplicate()),
            Phase::Replacing(whom) => Phase::Replacing(whom.duplicate()),
            Phase::Starting(whom) => Phase::Starting(whom.duplicate()),
        }
    }
}

fn pick_newcomer(fresh: &Vec<AllowanceInfo>) -> (whom: Selected)
    ensures
        whom == newcomer(fresh@),
{
    let pool = candidate_pool(fresh, None);
    match choose_winner(&pool) {
        Some(w) => Selected::Target(pool[w].duplicate()),
        None => Selected::Fallback,
    }
}

/// Takes the latest snapshot of a running target as the selection.
pub fn refresh(current: Option<Selected>, fresh: &Vec<AllowanceInfo>) -> (now: Option<Selected>)
    ensures
        now == refreshed(current, fresh@),
{
    match current {
        Some(Selected::Target(info)) => match find_update(fresh, &info) {
            Some(i) => Some(Selected::Target(fresh[i].duplicate())),
            None => Some(Selected::Target(info)),
        },
        other => other,
    }
}

/// Decides what a cycle does, on the selection as `refresh` left it and on
/// the snapshots that count.
pub fn decide(current: &Option<Selected>, fresh: &Vec<AllowanceInfo>) -> (d: Decision)
    ensures
        d == decision(*current, fresh@),
{
    match current {
        None => Decision::Start(pick_newcomer(fresh)),
        Some(Selected::Fallback) => {
            let pool = candidate_pool(fresh, None);
            match choose_winner(&pool) {
                Some(w) => Decision::Replace(pool[w].duplicate()),
                None => Decision::Keep,
            }
        },
        Some(Selected::Target(info)) => {
            let update = find_update(fresh, info);
            if update.is_some() && !info.continue_mining() {
                Decision::StopThenStart(pick_newcomer(fresh))
            } else {
                let pool = candidate_pool(fresh, Some(info.difficulty()));
                match choose_winner(&pool) {
                    Some(w) => {
                        if beats(&pool[w], info) {
                            Decision::Replace(pool[w].duplicate())
                        } else {
                            Decision::Keep
                        }
                    },
                    None => Decision::Keep,
                }
            }
        },
    }
}

impl Scheduler {
    /// A coordinator with nothing selected and no worker. The fallback is
    /// made up from its configuration; its wallet must read as an address.
    pub fn new(fallback_config: Arc<IniParameters>, fallback_ini: Arc<MinerIni>) -> (r: Result<
        Scheduler,
        AddressError,
    >)
        ensures
            match crate::types::parsed_full(vstd::utf8::encode_utf8(fallback_ini.wallet@)) {
                Ok(address) => r matches Ok(s) && s@.current is None && !s@.held && s@.phase is Idle
                    && is_fallback(s@.fallback, fallback_config, fallback_ini, address),
                Err(e) => r == Err::<Scheduler, AddressError>(e),
            },
    {
        match QkcAddress::new_full(fallback_ini.wallet.as_str()) {
            Ok(address) => Ok(
                Scheduler {
                    fallback: AllowanceInfo {
                        config: fallback_config,
                        config_ini: fallback_ini,
                        address: Arc::new(address),
                        difficulty: 0,
                        used: 0,
                        allowances: 0,
                    },
                    current: None,
                    worker: WorkerController::new(),
                    phase: Phase::Idle,
                },
            ),
            Err(e) => Err(e),
        }
    }

    /// For whom the worker runs, if it does.
    pub fn current(&self) -> (current: Option<Selected>)
        ensures
            current == self@.current,
    {
        match &self.current {
            Some(whom) => Some(whom.duplicate()),
            None => None,
        }
    }

    /// The snapshot that stands for the fallback.
    pub fn fallback(&self) -> (info: AllowanceInfo)
        ensures
            info == self@.fallback,
    {
        self.fallback.duplicate()
    }

    /// Whether a worker process is held.
    pub fn holds_worker(&self) -> (held: bool)
        ensures
            held == self@.held,
    {
        self.worker.holds_worker()
    }

    /// What the coordinator waits for.
    pub fn phase(&self) -> (phase: Phase)
        ensures
            phase == self@.phase,
    {
        self.phase.duplicate()
    }

    fn request(&self) -> (action: Action)
        ensures
            action == pending(self@.fallback, self@.phase),
    {
        match &self.phase {
            Phase::Idle => Action::Wait,
            Phase::Stopping(_) => Action::Kill,
            Phase::Replacing(_) => Action::Kill,
            Phase::Starting(Selected::Target(info)) => Action::Spawn(share(&info.config)),
            Phase::Starting(Selected::Fallback) => Action::Spawn(share(&self.fallback.config)),
        }
    }

    /// Takes an event and answers with the next request.
    pub fn step(&mut self, event: Event) -> (out: Outcome)
        ensures
            (final(self)@, out) == next(old(self)@, event),
            consistent(old(self)@) ==> consistent(final(self)@),
            handles(final(self)@.held) <= 1,
            consistent(old(self)@) && old(self)@.phase is Idle && out.action is Spawn ==> !old(
                self,
            )@.held,
    {
        let phase = self.phase.duplicate();
        match (phase, event) {
            (Phase::Idle, Event::Woke(drained)) => {
                if drained.len() == 0 {
                    return Outcome { action: Action::Wait, error: None };
                }
                let fresh = latest_snapshots(&drained);
                let current = refresh(self.current.take(), &fresh);
                let decided = decide(&current, &fresh);
                self.current = current;
                self.phase = match decided {
                    Decision::Keep => Phase::Idle,
                    Decision::Start(whom) => Phase::Starting(whom),
                    Decision::Replace(info) => Phase::Replacing(Selected::Target(info)),
                    Decision::StopThenStart(whom) => Phase::Stopping(whom),
                };
                Outcome { action: self.request(), error: None }
            },
            (Phase::Stopping(whom), Event::Killed(ended)) => {
                match self.worker.stop(ended) {
                    Ok(_) => {
                        self.current = None;
                        self.phase = Phase::Starting(whom);
                        Outcome { action: self.request(), error: None }
                    },
                    Err(_) => {
                        self.phase = Phase::Idle;
                        Outcome { action: Action::Wait, error: Some(WorkerError::Termination) }
                    },
                }
            },
            (Phase::Replacing(whom), Event::Killed(ended)) => {
                let stop = self.worker.stop(ended);
                if !self.worker.holds_worker() {
                    self.current = None;
                }
                self.phase = Phase::Starting(whom);
                Outcome {
                    action: self.request(),
                    error: match stop {
                        Ok(_) => None,
                        Err(_) => Some(WorkerError::Termination),
                    },
                }
            },
            (Phase::Starting(whom), Event::Spawned(launched)) => {
                self.phase = Phase::Idle;
                match self.worker.start(launched) {
                    Ok(_) => {
                        self.current = Some(whom);
                        Outcome { action: Action::Wait, error: None }
                    },
                    Err(e) => Outcome { action: Action::Wait, error: Some(e) },
                }
            },
            _ => Outcome { action: self.request(), error: None },
        }
    }
}

} // verus!
