//! The dispatch loop as a state machine.
//!
//! The caller arms the watches, waits for events, runs the command and sets
//! up fired watches again. The [`Watcher`] decides: which events count, when
//! a run is due, and when the program ends. It is idle while the caller
//! waits for events, and dispatching while the command runs.

use crate::command::{RunResult, RunResultView};
use crate::config::Config;
use crate::registry::{handles_of, one_handle_per_path, with_watch, WatchRegistry};
use vstd::prelude::*;

verus! {

/// One event of a watch, as the event source delivers it.
#[derive(Debug, Clone, Copy, PartialEq, Eq)]
pub struct Event {
    /// The handle of the watch that fired.
    pub handle: i32,
    /// The watched file was written to.
    pub modified: bool,
    /// The watched file was itself moved.
    pub moved: bool,
}

impl Event {
    /// Whether the event tells of a change that asks for a run.
    pub open spec fn qualifies(self) -> bool {
        self.modified || self.moved
    }
}

/// What the caller is to do next.
#[derive(Debug, PartialEq, Eq)]
pub enum Reaction {
    /// Nothing.
    Ignore,
    /// Run the command, for a change of this path, and report how it ended.
    Run(String),
    /// Set up the watch of this path again.
    Rearm(String),
    /// End the program with this exit code.
    Exit(i32),
}

/// A reaction in mathematical form.
pub enum ReactionView {
    Ignore,
    Run(Seq<char>),
    Rearm(Seq<char>),
    Exit(i32),
}

impl View for Reaction {
    type V = ReactionView;

    open spec fn view(&self) -> ReactionView {
        match self {
            Reaction::Ignore => ReactionView::Ignore,
            Reaction::Run(path) => ReactionView::Run(path@),
            Reaction::Rearm(path) => ReactionView::Rearm(path@),
            Reaction::Exit(code) => ReactionView::Exit(*code),
        }
    }
}

/// Where the loop stands.
pub enum Phase {
    /// Waiting for events.
    Idle,
    /// The command runs, for a change of this path.
    Dispatching(Seq<char>),
    /// The program is to end with this exit code.
    Terminated(i32),
}

/// The state of the dispatch loop in mathematical form.
pub struct WatcherView {
    /// The armed watches.
    pub armed: Map<i32, Seq<char>>,
    /// Seconds that must pass after a run before the next one.
    pub threshold: u64,
    /// Whether the program ends after the first run.
    pub once: bool,
    /// When the last run ended, in milliseconds; `None` before the first.
    pub last_run: Option<u64>,
    pub phase: Phase,
}

impl WatcherView {
    /// No path is armed under two handles at once.
    pub open spec fn wf(self) -> bool {
        one_handle_per_path(self.armed)
    }

    /// Milliseconds that have passed at `now` since the last run ended; none
    /// where the clock seems to have gone back.
    pub open spec fn elapsed(self, now: u64) -> int {
        match self.last_run {
            Some(last) if now >= last => now - last,
            _ => 0,
        }
    }

    /// Whether a run may start at `now`: always before the first run, and
    /// afterwards once the threshold has passed since the last run ended.
    pub open spec fn permits(self, now: u64) -> bool {
        self.last_run is None || self.elapsed(now) >= self.threshold * 1000
    }

    /// The state after the event `event`, seen at `now`, and the reaction to
    /// it. An event of a handle that is not armed changes nothing, and
    /// neither does any event while the loop is not idle. Else the handle
    /// is used up, and the path is either run for and watched again
    /// afterwards, or watched again at once.
    pub open spec fn on_event(self, event: Event, now: u64) -> (WatcherView, ReactionView) {
        if self.phase is Idle && self.armed.contains_key(event.handle) {
            let path = self.armed[event.handle];
            let armed = self.armed.remove(event.handle);
            if event.qualifies() && self.permits(now) {
                (
                    WatcherView { armed, phase: Phase::Dispatching(path), ..self },
                    ReactionView::Run(path),
                )
            } else {
                (WatcherView { armed, ..self }, ReactionView::Rearm(path))
            }
        } else {
            (self, ReactionView::Ignore)
        }
    }

    /// The state after the run that was asked for has ended at `now` with
    /// `result`, and the reaction to it: the end of the program where it is
    /// to run once, else the watch of the path that changed. Only a run ends
    /// the program: a change that the threshold holds back does not count. A
    /// result that no run was asked for changes nothing.
    pub open spec fn on_finished(self, result: RunResultView, now: u64) -> (
        WatcherView,
        ReactionView,
    ) {
        match self.phase {
            Phase::Dispatching(path) => if self.once {
                (
                    WatcherView {
                        last_run: Some(now),
                        phase: Phase::Terminated(result.exit_code()),
                        ..self
                    },
                    ReactionView::Exit(result.exit_code()),
                )
            } else {
                (
                    WatcherView { last_run: Some(now), phase: Phase::Idle, ..self },
                    ReactionView::Rearm(path),
                )
            },
            _ => (self, ReactionView::Ignore),
        }
    }

    /// The state after `path` has been armed under `handle`: the path has
    /// this handle and no other.
    pub open spec fn on_armed(self, handle: i32, path: Seq<char>) -> WatcherView {
        WatcherView { armed: with_watch(self.armed, handle, path), ..self }
    }
}

/// Where the loop stands, with the path as a string.
enum Stage {
    Idle,
    Dispatching(String),
    Terminated(i32),
}

/// The state of the dispatch loop.
pub struct Watcher {
    registry: WatchRegistry,
    threshold: u64,
    once: bool,
    last_run: Option<u64>,
    stage: Stage,
}

impl View for Watcher {
    type V = WatcherView;

    closed spec fn view(&self) -> WatcherView {
        WatcherView {
            armed: self.registry@,
            threshold: self.threshold,
            once: self.once,
            last_run: self.last_run,
            phase: match self.stage {
                Stage::Idle => Phase::Idle,
                Stage::Dispatching(path) => Phase::Dispatching(path@),
                Stage::Terminated(code) => Phase::Terminated(code),
            },
        }
    }
}

impl Watcher {
    /// The loop before the first watch is armed: idle, with no run behind it.
    pub fn new(config: &Config) -> (r: Watcher)
        ensures
            r@ == (WatcherView {
                armed: Map::empty(),
                threshold: config@.threshold,
                once: config@.command.once,
                last_run: None,
                phase: Phase::Idle,
            }),
            r@.wf(),
    {
        Watcher {
            registry: WatchRegistry::new(),
            threshold: config.threshold(),
            once: config.command().once(),
            last_run: None,
            stage: Stage::Idle,
        }
    }

    /// Records that the caller has armed `file` under `handle`.
    pub fn add_watch(&mut self, handle: i32, file: String)
        ensures
            final(self)@ == old(self)@.on_armed(handle, file@),
    {
        self.registry.arm(handle, file);
    }

    /// Whether a run may start at `now`.
    pub fn permits(&self, now: u64) -> (r: bool)
        ensures
            r == self@.permits(now),
    {
        match self.last_run {
            None => true,
            Some(last) => {
                let elapsed: u64 = if now >= last {
                    now - last
                } else {
                    0
                };
                elapsed / 1000 >= self.threshold
            },
        }
    }

    /// Takes one event, seen at `now`, and says what to do about it.
    pub fn dispatch(&mut self, event: Event, now: u64) -> (r: Reaction)
        ensures
            (final(self)@, r@) == old(self)@.on_event(event, now),
    {
        match self.stage {
            Stage::Idle => {},
            _ => {
                return Reaction::Ignore;
            },
        }
        let file: String = match self.registry.disarm(event.handle) {
            Some(file) => file,
            None => {
                assert(self@.armed =~= old(self)@.armed);
                return Reaction::Ignore;
            },
        };
        if (event.modified || event.moved) && self.permits(now) {
            self.stage = Stage::Dispatching(file.clone());
            Reaction::Run(file)
        } else {
            Reaction::Rearm(file)
        }
    }

    /// Takes the end of the run that `dispatch` asked for, seen at `now`,
    /// and says what to do next.
    pub fn run_command(&mut self, result: &RunResult, now: u64) -> (r: Reaction)
        ensures
            (final(self)@, r@) == old(self)@.on_finished(result@, now),
    {
        let file: String = match &self.stage {
            Stage::Dispatching(file) => file.clone(),
            _ => {
                return Reaction::Ignore;
            },
        };
        self.last_run = Some(now);
        if self.once {
            let code: i32 = result.exit_code();
            self.stage = Stage::Terminated(code);
            Reaction::Exit(code)
        } else {
            self.stage = Stage::Idle;
            Reaction::Rearm(file)
        }
    }

    /// The number of armed watches.
    pub fn watching(&self) -> (r: usize)
        ensures
            r == self@.armed.dom().len(),
    {
        self.registry.len()
    }
}

/// When a run may start: at any time before the first run and at any time
/// where the threshold is zero; else, on a clock that does not go back, as
/// soon as the threshold has passed since the last run ended.
pub proof fn law_debounce_window(s: WatcherView, now: u64)
    ensures
        s.last_run is None ==> s.permits(now),
        s.threshold == 0 ==> s.permits(now),
        s.last_run matches Some(last) ==> (s.permits(now) <==> (if now >= last {
            now - last >= s.threshold * 1000
        } else {
            s.threshold == 0
        })),
{
}

/// Debouncing: of two changes of two different watched paths, the second
/// seen less than the threshold after the first, only the first is run for;
/// the second path is still watched again. The first change is taken to
/// arrive while a run may start, and its run to end before the second is
/// looked at; `fresh` is the handle under which the first path is armed
/// again in between.
pub proof fn law_debounce_runs_once(
    s: WatcherView,
    first: Event,
    second: Event,
    t1: u64,
    done: u64,
    t2: u64,
    result: RunResultView,
    fresh: i32,
)
    requires
        s.phase is Idle,
        s.threshold > 0,
        s.permits(t1),
        first.qualifies(),
        second.qualifies(),
        s.armed.contains_key(first.handle),
        s.armed.contains_key(second.handle),
        s.armed[first.handle] != s.armed[second.handle],
        t1 <= done <= t2,
        t2 - t1 < s.threshold * 1000,
        fresh != second.handle,
    ensures
        ({
            let (s1, r1) = s.on_event(first, t1);
            let (s2, r2) = s1.on_finished(result, done);
            let s3 = if s.once {
                s2
            } else {
                s2.on_armed(fresh, s.armed[first.handle])
            };
            let (s4, r4) = s3.on_event(second, t2);
            &&& r1 == ReactionView::Run(s.armed[first.handle])
            &&& !(r2 is Run)
            &&& !(r4 is Run)
            &&& !s.once ==> r4 == ReactionView::Rearm(s.armed[second.handle])
        }),
{
}

/// Every event of an armed watch, whether it leads to a run or not, uses up
/// the handle at once and is answered by exactly one request to watch the
/// path again before the loop is idle once more: at once where no run is
/// due, after the run where one is. The one exception is the run after
/// which the program ends.
pub proof fn law_rearmed_once(
    s: WatcherView,
    event: Event,
    now: u64,
    result: RunResultView,
    done: u64,
)
    requires
        s.phase is Idle,
        s.armed.contains_key(event.handle),
        !(s.once && event.qualifies() && s.permits(now)),
    ensures
        ({
            let path = s.armed[event.handle];
            let (s1, r1) = s.on_event(event, now);
            let (s2, r2) = s1.on_finished(result, done);
            &&& s1.armed == s.armed.remove(event.handle)
            &&& s2.armed == s1.armed
            &&& s2.phase is Idle
            &&& if event.qualifies() && s.permits(now) {
                r1 == ReactionView::Run(path) && r2 == ReactionView::Rearm(path)
            } else {
                r1 == ReactionView::Rearm(path) && r2 == ReactionView::Ignore
            }
        }),
{
}

/// Where the program is to run the command once, the end of the first run
/// ends the program with the exit code of that run, and with 1 where the run
/// left none. After that no event and no further result is acted upon.
pub proof fn law_once_ends_program(
    s: WatcherView,
    result: RunResultView,
    done: u64,
    later: Event,
    t: u64,
    other: RunResultView,
)
    requires
        s.phase is Dispatching,
        s.once,
    ensures
        ({
            let (s1, r1) = s.on_finished(result, done);
            &&& r1 == ReactionView::Exit(result.exit_code())
            &&& s1.phase == Phase::Terminated(result.exit_code())
            &&& result matches RunResultView::Exited(code) ==> r1 == ReactionView::Exit(code)
            &&& !(result is Exited) ==> r1 == ReactionView::Exit(1)
            &&& s1.on_event(later, t) == (s1, ReactionView::Ignore)
            &&& s1.on_finished(other, t) == (s1, ReactionView::Ignore)
        }),
{
}

/// An event of a handle that was used up already is ignored: it changes
/// nothing and asks for no run.
pub proof fn law_stale_event_ignored(s: WatcherView, event: Event, t1: u64, again: Event, t2: u64)
    requires
        again.handle == event.handle,
    ensures
        ({
            let (s1, r1) = s.on_event(event, t1);
            s1.on_event(again, t2) == (s1, ReactionView::Ignore)
        }),
{
}

/// No path is ever armed under two handles at once: whatever happens to the
/// loop keeps it so, and a path that is armed has the handle it was armed
/// under and no other.
pub proof fn law_one_handle_per_path(
    s: WatcherView,
    event: Event,
    now: u64,
    result: RunResultView,
    handle: i32,
    path: Seq<char>,
)
    requires
        s.wf(),
    ensures
        s.on_event(event, now).0.wf(),
        s.on_finished(result, now).0.wf(),
        s.on_armed(handle, path).wf(),
        handles_of(s.on_armed(handle, path).armed, path) == set![handle],
{
    crate::registry::law_arm_keeps_one_handle(s.armed, handle, path);
}

/// The path of a watch that fired is armed under no handle until it is
/// armed again; armed again under a handle that is not in use, it is armed
/// under that handle alone, and no other watch is touched.
pub proof fn law_rearmed_under_one_handle(s: WatcherView, event: Event, now: u64, fresh: i32)
    requires
        s.wf(),
        s.phase is Idle,
        s.armed.contains_key(event.handle),
        !s.armed.remove(event.handle).contains_key(fresh),
    ensures
        ({
            let path = s.armed[event.handle];
            let (s1, r1) = s.on_event(event, now);
            let s2 = s1.on_armed(fresh, path);
            &&& handles_of(s1.armed, path) == Set::<i32>::empty()
            &&& handles_of(s2.armed, path) == set![fresh]
            &&& s2.armed == s.armed.remove(event.handle).insert(fresh, path)
        }),
{
    crate::registry::law_rearm_once(s.armed, event.handle, fresh);
}

} // verus!
