//! Per-tracee `execve` bookkeeping.
//!
//! A tracee's `execve` shows up as a syscall-stop at its entry, then, if it
//! succeeds, an exec event-stop, then a syscall-stop at its exit. The
//! argument vector is only valid at the entry, so that is where it is
//! reported; the exit, successful or not, ends the call.

use vstd::prelude::*;
use std::collections::HashMap;
use crate::ptrace::{Word, EXECVE};
use crate::trace::TraceEvent;

verus! {

broadcast use vstd::std_specs::hash::group_hash_axioms;

/// Where a tracee stands in an `execve`. A tracee that is in none has no
/// entry in the tracker.
#[derive(Debug, Clone, Copy, PartialEq, Eq, Structural)]
pub enum ExecPhase {
    /// Its `execve` entry was seen; the exit-stop has not come yet.
    AwaitingReturn,
    /// The exec event-stop came too: the call succeeded.
    SeenExecEvent,
}

/// The argv pointer to report for `event` of `pid`: the `rsi` of an
/// `execve` syscall-stop of a tracee that is in no `execve`, which makes
/// that stop the call's entry.
pub open spec fn exec_emission(m: Map<isize, ExecPhase>, pid: isize, event: TraceEvent) -> Option<Word> {
    match event {
        TraceEvent::SystemCall(no, _, argv, _, _, _, _) => if no == EXECVE && !m.contains_key(pid) {
            Some(argv)
        } else {
            None
        },
        _ => None,
    }
}

/// The tracker's state after `event` of `pid`. The second `execve`
/// syscall-stop is the exit, successful or not, and ends the call; the exec
/// event-stop comes in between when the call succeeds.
pub open spec fn exec_transition(m: Map<isize, ExecPhase>, pid: isize, event: TraceEvent) -> Map<isize, ExecPhase> {
    match event {
        TraceEvent::SystemCall(no, _, _, _, _, _, _) => if no != EXECVE {
            m
        } else if m.contains_key(pid) {
            m.remove(pid)
        } else {
            m.insert(pid, ExecPhase::AwaitingReturn)
        },
        TraceEvent::ExecEvent => if m.contains_key(pid) && m[pid] == ExecPhase::AwaitingReturn {
            m.insert(pid, ExecPhase::SeenExecEvent)
        } else {
            m
        },
        TraceEvent::Exited => m.remove(pid),
        TraceEvent::Other => m,
    }
}

/// Per-tracee `execve` bookkeeping: which tracees are inside an `execve`.
pub struct ExecTracker {
    phases: HashMap<isize, ExecPhase>,
}

impl View for ExecTracker {
    type V = Map<isize, ExecPhase>;

    closed spec fn view(&self) -> Map<isize, ExecPhase> {
        self.phases@
    }
}

impl ExecTracker {
    /// A tracker in which no tracee is inside an `execve`.
    pub fn new() -> (r: ExecTracker)
        ensures
            r@ == Map::<isize, ExecPhase>::empty(),
    {
        ExecTracker { phases: HashMap::new() }
    }

    /// Where `pid` stands; `None` when it is in no `execve`.
    pub fn phase(&self, pid: isize) -> (r: Option<ExecPhase>)
        ensures
            r == (if self@.contains_key(pid) {
                Some(self@[pid])
            } else {
                None
            }),
    {
        match self.phases.get(&pid) {
            Some(p) => Some(*p),
            None => None,
        }
    }

    /// Takes one event of `pid`. Returns the tracee address of the argument
    /// vector to read and report when the event is an `execve` entry.
    pub fn handle_event(&mut self, pid: isize, event: &TraceEvent) -> (r: Option<Word>)
        ensures
            r == exec_emission(old(self)@, pid, *event),
            final(self)@ == exec_transition(old(self)@, pid, *event),
    {
        match *event {
            TraceEvent::SystemCall(no, _, argv, _, _, _, _) => {
                if no != EXECVE {
                    None
                } else if self.phases.contains_key(&pid) {
                    self.phases.remove(&pid);
                    None
                } else {
                    self.phases.insert(pid, ExecPhase::AwaitingReturn);
                    Some(argv)
                }
            },
            TraceEvent::ExecEvent => {
                if self.phase(pid) == Some(ExecPhase::AwaitingReturn) {
                    self.phases.insert(pid, ExecPhase::SeenExecEvent);
                }
                None
            },
            TraceEvent::Exited => {
                self.phases.remove(&pid);
                None
            },
            TraceEvent::Other => None,
        }
    }
}


/// Where `pid` stands in the tracker state `m`.
pub open spec fn phase_of(m: Map<isize, ExecPhase>, pid: isize) -> Option<ExecPhase> {
    if m.contains_key(pid) {
        Some(m[pid])
    } else {
        None
    }
}

/// Whether `event` is a syscall-stop of `execve`.
pub open spec fn is_execve_stop(event: TraceEvent) -> bool {
    event matches TraceEvent::SystemCall(no, _, _, _, _, _, _) && no == EXECVE
}

/// The `rsi` register of a syscall-stop: the argv pointer of an `execve`.
pub open spec fn argv_register(event: TraceEvent) -> Word {
    match event {
        TraceEvent::SystemCall(_, _, argv, _, _, _, _) => argv,
        _ => 0,
    }
}

/// One tracee's own machine: what it reports on `event` in phase `ph`.
pub open spec fn tracee_emission(ph: Option<ExecPhase>, event: TraceEvent) -> Option<Word> {
    if is_execve_stop(event) && ph is None {
        Some(argv_register(event))
    } else {
        None
    }
}

/// One tracee's own machine: its phase after `event` in phase `ph`.
pub open spec fn tracee_step(ph: Option<ExecPhase>, event: TraceEvent) -> Option<ExecPhase> {
    match event {
        TraceEvent::SystemCall(no, _, _, _, _, _, _) => if no != EXECVE {
            ph
        } else if ph is Some {
            None
        } else {
            Some(ExecPhase::AwaitingReturn)
        },
        TraceEvent::ExecEvent => if ph == Some(ExecPhase::AwaitingReturn) {
            Some(ExecPhase::SeenExecEvent)
        } else {
            ph
        },
        TraceEvent::Exited => None,
        TraceEvent::Other => ph,
    }
}

/// The argv pointers one tracee reports over its own events `evs`,
/// starting in phase `ph`.
pub open spec fn tracee_reports(ph: Option<ExecPhase>, evs: Seq<TraceEvent>) -> Seq<Word>
    decreases evs.len(),
{
    if evs.len() == 0 {
        Seq::empty()
    } else {
        let e = evs[0];
        let head = match tracee_emission(ph, e) {
            Some(w) => seq![w],
            None => Seq::empty(),
        };
        head + tracee_reports(tracee_step(ph, e), evs.drop_first())
    }
}

/// One tracee's phase after its own events `evs`, starting in phase `ph`.
pub open spec fn tracee_after(ph: Option<ExecPhase>, evs: Seq<TraceEvent>) -> Option<ExecPhase>
    decreases evs.len(),
{
    if evs.len() == 0 {
        ph
    } else {
        tracee_after(tracee_step(ph, evs[0]), evs.drop_first())
    }
}

/// The tracker state after the stops `evs`, each a pid and its event.
pub open spec fn tracker_after(m: Map<isize, ExecPhase>, evs: Seq<(isize, TraceEvent)>) -> Map<isize, ExecPhase>
    decreases evs.len(),
{
    if evs.len() == 0 {
        m
    } else {
        tracker_after(exec_transition(m, evs[0].0, evs[0].1), evs.drop_first())
    }
}

/// The reports the tracker makes over the stops `evs`: each the pid of the
/// stop and the argv pointer to read.
pub open spec fn tracker_reports(m: Map<isize, ExecPhase>, evs: Seq<(isize, TraceEvent)>) -> Seq<(isize, Word)>
    decreases evs.len(),
{
    if evs.len() == 0 {
        Seq::empty()
    } else {
        let (pid, e) = evs[0];
        let head = match exec_emission(m, pid, e) {
            Some(w) => seq![(pid, w)],
            None => Seq::empty(),
        };
        head + tracker_reports(exec_transition(m, pid, e), evs.drop_first())
    }
}

/// The events of `pid` among the stops `evs`, in order.
pub open spec fn events_of(evs: Seq<(isize, TraceEvent)>, pid: isize) -> Seq<TraceEvent>
    decreases evs.len(),
{
    if evs.len() == 0 {
        Seq::empty()
    } else {
        let head = if evs[0].0 == pid {
            seq![evs[0].1]
        } else {
            Seq::empty()
        };
        head + events_of(evs.drop_first(), pid)
    }
}

/// The argv pointers among `reports` that are attributed to `pid`.
pub open spec fn reports_of(reports: Seq<(isize, Word)>, pid: isize) -> Seq<Word>
    decreases reports.len(),
{
    if reports.len() == 0 {
        Seq::empty()
    } else {
        let head = if reports[0].0 == pid {
            seq![reports[0].1]
        } else {
            Seq::empty()
        };
        head + reports_of(reports.drop_first(), pid)
    }
}

/// The tracker runs one machine per tracee: on an event of `pid` it reports
/// and moves as `pid`'s own machine does, and every other tracee keeps its
/// phase.
pub proof fn lemma_step_is_per_tracee(m: Map<isize, ExecPhase>, pid: isize, event: TraceEvent, other: isize)
    requires
        other != pid,
    ensures
        exec_emission(m, pid, event) == tracee_emission(phase_of(m, pid), event),
        phase_of(exec_transition(m, pid, event), pid) == tracee_step(phase_of(m, pid), event),
        phase_of(exec_transition(m, pid, event), other) == phase_of(m, other),
{
}

proof fn lemma_reports_of_concat(a: Seq<(isize, Word)>, b: Seq<(isize, Word)>, pid: isize)
    ensures
        reports_of(a + b, pid) == reports_of(a, pid) + reports_of(b, pid),
    decreases a.len(),
{
    if a.len() == 0 {
        assert(a + b =~= b);
    } else {
        assert((a + b).drop_first() =~= a.drop_first() + b);
        lemma_reports_of_concat(a.drop_first(), b, pid);
    }
}

/// Multi-process coverage: in any interleaving of stops of many tracees,
/// what is reported for a tracee is exactly what its own machine reports
/// over its own events, each report carrying that tracee's pid; and so is
/// where it ends up.
pub proof fn lemma_reports_attributed_per_tracee(
    m: Map<isize, ExecPhase>,
    evs: Seq<(isize, TraceEvent)>,
    pid: isize,
)
    ensures
        reports_of(tracker_reports(m, evs), pid) == tracee_reports(phase_of(m, pid), events_of(evs, pid)),
        phase_of(tracker_after(m, evs), pid) == tracee_after(phase_of(m, pid), events_of(evs, pid)),
    decreases evs.len(),
{
    if evs.len() > 0 {
        let (q, e) = evs[0];
        let m1 = exec_transition(m, q, e);
        let rest = evs.drop_first();
        lemma_reports_attributed_per_tracee(m1, rest, pid);
        let head = match exec_emission(m, q, e) {
            Some(w) => seq![(q, w)],
            None => Seq::empty(),
        };
        lemma_reports_of_concat(head, tracker_reports(m1, rest), pid);
        if q == pid {
            let mine = seq![e] + events_of(rest, pid);
            assert(mine.drop_first() =~= events_of(rest, pid));
            assert(mine[0] == e);
            match exec_emission(m, q, e) {
                Some(w) => {
                    assert(reports_of(head, pid) =~= seq![w] + reports_of(head.drop_first(), pid));
                    assert(head.drop_first() =~= Seq::<(isize, Word)>::empty());
                },
                None => {},
            }
        } else {
            lemma_step_is_per_tracee(m, q, e, pid);
            assert(events_of(evs, pid) =~= events_of(rest, pid));
            match exec_emission(m, q, e) {
                Some(w) => {
                    assert(head.drop_first() =~= Seq::<(isize, Word)>::empty());
                    assert(head[0].0 == q);
                    assert(reports_of(head.drop_first(), pid) == Seq::<Word>::empty());
                    assert(reports_of(head, pid) =~= Seq::<Word>::empty());
                },
                None => {},
            }
        }
    }
}


/// No event of `evs` is an `execve` syscall-stop.
pub open spec fn free_of_execve(evs: Seq<TraceEvent>) -> bool {
    forall|i: int| 0 <= i < evs.len() ==> !is_execve_stop(#[trigger] evs[i])
}

/// No event of `evs` is an `execve` syscall-stop or an exit.
pub open spec fn inside_execve(evs: Seq<TraceEvent>) -> bool {
    &&& free_of_execve(evs)
    &&& forall|i: int| 0 <= i < evs.len() ==> #[trigger] evs[i] != TraceEvent::Exited
}

proof fn lemma_tracee_concat(ph: Option<ExecPhase>, a: Seq<TraceEvent>, b: Seq<TraceEvent>)
    ensures
        tracee_reports(ph, a + b) == tracee_reports(ph, a) + tracee_reports(tracee_after(ph, a), b),
        tracee_after(ph, a + b) == tracee_after(tracee_after(ph, a), b),
    decreases a.len(),
{
    if a.len() == 0 {
        assert(a + b =~= b);
        assert(tracee_reports(ph, a) + tracee_reports(ph, b) =~= tracee_reports(ph, b));
    } else {
        assert((a + b).drop_first() =~= a.drop_first() + b);
        assert((a + b)[0] == a[0]);
        lemma_tracee_concat(tracee_step(ph, a[0]), a.drop_first(), b);
        let head = match tracee_emission(ph, a[0]) {
            Some(w) => seq![w],
            None => Seq::<Word>::empty(),
        };
        assert(head + (tracee_reports(tracee_step(ph, a[0]), a.drop_first()) + tracee_reports(
            tracee_after(ph, a),
            b,
        )) =~= (head + tracee_reports(tracee_step(ph, a[0]), a.drop_first())) + tracee_reports(
            tracee_after(ph, a),
            b,
        ));
    }
}

proof fn lemma_idle_without_execve(evs: Seq<TraceEvent>)
    requires
        free_of_execve(evs),
    ensures
        tracee_reports(None, evs) == Seq::<Word>::empty(),
        tracee_after(None, evs) is None,
    decreases evs.len(),
{
    if evs.len() > 0 {
        assert(!is_execve_stop(evs[0]));
        assert(tracee_step(None, evs[0]) is None);
        assert(free_of_execve(evs.drop_first())) by {
            assert forall|i: int| 0 <= i < evs.drop_first().len() implies !is_execve_stop(
                #[trigger] evs.drop_first()[i],
            ) by {
                assert(evs.drop_first()[i] == evs[i + 1]);
            }
        }
        lemma_idle_without_execve(evs.drop_first());
        assert(tracee_reports(None, evs) =~= Seq::<Word>::empty());
    }
}

proof fn lemma_inside_stays_inside(ph: ExecPhase, evs: Seq<TraceEvent>)
    requires
        inside_execve(evs),
    ensures
        tracee_reports(Some(ph), evs) == Seq::<Word>::empty(),
        tracee_after(Some(ph), evs) is Some,
    decreases evs.len(),
{
    if evs.len() > 0 {
        assert(!is_execve_stop(evs[0]));
        assert(evs[0] != TraceEvent::Exited);
        let next = tracee_step(Some(ph), evs[0]);
        assert(next is Some);
        assert(inside_execve(evs.drop_first())) by {
            assert forall|i: int| 0 <= i < evs.drop_first().len() implies !is_execve_stop(
                #[trigger] evs.drop_first()[i],
            ) && evs.drop_first()[i] != TraceEvent::Exited by {
                assert(evs.drop_first()[i] == evs[i + 1]);
            }
        }
        lemma_inside_stays_inside(next.unwrap(), evs.drop_first());
        assert(tracee_reports(Some(ph), evs) =~= Seq::<Word>::empty());
    }
}

/// Single report per `execve`, whatever the other tracees do: take a tracee
/// in no `execve` whose own stops among `evs` are some stops without an
/// `execve` (`before`), then one `execve` call: its entry, any stops that are
/// neither an `execve` syscall-stop nor an exit (the exec event-stop of a
/// successful call, signal stops; `middle`), and its exit. The tracker
/// reports exactly one argument vector for the tracee, the one the entry's
/// `rsi` pointed to, and the tracee ends in no `execve`. A failed call is
/// the same without the exec event-stop.
pub proof fn lemma_one_report_per_exec(
    m: Map<isize, ExecPhase>,
    evs: Seq<(isize, TraceEvent)>,
    pid: isize,
    before: Seq<TraceEvent>,
    entry: TraceEvent,
    middle: Seq<TraceEvent>,
    exit: TraceEvent,
)
    requires
        !m.contains_key(pid),
        free_of_execve(before),
        is_execve_stop(entry),
        inside_execve(middle),
        is_execve_stop(exit),
        events_of(evs, pid) == before + seq![entry] + middle + seq![exit],
    ensures
        reports_of(tracker_reports(m, evs), pid) == seq![argv_register(entry)],
        !tracker_after(m, evs).contains_key(pid),
{
    lemma_reports_attributed_per_tracee(m, evs, pid);
    let empty = Seq::<Word>::empty();
    let tail = middle + seq![exit];
    let call = seq![entry] + tail;
    assert(events_of(evs, pid) =~= before + call);
    lemma_tracee_concat(None, before, call);
    lemma_idle_without_execve(before);

    // the entry reports and opens the call
    assert(call[0] == entry);
    assert(call.drop_first() =~= tail);
    let open = tracee_step(None, entry);
    assert(open == Some(ExecPhase::AwaitingReturn));
    assert(tracee_emission(None, entry) == Some(argv_register(entry)));

    // the stops inside report nothing and keep it open; the exit closes it
    lemma_tracee_concat(open, middle, seq![exit]);
    lemma_inside_stays_inside(ExecPhase::AwaitingReturn, middle);
    let inside = tracee_after(open, middle);
    let last = seq![exit];
    assert(last[0] == exit);
    assert(last.drop_first() =~= Seq::<TraceEvent>::empty());
    assert(tracee_emission(inside, exit) is None);
    assert(tracee_step(inside, exit) is None);
    assert(tracee_reports(None, Seq::<TraceEvent>::empty()) == empty);
    assert(tracee_reports(inside, last) =~= empty);
    assert(tracee_after(None, last.drop_first()) is None);
    assert(tracee_after(inside, last) is None);
    assert(tracee_reports(open, tail) =~= empty);
    assert(tracee_reports(None, call) =~= seq![argv_register(entry)]);
    assert(empty + seq![argv_register(entry)] =~= seq![argv_register(entry)]);
}

} // verus!
