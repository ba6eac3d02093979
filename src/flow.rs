//! The thread-flow reconstructor: pairs entries with exits per thread,
//! frames signal delivery, hands clone entries to child threads and flushes
//! threads that exit.

use vstd::prelude::*;
use crate::event::{TraceEvent, TraceFlow, TraceHead, EventView, FlowView, SigStage, IN, OUT, le64};
use crate::sysno::{SYS_CLONE, SYS_RT_SIGRETURN, SYS_EXIT_GROUP, SYS_RT_SIGACTION, SYS_EXECVE};

verus! {

/// A structural fault in the event stream.
#[derive(Clone, Copy, Debug, PartialEq, Eq, Structural)]
pub enum FlowError {
    /// `inout` is neither `IN` nor `OUT`
    BadDirection,
    /// a new thread starts with something other than an entry or a clone exit
    UnexpectedFirstEvent,
    /// a new thread starts with a clone exit but no clone entry is pending
    NoCloneRequest,
    /// `rt_sigreturn` with no signal frame to resume
    EmptySignalStack,
    /// an exit with no event before it in its thread
    NoPendingEntry,
    /// an exit whose syscall number differs from the pending entry's
    SyscallMismatch,
    /// a signal frame entered from `execve`
    SignalInExecve,
}

pub ghost struct ReconView {
    pub flows: Seq<(u64, FlowView)>,
    pub task_seq: Seq<u64>,
    pub vfork_req: Seq<EventView>,
    pub sighand: Seq<u64>,
}

/// What one event caused besides the change of state.
pub struct StepOutcome {
    /// syscall number of an entry that got no exit before the next entry
    pub killed: Option<u64>,
    /// a thread that ended with `exit_group`, and its events
    pub flushed: Option<(u64, Vec<TraceEvent>)>,
}

pub ghost struct StepView {
    pub killed: Option<u64>,
    pub flushed: Option<(u64, Seq<EventView>)>,
}

impl View for StepOutcome {
    type V = StepView;

    open spec fn view(&self) -> StepView {
        StepView {
            killed: self.killed,
            flushed: match self.flushed {
                Some(p) => Some((p.0, p.1@.map_values(|e: TraceEvent| e@))),
                None => None,
            },
        }
    }
}

/// Index of the first flow of `tid` at or after `i`, or -1.
pub open spec fn find_from(flows: Seq<(u64, FlowView)>, tid: u64, i: int) -> int
    decreases flows.len() - i,
{
    if i < 0 || i >= flows.len() {
        -1
    } else if flows[i].0 == tid {
        i
    } else {
        find_from(flows, tid, i + 1)
    }
}

proof fn lemma_find_from(flows: Seq<(u64, FlowView)>, tid: u64, i: int)
    requires
        0 <= i,
    ensures
        -1 <= find_from(flows, tid, i) < flows.len(),
        find_from(flows, tid, i) >= 0 ==> flows[find_from(flows, tid, i)].0 == tid,
    decreases flows.len() - i,
{
    if i < flows.len() && flows[i].0 != tid {
        lemma_find_from(flows, tid, i + 1);
    }
}

pub open spec fn find_flow(flows: Seq<(u64, FlowView)>, tid: u64) -> int {
    find_from(flows, tid, 0)
}

/// The handler address recorded by an `rt_sigaction` exit: the first machine
/// word of its first payload.
pub open spec fn sigaction_handler(e: EventView) -> Option<u64> {
    if e.payloads.len() > 0 && e.payloads[0].data.len() >= 24 {
        Some(le64(e.payloads[0].data, 0) as u64)
    } else {
        None
    }
}

/// The head of a synthesized signal-entry event.
pub open spec fn signal_head(signo: u64) -> TraceHead {
    TraceHead {
        magic: 0, headsize: 0, totalsize: 0, inout: OUT, cause: 0, epc: 0,
        ax: [signo, 0, 0, 0, 0, 0, 0, 0],
        usp: 0, stack: [0, 0, 0, 0, 0, 0, 0, 0],
        orig_a0: 0, satp: 0, tp: 0, sscratch: 0,
    }
}

/// The event that marks entry into the handler of `signo`.
pub open spec fn signal_enter_event(signo: u64) -> EventView {
    EventView {
        head: signal_head(signo),
        result: 0,
        payloads: Seq::empty(),
        signal: SigStage::Enter(signo),
        raw_fmt: false,
        level: 0,
    }
}

/// The pending entry `entry` completed by `exit`.
pub open spec fn completed(entry: EventView, exit: EventView) -> EventView {
    EventView {
        head: TraceHead { inout: OUT, ..entry.head },
        result: exit.head.ax[0] as i64,
        payloads: entry.payloads + exit.payloads,
        ..entry
    }
}

pub open spec fn empty_flow() -> FlowView {
    FlowView { events: Seq::empty(), signal_stack: Seq::empty() }
}

/// Stores `f` as the flow of `tid`: in place at `i`, or appended when `i < 0`.
pub open spec fn store_flow(flows: Seq<(u64, FlowView)>, i: int, tid: u64, f: FlowView) -> Seq<(u64, FlowView)> {
    if i >= 0 { flows.update(i, (tid, f)) } else { flows.push((tid, f)) }
}

/// Removes the flow at `i`, if any.
pub open spec fn drop_flow(flows: Seq<(u64, FlowView)>, i: int) -> Seq<(u64, FlowView)> {
    if i >= 0 { flows.remove(i) } else { flows }
}

/// Effect of an entry on the flow `f` of `tid`, stored at `i` (-1: not yet stored).
pub open spec fn apply_entry(s: ReconView, tid: u64, f: FlowView, i: int, e: EventView) -> Result<(ReconView, StepView), FlowError> {
    let killed = if f.events.len() > 0 && f.events.last().head.inout != OUT {
        Some(f.events.last().head.ax[7])
    } else {
        None
    };
    let sysno = e.head.ax[7];
    if sysno == SYS_CLONE {
        let f2 = FlowView { events: f.events.push(e), ..f };
        Ok((ReconView { flows: store_flow(s.flows, i, tid, f2), vfork_req: s.vfork_req.push(e), ..s },
            StepView { killed, flushed: None }))
    } else if sysno == SYS_RT_SIGRETURN {
        if f.signal_stack.len() == 0 {
            Err(FlowError::EmptySignalStack)
        } else {
            let f2 = FlowView {
                events: f.events.push(f.signal_stack.last()),
                signal_stack: f.signal_stack.drop_last(),
            };
            Ok((ReconView { flows: store_flow(s.flows, i, tid, f2), ..s }, StepView { killed, flushed: None }))
        }
    } else if sysno == SYS_EXIT_GROUP {
        Ok((ReconView { flows: drop_flow(s.flows, i), ..s },
            StepView { killed, flushed: Some((tid, f.events.push(e))) }))
    } else {
        let f2 = FlowView { events: f.events.push(e), ..f };
        Ok((ReconView { flows: store_flow(s.flows, i, tid, f2), ..s }, StepView { killed, flushed: None }))
    }
}

/// Effect of an exit on the flow `f` of `tid`, stored at `i` (-1: not yet stored).
pub open spec fn apply_exit(s: ReconView, tid: u64, f: FlowView, i: int, e: EventView) -> Result<(ReconView, StepView), FlowError> {
    if f.events.len() == 0 {
        Err(FlowError::NoPendingEntry)
    } else if f.events.last().head.ax[7] != e.head.ax[7] {
        Err(FlowError::SyscallMismatch)
    } else {
        let sighand = if e.head.ax[7] == SYS_RT_SIGACTION && sigaction_handler(e) is Some {
            s.sighand.push(sigaction_handler(e)->Some_0)
        } else {
            s.sighand
        };
        let last = f.events.last();
        let signo = e.head.ax[0];
        if sighand.contains(e.head.epc) {
            if e.head.ax[7] == SYS_EXECVE {
                Err(FlowError::SignalInExecve)
            } else {
                let f2 = FlowView {
                    events: f.events.drop_last().push(signal_enter_event(signo)),
                    signal_stack: f.signal_stack.push(EventView { signal: SigStage::Exit(signo), ..last }),
                };
                Ok((ReconView { flows: store_flow(s.flows, i, tid, f2), sighand, ..s },
                    StepView { killed: None, flushed: None }))
            }
        } else {
            let f2 = FlowView { events: f.events.drop_last().push(completed(last, e)), ..f };
            Ok((ReconView { flows: store_flow(s.flows, i, tid, f2), sighand, ..s },
                StepView { killed: None, flushed: None }))
        }
    }
}

/// The reconstructor's response to one decoded event, in stream order.
pub open spec fn step_spec(s: ReconView, e: EventView) -> Result<(ReconView, StepView), FlowError> {
    let tid = e.head.sscratch;
    let i = find_flow(s.flows, tid);
    if e.head.inout != IN && e.head.inout != OUT {
        Err(FlowError::BadDirection)
    } else if i < 0 && !(e.head.inout == IN || e.head.ax[7] == SYS_CLONE) {
        Err(FlowError::UnexpectedFirstEvent)
    } else if i < 0 && e.head.inout == OUT && s.vfork_req.len() == 0 {
        Err(FlowError::NoCloneRequest)
    } else {
        let s1 = if i < 0 {
            ReconView {
                task_seq: s.task_seq.push(tid),
                vfork_req: if e.head.inout == OUT { s.vfork_req.drop_last() } else { s.vfork_req },
                ..s
            }
        } else {
            s
        };
        let f = if i >= 0 {
            s.flows[i].1
        } else if e.head.inout == OUT {
            FlowView { events: seq![s.vfork_req.last()], signal_stack: Seq::empty() }
        } else {
            empty_flow()
        };
        if e.head.inout == IN {
            apply_entry(s1, tid, f, i, e)
        } else {
            apply_exit(s1, tid, f, i, e)
        }
    }
}

/// Reconstructs per-thread flows from the decoded events of one stream.
pub struct Reconstructor {
    flows: Vec<(u64, TraceFlow)>,
    task_seq: Vec<u64>,
    vfork_req: Vec<TraceEvent>,
    sighand_set: Vec<u64>,
}

pub open spec fn flows_view(v: Seq<(u64, TraceFlow)>) -> Seq<(u64, FlowView)> {
    v.map_values(|p: (u64, TraceFlow)| (p.0, p.1@))
}

pub open spec fn events_view(v: Seq<TraceEvent>) -> Seq<EventView> {
    v.map_values(|e: TraceEvent| e@)
}

impl View for Reconstructor {
    type V = ReconView;

    closed spec fn view(&self) -> ReconView {
        ReconView {
            flows: flows_view(self.flows@),
            task_seq: self.task_seq@,
            vfork_req: events_view(self.vfork_req@),
            sighand: self.sighand_set@,
        }
    }
}

pub open spec fn initial_view() -> ReconView {
    ReconView { flows: Seq::empty(), task_seq: Seq::empty(), vfork_req: Seq::empty(), sighand: Seq::empty() }
}

proof fn lemma_events_push(v: Seq<TraceEvent>, e: TraceEvent)
    ensures
        events_view(v.push(e)) == events_view(v).push(e@),
{
    assert(events_view(v.push(e)) =~= events_view(v).push(e@));
}

proof fn lemma_events_drop_last(v: Seq<TraceEvent>)
    requires
        v.len() > 0,
    ensures
        events_view(v.drop_last()) == events_view(v).drop_last(),
        events_view(v).last() == v.last()@,
{
    assert(events_view(v.drop_last()) =~= events_view(v).drop_last());
}

/// Index of the first flow of `tid` in `flows`, or -1.
fn find_index(flows: &Vec<(u64, TraceFlow)>, tid: u64) -> (r: Option<usize>)
    ensures
        pos_int(r) == find_flow(flows_view(flows@), tid),
{
    let mut i: usize = 0;
    let ghost fv = flows_view(flows@);
    while i < flows.len()
        invariant
            i <= flows@.len(),
            fv == flows_view(flows@),
            find_flow(fv, tid) == find_from(fv, tid, i as int),
        decreases flows.len() - i,
    {
        if flows[i].0 == tid {
            return Some(i);
        }
        i = i + 1;
    }
    None
}

/// An optional position as an index, -1 for none.
pub open spec fn pos_int(p: Option<usize>) -> int {
    match p {
        Some(k) => k as int,
        None => -1,
    }
}

fn contains_u64(v: &Vec<u64>, x: u64) -> (r: bool)
    ensures
        r == v@.contains(x),
{
    let mut i: usize = 0;
    while i < v.len()
        invariant
            i <= v@.len(),
            forall|j: int| 0 <= j < i ==> v@[j] != x,
        decreases v.len() - i,
    {
        if v[i] == x {
            return true;
        }
        i = i + 1;
    }
    false
}

impl Reconstructor {
    pub fn new() -> (r: Self)
        ensures
            r@ == initial_view(),
    {
        let r = Reconstructor {
            flows: Vec::new(),
            task_seq: Vec::new(),
            vfork_req: Vec::new(),
            sighand_set: Vec::new(),
        };
        assert(r@.flows =~= Seq::<(u64, FlowView)>::empty());
        assert(r@.vfork_req =~= Seq::<EventView>::empty());
        r
    }

    /// Feeds one decoded event, in stream order.
    pub fn feed(&mut self, evt: TraceEvent) -> (r: Result<StepOutcome, FlowError>)
        ensures
            match step_spec(old(self)@, evt@) {
                Ok((s2, out)) => r is Ok && final(self)@ == s2 && r->Ok_0@ == out,
                Err(err) => r == Err::<StepOutcome, FlowError>(err),
            },
    {
        let tid = evt.head.sscratch;
        if evt.head.inout != IN && evt.head.inout != OUT {
            return Err(FlowError::BadDirection);
        }
        let pos = find_index(&self.flows, tid);
        proof { lemma_find_from(self@.flows, tid, 0); }
        if pos.is_none() && !(evt.head.inout == IN || evt.head.ax[7] == SYS_CLONE) {
            return Err(FlowError::UnexpectedFirstEvent);
        }
        if pos.is_none() && evt.head.inout == OUT && self.vfork_req.len() == 0 {
            return Err(FlowError::NoCloneRequest);
        }
        let ghost s0 = self@;
        let mut flow: TraceFlow;
        let ghost i = pos_int(pos);
        if pos.is_none() {
            self.task_seq.push(tid);
            flow = TraceFlow::new();
            if evt.head.inout == OUT {
                let ghost vr = self.vfork_req@;
                match self.vfork_req.pop() {
                    Some(req) => {
                        proof { lemma_events_drop_last(vr); }
                        flow.events.push(req);
                        assert(flow@.events =~= seq![s0.vfork_req.last()]);
                    },
                    None => { return Err(FlowError::NoCloneRequest); },
                }
            }
            assert(flow@.signal_stack =~= Seq::<EventView>::empty());
            assert(evt.head.inout == IN ==> flow@.events =~= Seq::<EventView>::empty());
        } else {
            let ghost fl = self.flows@;
            let iu = pos.unwrap();
            let p = self.flows.remove(iu);
            assert(p == fl[i as int]);
            flow = p.1;
            proof {
                assert(self.flows@ == fl.remove(iu as int));
                assert(flows_view(self.flows@).len() == flows_view(fl).remove(i as int).len());
                assert forall|j: int| 0 <= j < flows_view(self.flows@).len()
                    implies flows_view(self.flows@)[j] == flows_view(fl).remove(i as int)[j] by {
                    if j < i { assert(self.flows@[j] == fl[j]); } else { assert(self.flows@[j] == fl[j + 1]); }
                }
                assert(flows_view(self.flows@) =~= flows_view(fl).remove(i as int));
            }
        }
        let ghost s1 = self@;
        assert(i < 0 ==> s1.flows == s0.flows);
        assert(i >= 0 ==> s1.flows == s0.flows.remove(i as int));
        self.apply(tid, flow, pos, evt, Ghost(s0))
    }

    fn apply(&mut self, tid: u64, flow: TraceFlow, i: Option<usize>, evt: TraceEvent, s0: Ghost<ReconView>) -> (r: Result<StepOutcome, FlowError>)
        requires
            -1 <= pos_int(i) < s0@.flows.len(),
            i is None ==> old(self)@.flows == s0@.flows,
            i is Some ==> old(self)@.flows == s0@.flows.remove(pos_int(i)),
            i is Some ==> s0@.flows[pos_int(i)].1 == flow@,
            evt.head.inout == IN || evt.head.inout == OUT,
        ensures
            match (if evt.head.inout == IN {
                apply_entry(ReconView { flows: s0@.flows, ..old(self)@ }, tid, flow@, pos_int(i), evt@)
            } else {
                apply_exit(ReconView { flows: s0@.flows, ..old(self)@ }, tid, flow@, pos_int(i), evt@)
            }) {
                Ok((s2, out)) => r is Ok && final(self)@ == s2 && r->Ok_0@ == out,
                Err(err) => r == Err::<StepOutcome, FlowError>(err),
            },
    {
        let ghost e0 = evt@;
        let mut flow = flow;
        let mut evt = evt;
        if evt.head.inout == IN {
            let mut killed: Option<u64> = None;
            if flow.events.len() > 0 {
                let last = &flow.events[flow.events.len() - 1];
                if last.head.inout != OUT {
                    killed = Some(last.head.ax[7]);
                }
            }
            proof { if flow.events@.len() > 0 { lemma_events_drop_last(flow.events@); } }
            let sysno = evt.head.ax[7];
            if sysno == SYS_CLONE {
                let dup = evt.duplicate();
                proof { lemma_events_push(self.vfork_req@, dup); lemma_events_push(flow.events@, evt); }
                self.vfork_req.push(dup);
                flow.events.push(evt);
            } else if sysno == SYS_RT_SIGRETURN {
                let ghost st = flow.signal_stack@;
                match flow.signal_stack.pop() {
                    Some(frame) => {
                        proof { lemma_events_drop_last(st); lemma_events_push(flow.events@, frame); }
                        flow.events.push(frame);
                    },
                    None => { return Err(FlowError::EmptySignalStack); },
                }
            } else if sysno == SYS_EXIT_GROUP {
                proof { lemma_events_push(flow.events@, evt); }
                flow.events.push(evt);
                return Ok(StepOutcome { killed, flushed: Some((tid, flow.events)) });
            } else {
                proof { lemma_events_push(flow.events@, evt); }
                flow.events.push(evt);
            }
            self.store(tid, flow, i, s0);
            Ok(StepOutcome { killed, flushed: None })
        } else {
            let n = flow.events.len();
            if n == 0 {
                return Err(FlowError::NoPendingEntry);
            }
            if flow.events[n - 1].head.ax[7] != evt.head.ax[7] {
                return Err(FlowError::SyscallMismatch);
            }
            proof { lemma_events_drop_last(flow.events@); }
            if evt.head.ax[7] == SYS_RT_SIGACTION {
                match crate::render::parse_sigaction(&evt) {
                    Some((sa, _)) => { self.sighand_set.push(sa.handler); },
                    None => {},
                }
            }
            let signo = evt.head.ax[0];
            if contains_u64(&self.sighand_set, evt.head.epc) {
                if evt.head.ax[7] == SYS_EXECVE {
                    return Err(FlowError::SignalInExecve);
                }
                let ghost ev = flow.events@;
                let mut last = match flow.events.pop() {
                    Some(l) => l,
                    None => { return Err(FlowError::NoPendingEntry); },
                };
                last.signal = SigStage::Exit(signo);
                proof { lemma_events_push(flow.signal_stack@, last); }
                flow.signal_stack.push(last);
                let sig_req = TraceEvent {
                    head: TraceHead {
                        magic: 0, headsize: 0, totalsize: 0, inout: OUT, cause: 0, epc: 0,
                        ax: [signo, 0, 0, 0, 0, 0, 0, 0],
                        usp: 0, stack: [0, 0, 0, 0, 0, 0, 0, 0],
                        orig_a0: 0, satp: 0, tp: 0, sscratch: 0,
                    },
                    result: 0,
                    payloads: Vec::new(),
                    signal: SigStage::Enter(signo),
                    raw_fmt: false,
                    level: 0,
                };
                proof { lemma_events_push(flow.events@, sig_req); }
                assert(sig_req@ == signal_enter_event(signo)) by {
                    assert(sig_req@.payloads =~= Seq::<crate::event::PayloadView>::empty());
                }
                flow.events.push(sig_req);
            } else {
                let mut last = match flow.events.pop() {
                    Some(l) => l,
                    None => { return Err(FlowError::NoPendingEntry); },
                };
                let ghost lv = last@;
                last.result = evt.head.ax[0] as i64;
                let ghost lp = last.payloads@;
                let ghost ep = evt.payloads@;
                last.payloads.append(&mut evt.payloads);
                last.head.inout = OUT;
                assert(last@.payloads =~= lv.payloads + e0.payloads) by {
                    assert(last.payloads@ == lp + ep);
                    assert(e0.payloads == ep.map_values(|p: crate::event::TracePayload| p@));
                    assert((lp + ep).map_values(|p: crate::event::TracePayload| p@)
                        =~= lp.map_values(|p: crate::event::TracePayload| p@) + ep.map_values(|p: crate::event::TracePayload| p@));
                }
                assert(last@ == completed(lv, e0));
                proof { lemma_events_push(flow.events@, last); }
                flow.events.push(last);
            }
            self.store(tid, flow, i, s0);
            Ok(StepOutcome { killed: None, flushed: None })
        }
    }

    fn store(&mut self, tid: u64, flow: TraceFlow, pos: Option<usize>, s0: Ghost<ReconView>)
        requires
            -1 <= pos_int(pos) < s0@.flows.len(),
            pos is None ==> old(self)@.flows == s0@.flows,
            pos is Some ==> old(self)@.flows == s0@.flows.remove(pos_int(pos)),
        ensures
            final(self)@ == (ReconView { flows: store_flow(s0@.flows, pos_int(pos), tid, flow@), ..old(self)@ }),
    {
        let ghost fl = self.flows@;
        let ghost i = pos_int(pos);
        assert(flows_view(fl).len() == fl.len());
        if pos.is_none() {
            self.flows.push((tid, flow));
            assert(flows_view(self.flows@) =~= flows_view(fl).push((tid, flow@)));
        } else {
            let k = pos.unwrap();
            self.flows.insert(k, (tid, flow));
            assert(flows_view(self.flows@) =~= flows_view(fl).insert(i as int, (tid, flow@)));
            assert(s0@.flows.remove(i as int).insert(i as int, (tid, flow@)) =~= s0@.flows.update(i as int, (tid, flow@)));
        }
    }
}

/// `s` with `x` placed before the first entry of a greater thread id.
pub open spec fn insert_by_tid(s: Seq<(u64, Seq<EventView>)>, x: (u64, Seq<EventView>)) -> Seq<(u64, Seq<EventView>)>
    decreases s.len(),
{
    if s.len() == 0 {
        seq![x]
    } else if x.0 < s[0].0 {
        seq![x] + s
    } else {
        seq![s[0]] + insert_by_tid(s.drop_first(), x)
    }
}

/// The entries of `s` ordered by ascending thread id; entries with equal ids
/// keep their order.
pub open spec fn by_tid(s: Seq<(u64, Seq<EventView>)>) -> Seq<(u64, Seq<EventView>)>
    decreases s.len(),
{
    if s.len() == 0 {
        Seq::empty()
    } else {
        insert_by_tid(by_tid(s.drop_last()), s.last())
    }
}

pub open spec fn tid_sorted(s: Seq<(u64, Seq<EventView>)>) -> bool {
    forall|i: int, j: int| 0 <= i < j < s.len() ==> s[i].0 <= s[j].0
}

/// The thread ids and events of the flows in `flows`.
pub open spec fn flow_events(flows: Seq<(u64, FlowView)>) -> Seq<(u64, Seq<EventView>)> {
    flows.map_values(|p: (u64, FlowView)| (p.0, p.1.events))
}

pub open spec fn out_view(v: Seq<(u64, Vec<TraceEvent>)>) -> Seq<(u64, Seq<EventView>)> {
    v.map_values(|p: (u64, Vec<TraceEvent>)| (p.0, events_view(p.1@)))
}

proof fn lemma_insert_at(s: Seq<(u64, Seq<EventView>)>, x: (u64, Seq<EventView>), k: int)
    requires
        0 <= k <= s.len(),
        forall|j: int| 0 <= j < k ==> s[j].0 <= x.0,
        k == s.len() || x.0 < s[k].0,
    ensures
        insert_by_tid(s, x) == s.insert(k, x),
    decreases s.len(),
{
    if s.len() == 0 {
        assert(seq![x] =~= s.insert(k, x));
    } else if x.0 < s[0].0 {
        assert(k == 0);
        assert(seq![x] + s =~= s.insert(k, x));
    } else {
        assert(k > 0);
        let t = s.drop_first();
        assert forall|j: int| 0 <= j < k - 1 implies t[j].0 <= x.0 by {
            assert(t[j] == s[j + 1]);
        }
        if k < s.len() {
            assert(t[k - 1] == s[k]);
        }
        lemma_insert_at(t, x, k - 1);
        assert(seq![s[0]] + t.insert(k - 1, x) =~= s.insert(k, x));
    }
}

impl Reconstructor {
    /// Ends the stream: the flows of threads that never exited, ordered by
    /// ascending thread id, and every thread in order of first appearance.
    pub fn finish(self) -> (r: (Vec<(u64, Vec<TraceEvent>)>, Vec<u64>))
        ensures
            out_view(r.0@) == by_tid(flow_events(self@.flows)),
            tid_sorted(out_view(r.0@)),
            r.1@ == self@.task_seq,
    {
        let mut out: Vec<(u64, Vec<TraceEvent>)> = Vec::new();
        let ghost fe = flow_events(self@.flows);
        let mut flows = self.flows;
        let ghost orig = flows@;
        let ghost n = orig.len() as int;
        assert(fe == flow_events(flows_view(orig)));
        assert(out_view(out@) =~= by_tid(fe.subrange(0, 0)));
        while flows.len() > 0
            invariant
                fe == flow_events(flows_view(orig)),
                n == orig.len(),
                0 <= n - flows@.len() <= n,
                flows@ == orig.subrange(n - flows@.len(), n),
                out_view(out@) == by_tid(fe.subrange(0, n - flows@.len())),
                tid_sorted(out_view(out@)),
            decreases flows.len(),
        {
            let ghost i = n - flows@.len();
            let p = flows.remove(0);
            assert(p == orig[i]);
            assert(flows@ =~= orig.subrange(i + 1, n));
            let item = (p.0, p.1.events);
            let ghost x = (item.0, events_view(item.1@));
            assert(x == fe[i]);
            let ghost ov = out_view(out@);
            let mut k: usize = 0;
            while k < out.len() && out[k].0 <= item.0
                invariant
                    k <= out@.len(),
                    ov == out_view(out@),
                    x.0 == item.0,
                    forall|j: int| 0 <= j < k ==> ov[j].0 <= x.0,
                decreases out.len() - k,
            {
                assert(ov[k as int].0 == out@[k as int].0);
                k = k + 1;
            }
            proof {
                if k < out@.len() {
                    assert(ov[k as int].0 == out@[k as int].0);
                }
                lemma_insert_at(ov, x, k as int);
                assert(fe.subrange(0, i + 1).drop_last() =~= fe.subrange(0, i));
                assert(fe.subrange(0, i + 1).last() == x);
            }
            out.insert(k, item);
            assert(out_view(out@) =~= ov.insert(k as int, x));
            assert forall|a: int, b: int| 0 <= a < b < out_view(out@).len()
                implies out_view(out@)[a].0 <= out_view(out@)[b].0 by {
                let w = out_view(out@);
                if b < k {
                } else if a < k && b == k {
                } else if a < k {
                    assert(w[b] == ov[b - 1]);
                } else if a == k {
                    assert(w[b] == ov[b - 1]);
                    assert(x.0 < ov[k as int].0);
                    assert(ov[k as int].0 <= ov[b - 1].0 || b - 1 == k);
                } else {
                    assert(w[a] == ov[a - 1] && w[b] == ov[b - 1]);
                }
            }
        }
        assert(fe.subrange(0, n) =~= fe);
        (out, self.task_seq)
    }
}

proof fn lemma_find_update(fl: Seq<(u64, FlowView)>, tid: u64, k: int, f: FlowView, i: int)
    requires
        0 <= i <= k,
        find_from(fl, tid, i) == k,
        0 <= k < fl.len(),
    ensures
        find_from(fl.update(k, (tid, f)), tid, i) == k,
    decreases k - i,
{
    if i < k {
        lemma_find_update(fl, tid, k, f, i + 1);
    }
}

proof fn lemma_find_absent_push(fl: Seq<(u64, FlowView)>, tid: u64, f: FlowView, i: int)
    requires
        0 <= i <= fl.len(),
        find_from(fl, tid, i) == -1,
    ensures
        find_from(fl.push((tid, f)), tid, i) == fl.len(),
    decreases fl.len() - i,
{
    if i < fl.len() {
        lemma_find_absent_push(fl, tid, f, i + 1);
    }
}

proof fn lemma_find_absent_store(fl: Seq<(u64, FlowView)>, k: int, t: u64, f: FlowView, tid: u64, i: int)
    requires
        0 <= i,
        t != tid,
        -1 <= k < fl.len(),
        find_from(fl, tid, i) == -1,
    ensures
        find_from(store_flow(fl, k, t, f), tid, i) == -1,
    decreases store_flow(fl, k, t, f).len() - i,
{
    if i < store_flow(fl, k, t, f).len() {
        lemma_find_absent_store(fl, k, t, f, tid, i + 1);
    }
}

/// An entry and its exit on one thread, with matching syscall numbers, for a
/// syscall that neither clones, ends the thread, returns from a signal nor
/// registers a handler.
pub open spec fn plain_pair(p: (EventView, EventView), tid: u64, sighand: Seq<u64>) -> bool {
    let sysno = p.0.head.ax[7];
    &&& p.0.head.inout == IN
    &&& p.1.head.inout == OUT
    &&& p.0.head.sscratch == tid
    &&& p.1.head.sscratch == tid
    &&& p.1.head.ax[7] == sysno
    &&& sysno != SYS_CLONE && sysno != SYS_RT_SIGRETURN && sysno != SYS_EXIT_GROUP
    &&& sysno != SYS_RT_SIGACTION
    &&& !sighand.contains(p.1.head.epc)
}

/// Feeds each pair's entry, then its exit.
pub open spec fn feed_pairs(s: ReconView, pairs: Seq<(EventView, EventView)>) -> Result<ReconView, FlowError>
    decreases pairs.len(),
{
    if pairs.len() == 0 {
        Ok(s)
    } else {
        match step_spec(s, pairs[0].0) {
            Ok((s1, _)) => match step_spec(s1, pairs[0].1) {
                Ok((s2, _)) => feed_pairs(s2, pairs.drop_first()),
                Err(e) => Err(e),
            },
            Err(e) => Err(e),
        }
    }
}

pub open spec fn completed_pairs(pairs: Seq<(EventView, EventView)>) -> Seq<EventView> {
    pairs.map_values(|p: (EventView, EventView)| completed(p.0, p.1))
}

proof fn lemma_pairs_existing(s: ReconView, pairs: Seq<(EventView, EventView)>, tid: u64, k: int)
    requires
        0 <= k < s.flows.len(),
        find_flow(s.flows, tid) == k,
        forall|j: int| 0 <= j < pairs.len() ==> plain_pair(#[trigger] pairs[j], tid, s.sighand),
    ensures
        feed_pairs(s, pairs) == Ok::<ReconView, FlowError>(ReconView {
            flows: s.flows.update(k, (tid, FlowView {
                events: s.flows[k].1.events + completed_pairs(pairs),
                ..s.flows[k].1
            })),
            ..s
        }),
    decreases pairs.len(),
{
    let f = s.flows[k].1;
    lemma_find_from(s.flows, tid, 0);
    if pairs.len() == 0 {
        assert(f.events + completed_pairs(pairs) =~= f.events);
        assert(s.flows.update(k, (tid, FlowView { events: f.events, ..f })) =~= s.flows);
    } else {
        let p = pairs[0];
        assert(plain_pair(p, tid, s.sighand));
        let f1 = FlowView { events: f.events.push(p.0), ..f };
        let s1 = ReconView { flows: s.flows.update(k, (tid, f1)), ..s };
        assert(step_spec(s, p.0) is Ok && step_spec(s, p.0)->Ok_0.0 == s1);
        lemma_find_update(s.flows, tid, k, f1, 0);
        let f2 = FlowView { events: f.events.push(completed(p.0, p.1)), ..f };
        let s2 = ReconView { flows: s.flows.update(k, (tid, f2)), ..s };
        assert(f1.events.drop_last() =~= f.events);
        assert(s1.flows.update(k, (tid, f2)) =~= s.flows.update(k, (tid, f2)));
        assert(step_spec(s1, p.1) is Ok && step_spec(s1, p.1)->Ok_0.0 == s2);
        lemma_find_update(s.flows, tid, k, f2, 0);
        let rest = pairs.drop_first();
        assert forall|j: int| 0 <= j < rest.len() implies plain_pair(#[trigger] rest[j], tid, s2.sighand) by {
            assert(rest[j] == pairs[j + 1]);
        }
        lemma_pairs_existing(s2, rest, tid, k);
        assert(f2.events + completed_pairs(rest) =~= f.events + completed_pairs(pairs));
        assert(s2.flows.update(k, (tid, FlowView { events: f2.events + completed_pairs(rest), ..f2 }))
            =~= s.flows.update(k, (tid, FlowView { events: f.events + completed_pairs(pairs), ..f })));
    }
}

/// Pairing round trip: on a fresh reconstructor, a stream of entry/exit pairs
/// on one thread, with matching syscall numbers and no signals, leaves that
/// thread with exactly one completed event per pair, in order, each carrying
/// its exit's `a0` as result and the payloads of both halves.
pub proof fn law_pairing_round_trip(pairs: Seq<(EventView, EventView)>, tid: u64)
    requires
        pairs.len() > 0,
        forall|j: int| 0 <= j < pairs.len() ==> plain_pair(#[trigger] pairs[j], tid, Seq::empty()),
    ensures
        feed_pairs(initial_view(), pairs) == Ok::<ReconView, FlowError>(ReconView {
            flows: seq![(tid, FlowView { events: completed_pairs(pairs), signal_stack: Seq::empty() })],
            task_seq: seq![tid],
            vfork_req: Seq::empty(),
            sighand: Seq::empty(),
        }),
        forall|j: int| 0 <= j < pairs.len() ==> (#[trigger] completed_pairs(pairs)[j]).result
            == pairs[j].1.head.ax[0] as i64
            && completed_pairs(pairs)[j].payloads == pairs[j].0.payloads + pairs[j].1.payloads,
{
    let s = initial_view();
    let p = pairs[0];
    assert(plain_pair(p, tid, Seq::empty()));
    let f1 = FlowView { events: seq![p.0], signal_stack: Seq::empty() };
    let s1 = ReconView { flows: seq![(tid, f1)], task_seq: seq![tid], ..s };
    assert(find_flow(s.flows, tid) == -1);
    assert(empty_flow().events.push(p.0) =~= seq![p.0]);
    assert(Seq::<(u64, FlowView)>::empty().push((tid, f1)) =~= seq![(tid, f1)]);
    assert(step_spec(s, p.0) is Ok && step_spec(s, p.0)->Ok_0.0 == s1);
    assert(find_flow(s1.flows, tid) == 0);
    let f2 = FlowView { events: seq![completed(p.0, p.1)], signal_stack: Seq::empty() };
    let s2 = ReconView { flows: seq![(tid, f2)], ..s1 };
    assert(f1.events.drop_last().push(completed(p.0, p.1)) =~= f2.events);
    assert(s1.flows.update(0, (tid, f2)) =~= seq![(tid, f2)]);
    assert(step_spec(s1, p.1) is Ok && step_spec(s1, p.1)->Ok_0.0 == s2);
    let rest = pairs.drop_first();
    assert forall|j: int| 0 <= j < rest.len() implies plain_pair(#[trigger] rest[j], tid, s2.sighand) by {
        assert(rest[j] == pairs[j + 1]);
    }
    assert(find_flow(s2.flows, tid) == 0);
    lemma_pairs_existing(s2, rest, tid, 0);
    assert(f2.events + completed_pairs(rest) =~= completed_pairs(pairs));
    assert(s2.flows.update(0, (tid, FlowView { events: f2.events + completed_pairs(rest), ..f2 }))
        =~= seq![(tid, FlowView { events: completed_pairs(pairs), signal_stack: Seq::empty() })]);
}

/// Clone handoff: a clone entry on thread `a`, then a clone exit on a thread
/// `b` seen for the first time, starts `b`'s flow with the entry of `a`,
/// completed by the exit; the entry leaves the queue of pending clones.
pub proof fn law_clone_handoff(s: ReconView, entry: EventView, exit: EventView)
    requires
        entry.head.inout == IN,
        entry.head.ax[7] == SYS_CLONE,
        exit.head.inout == OUT,
        exit.head.ax[7] == SYS_CLONE,
        exit.head.sscratch != entry.head.sscratch,
        find_flow(s.flows, exit.head.sscratch) == -1,
        !s.sighand.contains(exit.head.epc),
    ensures
        step_spec(s, entry) is Ok,
        step_spec(step_spec(s, entry)->Ok_0.0, exit) is Ok,
        ({
            let s2 = step_spec(step_spec(s, entry)->Ok_0.0, exit)->Ok_0.0;
            let k = find_flow(s2.flows, exit.head.sscratch);
            &&& k >= 0
            &&& s2.flows[k].1 == (FlowView { events: seq![completed(entry, exit)], signal_stack: Seq::empty() })
            &&& s2.vfork_req == s.vfork_req
        }),
{
    let a = entry.head.sscratch;
    let b = exit.head.sscratch;
    let i = find_flow(s.flows, a);
    lemma_find_from(s.flows, a, 0);
    let f = if i >= 0 { s.flows[i].1 } else { empty_flow() };
    let f1 = FlowView { events: f.events.push(entry), ..f };
    let s1 = step_spec(s, entry)->Ok_0.0;
    assert(s1.flows == store_flow(s.flows, i, a, f1));
    assert(s1.vfork_req == s.vfork_req.push(entry));
    lemma_find_absent_store(s.flows, i, a, f1, b, 0);
    assert(find_flow(s1.flows, b) == -1);
    let fb = FlowView { events: seq![completed(entry, exit)], signal_stack: Seq::empty() };
    let s2 = step_spec(s1, exit)->Ok_0.0;
    assert(seq![entry].drop_last().push(completed(entry, exit)) =~= fb.events);
    assert(s2.flows == s1.flows.push((b, fb)));
    lemma_find_absent_push(s1.flows, b, fb, 0);
    assert(s1.vfork_req.drop_last() =~= s.vfork_req);
}

/// Steps on a sequence of events, from `s`.
pub open spec fn feed_all(s: ReconView, es: Seq<EventView>) -> Result<ReconView, FlowError>
    decreases es.len(),
{
    if es.len() == 0 {
        Ok(s)
    } else {
        match step_spec(s, es[0]) {
            Ok((s1, _)) => feed_all(s1, es.drop_first()),
            Err(e) => Err(e),
        }
    }
}

pub open spec fn is_plain_syscall(sysno: u64) -> bool {
    sysno != SYS_CLONE && sysno != SYS_RT_SIGRETURN && sysno != SYS_EXIT_GROUP
        && sysno != SYS_RT_SIGACTION && sysno != SYS_EXECVE
}

proof fn lemma_step_existing(s: ReconView, e: EventView, k: int)
    requires
        0 <= k < s.flows.len(),
        find_flow(s.flows, e.head.sscratch) == k,
        e.head.inout == IN || e.head.inout == OUT,
    ensures
        step_spec(s, e) == (if e.head.inout == IN {
            apply_entry(s, e.head.sscratch, s.flows[k].1, k, e)
        } else {
            apply_exit(s, e.head.sscratch, s.flows[k].1, k, e)
        }),
{
}

/// Signal nesting: an entry X on a thread, an exit at a registered handler
/// address (delivery of signal `signo`), a nested entry/exit pair Y, then
/// `rt_sigreturn` and the true exit of X. The thread's record gains, in order,
/// the synthesized signal entry, the completed Y, and X marked
/// `Exit(signo)` and completed by its own exit; the signal stack is back to
/// where it was.
pub proof fn law_signal_nesting(
    s: ReconView,
    x: EventView,
    sig: EventView,
    y: EventView,
    y_exit: EventView,
    ret: EventView,
    x_exit: EventView,
)
    requires
        find_flow(s.flows, x.head.sscratch) >= 0,
        x.head.sscratch == sig.head.sscratch && x.head.sscratch == y.head.sscratch
            && x.head.sscratch == y_exit.head.sscratch && x.head.sscratch == ret.head.sscratch
            && x.head.sscratch == x_exit.head.sscratch,
        x.head.inout == IN && y.head.inout == IN && ret.head.inout == IN,
        sig.head.inout == OUT && y_exit.head.inout == OUT && x_exit.head.inout == OUT,
        is_plain_syscall(x.head.ax[7]) && is_plain_syscall(y.head.ax[7]),
        sig.head.ax[7] == x.head.ax[7] && x_exit.head.ax[7] == x.head.ax[7],
        y_exit.head.ax[7] == y.head.ax[7],
        ret.head.ax[7] == SYS_RT_SIGRETURN,
        s.sighand.contains(sig.head.epc),
        !s.sighand.contains(y_exit.head.epc),
        !s.sighand.contains(x_exit.head.epc),
    ensures
        ({
            let k = find_flow(s.flows, x.head.sscratch);
            let f = s.flows[k].1;
            let signo = sig.head.ax[0];
            feed_all(s, seq![x, sig, y, y_exit, ret, x_exit]) == Ok::<ReconView, FlowError>(ReconView {
                flows: s.flows.update(k, (x.head.sscratch, FlowView {
                    events: f.events + seq![
                        signal_enter_event(signo),
                        completed(y, y_exit),
                        completed(EventView { signal: SigStage::Exit(signo), ..x }, x_exit)
                    ],
                    signal_stack: f.signal_stack,
                })),
                ..s
            })
        }),
{
    let t = x.head.sscratch;
    let k = find_flow(s.flows, t);
    lemma_find_from(s.flows, t, 0);
    let f = s.flows[k].1;
    let signo = sig.head.ax[0];
    let xs = EventView { signal: SigStage::Exit(signo), ..x };

    let f1 = FlowView { events: f.events.push(x), ..f };
    let s1 = ReconView { flows: s.flows.update(k, (t, f1)), ..s };
    lemma_step_existing(s, x, k);
    assert(step_spec(s, x)->Ok_0.0 == s1);
    lemma_find_update(s.flows, t, k, f1, 0);

    let f2 = FlowView { events: f.events.push(signal_enter_event(signo)), signal_stack: f.signal_stack.push(xs) };
    let s2 = ReconView { flows: s.flows.update(k, (t, f2)), ..s };
    lemma_step_existing(s1, sig, k);
    assert(f1.events.drop_last() =~= f.events);
    assert(s1.flows.update(k, (t, f2)) =~= s2.flows);
    assert(step_spec(s1, sig)->Ok_0.0 == s2);
    lemma_find_update(s.flows, t, k, f2, 0);

    let f3 = FlowView { events: f2.events.push(y), ..f2 };
    let s3 = ReconView { flows: s.flows.update(k, (t, f3)), ..s };
    lemma_step_existing(s2, y, k);
    assert(s2.flows.update(k, (t, f3)) =~= s3.flows);
    assert(step_spec(s2, y)->Ok_0.0 == s3);
    lemma_find_update(s.flows, t, k, f3, 0);

    let f4 = FlowView { events: f2.events.push(completed(y, y_exit)), ..f2 };
    let s4 = ReconView { flows: s.flows.update(k, (t, f4)), ..s };
    lemma_step_existing(s3, y_exit, k);
    assert(f3.events.drop_last() =~= f2.events);
    assert(s3.flows.update(k, (t, f4)) =~= s4.flows);
    assert(step_spec(s3, y_exit)->Ok_0.0 == s4);
    lemma_find_update(s.flows, t, k, f4, 0);

    let f5 = FlowView { events: f4.events.push(xs), signal_stack: f.signal_stack };
    let s5 = ReconView { flows: s.flows.update(k, (t, f5)), ..s };
    lemma_step_existing(s4, ret, k);
    assert(f4.signal_stack.drop_last() =~= f.signal_stack);
    assert(s4.flows.update(k, (t, f5)) =~= s5.flows);
    assert(step_spec(s4, ret)->Ok_0.0 == s5);
    lemma_find_update(s.flows, t, k, f5, 0);

    let f6 = FlowView { events: f4.events.push(completed(xs, x_exit)), signal_stack: f.signal_stack };
    let s6 = ReconView { flows: s.flows.update(k, (t, f6)), ..s };
    lemma_step_existing(s5, x_exit, k);
    assert(f5.events.drop_last() =~= f4.events);
    assert(s5.flows.update(k, (t, f6)) =~= s6.flows);
    assert(step_spec(s5, x_exit)->Ok_0.0 == s6);

    let es = seq![x, sig, y, y_exit, ret, x_exit];
    assert(es.drop_first() =~= seq![sig, y, y_exit, ret, x_exit]);
    assert(es.drop_first().drop_first() =~= seq![y, y_exit, ret, x_exit]);
    assert(es.drop_first().drop_first().drop_first() =~= seq![y_exit, ret, x_exit]);
    assert(es.drop_first().drop_first().drop_first().drop_first() =~= seq![ret, x_exit]);
    assert(es.drop_first().drop_first().drop_first().drop_first().drop_first() =~= seq![x_exit]);
    assert(seq![x_exit].drop_first() =~= Seq::<EventView>::empty());
    assert(feed_all(s6, Seq::empty()) == Ok::<ReconView, FlowError>(s6));
    assert(feed_all(s5, seq![x_exit]) == Ok::<ReconView, FlowError>(s6));
    assert(feed_all(s4, seq![ret, x_exit]) == Ok::<ReconView, FlowError>(s6));
    assert(feed_all(s3, seq![y_exit, ret, x_exit]) == Ok::<ReconView, FlowError>(s6));
    assert(feed_all(s2, seq![y, y_exit, ret, x_exit]) == Ok::<ReconView, FlowError>(s6));
    assert(feed_all(s1, seq![sig, y, y_exit, ret, x_exit]) == Ok::<ReconView, FlowError>(s6));
    assert(f6.events =~= f.events + seq![signal_enter_event(signo), completed(y, y_exit), completed(xs, x_exit)]);
}

/// `rt_sigreturn` on a thread whose signal stack is empty is refused.
pub proof fn law_sigreturn_needs_frame(s: ReconView, e: EventView)
    requires
        e.head.inout == IN,
        e.head.ax[7] == SYS_RT_SIGRETURN,
        find_flow(s.flows, e.head.sscratch) >= 0 ==> s.flows[find_flow(s.flows, e.head.sscratch)].1.signal_stack.len() == 0,
    ensures
        step_spec(s, e) == Err::<(ReconView, StepView), FlowError>(FlowError::EmptySignalStack),
{
}

} // verus!
