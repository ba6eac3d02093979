//! The analysis of a whole trace stream: decoding, reconstruction and
//! rendering, at one of three levels.

use vstd::prelude::*;
use crate::event::{TraceEvent, EventView, DecodeError, parse_event, event_spec, TE_SIZE};
use crate::flow::{Reconstructor, FlowError, ReconView, step_spec, initial_view, events_view, by_tid, flow_events, out_view};
use crate::names::{dec_text, hex_text, dec_string, hex_string};
use crate::render::{TidMap, RenderError, args_view, flow_lines, render_flow};
use crate::sysno::MAX_SYSCALL_NBR;

verus! {

/// Why the analysis of a stream stopped.
#[derive(Clone, Copy, Debug, PartialEq, Eq, Structural)]
pub enum TraceError {
    Decode(DecodeError),
    Flow(FlowError),
    Render(RenderError),
    /// a raw record names a syscall number past the table
    UnknownSyscall(u64),
    /// the level is not 0, 1 or 2
    BadLevel(usize),
}

pub open spec fn killed_line(sysno: u64) -> Seq<char> {
    "======================= might be killed: "@ + dec_text(sysno)
}

/// Lines printed for one event, with the reconstructor state and masked
/// identities after it.
pub open spec fn step_lines(s: ReconView, tids: Seq<i64>, e: EventView) -> Result<(ReconView, Seq<i64>, Seq<Seq<char>>), TraceError> {
    match step_spec(s, e) {
        Err(x) => Err(TraceError::Flow(x)),
        Ok((s2, out)) => {
            let k = match out.killed {
                Some(n) => seq![killed_line(n)],
                None => Seq::empty(),
            };
            match out.flushed {
                None => Ok((s2, tids, k)),
                Some((tid, evs)) => match flow_lines(tid, evs, tids) {
                    Err(x) => Err(TraceError::Render(x)),
                    Ok((ls, t2)) => Ok((s2, t2, k + ls)),
                },
            }
        },
    }
}

pub open spec fn task_lines(task_seq: Seq<u64>) -> Seq<Seq<char>> {
    seq!["Task sequence: "@] + task_seq.map_values(|t: u64| hex_text(t))
}

/// Lines printed at the end of the stream: each remaining thread's block,
/// then the threads in order of first appearance.
pub open spec fn finish_lines(flows: Seq<(u64, Seq<EventView>)>, tids: Seq<i64>, task_seq: Seq<u64>) -> (Seq<Seq<char>>, Option<TraceError>)
    decreases flows.len(),
{
    if flows.len() == 0 {
        (task_lines(task_seq), None)
    } else {
        match flow_lines(flows[0].0, flows[0].1, tids) {
            Err(x) => (Seq::empty(), Some(TraceError::Render(x))),
            Ok((ls, t)) => {
                let (rest, err) = finish_lines(flows.drop_first(), t, task_seq);
                (ls + rest, err)
            },
        }
    }
}

/// The flows left at the end, ordered by ascending thread id.
pub open spec fn remaining(s: ReconView) -> Seq<(u64, Seq<EventView>)> {
    by_tid(flow_events(s.flows))
}

/// Lines printed from position `pos` on at level 1 or 2, and the fault that
/// stopped the analysis, if any.
pub open spec fn run_spec(d: Seq<u8>, pos: int, level: usize, s: ReconView, tids: Seq<i64>) -> (Seq<Seq<char>>, Option<TraceError>)
    decreases d.len() - pos,
{
    if pos < 0 || d.len() - pos < TE_SIZE {
        finish_lines(remaining(s), tids, s.task_seq)
    } else {
        match event_spec(d, pos, level) {
            Err(x) => (Seq::empty(), Some(TraceError::Decode(x))),
            Ok((ev, next)) => match step_lines(s, tids, ev) {
                Err(x) => (Seq::empty(), Some(x)),
                Ok((s2, t2, ls)) => if next > pos {
                    let (rest, err) = run_spec(d, next, level, s2, t2);
                    (ls + rest, err)
                } else {
                    (ls, None)
                },
            },
        }
    }
}

/// The level-0 line of one record.
pub open spec fn raw_line(e: EventView) -> Seq<char> {
    "tid: "@ + hex_text(e.head.sscratch) + " -> ("@ + dec_text(e.head.inout) + ")["@
        + hex_text(e.head.cause) + ", "@ + hex_text(e.head.epc) + ", "@ + dec_text(e.head.ax[7])
        + "]; pid: "@ + hex_text(e.head.satp)
}

/// Lines printed from position `pos` on at level 0.
pub open spec fn raw_spec(d: Seq<u8>, pos: int) -> (Seq<Seq<char>>, Option<TraceError>)
    decreases d.len() - pos,
{
    if pos < 0 || d.len() - pos < TE_SIZE {
        (Seq::empty(), None)
    } else {
        match event_spec(d, pos, 0) {
            Err(x) => (Seq::empty(), Some(TraceError::Decode(x))),
            Ok((ev, next)) => if ev.head.ax[7] >= MAX_SYSCALL_NBR {
                (seq![raw_line(ev)], Some(TraceError::UnknownSyscall(ev.head.ax[7])))
            } else if next > pos {
                let (rest, err) = raw_spec(d, next);
                (seq![raw_line(ev)] + rest, err)
            } else {
                (seq![raw_line(ev)], None)
            },
        }
    }
}

/// What analysing a stream at `level` prints, and the fault that stopped it.
pub open spec fn analyse_spec(d: Seq<u8>, level: usize) -> (Seq<Seq<char>>, Option<TraceError>) {
    if level == 0 {
        raw_spec(d, 0)
    } else if level <= 2 {
        run_spec(d, 0, level, initial_view(), Seq::empty())
    } else {
        (Seq::empty(), Some(TraceError::BadLevel(level)))
    }
}

fn push_all(lines: &mut Vec<String>, more: Vec<String>)
    ensures
        args_view(final(lines)@) == args_view(old(lines)@) + args_view(more@),
{
    let mut more = more;
    let ghost m = more@;
    lines.append(&mut more);
    assert(args_view(final(lines)@) =~= args_view(old(lines)@) + args_view(m));
}

fn step(recon: &mut Reconstructor, tids: &mut TidMap, evt: TraceEvent) -> (r: Result<Vec<String>, TraceError>)
    requires
        old(tids).wf(),
    ensures
        final(tids).wf(),
        match step_lines(old(recon)@, old(tids)@, evt@) {
            Ok((s2, t2, ls)) => r is Ok && final(recon)@ == s2 && final(tids)@ == t2 && args_view(r->Ok_0@) == ls,
            Err(x) => r == Err::<Vec<String>, TraceError>(x),
        },
{
    match recon.feed(evt) {
        Err(e) => Err(TraceError::Flow(e)),
        Ok(out) => {
            let mut lines: Vec<String> = Vec::new();
            match out.killed {
                Some(n) => {
                    let mut s = String::from_str("======================= might be killed: ");
                    s.append(dec_string(n).as_str());
                    lines.push(s);
                },
                None => {},
            }
            let ghost k = args_view(lines@);
            assert(out.killed is None ==> k =~= Seq::<Seq<char>>::empty());
            assert(out.killed is Some ==> k =~= seq![killed_line(out.killed->Some_0)]);
            match out.flushed {
                None => Ok(lines),
                Some((tid, evs)) => match render_flow(tid, &evs, tids) {
                    Err(e) => Err(TraceError::Render(e)),
                    Ok(ls) => {
                        push_all(&mut lines, ls);
                        Ok(lines)
                    },
                },
            }
        },
    }
}

fn finish(recon: Reconstructor, tids: &mut TidMap) -> (r: (Vec<String>, Option<TraceError>))
    requires
        old(tids).wf(),
    ensures
        (args_view(r.0@), r.1) == finish_lines(remaining(recon@), old(tids)@, recon@.task_seq),
{
    let ghost rem = remaining(recon@);
    let ghost ts = recon@.task_seq;
    let (flows, task_seq) = recon.finish();
    let ghost fv = out_view(flows@);
    assert(fv == rem);
    let mut lines: Vec<String> = Vec::new();
    let mut i: usize = 0;
    assert(fv.subrange(0, fv.len() as int) =~= fv);
    assert(args_view(lines@) =~= Seq::<Seq<char>>::empty());
    assert(finish_lines(rem, old(tids)@, ts).0 =~= args_view(lines@) + finish_lines(rem, old(tids)@, ts).0);
    while i < flows.len()
        invariant
            i <= flows@.len(),
            rem == remaining(recon@),
            ts == recon@.task_seq,
            fv == out_view(flows@),
            tids.wf(),
            finish_lines(rem, old(tids)@, ts) == ({
                let (rest, err) = finish_lines(fv.subrange(i as int, fv.len() as int), tids@, ts);
                (args_view(lines@) + rest, err)
            }),
        decreases flows.len() - i,
    {
        let ghost sub = fv.subrange(i as int, fv.len() as int);
        assert(sub.drop_first() =~= fv.subrange(i as int + 1, fv.len() as int));
        assert(sub[0] == (flows@[i as int].0, flows@[i as int].1@.map_values(|e: TraceEvent| e@)));
        let ghost before = args_view(lines@);
        let ghost t_before = tids@;
        match render_flow(flows[i].0, &flows[i].1, tids) {
            Err(e) => {
                assert(before + Seq::<Seq<char>>::empty() =~= before);
                assert(finish_lines(sub, t_before, ts) == (Seq::<Seq<char>>::empty(), Some(TraceError::Render(e))));
                return (lines, Some(TraceError::Render(e)));
            },
            Ok(ls) => {
                push_all(&mut lines, ls);
                assert(args_view(lines@) == before + args_view(ls@));
            },
        }
        i = i + 1;
    }
    assert(fv.subrange(i as int, fv.len() as int) =~= Seq::<(u64, Seq<EventView>)>::empty());
    let ghost before = args_view(lines@);
    lines.push(String::from_str("Task sequence: "));
    assert(args_view(lines@) =~= before + seq!["Task sequence: "@] + ts.subrange(0, 0).map_values(|t: u64| hex_text(t)));
    let mut j: usize = 0;
    while j < task_seq.len()
        invariant
            j <= task_seq@.len(),
            task_seq@ == ts,
            args_view(lines@) == before + seq!["Task sequence: "@] + ts.subrange(0, j as int).map_values(|t: u64| hex_text(t)),
        decreases task_seq.len() - j,
    {
        let ghost b2 = args_view(lines@);
        let h = hex_string(task_seq[j]);
        lines.push(h);
        assert(args_view(lines@) =~= b2.push(h@));
        assert(ts.subrange(0, j as int + 1).map_values(|t: u64| hex_text(t))
            =~= ts.subrange(0, j as int).map_values(|t: u64| hex_text(t)).push(hex_text(ts[j as int])));
        j = j + 1;
        assert(args_view(lines@) =~= before + seq!["Task sequence: "@] + ts.subrange(0, j as int).map_values(|t: u64| hex_text(t)));
    }
    assert(ts.subrange(0, j as int) =~= ts);
    assert(args_view(lines@) =~= before + task_lines(ts));
    (lines, None)
}

/// Runs the analysis over a whole stream held in memory and gives the lines
/// it prints, with the fault that stopped it, if any. Level 0 lists raw
/// records; level 1 groups them by thread; level 2 also anonymizes thread
/// identities and disk and kernel fingerprints.
pub fn analyse(d: &[u8], level: usize) -> (r: (Vec<String>, Option<TraceError>))
    ensures
        (args_view(r.0@), r.1) == analyse_spec(d@, level),
{
    if level == 0 {
        return analyse_raw(d);
    }
    if level > 2 {
        return (Vec::new(), Some(TraceError::BadLevel(level)));
    }
    let mut recon = Reconstructor::new();
    let mut tids = TidMap::new();
    let mut lines: Vec<String> = Vec::new();
    let mut pos: usize = 0;
    assert(args_view(lines@) =~= Seq::<Seq<char>>::empty());
    while d.len() - pos >= TE_SIZE
        invariant
            pos <= d@.len(),
            tids.wf(),
            1 <= level <= 2,
            run_spec(d@, 0, level, initial_view(), Seq::empty()) == ({
                let (rest, err) = run_spec(d@, pos as int, level, recon@, tids@);
                (args_view(lines@) + rest, err)
            }),
        decreases d.len() - pos,
    {
        let ghost before = args_view(lines@);
        match parse_event(d, pos, level) {
            Err(e) => {
                return (lines, Some(TraceError::Decode(e)));
            },
            Ok((evt, next)) => {
                proof { lemma_event_advances(d@, pos as int, level); }
                match step(&mut recon, &mut tids, evt) {
                    Err(e) => {
                        return (lines, Some(e));
                    },
                    Ok(ls) => {
                        push_all(&mut lines, ls);
                    },
                }
                pos = next;
            },
        }
        assert(args_view(lines@) =~= before + args_view(lines@).subrange(before.len() as int, args_view(lines@).len() as int));
    }
    let (tail, err) = finish(recon, &mut tids);
    push_all(&mut lines, tail);
    (lines, err)
}

proof fn lemma_event_advances(d: Seq<u8>, pos: int, level: usize)
    requires
        event_spec(d, pos, level) is Ok,
    ensures
        event_spec(d, pos, level)->Ok_0.1 > pos,
{
}

fn analyse_raw(d: &[u8]) -> (r: (Vec<String>, Option<TraceError>))
    ensures
        (args_view(r.0@), r.1) == raw_spec(d@, 0),
{
    let mut lines: Vec<String> = Vec::new();
    let mut pos: usize = 0;
    assert(args_view(lines@) =~= Seq::<Seq<char>>::empty());
    while d.len() - pos >= TE_SIZE
        invariant
            pos <= d@.len(),
            raw_spec(d@, 0) == ({
                let (rest, err) = raw_spec(d@, pos as int);
                (args_view(lines@) + rest, err)
            }),
        decreases d.len() - pos,
    {
        let ghost before = args_view(lines@);
        match parse_event(d, pos, 0) {
            Err(e) => {
                return (lines, Some(TraceError::Decode(e)));
            },
            Ok((evt, next)) => {
                proof { lemma_event_advances(d@, pos as int, 0); }
                let mut s = String::from_str("tid: ");
                s.append(hex_string(evt.head.sscratch).as_str());
                s.append(" -> (");
                s.append(dec_string(evt.head.inout).as_str());
                s.append(")[");
                s.append(hex_string(evt.head.cause).as_str());
                s.append(", ");
                s.append(hex_string(evt.head.epc).as_str());
                s.append(", ");
                s.append(dec_string(evt.head.ax[7]).as_str());
                s.append("]; pid: ");
                s.append(hex_string(evt.head.satp).as_str());
                lines.push(s);
                assert(args_view(lines@) =~= before.push(raw_line(evt@)));
                if evt.head.ax[7] >= MAX_SYSCALL_NBR {
                    return (lines, Some(TraceError::UnknownSyscall(evt.head.ax[7])));
                }
                pos = next;
            },
        }
    }
    (lines, None)
}

} // verus!
