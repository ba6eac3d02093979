//! Trace records: the wire layout of heads and payloads, and their decoding
//! from a byte stream.

use vstd::prelude::*;

verus! {

pub const LK_MAGIC: u16 = 0xABCD;
/// Size in bytes of an encoded `TraceHead`.
pub const TE_SIZE: usize = 200;
/// Size in bytes of an encoded payload head.
pub const PH_SIZE: usize = 8;
/// Trap cause of a user-mode ecall.
pub const USER_ECALL: u64 = 8;
/// Direction of a record: entry into the kernel.
pub const IN: u64 = 0;
/// Direction of a record: return to user mode.
pub const OUT: u64 = 1;

/// Fixed-layout head of a trace record.
#[derive(Clone, Copy, Debug)]
pub struct TraceHead {
    pub magic: u16,
    /// size of the head itself
    pub headsize: u16,
    /// size of the whole record, head and payloads
    pub totalsize: u32,
    /// `IN` or `OUT`
    pub inout: u64,
    pub cause: u64,
    pub epc: u64,
    /// registers a0..a7; a7 holds the syscall number
    pub ax: [u64; 8],
    pub usp: u64,
    pub stack: [u64; 8],
    pub orig_a0: u64,
    pub satp: u64,
    pub tp: u64,
    /// thread identity
    pub sscratch: u64,
}

/// A kernel buffer that crossed the boundary with one argument slot.
#[derive(Clone, Debug)]
pub struct TracePayload {
    pub inout: u64,
    pub index: usize,
    pub data: Vec<u8>,
}

/// Position of an event relative to signal delivery.
#[derive(Clone, Copy, Debug, PartialEq, Eq, Structural)]
pub enum SigStage {
    Empty,
    Enter(u64),
    Exit(u64),
}

/// One syscall as seen at the boundary: its head, result and payloads.
#[derive(Clone, Debug)]
pub struct TraceEvent {
    pub head: TraceHead,
    pub result: i64,
    pub payloads: Vec<TracePayload>,
    pub signal: SigStage,
    pub raw_fmt: bool,
    pub level: usize,
}

pub ghost struct PayloadView {
    pub inout: u64,
    pub index: usize,
    pub data: Seq<u8>,
}

pub ghost struct EventView {
    pub head: TraceHead,
    pub result: i64,
    pub payloads: Seq<PayloadView>,
    pub signal: SigStage,
    pub raw_fmt: bool,
    pub level: usize,
}

impl View for TracePayload {
    type V = PayloadView;

    open spec fn view(&self) -> PayloadView {
        PayloadView { inout: self.inout, index: self.index, data: self.data@ }
    }
}

impl View for TraceEvent {
    type V = EventView;

    open spec fn view(&self) -> EventView {
        EventView {
            head: self.head,
            result: self.result,
            payloads: self.payloads@.map_values(|p: TracePayload| p@),
            signal: self.signal,
            raw_fmt: self.raw_fmt,
            level: self.level,
        }
    }
}

/// The per-thread record: completed events, and events paused by a signal.
pub struct TraceFlow {
    pub events: Vec<TraceEvent>,
    pub signal_stack: Vec<TraceEvent>,
}

pub ghost struct FlowView {
    pub events: Seq<EventView>,
    pub signal_stack: Seq<EventView>,
}

impl View for TraceFlow {
    type V = FlowView;

    open spec fn view(&self) -> FlowView {
        FlowView {
            events: self.events@.map_values(|e: TraceEvent| e@),
            signal_stack: self.signal_stack@.map_values(|e: TraceEvent| e@),
        }
    }
}

impl TraceFlow {
    pub fn new() -> (r: Self)
        ensures
            r@.events.len() == 0,
            r@.signal_stack.len() == 0,
    {
        Self { events: Vec::new(), signal_stack: Vec::new() }
    }
}

/// Copies a byte vector.
pub fn copy_bytes(v: &Vec<u8>) -> (r: Vec<u8>)
    ensures
        r@ == v@,
{
    let mut r: Vec<u8> = Vec::new();
    let mut i: usize = 0;
    while i < v.len()
        invariant
            i <= v.len(),
            r@ == v@.subrange(0, i as int),
        decreases v.len() - i,
    {
        r.push(v[i]);
        i = i + 1;
        assert(r@ =~= v@.subrange(0, i as int));
    }
    assert(r@ =~= v@);
    r
}

impl TracePayload {
    pub fn duplicate(&self) -> (r: TracePayload)
        ensures
            r@ == self@,
    {
        TracePayload { inout: self.inout, index: self.index, data: copy_bytes(&self.data) }
    }
}

impl TraceEvent {
    /// A copy of the event with the same view.
    pub fn duplicate(&self) -> (r: TraceEvent)
        ensures
            r@ == self@,
    {
        let mut payloads: Vec<TracePayload> = Vec::new();
        let mut i: usize = 0;
        while i < self.payloads.len()
            invariant
                i <= self.payloads.len(),
                payloads@.len() == i,
                forall|j: int| 0 <= j < i ==> #[trigger] payloads@[j]@ == self.payloads@[j]@,
            decreases self.payloads.len() - i,
        {
            payloads.push(self.payloads[i].duplicate());
            i = i + 1;
        }
        assert(payloads@.map_values(|p: TracePayload| p@)
            =~= self.payloads@.map_values(|p: TracePayload| p@));
        TraceEvent {
            head: self.head,
            result: self.result,
            payloads,
            signal: self.signal,
            raw_fmt: self.raw_fmt,
            level: self.level,
        }
    }
}

/// Why a record could not be decoded.
#[derive(Clone, Copy, Debug, PartialEq, Eq, Structural)]
pub enum DecodeError {
    /// the stream ends inside a record
    Truncated,
    /// the head does not start with `LK_MAGIC`
    BadMagic,
    /// the head's own size field is not `TE_SIZE`
    BadHeadSize,
    /// the trap cause is not a user ecall
    BadCause,
    /// `totalsize` is smaller than the head
    BadTotalSize,
    /// a payload runs past the end of its record
    BadPayload,
}

pub open spec fn le16(d: Seq<u8>, off: int) -> nat {
    d[off] as nat + 256 * d[off + 1] as nat
}

pub open spec fn le32(d: Seq<u8>, off: int) -> nat {
    le16(d, off) + 65536 * le16(d, off + 2)
}

pub open spec fn le64(d: Seq<u8>, off: int) -> nat {
    le32(d, off) + 4294967296 * le32(d, off + 4)
}

fn read_u16(d: &[u8], off: usize) -> (r: u16)
    requires
        off + 2 <= d@.len(),
        d@.len() <= usize::MAX,
    ensures
        r == le16(d@, off as int),
{
    d[off] as u16 + 256 * (d[off + 1] as u16)
}

/// Little-endian 32-bit value at `off`.
pub fn read_u32(d: &[u8], off: usize) -> (r: u32)
    requires
        off + 4 <= d@.len(),
        d@.len() <= usize::MAX,
    ensures
        r == le32(d@, off as int),
{
    read_u16(d, off) as u32 + 65536 * (read_u16(d, off + 2) as u32)
}

/// Little-endian 64-bit value at `off`.
pub fn read_u64(d: &[u8], off: usize) -> (r: u64)
    requires
        off + 8 <= d@.len(),
        d@.len() <= usize::MAX,
    ensures
        r == le64(d@, off as int),
{
    read_u32(d, off) as u64 + 4294967296 * (read_u32(d, off + 4) as u64)
}

/// `h` is the head encoded at `off` in `d`.
pub open spec fn head_decodes(h: TraceHead, d: Seq<u8>, off: int) -> bool {
    &&& h.magic == le16(d, off)
    &&& h.headsize == le16(d, off + 2)
    &&& h.totalsize == le32(d, off + 4)
    &&& h.inout == le64(d, off + 8)
    &&& h.cause == le64(d, off + 16)
    &&& h.epc == le64(d, off + 24)
    &&& forall|i: int| 0 <= i < 8 ==> #[trigger] h.ax@[i] == le64(d, off + 32 + 8 * i)
    &&& h.usp == le64(d, off + 96)
    &&& forall|i: int| 0 <= i < 8 ==> #[trigger] h.stack@[i] == le64(d, off + 104 + 8 * i)
    &&& h.orig_a0 == le64(d, off + 168)
    &&& h.satp == le64(d, off + 176)
    &&& h.tp == le64(d, off + 184)
    &&& h.sscratch == le64(d, off + 192)
}

fn read_words(d: &[u8], off: usize) -> (r: [u64; 8])
    requires
        off + 64 <= d@.len(),
        d@.len() <= usize::MAX,
    ensures
        forall|i: int| 0 <= i < 8 ==> #[trigger] r@[i] == le64(d@, off + 8 * i),
{
    let mut r: [u64; 8] = [0u64; 8];
    let mut i: usize = 0;
    while i < 8
        invariant
            i <= 8,
            off + 64 <= d@.len() <= usize::MAX,
            forall|j: int| 0 <= j < i ==> #[trigger] r@[j] == le64(d@, off + 8 * j),
        decreases 8 - i,
    {
        r[i] = read_u64(d, off + 8 * i);
        i = i + 1;
    }
    r
}

/// Decodes the head at `off`.
pub fn parse_head(d: &[u8], off: usize) -> (h: TraceHead)
    requires
        off + TE_SIZE <= d@.len(),
        d@.len() <= usize::MAX,
    ensures
        head_decodes(h, d@, off as int),
{
    TraceHead {
        magic: read_u16(d, off),
        headsize: read_u16(d, off + 2),
        totalsize: read_u32(d, off + 4),
        inout: read_u64(d, off + 8),
        cause: read_u64(d, off + 16),
        epc: read_u64(d, off + 24),
        ax: read_words(d, off + 32),
        usp: read_u64(d, off + 96),
        stack: read_words(d, off + 104),
        orig_a0: read_u64(d, off + 168),
        satp: read_u64(d, off + 176),
        tp: read_u64(d, off + 184),
        sscratch: read_u64(d, off + 192),
    }
}

proof fn lemma_head_unique(h1: TraceHead, h2: TraceHead, d: Seq<u8>, off: int)
    requires
        head_decodes(h1, d, off),
        head_decodes(h2, d, off),
    ensures
        h1 == h2,
{
    assert(h1.ax =~= h2.ax) by {
        assert forall|i: int| 0 <= i < 8 implies h1.ax@[i] == h2.ax@[i] by {
            assert(h1.ax@[i] == le64(d, off + 32 + 8 * i));
        }
    }
    assert(h1.stack =~= h2.stack) by {
        assert forall|i: int| 0 <= i < 8 implies h1.stack@[i] == h2.stack@[i] by {
            assert(h1.stack@[i] == le64(d, off + 104 + 8 * i));
        }
    }
}

/// The payloads encoded in `d[start..end]`, each marked with `inout`; `None`
/// when one runs past `end`.
pub open spec fn payloads_spec(d: Seq<u8>, start: int, end: int, inout: u64) -> Option<Seq<PayloadView>>
    decreases end - start,
{
    if start >= end {
        Some(Seq::empty())
    } else if end - start < PH_SIZE {
        None
    } else {
        let size = le32(d, start + 4);
        let next = start + PH_SIZE + size;
        if next > end {
            None
        } else {
            match payloads_spec(d, next, end, inout) {
                Some(rest) => Some(seq![PayloadView {
                    inout,
                    index: le16(d, start + 2) as usize,
                    data: d.subrange(start + PH_SIZE, next),
                }] + rest),
                None => None,
            }
        }
    }
}

fn copy_range(d: &[u8], start: usize, end: usize) -> (r: Vec<u8>)
    requires
        start <= end <= d@.len(),
    ensures
        r@ == d@.subrange(start as int, end as int),
{
    let mut r: Vec<u8> = Vec::new();
    let mut i: usize = start;
    while i < end
        invariant
            start <= i <= end <= d@.len(),
            r@ == d@.subrange(start as int, i as int),
        decreases end - i,
    {
        r.push(d[i]);
        i = i + 1;
        assert(r@ =~= d@.subrange(start as int, i as int));
    }
    r
}

/// Decodes the payloads that fill `d[start..end]`.
pub fn parse_payloads(d: &[u8], start: usize, end: usize, inout: u64) -> (r: Result<Vec<TracePayload>, DecodeError>)
    requires
        start <= end <= d@.len() <= usize::MAX,
    ensures
        match payloads_spec(d@, start as int, end as int, inout) {
            Some(ps) => r is Ok && r->Ok_0@.map_values(|p: TracePayload| p@) == ps,
            None => r == Err::<Vec<TracePayload>, DecodeError>(DecodeError::BadPayload),
        },
    decreases end - start,
{
    if start >= end {
        let v: Vec<TracePayload> = Vec::new();
        assert(v@.map_values(|p: TracePayload| p@) =~= Seq::<PayloadView>::empty());
        return Ok(v);
    }
    if end - start < PH_SIZE {
        return Err(DecodeError::BadPayload);
    }
    let size = read_u32(d, start + 4) as usize;
    if size > end - start - PH_SIZE {
        return Err(DecodeError::BadPayload);
    }
    let next = start + PH_SIZE + size;
    let index = read_u16(d, start + 2) as usize;
    let data = copy_range(d, start + PH_SIZE, next);
    let first = TracePayload { inout, index, data };
    match parse_payloads(d, next, end, inout) {
        Ok(rest) => {
            let mut v: Vec<TracePayload> = Vec::new();
            v.push(first);
            let mut rest = rest;
            let ghost rv = rest@;
            v.append(&mut rest);
            proof {
                let ps = payloads_spec(d@, next as int, end as int, inout)->Some_0;
                assert(v@ == seq![first] + rv);
                assert(v@.map_values(|p: TracePayload| p@) =~= seq![first@] + ps);
            }
            Ok(v)
        },
        Err(e) => Err(e),
    }
}

/// What decoding the record at `pos` gives: the event and the position of
/// the next record, or the first fault found.
pub open spec fn event_spec(d: Seq<u8>, pos: int, level: usize) -> Result<(EventView, int), DecodeError> {
    if d.len() - pos < TE_SIZE {
        Err(DecodeError::Truncated)
    } else {
        let h = le16(d, pos);
        let hs = le16(d, pos + 2);
        let total = le32(d, pos + 4);
        let cause = le64(d, pos + 16);
        if h != LK_MAGIC {
            Err(DecodeError::BadMagic)
        } else if hs != TE_SIZE {
            Err(DecodeError::BadHeadSize)
        } else if cause != USER_ECALL {
            Err(DecodeError::BadCause)
        } else if total < hs {
            Err(DecodeError::BadTotalSize)
        } else if pos + total > d.len() {
            Err(DecodeError::Truncated)
        } else {
            match payloads_spec(d, pos + TE_SIZE, pos + total, le64(d, pos + 8) as u64) {
                None => Err(DecodeError::BadPayload),
                Some(ps) => Ok((EventView {
                    head: choose|hd: TraceHead| head_decodes(hd, d, pos),
                    result: 0,
                    payloads: ps,
                    signal: SigStage::Empty,
                    raw_fmt: false,
                    level,
                }, pos + total)),
            }
        }
    }
}

/// Decodes the record that starts at `pos`; gives the event and the
/// position just past the record.
pub fn parse_event(d: &[u8], pos: usize, level: usize) -> (r: Result<(TraceEvent, usize), DecodeError>)
    requires
        pos <= d@.len(),
    ensures
        match event_spec(d@, pos as int, level) {
            Ok((ev, next)) => r is Ok && r->Ok_0.0@ == ev && r->Ok_0.1 == next,
            Err(e) => r == Err::<(TraceEvent, usize), DecodeError>(e),
        },
{
    if d.len() - pos < TE_SIZE {
        return Err(DecodeError::Truncated);
    }
    let head = parse_head(d, pos);
    if head.magic != LK_MAGIC {
        return Err(DecodeError::BadMagic);
    }
    if head.headsize as usize != TE_SIZE {
        return Err(DecodeError::BadHeadSize);
    }
    if head.cause != USER_ECALL {
        return Err(DecodeError::BadCause);
    }
    if head.totalsize < head.headsize as u32 {
        return Err(DecodeError::BadTotalSize);
    }
    let total = head.totalsize as usize;
    if total > d.len() - pos {
        return Err(DecodeError::Truncated);
    }
    proof {
        let h2 = choose|hd: TraceHead| head_decodes(hd, d@, pos as int);
        lemma_head_unique(head, h2, d@, pos as int);
    }
    match parse_payloads(d, pos + TE_SIZE, pos + total, head.inout) {
        Ok(payloads) => {
            let evt = TraceEvent {
                head,
                result: 0,
                payloads,
                signal: SigStage::Empty,
                raw_fmt: false,
                level,
            };
            Ok((evt, pos + total))
        },
        Err(e) => Err(e),
    }
}

} // verus!
