//! Rendering of completed events: argument decoding per syscall, result
//! rendering, and the anonymization of thread identities.

use vstd::prelude::*;
use crate::names::{radix_digits, digit_char, push_radix, digit_str};
use vstd::utf8::{valid_utf8, decode_utf8};
use crate::event::{TraceEvent, TraceHead, EventView, PayloadView, SigStage, le32, le64, read_u32, read_u64, OUT, USER_ECALL};
use crate::names::{hex_text, oct_text, dec_text, signed_text, errno_text, sig_text, prot_text, map_text, sa_flag_text};
use crate::names::{hex_string, oct_string, dec_string, signed_string, errno_name, sig_name, prot_name, map_name, sa_flag_name};
use crate::sysno::{SYS_IOCTL, SYS_FCNTL, SYS_DUP3, SYS_MKDIRAT, SYS_FCHMODAT, SYS_FCHOWNAT, SYS_CLOSE, SYS_LSEEK, SYS_SENDFILE, SYS_WRITEV, SYS_EXIT_GROUP, SYS_SET_ROBUST_LIST, SYS_CLOCK_GETTIME, SYS_MOUNT, SYS_MSYNC, SYS_MUNMAP, SYS_PRLIMIT64, SYS_GETRANDOM, SYS_GETTID, SYS_GETGID, SYS_GETEGID, SYS_GETUID, SYS_GETEUID, SYS_TGKILL, SYS_GETDENTS64, SYS_FACCESSAT, SYS_GETCWD, SYS_CHDIR, SYS_OPENAT, SYS_UNLINKAT, SYS_READ, SYS_WRITE, SYS_FSTATAT, SYS_SET_TID_ADDRESS, SYS_UNAME, SYS_BRK, SYS_MMAP, SYS_MPROTECT, SYS_KILL, SYS_RT_SIGACTION, SYS_RT_SIGPROCMASK, SYS_CLONE, SYS_EXECVE, SYS_GETPID, SYS_GETPPID, SYS_WAIT4};

verus! {

/// Stable sequential names for raw thread identities, in order of first use.
pub struct TidMap {
    raw: Vec<i64>,
}

impl View for TidMap {
    type V = Seq<i64>;

    closed spec fn view(&self) -> Seq<i64> {
        self.raw@
    }
}

/// Name given to the `i`-th distinct identity.
pub open spec fn tid_name(i: nat) -> Seq<char> {
    "tid_"@ + radix_digits(i, 10)
}

/// Position of `t` in `raw`, or `raw.len()` when absent.
pub open spec fn tid_index(raw: Seq<i64>, t: i64) -> nat {
    if raw.contains(t) {
        choose|i: nat| i < raw.len() && raw[i as int] == t
    } else {
        raw.len()
    }
}

/// The identities after masking `t`.
pub open spec fn tid_after(raw: Seq<i64>, t: i64) -> Seq<i64> {
    if raw.contains(t) { raw } else { raw.push(t) }
}

impl TidMap {
    pub open spec fn wf(&self) -> bool {
        self@.no_duplicates()
    }

    pub fn new() -> (r: Self)
        ensures
            r.wf(),
            r@ == Seq::<i64>::empty(),
    {
        TidMap { raw: Vec::new() }
    }

    /// The stable name of a raw thread identity, allocating the next one on
    /// first use.
    pub fn mask_tid(&mut self, oid: i64) -> (r: String)
        requires
            old(self).wf(),
        ensures
            final(self).wf(),
            final(self)@ == tid_after(old(self)@, oid),
            r@ == tid_name(tid_index(old(self)@, oid)),
    {
        let mut i: usize = 0;
        while i < self.raw.len()
            invariant
                i <= self.raw@.len(),
                self.raw@ == old(self).raw@,
                self.raw@.no_duplicates(),
                forall|j: int| 0 <= j < i ==> self.raw@[j] != oid,
            decreases self.raw.len() - i,
        {
            if self.raw[i] == oid {
                proof {
                    let k = choose|k: nat| k < self.raw@.len() && self.raw@[k as int] == oid;
                    assert(k == i) by {
                        if k != i {
                            assert(self.raw@.no_duplicates());
                        }
                    }
                }
                return self.name_of(i);
            }
            i = i + 1;
        }
        assert(!self.raw@.contains(oid));
        let n = self.raw.len();
        self.raw.push(oid);
        proof {
            assert forall|a: int, b: int| 0 <= a < b < self.raw@.len() implies self.raw@[a] != self.raw@[b] by {
                if b == n as int {
                    assert(old(self).raw@.contains(self.raw@[a]) || true);
                }
            }
        }
        self.name_of(n)
    }

    fn name_of(&self, i: usize) -> (r: String)
        ensures
            r@ == tid_name(i as nat),
    {
        let mut s = String::from_str("tid_");
        push_radix(&mut s, i as u64, 10);
        s
    }
}

proof fn lemma_digit_char_injective(a: nat, b: nat)
    requires
        a < 16,
        b < 16,
        digit_char(a) == digit_char(b),
    ensures
        a == b,
{
}

proof fn lemma_radix_len(n: nat, b: nat)
    requires
        2 <= b <= 16,
    ensures
        radix_digits(n, b).len() >= 1,
        n >= b ==> radix_digits(n, b).len() >= 2,
    decreases n,
{
    if n >= b {
        assert(n / b < n) by (nonlinear_arith)
            requires b >= 2, n >= b;
        lemma_radix_len(n / b, b);
    }
}

proof fn lemma_radix_injective(n: nat, m: nat, b: nat)
    requires
        2 <= b <= 16,
        radix_digits(n, b) == radix_digits(m, b),
    ensures
        n == m,
    decreases n,
{
    lemma_radix_len(n / b, b);
    lemma_radix_len(m / b, b);
    if n < b && m < b {
        assert(radix_digits(n, b)[0] == digit_char(n));
        lemma_digit_char_injective(n, m);
    } else if n < b {
        lemma_radix_len(m, b);
    } else if m < b {
        lemma_radix_len(n, b);
    } else {
        let dn = radix_digits(n, b);
        assert(dn.last() == digit_char(n % b));
        assert(radix_digits(m, b).last() == digit_char(m % b));
        assert(n % b < b && m % b < b) by (nonlinear_arith) requires b >= 2;
        lemma_digit_char_injective(n % b, m % b);
        assert(dn.drop_last() == radix_digits(n / b, b));
        assert(radix_digits(m, b).drop_last() == radix_digits(m / b, b));
        assert(n / b < n) by (nonlinear_arith)
            requires b >= 2, n >= b;
        lemma_radix_injective(n / b, m / b, b);
        assert(n == b * (n / b) + n % b) by (nonlinear_arith) requires b >= 2;
        assert(m == b * (m / b) + m % b) by (nonlinear_arith) requires b >= 2;
    }
}

proof fn lemma_tid_index(raw: Seq<i64>, t: i64)
    requires
        raw.no_duplicates(),
    ensures
        tid_index(raw, t) < tid_after(raw, t).len(),
        tid_after(raw, t)[tid_index(raw, t) as int] == t,
        tid_after(raw, t).no_duplicates(),
        raw.is_prefix_of(tid_after(raw, t)),
{
    if raw.contains(t) {
        let k = choose|k: nat| k < raw.len() && raw[k as int] == t;
    } else {
        let r2 = raw.push(t);
        assert forall|a: int, b: int| 0 <= a < b < r2.len() implies r2[a] != r2[b] by {
            if b == raw.len() {
                assert(r2[a] == raw[a]);
            }
        }
    }
}

/// Anonymization stability: masking two different identities gives two
/// different names, and masking an identity again, after others, gives the
/// name it got the first time.
pub proof fn law_tid_names_stable(raw: Seq<i64>, t1: i64, t2: i64)
    requires
        raw.no_duplicates(),
    ensures
        ({
            let r1 = tid_after(raw, t1);
            let r2 = tid_after(r1, t2);
            &&& t1 != t2 ==> tid_name(tid_index(raw, t1)) != tid_name(tid_index(r1, t2))
            &&& tid_name(tid_index(r2, t1)) == tid_name(tid_index(raw, t1))
            &&& tid_name(tid_index(r1, t1)) == tid_name(tid_index(raw, t1))
        }),
{
    let r1 = tid_after(raw, t1);
    let r2 = tid_after(r1, t2);
    lemma_tid_index(raw, t1);
    lemma_tid_index(r1, t2);
    lemma_tid_index(r2, t1);
    lemma_tid_index(r1, t1);
    let i1 = tid_index(raw, t1);
    assert(r1.contains(t1)) by { assert(r1[i1 as int] == t1); }
    assert(r2.contains(t1)) by { assert(r2[i1 as int] == t1); }
    let j = tid_index(r2, t1);
    assert(j == i1) by { assert(r2[j as int] == r2[i1 as int]); }
    let j1 = tid_index(r1, t1);
    assert(j1 == i1) by { assert(r1[j1 as int] == r1[i1 as int]); }
    if t1 != t2 {
        let i2 = tid_index(r1, t2);
        assert(i1 != i2) by { assert(r2[i2 as int] == t2); assert(r2[i1 as int] == t1); }
        if tid_name(i1) == tid_name(i2) {
            reveal_strlit("tid_");
            assert(tid_name(i1).subrange(4, tid_name(i1).len() as int) =~= radix_digits(i1, 10));
            assert(tid_name(i2).subrange(4, tid_name(i2).len() as int) =~= radix_digits(i2, 10));
            lemma_radix_injective(i1, i2, 10);
        }
    }
}

/// Why an event could not be rendered: the stream broke a structural rule.
#[derive(Clone, Copy, Debug, PartialEq, Eq, Structural)]
pub enum RenderError {
    /// a payload that the syscall needs is absent
    MissingPayload,
    /// a payload has the wrong slot, direction or size
    BadPayload,
    /// a string payload has no terminating NUL
    UnterminatedString,
    /// `rt_sigprocmask` with an unknown `how`
    BadHow,
    /// the event was not trapped by a user ecall
    BadCause,
}

/// `k` is the position of the first NUL in `d`.
pub open spec fn first_nul(d: Seq<u8>, k: int) -> bool {
    0 <= k < d.len() && d[k] == 0 && forall|j: int| 0 <= j < k ==> d[j] != 0
}

/// The bytes before the first NUL, if `d` holds one.
pub open spec fn cstr_of(d: Seq<u8>) -> Option<Seq<u8>> {
    if exists|k: int| first_nul(d, k) {
        Some(d.subrange(0, choose|k: int| first_nul(d, k)))
    } else {
        None
    }
}

/// Position of the first NUL in `d`.
fn find_nul(d: &[u8]) -> (r: Option<usize>)
    ensures
        match r {
            Some(k) => first_nul(d@, k as int) && cstr_of(d@) == Some(d@.subrange(0, k as int)),
            None => cstr_of(d@) is None,
        },
{
    let mut i: usize = 0;
    while i < d.len()
        invariant
            i <= d@.len(),
            forall|j: int| 0 <= j < i ==> d@[j] != 0,
        decreases d.len() - i,
    {
        if d[i] == 0 {
            proof {
                assert(first_nul(d@, i as int));
                let k = choose|k: int| first_nul(d@, k);
                assert(k == i as int) by {
                    if k < i { } else if k > i { assert(d@[i as int] == 0); }
                }
            }
            return Some(i);
        }
        i = i + 1;
    }
    None
}

/// One byte as `escape_ascii` shows it.
pub open spec fn escape_byte(b: u8) -> Seq<char> {
    if b == 9 { seq!['\\', 't'] }
    else if b == 13 { seq!['\\', 'r'] }
    else if b == 10 { seq!['\\', 'n'] }
    else if b == 92 { seq!['\\', '\\'] }
    else if b == 39 { seq!['\\', '\''] }
    else if b == 34 { seq!['\\', '"'] }
    else if 0x20 <= b <= 0x7e { seq![b as char] }
    else { seq!['\\', 'x', digit_char((b / 16) as nat), digit_char((b % 16) as nat)] }
}

pub open spec fn escaped(bs: Seq<u8>) -> Seq<char>
    decreases bs.len(),
{
    if bs.len() == 0 { Seq::empty() } else { escaped(bs.drop_last()) + escape_byte(bs.last()) }
}

/// A C string as its `Debug` rendering shows it: quoted, bytes escaped.
pub open spec fn debug_text(bs: Seq<u8>) -> Seq<char> {
    seq!['"'] + escaped(bs) + seq!['"']
}

/// Relies on `String::push`: appends one character.
#[verifier::external_body]
fn push_char(s: &mut String, c: char)
    ensures
        final(s)@ == old(s)@.push(c),
{
    s.push(c)
}

/// Relies on `String::from_utf8`: succeeds exactly on well-formed UTF-8 and
/// holds the decoded characters.
#[verifier::external_body]
fn utf8_string(b: Vec<u8>) -> (r: Option<String>)
    ensures
        r is Some <==> valid_utf8(b@),
        r is Some ==> r->Some_0@ == decode_utf8(b@),
{
    String::from_utf8(b).ok()
}

fn push_escaped_byte(s: &mut String, b: u8)
    ensures
        final(s)@ == old(s)@ + escape_byte(b),
{
    proof {
        reveal_strlit("\\t"); reveal_strlit("\\r"); reveal_strlit("\\n");
        reveal_strlit("\\\\"); reveal_strlit("\\'"); reveal_strlit("\\\""); reveal_strlit("\\x");
    }
    if b == 9 { s.append("\\t"); }
    else if b == 13 { s.append("\\r"); }
    else if b == 10 { s.append("\\n"); }
    else if b == 92 { s.append("\\\\"); }
    else if b == 39 { s.append("\\'"); }
    else if b == 34 { s.append("\\\""); }
    else if 0x20 <= b && b <= 0x7e { push_char(s, b as char); }
    else {
        s.append("\\x");
        s.append(digit_str((b / 16) as u64));
        s.append(digit_str((b % 16) as u64));
    }
    assert(final(s)@ =~= old(s)@ + escape_byte(b));
}

/// The `Debug` rendering of the C string in `d[..k]`.
fn debug_string(d: &[u8], k: usize) -> (r: String)
    requires
        k <= d@.len(),
    ensures
        r@ == debug_text(d@.subrange(0, k as int)),
{
    let mut s = String::new();
    push_char(&mut s, '"');
    let mut i: usize = 0;
    while i < k
        invariant
            i <= k <= d@.len(),
            s@ == seq!['"'] + escaped(d@.subrange(0, i as int)),
        decreases k - i,
    {
        push_escaped_byte(&mut s, d[i]);
        i = i + 1;
        assert(d@.subrange(0, i as int).drop_last() =~= d@.subrange(0, i as int - 1));
        assert(s@ =~= seq!['"'] + escaped(d@.subrange(0, i as int)));
    }
    push_char(&mut s, '"');
    s
}

/// What a string payload shows: its `Debug` form, or a marker when it holds no NUL.
pub open spec fn debug_or_marker(d: Seq<u8>) -> Seq<char> {
    match cstr_of(d) {
        Some(b) => debug_text(b),
        None => "[!parse_str_err!]"@,
    }
}

fn debug_or_marker_string(d: &[u8]) -> (r: String)
    ensures
        r@ == debug_or_marker(d@),
{
    match find_nul(d) {
        Some(k) => debug_string(d, k),
        None => String::from_str("[!parse_str_err!]"),
    }
}

/// What a path payload shows: the quoted text, or a marker when it is not UTF-8.
pub open spec fn quoted_or_marker(b: Seq<u8>) -> Seq<char> {
    if valid_utf8(b) { "\""@ + decode_utf8(b) + "\""@ } else { "[!parse_str_err!]"@ }
}

fn copy_prefix(d: &[u8], k: usize) -> (r: Vec<u8>)
    requires
        k <= d@.len(),
    ensures
        r@ == d@.subrange(0, k as int),
{
    let mut r: Vec<u8> = Vec::new();
    let mut i: usize = 0;
    while i < k
        invariant
            i <= k <= d@.len(),
            r@ == d@.subrange(0, i as int),
        decreases k - i,
    {
        r.push(d[i]);
        i = i + 1;
        assert(r@ =~= d@.subrange(0, i as int));
    }
    r
}

fn quoted_string(d: &[u8], k: usize) -> (r: String)
    requires
        k <= d@.len(),
    ensures
        r@ == quoted_or_marker(d@.subrange(0, k as int)),
{
    let bytes = copy_prefix(d, k);
    match utf8_string(bytes) {
        Some(text) => {
            let mut s = String::from_str("\"");
            s.append(text.as_str());
            s.append("\"");
            s
        },
        None => String::from_str("[!parse_str_err!]"),
    }
}

/// `ax[0]` value that stands for the current directory.
pub const AT_FDCWD: u64 = 0xffff_ffff_ffff_ff9c;
pub const SIG_BLOCK: u64 = 0;
pub const SIG_UNBLOCK: u64 = 1;
pub const SIG_SETMASK: u64 = 2;
/// Size of the kernel stat layout read from a payload.
pub const KSTAT_SIZE: usize = 120;
pub const UTS_FIELD: usize = 65;
pub const UTSNAME_SIZE: usize = 390;

/// The kernel `stat` fields that rendering shows.
#[derive(Clone, Copy, Debug)]
pub struct KStat {
    pub st_dev: u64,
    pub st_ino: u64,
    pub st_mode: u32,
    pub st_nlink: u32,
    pub st_uid: u32,
    pub st_gid: u32,
    pub st_rdev: u64,
    pub st_size: u64,
    pub st_blksize: u32,
    pub st_blocks: u64,
}

/// A user signal action: handler address, flags and mask.
#[derive(Clone, Copy, Debug)]
pub struct SigAction {
    pub handler: u64,
    pub flags: u64,
    pub mask: u64,
}

pub open spec fn args_view(v: Seq<String>) -> Seq<Seq<char>> {
    v.map_values(|s: String| s@)
}

/// The outcome of rendering one event: name, shown argument count, result
/// text, argument slots and the identities masked so far.
pub ghost struct Rendered {
    pub name: Seq<char>,
    pub argc: usize,
    pub result: Seq<char>,
    pub args: Seq<Seq<char>>,
    pub tids: Seq<i64>,
}

pub open spec fn common_result(r: i64) -> Seq<char> {
    if r <= 0 { errno_text(r) } else { hex_text(r as u64) }
}

pub open spec fn hex_result(r: i64) -> Seq<char> {
    hex_text(r as u64)
}

pub open spec fn plain(name: Seq<char>, argc: usize, result: Seq<char>, args: Seq<Seq<char>>, tids: Seq<i64>) -> Result<Rendered, RenderError> {
    Ok(Rendered { name, argc, result, args, tids })
}

pub open spec fn at_fdcwd(e: EventView, args: Seq<Seq<char>>) -> Seq<Seq<char>> {
    if e.head.ax[0] == AT_FDCWD { args.update(0, "AT_FDCWD"@) } else { args }
}

/// Rewrites slot `index` with the path carried by the first payload.
pub open spec fn path_spec(e: EventView, args: Seq<Seq<char>>, index: usize) -> Result<Seq<Seq<char>>, RenderError> {
    if e.payloads.len() == 0 {
        Err(RenderError::MissingPayload)
    } else if e.payloads[0].index != index {
        Err(RenderError::BadPayload)
    } else {
        match cstr_of(e.payloads[0].data) {
            None => Err(RenderError::UnterminatedString),
            Some(b) => Ok(args.update(index as int, quoted_or_marker(b))),
        }
    }
}

#[verifier::opaque]
pub open spec fn path_call(e: EventView, args: Seq<Seq<char>>, tids: Seq<i64>, index: usize, name: Seq<char>, argc: usize) -> Result<Rendered, RenderError> {
    match path_spec(e, args, index) {
        Ok(a) => plain(name, argc, common_result(e.result), a, tids),
        Err(err) => Err(err),
    }
}

pub open spec fn kstat_text(d: Seq<u8>, level: usize) -> Seq<char> {
    if level != 2 {
        "{dev="@ + hex_text(le64(d, 0) as u64) + ", ino="@ + dec_text(le64(d, 8) as u64)
            + ", mode="@ + oct_text(le32(d, 16) as u64) + ", nlink="@ + dec_text(le32(d, 20) as u64)
            + ", rdev="@ + dec_text(le64(d, 32) as u64) + ", size="@ + dec_text(le64(d, 48) as u64)
            + ", blksize="@ + dec_text(le32(d, 56) as u64) + ", blocks="@ + dec_text(le64(d, 64) as u64) + "}"@
    } else {
        "{dev, ino, mode="@ + oct_text(le32(d, 16) as u64) + ", nlink="@ + dec_text(le32(d, 20) as u64)
            + ", rdev="@ + dec_text(le64(d, 32) as u64) + ", size="@ + dec_text(le64(d, 48) as u64)
            + ", blksize, blocks="@ + dec_text(le64(d, 64) as u64) + "}"@
    }
}

#[verifier::opaque]
pub open spec fn fstatat_spec(e: EventView, args: Seq<Seq<char>>, tids: Seq<i64>) -> Result<Rendered, RenderError> {
    match path_spec(e, at_fdcwd(e, args), 1) {
        Err(err) => Err(err),
        Ok(a) => if e.result != 0 {
            plain("fstatat"@, 4, common_result(e.result), a, tids)
        } else if e.payloads.len() != 2 {
            Err(RenderError::MissingPayload)
        } else if e.payloads[1].index != 2 {
            plain("fstatat"@, 4, common_result(e.result), a, tids)
        } else if e.payloads[1].inout != OUT || e.payloads[1].data.len() < KSTAT_SIZE {
            Err(RenderError::BadPayload)
        } else {
            plain("fstatat"@, 4, common_result(e.result), a.update(2, kstat_text(e.payloads[1].data, e.level)), tids)
        },
    }
}

/// Names joined with `, `.
pub open spec fn join_comma(parts: Seq<Seq<char>>) -> Seq<char>
    decreases parts.len(),
{
    if parts.len() == 0 {
        Seq::empty()
    } else if parts.len() == 1 {
        parts[0]
    } else {
        join_comma(parts.drop_last()) + ", "@ + parts.last()
    }
}

pub open spec fn braced(parts: Seq<Seq<char>>) -> Seq<char> {
    "{"@ + join_comma(parts) + "}"@
}

pub open spec fn uts_field(d: Seq<u8>, i: int) -> Seq<u8> {
    d.subrange(UTS_FIELD * i, UTS_FIELD * i + UTS_FIELD)
}

#[verifier::opaque]
pub open spec fn uname_spec(e: EventView, args: Seq<Seq<char>>, tids: Seq<i64>) -> Result<Rendered, RenderError> {
    if e.payloads.len() != 1 {
        Err(RenderError::MissingPayload)
    } else if e.payloads[0].inout != OUT || e.payloads[0].index != 0 || e.payloads[0].data.len() < UTSNAME_SIZE {
        Err(RenderError::BadPayload)
    } else {
        let d = e.payloads[0].data;
        if exists|i: int| 0 <= i < 6 && !(e.level == 2 && i == 3) && cstr_of(#[trigger] uts_field(d, i)) is None {
            Err(RenderError::UnterminatedString)
        } else {
            let parts = Seq::new(6, |i: int| if e.level == 2 && i == 3 {
                "%timestamp%"@
            } else {
                debug_text(cstr_of(uts_field(d, i))->Some_0)
            });
            plain("uname"@, 1, hex_result(e.result), args.update(0, braced(parts)), tids)
        }
    }
}

#[verifier::opaque]
pub open spec fn mmap_spec(e: EventView, args: Seq<Seq<char>>, tids: Seq<i64>) -> Result<Rendered, RenderError> {
    let a = if e.raw_fmt {
        args
    } else {
        let a0 = if e.head.ax[0] == 0 { args.update(0, "NULL"@) } else { args };
        let a2 = a0.update(2, prot_text(e.head.ax[2])).update(3, map_text(e.head.ax[3]));
        if e.head.ax[4] == u64::MAX { a2.update(4, "-1"@) } else { a2 }
    };
    plain("mmap"@, 6, if e.result <= 0 { "MAP_FAILED"@ } else { hex_result(e.result) }, a, tids)
}

#[verifier::opaque]
pub open spec fn mprotect_spec(e: EventView, args: Seq<Seq<char>>, tids: Seq<i64>) -> Result<Rendered, RenderError> {
    let a0 = if e.head.ax[0] == 0 { args.update(0, "NULL"@) } else { args };
    plain("mprotect"@, 3, common_result(e.result), a0.update(2, prot_text(e.head.ax[2])), tids)
}

/// The `{ handler, flags, mask }` rendering of a signal action.
pub open spec fn sigaction_text(handler: u64, flags: u64, mask: u64) -> Seq<char> {
    "{ handler: "@ + hex_text(handler) + ", flags: "@ + sa_flag_text(flags) + ", mask: "@ + hex_text(mask) + " }"@
}

#[verifier::opaque]
pub open spec fn sigaction_spec(e: EventView, args: Seq<Seq<char>>, tids: Seq<i64>) -> Result<Rendered, RenderError> {
    let a0 = args.update(0, sig_text(e.head.ax[0]));
    if e.payloads.len() > 0 {
        let p = e.payloads[0];
        if p.data.len() < 24 || p.index >= 7 {
            Err(RenderError::BadPayload)
        } else {
            plain("rt_sigaction"@, 3, hex_result(e.result),
                a0.update(p.index as int, sigaction_text(le64(p.data, 0) as u64, le64(p.data, 8) as u64, le64(p.data, 16) as u64)), tids)
        }
    } else {
        plain("rt_sigaction"@, 3, hex_result(e.result), a0, tids)
    }
}

/// Renders one signal-set slot; `used` payloads were consumed before it.
pub open spec fn sigset_slot(e: EventView, reg: u64, used: int, label: Seq<char>) -> Result<(Seq<char>, int), RenderError> {
    if reg == 0 {
        Ok((label + "NULL"@, used))
    } else if used >= e.payloads.len() {
        Err(RenderError::MissingPayload)
    } else if e.payloads[used].data.len() < 8 {
        Err(RenderError::BadPayload)
    } else {
        Ok((label + hex_text(le64(e.payloads[used].data, 0) as u64), used + 1))
    }
}

#[verifier::opaque]
pub open spec fn sigprocmask_spec(e: EventView, args: Seq<Seq<char>>, tids: Seq<i64>) -> Result<Rendered, RenderError> {
    let how = e.head.ax[0];
    if how != SIG_BLOCK && how != SIG_UNBLOCK && how != SIG_SETMASK {
        Err(RenderError::BadHow)
    } else {
        let how_text = if how == SIG_BLOCK { "SIG_BLOCK"@ } else if how == SIG_UNBLOCK { "SIG_UNBLOCK"@ } else { "SIG_SETMASK"@ };
        match sigset_slot(e, e.head.ax[1], 0, "nset: "@) {
            Err(err) => Err(err),
            Ok((n, u1)) => match sigset_slot(e, e.head.ax[2], u1, "oset: "@) {
                Err(err) => Err(err),
                Ok((o, u2)) => if u2 != e.payloads.len() {
                    Err(RenderError::BadPayload)
                } else {
                    plain("rt_sigprocmask"@, 4, hex_result(e.result), args.update(0, how_text).update(1, n).update(2, o), tids)
                },
            },
        }
    }
}

/// `write` to stdout/stderr and `read` from stdin show their one buffer payload
/// when it is an exit payload for slot 1; otherwise slot 1 stays as it is.
#[verifier::opaque]
pub open spec fn rw_spec(e: EventView, args: Seq<Seq<char>>, tids: Seq<i64>, name: Seq<char>, shown: bool) -> Result<Rendered, RenderError> {
    let a0 = args.update(0, signed_text(e.head.ax[0] as i64));
    if shown && e.payloads.len() == 1 && e.payloads[0].inout == OUT && e.payloads[0].index == 1 {
        plain(name, 3, hex_result(e.result), a0.update(1, debug_or_marker(e.payloads[0].data)), tids)
    } else {
        plain(name, 3, hex_result(e.result), a0, tids)
    }
}

/// Slot 0 text, argv and envp gathered from the payloads of `execve`.
pub open spec fn execve_fold(ps: Seq<PayloadView>, a0: Seq<char>) -> (Seq<char>, Seq<Seq<char>>, Seq<Seq<char>>)
    decreases ps.len(),
{
    if ps.len() == 0 {
        (a0, Seq::empty(), Seq::empty())
    } else {
        let (x, av, ev) = execve_fold(ps.drop_last(), a0);
        let p = ps.last();
        let t = debug_or_marker(p.data);
        if p.index == 0 { (t, av, ev) }
        else if p.index == 1 { (x, av.push(t), ev) }
        else if p.index == 2 { (x, av, ev.push(t)) }
        else { (x, av, ev) }
    }
}

#[verifier::opaque]
pub open spec fn execve_spec(e: EventView, args: Seq<Seq<char>>, tids: Seq<i64>) -> Result<Rendered, RenderError> {
    let (x, av, ev) = execve_fold(e.payloads, args[0]);
    plain("execve"@, 3, hex_result(e.result), args.update(0, x).update(1, braced(av)).update(2, braced(ev)), tids)
}

/// The name of `t` and the identities after masking it.
pub open spec fn mask_spec(tids: Seq<i64>, t: i64) -> (Seq<char>, Seq<i64>) {
    (tid_name(tid_index(tids, t)), tid_after(tids, t))
}

/// Result masked at level 2 (when `cond`), else in hexadecimal.
#[verifier::opaque]
pub open spec fn masked_result(e: EventView, args: Seq<Seq<char>>, tids: Seq<i64>, name: Seq<char>, argc: usize, cond: bool) -> Result<Rendered, RenderError> {
    if cond {
        plain(name, argc, mask_spec(tids, e.result).0, args, mask_spec(tids, e.result).1)
    } else {
        plain(name, argc, hex_result(e.result), args, tids)
    }
}

#[verifier::opaque]
pub open spec fn kill_spec(e: EventView, args: Seq<Seq<char>>, tids: Seq<i64>) -> Result<Rendered, RenderError> {
    if e.level == 2 {
        let (n, t1) = mask_spec(tids, e.head.ax[0] as i64);
        plain("kill"@, 2, hex_result(e.result), args.update(0, n), t1)
    } else {
        plain("kill"@, 2, hex_result(e.result), args, tids)
    }
}

#[verifier::opaque]
pub open spec fn wait4_spec(e: EventView, args: Seq<Seq<char>>, tids: Seq<i64>) -> Result<Rendered, RenderError> {
    if e.level == 2 {
        let (n, t1) = mask_spec(tids, e.head.ax[0] as i64);
        let (r, t2) = mask_spec(t1, e.result);
        plain("wait4"@, 4, r, args.update(0, n), t2)
    } else {
        plain("wait4"@, 4, hex_result(e.result), args, tids)
    }
}

/// Name and shown argument count of syscalls rendered the common way.
pub open spec fn common_entry(sysno: u64) -> Option<(Seq<char>, usize)> {
    if sysno == SYS_IOCTL { Some(("ioctl"@, 3usize)) }
    else if sysno == SYS_FCNTL { Some(("fcntl"@, 3usize)) }
    else if sysno == SYS_DUP3 { Some(("dup3"@, 3usize)) }
    else if sysno == SYS_MKDIRAT { Some(("mkdirat"@, 3usize)) }
    else if sysno == SYS_FCHMODAT { Some(("fchmodat"@, 4usize)) }
    else if sysno == SYS_FCHOWNAT { Some(("fchownat"@, 5usize)) }
    else if sysno == SYS_CLOSE { Some(("close"@, 1usize)) }
    else if sysno == SYS_LSEEK { Some(("lseek"@, 3usize)) }
    else if sysno == SYS_SENDFILE { Some(("sendfile"@, 4usize)) }
    else if sysno == SYS_WRITEV { Some(("writev"@, 3usize)) }
    else if sysno == SYS_EXIT_GROUP { Some(("exit_group"@, 1usize)) }
    else if sysno == SYS_SET_ROBUST_LIST { Some(("set_robust_list"@, 2usize)) }
    else if sysno == SYS_CLOCK_GETTIME { Some(("clock_gettime"@, 2usize)) }
    else if sysno == SYS_MOUNT { Some(("mount"@, 5usize)) }
    else if sysno == SYS_MSYNC { Some(("msync"@, 3usize)) }
    else if sysno == SYS_MUNMAP { Some(("munmap"@, 2usize)) }
    else if sysno == SYS_PRLIMIT64 { Some(("prlimit64"@, 4usize)) }
    else if sysno == SYS_GETRANDOM { Some(("getrandom"@, 3usize)) }
    else if sysno == SYS_GETTID { Some(("gettid"@, 0usize)) }
    else if sysno == SYS_GETGID { Some(("getgid"@, 0usize)) }
    else if sysno == SYS_GETEGID { Some(("getegid"@, 0usize)) }
    else if sysno == SYS_GETUID { Some(("getuid"@, 0usize)) }
    else if sysno == SYS_GETEUID { Some(("geteuid"@, 0usize)) }
    else if sysno == SYS_TGKILL { Some(("tgkill"@, 3usize)) }
    else if sysno == SYS_GETDENTS64 { Some(("getdents64"@, 3usize)) }
    else { None }
}

/// How an event is rendered, given the argument slots and the identities
/// masked so far.
pub open spec fn render_spec(e: EventView, args: Seq<Seq<char>>, tids: Seq<i64>) -> Result<Rendered, RenderError> {
    let n = e.head.ax[7];
    if common_entry(n) is Some {
        plain(common_entry(n)->Some_0.0, common_entry(n)->Some_0.1, common_result(e.result), args, tids)
    } else if n == SYS_FACCESSAT {
        path_call(e, at_fdcwd(e, args), tids, 1, "faccessat"@, 3)
    } else if n == SYS_GETCWD {
        path_call(e, args, tids, 0, "getcwd"@, 2)
    } else if n == SYS_CHDIR {
        path_call(e, args, tids, 0, "chdir"@, 1)
    } else if n == SYS_OPENAT {
        path_call(e, at_fdcwd(e, args), tids, 1, "openat"@, 4)
    } else if n == SYS_UNLINKAT {
        path_call(e, at_fdcwd(e, args), tids, 1, "unlinkat"@, 3)
    } else {
        render_special(e, args, tids)
    }
}

/// Rendering of the syscalls that neither use the common table nor carry a path.
#[verifier::opaque]
pub open spec fn render_special(e: EventView, args: Seq<Seq<char>>, tids: Seq<i64>) -> Result<Rendered, RenderError> {
    let n = e.head.ax[7];
    if n == SYS_READ {
        rw_spec(e, args, tids, "read"@, e.head.ax[0] == 0)
    } else if n == SYS_WRITE {
        rw_spec(e, args, tids, "write"@, e.head.ax[0] == 1 || e.head.ax[0] == 2)
    } else if n == SYS_FSTATAT {
        fstatat_spec(e, args, tids)
    } else if n == SYS_SET_TID_ADDRESS {
        masked_result(e, args, tids, "set_tid_address"@, 1, e.level == 2)
    } else if n == SYS_UNAME {
        uname_spec(e, args, tids)
    } else if n == SYS_BRK {
        plain("brk"@, 1, hex_result(e.result), args, tids)
    } else if n == SYS_MMAP {
        mmap_spec(e, args, tids)
    } else if n == SYS_MPROTECT {
        mprotect_spec(e, args, tids)
    } else if n == SYS_KILL {
        kill_spec(e, args, tids)
    } else if n == SYS_RT_SIGACTION {
        sigaction_spec(e, args, tids)
    } else if n == SYS_RT_SIGPROCMASK {
        sigprocmask_spec(e, args, tids)
    } else if n == SYS_CLONE {
        masked_result(e, args, tids, "clone"@, 5, e.result != 0 && e.level == 2)
    } else if n == SYS_EXECVE {
        execve_spec(e, args, tids)
    } else if n == SYS_GETPID {
        masked_result(e, args, tids, "getpid"@, 0, e.level == 2)
    } else if n == SYS_GETPPID {
        masked_result(e, args, tids, "getppid"@, 0, e.level == 2)
    } else if n == SYS_WAIT4 {
        wait4_spec(e, args, tids)
    } else {
        plain(Seq::empty(), 7, hex_result(e.result), args, tids)
    }
}

/// `r` (with the slots and identities left after the call) is what `spec` gives.
pub open spec fn outcome_is(
    r: Result<(&'static str, usize, String), RenderError>,
    args: Seq<String>,
    tids: Seq<i64>,
    spec: Result<Rendered, RenderError>,
) -> bool {
    match spec {
        Ok(rd) => r is Ok && r->Ok_0.0@ == rd.name && r->Ok_0.1 == rd.argc && r->Ok_0.2@ == rd.result
            && args_view(args) == rd.args && tids == rd.tids,
        Err(err) => r == Err::<(&'static str, usize, String), RenderError>(err),
    }
}

fn set_arg(args: &mut Vec<String>, i: usize, v: String)
    requires
        i < old(args)@.len(),
    ensures
        final(args)@.len() == old(args)@.len(),
        args_view(final(args)@) == args_view(old(args)@).update(i as int, v@),
{
    let ghost vv = v@;
    args[i] = v;
    assert(args_view(args@) =~= args_view(old(args)@).update(i as int, vv));
}

proof fn lemma_join_comma_push(parts: Seq<Seq<char>>, x: Seq<char>)
    ensures
        join_comma(parts.push(x)) == if parts.len() == 0 { x } else { join_comma(parts) + ", "@ + x },
{
    assert(parts.push(x).drop_last() =~= parts);
}

/// `{a, b, ...}` of the given texts.
fn braced_string(parts: &Vec<String>) -> (r: String)
    ensures
        r@ == braced(args_view(parts@)),
{
    let mut s = String::from_str("{");
    let mut i: usize = 0;
    while i < parts.len()
        invariant
            i <= parts@.len(),
            s@ == "{"@ + join_comma(args_view(parts@.subrange(0, i as int))),
        decreases parts.len() - i,
    {
        proof {
            lemma_join_comma_push(args_view(parts@.subrange(0, i as int)), parts@[i as int]@);
            assert(args_view(parts@.subrange(0, i as int + 1)) =~= args_view(parts@.subrange(0, i as int)).push(parts@[i as int]@));
        }
        if i > 0 {
            s.append(", ");
        }
        s.append(parts[i].as_str());
        i = i + 1;
    }
    assert(parts@.subrange(0, i as int) =~= parts@);
    s.append("}");
    s
}

/// Reads the fields of a kernel `stat` buffer.
pub fn parse_kstat(d: &[u8]) -> (r: Option<KStat>)
    ensures
        r is Some <==> d@.len() >= KSTAT_SIZE,
        r is Some ==> ({
            let k = r->Some_0;
            &&& k.st_dev == le64(d@, 0) && k.st_ino == le64(d@, 8)
            &&& k.st_mode == le32(d@, 16) && k.st_nlink == le32(d@, 20)
            &&& k.st_uid == le32(d@, 24) && k.st_gid == le32(d@, 28)
            &&& k.st_rdev == le64(d@, 32) && k.st_size == le64(d@, 48)
            &&& k.st_blksize == le32(d@, 56) && k.st_blocks == le64(d@, 64)
        }),
{
    if d.len() < KSTAT_SIZE {
        return None;
    }
    Some(KStat {
        st_dev: read_u64(d, 0),
        st_ino: read_u64(d, 8),
        st_mode: read_u32(d, 16),
        st_nlink: read_u32(d, 20),
        st_uid: read_u32(d, 24),
        st_gid: read_u32(d, 28),
        st_rdev: read_u64(d, 32),
        st_size: read_u64(d, 48),
        st_blksize: read_u32(d, 56),
        st_blocks: read_u64(d, 64),
    })
}

impl KStat {
    /// The brace-enclosed rendering; level 2 hides the disk identity fields.
    pub fn to_text(&self, level: usize) -> (r: String)
        ensures
            level != 2 ==> r@ == "{dev="@ + hex_text(self.st_dev) + ", ino="@ + dec_text(self.st_ino)
                + ", mode="@ + oct_text(self.st_mode as u64) + ", nlink="@ + dec_text(self.st_nlink as u64)
                + ", rdev="@ + dec_text(self.st_rdev) + ", size="@ + dec_text(self.st_size)
                + ", blksize="@ + dec_text(self.st_blksize as u64) + ", blocks="@ + dec_text(self.st_blocks) + "}"@,
            level == 2 ==> r@ == "{dev, ino, mode="@ + oct_text(self.st_mode as u64) + ", nlink="@ + dec_text(self.st_nlink as u64)
                + ", rdev="@ + dec_text(self.st_rdev) + ", size="@ + dec_text(self.st_size)
                + ", blksize, blocks="@ + dec_text(self.st_blocks) + "}"@,
    {
        let mut s: String;
        if level != 2 {
            s = String::from_str("{dev=");
            s.append(hex_string(self.st_dev).as_str());
            s.append(", ino=");
            s.append(dec_string(self.st_ino).as_str());
            s.append(", mode=");
        } else {
            s = String::from_str("{dev, ino, mode=");
        }
        s.append(oct_string(self.st_mode as u64).as_str());
        s.append(", nlink=");
        s.append(dec_string(self.st_nlink as u64).as_str());
        s.append(", rdev=");
        s.append(dec_string(self.st_rdev).as_str());
        s.append(", size=");
        s.append(dec_string(self.st_size).as_str());
        if level != 2 {
            s.append(", blksize=");
            s.append(dec_string(self.st_blksize as u64).as_str());
            s.append(", blocks=");
        } else {
            s.append(", blksize, blocks=");
        }
        s.append(dec_string(self.st_blocks).as_str());
        s.append("}");
        s
    }
}

/// The signal action in the first payload of an event, and the argument
/// slot it belongs to.
pub fn parse_sigaction(e: &TraceEvent) -> (r: Option<(SigAction, usize)>)
    ensures
        r is Some <==> (e@.payloads.len() > 0 && e@.payloads[0].data.len() >= 24),
        r is Some ==> ({
            let d = e@.payloads[0].data;
            &&& r->Some_0.0.handler == le64(d, 0)
            &&& r->Some_0.0.flags == le64(d, 8)
            &&& r->Some_0.0.mask == le64(d, 16)
            &&& r->Some_0.1 == e@.payloads[0].index
        }),
{
    if e.payloads.len() == 0 || e.payloads[0].data.len() < 24 {
        return None;
    }
    let d = e.payloads[0].data.as_slice();
    Some((SigAction { handler: read_u64(d, 0), flags: read_u64(d, 8), mask: read_u64(d, 16) }, e.payloads[0].index))
}

impl SigAction {
    pub fn to_text(&self) -> (r: String)
        ensures
            r@ == sigaction_text(self.handler, self.flags, self.mask),
    {
        let mut s = String::from_str("{ handler: ");
        s.append(hex_string(self.handler).as_str());
        s.append(", flags: ");
        s.append(sa_flag_name(self.flags).as_str());
        s.append(", mask: ");
        s.append(hex_string(self.mask).as_str());
        s.append(" }");
        s
    }
}

impl TraceEvent {
    fn do_common(&self, name: &'static str, argc: usize) -> (r: (&'static str, usize, String))
        ensures
            r.0 == name,
            r.1 == argc,
            r.2@ == common_result(self.result),
    {
        if self.result <= 0 {
            (name, argc, String::from_str(errno_name(self.result)))
        } else {
            (name, argc, hex_string(self.result as u64))
        }
    }

    fn at_fdcwd(&self, args: &mut Vec<String>)
        requires
            old(args)@.len() == 7,
        ensures
            final(args)@.len() == 7,
            args_view(final(args)@) == at_fdcwd(self@, args_view(old(args)@)),
    {
        if self.head.ax[0] == AT_FDCWD {
            set_arg(args, 0, String::from_str("AT_FDCWD"));
        }
    }

    fn do_path(&self, args: &mut Vec<String>, index: usize) -> (r: Result<(), RenderError>)
        requires
            old(args)@.len() == 7,
            index < 7,
        ensures
            final(args)@.len() == 7,
            match path_spec(self@, args_view(old(args)@), index) {
                Ok(a) => r is Ok && args_view(final(args)@) == a,
                Err(err) => r == Err::<(), RenderError>(err),
            },
    {
        if self.payloads.len() == 0 {
            return Err(RenderError::MissingPayload);
        }
        let payload = &self.payloads[0];
        if payload.index != index {
            return Err(RenderError::BadPayload);
        }
        let d = payload.data.as_slice();
        match find_nul(d) {
            None => Err(RenderError::UnterminatedString),
            Some(k) => {
                set_arg(args, index, quoted_string(d, k));
                Ok(())
            },
        }
    }

    fn do_path_call(&self, args: &mut Vec<String>, tids: &TidMap, index: usize, name: &'static str, argc: usize) -> (r: Result<(&'static str, usize, String), RenderError>)
        requires
            old(args)@.len() == 7,
            index < 7,
        ensures
            final(args)@.len() == 7,
            outcome_is(r, final(args)@, tids@, path_call(self@, args_view(old(args)@), tids@, index, name@, argc)),
    {
        proof { reveal(path_call); }
        match self.do_path(args, index) {
            Ok(()) => Ok(self.do_common(name, argc)),
            Err(e) => Err(e),
        }
    }

    fn do_fstatat(&self, args: &mut Vec<String>, tids: &TidMap) -> (r: Result<(&'static str, usize, String), RenderError>)
        requires
            old(args)@.len() == 7,
        ensures
            final(args)@.len() == 7,
            outcome_is(r, final(args)@, tids@, fstatat_spec(self@, args_view(old(args)@), tids@)),
    {
        proof { reveal(fstatat_spec); }
        self.at_fdcwd(args);
        match self.do_path(args, 1) {
            Err(e) => { return Err(e); },
            Ok(()) => {},
        }
        if self.result == 0 {
            if self.payloads.len() != 2 {
                return Err(RenderError::MissingPayload);
            }
            let payload = &self.payloads[1];
            if payload.index == 2 {
                if payload.inout != OUT {
                    return Err(RenderError::BadPayload);
                }
                match parse_kstat(payload.data.as_slice()) {
                    None => { return Err(RenderError::BadPayload); },
                    Some(k) => { set_arg(args, 2, k.to_text(self.level)); },
                }
            }
        }
        Ok(self.do_common("fstatat", 4))
    }

    fn do_uname(&self, args: &mut Vec<String>, tids: &TidMap) -> (r: Result<(&'static str, usize, String), RenderError>)
        requires
            old(args)@.len() == 7,
        ensures
            final(args)@.len() == 7,
            outcome_is(r, final(args)@, tids@, uname_spec(self@, args_view(old(args)@), tids@)),
    {
        proof { reveal(uname_spec); }
        if self.payloads.len() != 1 {
            return Err(RenderError::MissingPayload);
        }
        let payload = &self.payloads[0];
        if payload.inout != OUT || payload.index != 0 || payload.data.len() < UTSNAME_SIZE {
            return Err(RenderError::BadPayload);
        }
        let d = payload.data.as_slice();
        let ghost e = self@;
        let mut names: Vec<String> = Vec::new();
        let mut i: usize = 0;
        while i < 6
            invariant
                i <= 6,
                args@ == old(args)@,
                old(args)@.len() == 7,
                e.payloads.len() == 1,
                e.payloads[0].inout == OUT && e.payloads[0].index == 0,
                d@ == e.payloads[0].data,
                d@.len() >= UTSNAME_SIZE,
                e == self@,
                names@.len() == i,
                forall|j: int| 0 <= j < i ==> !(e.level == 2 && j == 3) ==> cstr_of(#[trigger] uts_field(d@, j)) is Some,
                forall|j: int| 0 <= j < i ==> (#[trigger] names@[j])@ == (if e.level == 2 && j == 3 {
                    "%timestamp%"@
                } else {
                    debug_text(cstr_of(uts_field(d@, j))->Some_0)
                }),
            decreases 6 - i,
        {
            if self.level == 2 && i == 3 {
                names.push(String::from_str("%timestamp%"));
            } else {
                let field = &d[UTS_FIELD * i..UTS_FIELD * i + UTS_FIELD];
                assert(field@ == uts_field(d@, i as int));
                match find_nul(field) {
                    None => {
                        proof { reveal(uname_spec); }
                        assert(!(e.level == 2 && i == 3) && cstr_of(uts_field(d@, i as int)) is None);
                        return Err(RenderError::UnterminatedString);
                    },
                    Some(k) => {
                        names.push(debug_string(field, k));
                    },
                }
            }
            i = i + 1;
        }
        let ghost parts = Seq::new(6, |j: int| if e.level == 2 && j == 3 {
            "%timestamp%"@
        } else {
            debug_text(cstr_of(uts_field(d@, j))->Some_0)
        });
        assert(args_view(names@) =~= parts);
        set_arg(args, 0, braced_string(&names));
        Ok(("uname", 1, hex_string(self.result as u64)))
    }

    fn do_mmap(&self, args: &mut Vec<String>, tids: &TidMap) -> (r: Result<(&'static str, usize, String), RenderError>)
        requires
            old(args)@.len() == 7,
        ensures
            final(args)@.len() == 7,
            outcome_is(r, final(args)@, tids@, mmap_spec(self@, args_view(old(args)@), tids@)),
    {
        proof { reveal(mmap_spec); }
        if !self.raw_fmt {
            if self.head.ax[0] == 0 {
                set_arg(args, 0, String::from_str("NULL"));
            }
            set_arg(args, 2, prot_name(self.head.ax[2]));
            set_arg(args, 3, map_name(self.head.ax[3]));
            if self.head.ax[4] == u64::MAX {
                set_arg(args, 4, String::from_str("-1"));
            }
        }
        if self.result <= 0 {
            Ok(("mmap", 6, String::from_str("MAP_FAILED")))
        } else {
            Ok(("mmap", 6, hex_string(self.result as u64)))
        }
    }

    fn do_mprotect(&self, args: &mut Vec<String>, tids: &TidMap) -> (r: Result<(&'static str, usize, String), RenderError>)
        requires
            old(args)@.len() == 7,
        ensures
            final(args)@.len() == 7,
            outcome_is(r, final(args)@, tids@, mprotect_spec(self@, args_view(old(args)@), tids@)),
    {
        proof { reveal(mprotect_spec); }
        if self.head.ax[0] == 0 {
            set_arg(args, 0, String::from_str("NULL"));
        }
        set_arg(args, 2, prot_name(self.head.ax[2]));
        Ok(self.do_common("mprotect", 3))
    }

    fn do_rt_sigaction(&self, args: &mut Vec<String>, tids: &TidMap) -> (r: Result<(&'static str, usize, String), RenderError>)
        requires
            old(args)@.len() == 7,
        ensures
            final(args)@.len() == 7,
            outcome_is(r, final(args)@, tids@, sigaction_spec(self@, args_view(old(args)@), tids@)),
    {
        proof { reveal(sigaction_spec); }
        set_arg(args, 0, sig_name(self.head.ax[0]));
        if self.payloads.len() > 0 && self.payloads[0].data.len() < 24 {
            return Err(RenderError::BadPayload);
        }
        match parse_sigaction(self) {
            Some((sa, index)) => {
                if index >= 7 {
                    return Err(RenderError::BadPayload);
                }
                set_arg(args, index, sa.to_text());
            },
            None => {},
        }
        Ok(("rt_sigaction", 3, hex_string(self.result as u64)))
    }

    fn sigset_slot(&self, reg: u64, used: usize, label: &str) -> (r: Result<(String, usize), RenderError>)
        requires
            used <= self@.payloads.len(),
        ensures
            match sigset_slot(self@, reg, used as int, label@) {
                Ok((t, u)) => r is Ok && r->Ok_0.0@ == t && r->Ok_0.1 == u,
                Err(err) => r == Err::<(String, usize), RenderError>(err),
            },
    {
        let mut s = String::from_str(label);
        if reg == 0 {
            s.append("NULL");
            return Ok((s, used));
        }
        if used >= self.payloads.len() {
            return Err(RenderError::MissingPayload);
        }
        let d = self.payloads[used].data.as_slice();
        if d.len() < 8 {
            return Err(RenderError::BadPayload);
        }
        s.append(hex_string(read_u64(d, 0)).as_str());
        Ok((s, used + 1))
    }

    fn do_rt_sigprocmask(&self, args: &mut Vec<String>, tids: &TidMap) -> (r: Result<(&'static str, usize, String), RenderError>)
        requires
            old(args)@.len() == 7,
        ensures
            final(args)@.len() == 7,
            outcome_is(r, final(args)@, tids@, sigprocmask_spec(self@, args_view(old(args)@), tids@)),
    {
        proof { reveal(sigprocmask_spec); }
        let how = self.head.ax[0];
        let how_text: &'static str = if how == SIG_BLOCK {
            "SIG_BLOCK"
        } else if how == SIG_UNBLOCK {
            "SIG_UNBLOCK"
        } else if how == SIG_SETMASK {
            "SIG_SETMASK"
        } else {
            return Err(RenderError::BadHow);
        };
        let (n, u1) = match self.sigset_slot(self.head.ax[1], 0, "nset: ") {
            Ok(p) => p,
            Err(e) => { return Err(e); },
        };
        let (o, u2) = match self.sigset_slot(self.head.ax[2], u1, "oset: ") {
            Ok(p) => p,
            Err(e) => { return Err(e); },
        };
        if u2 != self.payloads.len() {
            return Err(RenderError::BadPayload);
        }
        set_arg(args, 0, String::from_str(how_text));
        set_arg(args, 1, n);
        set_arg(args, 2, o);
        Ok(("rt_sigprocmask", 4, hex_string(self.result as u64)))
    }

    fn do_rw(&self, args: &mut Vec<String>, tids: &TidMap, name: &'static str, shown: bool) -> (r: Result<(&'static str, usize, String), RenderError>)
        requires
            old(args)@.len() == 7,
        ensures
            final(args)@.len() == 7,
            outcome_is(r, final(args)@, tids@, rw_spec(self@, args_view(old(args)@), tids@, name@, shown)),
    {
        proof { reveal(rw_spec); }
        set_arg(args, 0, signed_string(self.head.ax[0] as i64));
        if shown && self.payloads.len() == 1 && self.payloads[0].inout == OUT && self.payloads[0].index == 1 {
            set_arg(args, 1, debug_or_marker_string(self.payloads[0].data.as_slice()));
        }
        Ok((name, 3, hex_string(self.result as u64)))
    }

    fn do_execve(&self, args: &mut Vec<String>, tids: &TidMap) -> (r: Result<(&'static str, usize, String), RenderError>)
        requires
            old(args)@.len() == 7,
        ensures
            final(args)@.len() == 7,
            outcome_is(r, final(args)@, tids@, execve_spec(self@, args_view(old(args)@), tids@)),
    {
        proof { reveal(execve_spec); }
        let ghost a0 = args_view(args@)[0];
        let ghost ps = self@.payloads;
        let mut argv: Vec<String> = Vec::new();
        let mut envp: Vec<String> = Vec::new();
        let mut i: usize = 0;
        while i < self.payloads.len()
            invariant
                i <= self.payloads@.len(),
                ps == self@.payloads,
                args@.len() == 7,
                execve_fold(ps.subrange(0, i as int), a0)
                    == (args_view(args@)[0], args_view(argv@), args_view(envp@)),
                args_view(args@).subrange(1, 7) == args_view(old(args)@).subrange(1, 7),
            decreases self.payloads.len() - i,
        {
            let payload = &self.payloads[i];
            let t = debug_or_marker_string(payload.data.as_slice());
            proof {
                assert(ps.subrange(0, i as int + 1).drop_last() =~= ps.subrange(0, i as int));
                assert(ps.subrange(0, i as int + 1).last() == payload@);
            }
            let ghost av0 = argv@;
            let ghost ev0 = envp@;
            let ghost before = args_view(args@);
            if payload.index == 0 {
                set_arg(args, 0, t);
                assert(args_view(args@).subrange(1, 7) =~= before.subrange(1, 7));
            } else if payload.index == 1 {
                argv.push(t);
                assert(args_view(argv@) =~= args_view(av0).push(args_view(argv@).last()));
            } else if payload.index == 2 {
                envp.push(t);
                assert(args_view(envp@) =~= args_view(ev0).push(args_view(envp@).last()));
            }
            i = i + 1;
        }
        assert(ps.subrange(0, i as int) =~= ps);
        let ghost mid = args_view(args@);
        assert forall|j: int| 1 <= j < 7 implies mid[j] == args_view(old(args)@)[j] by {
            assert(mid.subrange(1, 7)[j - 1] == args_view(old(args)@).subrange(1, 7)[j - 1]);
        }
        set_arg(args, 1, braced_string(&argv));
        set_arg(args, 2, braced_string(&envp));
        assert(args_view(args@) =~= args_view(old(args)@).update(0, mid[0]).update(1, braced(args_view(argv@))).update(2, braced(args_view(envp@))));
        Ok(("execve", 3, hex_string(self.result as u64)))
    }

    fn do_masked(&self, tids: &mut TidMap, name: &'static str, argc: usize, cond: bool) -> (r: (&'static str, usize, String))
        requires
            old(tids).wf(),
        ensures
            final(tids).wf(),
            r.0 == name && r.1 == argc,
            cond ==> r.2@ == mask_spec(old(tids)@, self.result).0 && final(tids)@ == mask_spec(old(tids)@, self.result).1,
            !cond ==> r.2@ == hex_result(self.result) && final(tids)@ == old(tids)@,
    {
        if cond {
            (name, argc, tids.mask_tid(self.result))
        } else {
            (name, argc, hex_string(self.result as u64))
        }
    }

    fn do_kill(&self, args: &mut Vec<String>, tids: &mut TidMap) -> (r: Result<(&'static str, usize, String), RenderError>)
        requires
            old(args)@.len() == 7,
            old(tids).wf(),
        ensures
            final(args)@.len() == 7,
            final(tids).wf(),
            outcome_is(r, final(args)@, final(tids)@, kill_spec(self@, args_view(old(args)@), old(tids)@)),
    {
        proof { reveal(kill_spec); }
        if self.level == 2 {
            let n = tids.mask_tid(self.head.ax[0] as i64);
            set_arg(args, 0, n);
        }
        Ok(("kill", 2, hex_string(self.result as u64)))
    }

    fn do_wait4(&self, args: &mut Vec<String>, tids: &mut TidMap) -> (r: Result<(&'static str, usize, String), RenderError>)
        requires
            old(args)@.len() == 7,
            old(tids).wf(),
        ensures
            final(args)@.len() == 7,
            final(tids).wf(),
            outcome_is(r, final(args)@, final(tids)@, wait4_spec(self@, args_view(old(args)@), old(tids)@)),
    {
        proof { reveal(wait4_spec); }
        if self.level == 2 {
            let n = tids.mask_tid(self.head.ax[0] as i64);
            set_arg(args, 0, n);
            let res = tids.mask_tid(self.result);
            Ok(("wait4", 4, res))
        } else {
            Ok(("wait4", 4, hex_string(self.result as u64)))
        }
    }
}

impl TraceEvent {
    fn do_table(&self) -> (r: Option<(&'static str, usize, String)>)
        ensures
            r is Some <==> common_entry(self.head.ax[7]) is Some,
            r is Some ==> r->Some_0.0@ == common_entry(self.head.ax[7])->Some_0.0
                && r->Some_0.1 == common_entry(self.head.ax[7])->Some_0.1
                && r->Some_0.2@ == common_result(self.result),
    {
        let n = self.head.ax[7];
        if n == SYS_IOCTL { return Some(self.do_common("ioctl", 3)); }
        if n == SYS_FCNTL { return Some(self.do_common("fcntl", 3)); }
        if n == SYS_DUP3 { return Some(self.do_common("dup3", 3)); }
        if n == SYS_MKDIRAT { return Some(self.do_common("mkdirat", 3)); }
        if n == SYS_FCHMODAT { return Some(self.do_common("fchmodat", 4)); }
        if n == SYS_FCHOWNAT { return Some(self.do_common("fchownat", 5)); }
        if n == SYS_CLOSE { return Some(self.do_common("close", 1)); }
        if n == SYS_LSEEK { return Some(self.do_common("lseek", 3)); }
        if n == SYS_SENDFILE { return Some(self.do_common("sendfile", 4)); }
        if n == SYS_WRITEV { return Some(self.do_common("writev", 3)); }
        if n == SYS_EXIT_GROUP { return Some(self.do_common("exit_group", 1)); }
        if n == SYS_SET_ROBUST_LIST { return Some(self.do_common("set_robust_list", 2)); }
        if n == SYS_CLOCK_GETTIME { return Some(self.do_common("clock_gettime", 2)); }
        if n == SYS_MOUNT { return Some(self.do_common("mount", 5)); }
        if n == SYS_MSYNC { return Some(self.do_common("msync", 3)); }
        if n == SYS_MUNMAP { return Some(self.do_common("munmap", 2)); }
        if n == SYS_PRLIMIT64 { return Some(self.do_common("prlimit64", 4)); }
        if n == SYS_GETRANDOM { return Some(self.do_common("getrandom", 3)); }
        if n == SYS_GETTID { return Some(self.do_common("gettid", 0)); }
        if n == SYS_GETGID { return Some(self.do_common("getgid", 0)); }
        if n == SYS_GETEGID { return Some(self.do_common("getegid", 0)); }
        if n == SYS_GETUID { return Some(self.do_common("getuid", 0)); }
        if n == SYS_GETEUID { return Some(self.do_common("geteuid", 0)); }
        if n == SYS_TGKILL { return Some(self.do_common("tgkill", 3)); }
        if n == SYS_GETDENTS64 { return Some(self.do_common("getdents64", 3)); }
        None
    }

    /// Decodes the argument slots of this event for its syscall and gives
    /// the display name (empty when the number is unknown), the number of
    /// slots shown and the rendered result.
    pub fn handle_syscall(&self, args: &mut Vec<String>, tids: &mut TidMap) -> (r: Result<(&'static str, usize, String), RenderError>)
        requires
            old(args)@.len() == 7,
            old(tids).wf(),
        ensures
            final(args)@.len() == 7,
            final(tids).wf(),
            outcome_is(r, final(args)@, final(tids)@, render_spec(self@, args_view(old(args)@), old(tids)@)),
    {
        match self.do_table() {
            Some(t) => { return Ok(t); },
            None => {},
        }
        let n = self.head.ax[7];
        if n == SYS_FACCESSAT {
            self.at_fdcwd(args);
            self.do_path_call(args, tids, 1, "faccessat", 3)
        } else if n == SYS_GETCWD {
            self.do_path_call(args, tids, 0, "getcwd", 2)
        } else if n == SYS_CHDIR {
            self.do_path_call(args, tids, 0, "chdir", 1)
        } else if n == SYS_OPENAT {
            self.at_fdcwd(args);
            self.do_path_call(args, tids, 1, "openat", 4)
        } else if n == SYS_UNLINKAT {
            self.at_fdcwd(args);
            self.do_path_call(args, tids, 1, "unlinkat", 3)
        } else {
            self.dispatch_special(args, tids)
        }
    }

    fn dispatch_special(&self, args: &mut Vec<String>, tids: &mut TidMap) -> (r: Result<(&'static str, usize, String), RenderError>)
        requires
            old(args)@.len() == 7,
            old(tids).wf(),
        ensures
            final(args)@.len() == 7,
            final(tids).wf(),
            outcome_is(r, final(args)@, final(tids)@, render_special(self@, args_view(old(args)@), old(tids)@)),
    {
        proof { reveal(render_special); }
        let n = self.head.ax[7];
        if n == SYS_READ {
            self.do_rw(args, tids, "read", self.head.ax[0] == 0)
        } else if n == SYS_WRITE {
            self.do_rw(args, tids, "write", self.head.ax[0] == 1 || self.head.ax[0] == 2)
        } else if n == SYS_FSTATAT {
            self.do_fstatat(args, tids)
        } else if n == SYS_SET_TID_ADDRESS {
            proof { reveal(masked_result); }
            Ok(self.do_masked(tids, "set_tid_address", 1, self.level == 2))
        } else if n == SYS_UNAME {
            self.do_uname(args, tids)
        } else if n == SYS_BRK {
            Ok(("brk", 1, hex_string(self.result as u64)))
        } else if n == SYS_MMAP {
            self.do_mmap(args, tids)
        } else if n == SYS_MPROTECT {
            self.do_mprotect(args, tids)
        } else if n == SYS_KILL {
            self.do_kill(args, tids)
        } else if n == SYS_RT_SIGACTION {
            self.do_rt_sigaction(args, tids)
        } else if n == SYS_RT_SIGPROCMASK {
            self.do_rt_sigprocmask(args, tids)
        } else if n == SYS_CLONE {
            proof { reveal(masked_result); }
            Ok(self.do_masked(tids, "clone", 5, self.result != 0 && self.level == 2))
        } else if n == SYS_EXECVE {
            self.do_execve(args, tids)
        } else if n == SYS_GETPID {
            proof { reveal(masked_result); }
            Ok(self.do_masked(tids, "getpid", 0, self.level == 2))
        } else if n == SYS_GETPPID {
            proof { reveal(masked_result); }
            Ok(self.do_masked(tids, "getppid", 0, self.level == 2))
        } else if n == SYS_WAIT4 {
            self.do_wait4(args, tids)
        } else {
            proof {
                reveal_strlit("");
                assert(""@ =~= Seq::<char>::empty());
            }
            Ok(("", 7, hex_string(self.result as u64)))
        }
    }
}

/// Slots before decoding: each argument register in hexadecimal.
pub open spec fn initial_args(h: TraceHead) -> Seq<Seq<char>> {
    Seq::new(7, |i: int| hex_text(h.ax[i]))
}

/// `name(a0, .., a{argc-1}) -> result, usp: <hex>`.
pub open spec fn call_text(e: EventView, rd: Rendered) -> Seq<char> {
    (if rd.name.len() > 0 { rd.name } else { "sys_"@ + dec_text(e.head.ax[7]) })
        + "("@ + join_comma(rd.args.subrange(0, rd.argc as int)) + ") -> "@ + rd.result
        + ", usp: "@ + hex_text(e.head.usp)
}

/// The text of one event, and the identities masked after it.
pub open spec fn event_text(e: EventView, tids: Seq<i64>) -> Result<(Seq<char>, Seq<i64>), RenderError> {
    match e.signal {
        SigStage::Enter(signo) => Ok(("Signal["@ + sig_text(signo) + "] enter.."@, tids)),
        _ => {
            let prefix = match e.signal {
                SigStage::Exit(signo) => "Signal["@ + sig_text(signo) + "] exit..\n"@,
                _ => Seq::empty(),
            };
            if e.head.cause != USER_ECALL {
                Err(RenderError::BadCause)
            } else {
                match render_spec(e, initial_args(e.head), tids) {
                    Err(err) => Err(err),
                    Ok(rd) => Ok((prefix + call_text(e, rd), rd.tids)),
                }
            }
        },
    }
}

proof fn lemma_render_shape(e: EventView, args: Seq<Seq<char>>, tids: Seq<i64>)
    requires
        args.len() == 7,
        render_spec(e, args, tids) is Ok,
    ensures
        render_spec(e, args, tids)->Ok_0.argc <= 7,
{
    reveal(render_special);
    reveal(path_call);
    reveal(fstatat_spec);
    reveal(uname_spec);
    reveal(mmap_spec);
    reveal(mprotect_spec);
    reveal(sigaction_spec);
    reveal(sigprocmask_spec);
    reveal(rw_spec);
    reveal(execve_spec);
    reveal(kill_spec);
    reveal(wait4_spec);
    reveal(masked_result);
}

/// Joins the first `n` texts with `, `.
fn join_first(parts: &Vec<String>, n: usize) -> (r: String)
    requires
        n <= parts@.len(),
    ensures
        r@ == join_comma(args_view(parts@).subrange(0, n as int)),
{
    let mut s = String::new();
    let mut i: usize = 0;
    while i < n
        invariant
            i <= n <= parts@.len(),
            s@ == join_comma(args_view(parts@).subrange(0, i as int)),
        decreases n - i,
    {
        proof {
            lemma_join_comma_push(args_view(parts@).subrange(0, i as int), parts@[i as int]@);
            assert(args_view(parts@).subrange(0, i as int + 1) =~= args_view(parts@).subrange(0, i as int).push(parts@[i as int]@));
        }
        if i > 0 {
            s.append(", ");
        }
        s.append(parts[i].as_str());
        i = i + 1;
    }
    proof {
        if n == 0 {
            assert(args_view(parts@).subrange(0, 0) =~= Seq::<Seq<char>>::empty());
        }
    }
    s
}

impl TraceEvent {
    /// The event as one display line (two when it resumes from a signal).
    pub fn render(&self, tids: &mut TidMap) -> (r: Result<String, RenderError>)
        requires
            old(tids).wf(),
        ensures
            final(tids).wf(),
            match event_text(self@, old(tids)@) {
                Ok((t, t2)) => r is Ok && r->Ok_0@ == t && final(tids)@ == t2,
                Err(err) => r == Err::<String, RenderError>(err),
            },
    {
        let mut s = String::new();
        match self.signal {
            SigStage::Enter(signo) => {
                s.append("Signal[");
                s.append(sig_name(signo).as_str());
                s.append("] enter..");
                return Ok(s);
            },
            SigStage::Exit(signo) => {
                s.append("Signal[");
                s.append(sig_name(signo).as_str());
                s.append("] exit..\n");
            },
            SigStage::Empty => {},
        }
        if self.head.cause != USER_ECALL {
            return Err(RenderError::BadCause);
        }
        let mut args: Vec<String> = Vec::new();
        let mut i: usize = 0;
        while i < 7
            invariant
                i <= 7,
                args_view(args@) == initial_args(self.head).subrange(0, i as int),
            decreases 7 - i,
        {
            let ghost before = args_view(args@);
            let h = hex_string(self.head.ax[i]);
            assert(h@ == initial_args(self.head)[i as int]);
            args.push(h);
            assert(args_view(args@) =~= before.push(h@));
            i = i + 1;
            assert(args_view(args@) =~= initial_args(self.head).subrange(0, i as int));
        }
        assert(initial_args(self.head).subrange(0, 7) =~= initial_args(self.head));
        let ghost a0 = args_view(args@);
        match self.handle_syscall(&mut args, tids) {
            Err(e) => Err(e),
            Ok((name, argc, result)) => {
                proof { lemma_render_shape(self@, a0, old(tids)@); }
                if !name.is_empty() {
                    s.append(name);
                } else {
                    s.append("sys_");
                    s.append(dec_string(self.head.ax[7]).as_str());
                }
                s.append("(");
                s.append(join_first(&args, argc).as_str());
                s.append(") -> ");
                s.append(result.as_str());
                s.append(", usp: ");
                s.append(hex_string(self.head.usp).as_str());
                Ok(s)
            },
        }
    }
}

/// Numbered lines of a thread's events, and the identities masked after them.
pub open spec fn events_lines(events: Seq<EventView>, tids: Seq<i64>) -> Result<(Seq<Seq<char>>, Seq<i64>), RenderError>
    decreases events.len(),
{
    if events.len() == 0 {
        Ok((Seq::empty(), tids))
    } else {
        match events_lines(events.drop_last(), tids) {
            Err(err) => Err(err),
            Ok((ls, t1)) => match event_text(events.last(), t1) {
                Err(err) => Err(err),
                Ok((x, t2)) => Ok((ls.push("["@ + dec_text((events.len() - 1) as u64) + "]: "@ + x), t2)),
            },
        }
    }
}

/// The block printed for a thread: a header, its numbered events, a blank line.
pub open spec fn flow_lines(tid: u64, events: Seq<EventView>, tids: Seq<i64>) -> Result<(Seq<Seq<char>>, Seq<i64>), RenderError> {
    match events_lines(events, tids) {
        Err(err) => Err(err),
        Ok((ls, t)) => Ok((seq!["Task["@ + hex_text(tid) + "] ========>"@] + ls + seq![Seq::<char>::empty()], t)),
    }
}

/// Renders the block of one thread.
pub fn render_flow(tid: u64, events: &Vec<TraceEvent>, tids: &mut TidMap) -> (r: Result<Vec<String>, RenderError>)
    requires
        old(tids).wf(),
    ensures
        final(tids).wf(),
        match flow_lines(tid, events@.map_values(|e: TraceEvent| e@), old(tids)@) {
            Ok((ls, t)) => r is Ok && args_view(r->Ok_0@) == ls && final(tids)@ == t,
            Err(err) => r == Err::<Vec<String>, RenderError>(err),
        },
{
    let ghost ev = events@.map_values(|e: TraceEvent| e@);
    let mut lines: Vec<String> = Vec::new();
    let mut head = String::from_str("Task[");
    head.append(hex_string(tid).as_str());
    head.append("] ========>");
    lines.push(head);
    let mut i: usize = 0;
    while i < events.len()
        invariant
            i <= events@.len(),
            ev == events@.map_values(|e: TraceEvent| e@),
            tids.wf(),
            events_lines(ev.subrange(0, i as int), old(tids)@) is Ok,
            args_view(lines@) == seq!["Task["@ + hex_text(tid) + "] ========>"@]
                + events_lines(ev.subrange(0, i as int), old(tids)@)->Ok_0.0,
            tids@ == events_lines(ev.subrange(0, i as int), old(tids)@)->Ok_0.1,
        decreases events.len() - i,
    {
        let ghost sub = ev.subrange(0, i as int + 1);
        assert(sub.drop_last() =~= ev.subrange(0, i as int));
        assert(sub.last() == events@[i as int]@);
        let ghost before = args_view(lines@);
        match events[i].render(tids) {
            Err(e) => {
                proof {
                    let mut k: int = i as int + 1;
                    lemma_events_lines_err(ev, old(tids)@, i as int + 1);
                }
                return Err(e);
            },
            Ok(text) => {
                let mut line = String::from_str("[");
                line.append(dec_string(i as u64).as_str());
                line.append("]: ");
                line.append(text.as_str());
                lines.push(line);
                assert(args_view(lines@) =~= before.push(args_view(lines@).last()));
            },
        }
        i = i + 1;
    }
    assert(ev.subrange(0, i as int) =~= ev);
    lines.push(String::new());
    assert(args_view(lines@) =~= seq!["Task["@ + hex_text(tid) + "] ========>"@]
        + events_lines(ev, old(tids)@)->Ok_0.0 + seq![Seq::<char>::empty()]);
    Ok(lines)
}

/// A failure at event `k - 1` is a failure of the whole thread.
proof fn lemma_events_lines_err(ev: Seq<EventView>, tids: Seq<i64>, k: int)
    requires
        1 <= k <= ev.len(),
        events_lines(ev.subrange(0, k), tids) is Err,
    ensures
        events_lines(ev, tids) == events_lines(ev.subrange(0, k), tids),
    decreases ev.len() - k,
{
    if k < ev.len() {
        let sub = ev.subrange(0, k + 1);
        assert(sub.drop_last() =~= ev.subrange(0, k));
        lemma_events_lines_err(ev, tids, k + 1);
    } else {
        assert(ev.subrange(0, k) =~= ev);
    }
}

} // verus!
