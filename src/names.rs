//! Number rendering and the symbol tables: errno, signal numbers, mmap
//! protection and mapping flags, sigaction flags.

use vstd::prelude::*;

verus! {

/// The character of digit `d` (0..16) in lower-case hexadecimal notation.
pub open spec fn digit_char(d: nat) -> char {
    if d == 0 { '0' } else if d == 1 { '1' } else if d == 2 { '2' } else if d == 3 { '3' }
    else if d == 4 { '4' } else if d == 5 { '5' } else if d == 6 { '6' } else if d == 7 { '7' }
    else if d == 8 { '8' } else if d == 9 { '9' } else if d == 10 { 'a' } else if d == 11 { 'b' }
    else if d == 12 { 'c' } else if d == 13 { 'd' } else if d == 14 { 'e' } else { 'f' }
}

/// Digits of `n` in base `b`, most significant first, without leading zeros.
pub open spec fn radix_digits(n: nat, b: nat) -> Seq<char>
    recommends 2 <= b <= 16,
    decreases n
    via radix_digits_decreases
{
    if b < 2 || n < b {
        seq![digit_char(n)]
    } else {
        radix_digits(n / b, b).push(digit_char(n % b))
    }
}

#[via_fn]
proof fn radix_digits_decreases(n: nat, b: nat) {
    if !(b < 2 || n < b) {
        assert(n / b < n) by (nonlinear_arith)
            requires b >= 2, n >= b;
    }
}

/// `{:#x}` of an unsigned 64-bit value.
pub open spec fn hex_text(n: u64) -> Seq<char> {
    "0x"@ + radix_digits(n as nat, 16)
}

/// `{:#o}` of an unsigned value.
pub open spec fn oct_text(n: u64) -> Seq<char> {
    "0o"@ + radix_digits(n as nat, 8)
}

/// `{}` of an unsigned value.
pub open spec fn dec_text(n: u64) -> Seq<char> {
    radix_digits(n as nat, 10)
}

/// `{}` of a signed value.
pub open spec fn signed_text(n: i64) -> Seq<char> {
    if n < 0 {
        "-"@ + radix_digits((-(n as int)) as nat, 10)
    } else {
        radix_digits(n as nat, 10)
    }
}

pub fn digit_str(d: u64) -> (r: &'static str)
    requires
        d < 16,
    ensures
        r@ == seq![digit_char(d as nat)],
{
    proof {
        reveal_strlit("0"); reveal_strlit("1"); reveal_strlit("2"); reveal_strlit("3");
        reveal_strlit("4"); reveal_strlit("5"); reveal_strlit("6"); reveal_strlit("7");
        reveal_strlit("8"); reveal_strlit("9"); reveal_strlit("a"); reveal_strlit("b");
        reveal_strlit("c"); reveal_strlit("d"); reveal_strlit("e"); reveal_strlit("f");
    }
    match d {
        0 => "0", 1 => "1", 2 => "2", 3 => "3", 4 => "4", 5 => "5", 6 => "6", 7 => "7",
        8 => "8", 9 => "9", 10 => "a", 11 => "b", 12 => "c", 13 => "d", 14 => "e", _ => "f",
    }
}

/// Appends the digits of `n` in base `b` to `s`.
pub fn push_radix(s: &mut String, n: u64, b: u64)
    requires
        2 <= b <= 16,
    ensures
        final(s)@ == old(s)@ + radix_digits(n as nat, b as nat),
    decreases n,
{
    if n >= b {
        assert(n / b < n) by (nonlinear_arith)
            requires b >= 2, n >= b;
        push_radix(s, n / b, b);
    }
    let d = digit_str(n % b);
    s.append(d);
    proof {
        assert(radix_digits(n as nat, b as nat) == if n < b {
            seq![digit_char(n as nat)]
        } else {
            radix_digits((n / b) as nat, b as nat).push(digit_char((n % b) as nat))
        });
        if n < b {
            assert(n % b == n) by (nonlinear_arith)
                requires n < b, b >= 2;
        }
    }
    assert(final(s)@ =~= old(s)@ + radix_digits(n as nat, b as nat));
}

/// Renders `n` as `0x` followed by lower-case hexadecimal digits.
pub fn hex_string(n: u64) -> (r: String)
    ensures
        r@ == hex_text(n),
{
    let mut s = String::from_str("0x");
    push_radix(&mut s, n, 16);
    s
}

/// Renders `n` as `0o` followed by octal digits.
pub fn oct_string(n: u64) -> (r: String)
    ensures
        r@ == oct_text(n),
{
    let mut s = String::from_str("0o");
    push_radix(&mut s, n, 8);
    s
}

/// Renders `n` in decimal.
pub fn dec_string(n: u64) -> (r: String)
    ensures
        r@ == dec_text(n),
{
    let mut s = String::new();
    push_radix(&mut s, n, 10);
    assert(s@ =~= dec_text(n));
    s
}

/// Renders a signed `n` in decimal, with a leading `-` when negative.
pub fn signed_string(n: i64) -> (r: String)
    ensures
        r@ == signed_text(n),
{
    let mut s = String::new();
    if n < 0 {
        s.append("-");
        let m: u64 = if n == i64::MIN { 0x8000_0000_0000_0000u64 } else { (-n) as u64 };
        push_radix(&mut s, m, 10);
    } else {
        push_radix(&mut s, n as u64, 10);
    }
    assert(s@ =~= signed_text(n));
    s
}

/// Linux errno values that have a name here.
pub const EPERM: i32 = 1;
pub const ENOENT: i32 = 2;
pub const ECHILD: i32 = 10;
pub const ENOTDIR: i32 = 20;
pub const EISDIR: i32 = 21;
pub const EINVAL: i32 = 22;
pub const ENOTTY: i32 = 25;

/// The name of a (negated) errno result.
pub open spec fn errno_text(err: i64) -> Seq<char> {
    let e = -(err as int);
    if e == 0 { "OK"@ }
    else if e == 1 { "EPERM"@ }
    else if e == 2 { "ENOENT"@ }
    else if e == 10 { "ECHILD"@ }
    else if e == 20 { "ENOTDIR"@ }
    else if e == 21 { "EISDIR"@ }
    else if e == 22 { "EINVAL"@ }
    else if e == 25 { "ENOTTY"@ }
    else { "Unknown errno"@ }
}

/// Whether `-err` is zero or an errno with a name.
pub open spec fn errno_known(err: i64) -> bool {
    let e = -(err as int);
    e == 0 || e == 1 || e == 2 || e == 10 || e == 20 || e == 21 || e == 22 || e == 25
}

/// Name of the errno carried by a syscall result (`"OK"` for zero).
pub fn errno_name(err: i64) -> (r: &'static str)
    ensures
        r@ == errno_text(err),
{
    if err == i64::MIN {
        return "Unknown errno";
    }
    let e = -err;
    if e == 0 { "OK" }
    else if e == EPERM as i64 { "EPERM" }
    else if e == ENOENT as i64 { "ENOENT" }
    else if e == ECHILD as i64 { "ECHILD" }
    else if e == ENOTDIR as i64 { "ENOTDIR" }
    else if e == EISDIR as i64 { "EISDIR" }
    else if e == EINVAL as i64 { "EINVAL" }
    else if e == ENOTTY as i64 { "ENOTTY" }
    else { "Unknown errno" }
}

/// Canonical name of a signal number.
pub open spec fn sig_text(signum: u64) -> Seq<char> {
    match signum {
        1 => "SIGHUP"@,
        2 => "SIGINT"@,
        3 => "SIGQUIT"@,
        4 => "SIGILL"@,
        5 => "SIGTRAP"@,
        6 => "SIGABRT"@,
        7 => "SIGBUS"@,
        8 => "SIGFPE"@,
        9 => "SIGKILL"@,
        10 => "SIGUSR1"@,
        11 => "SIGSEGV"@,
        12 => "SIGUSR2"@,
        13 => "SIGPIPE"@,
        14 => "SIGALRM"@,
        15 => "SIGTERM"@,
        16 => "SIGSTKFLT"@,
        17 => "SIGCHLD"@,
        18 => "SIGCONT"@,
        19 => "SIGSTOP"@,
        20 => "SIGTSTP"@,
        21 => "SIGTTIN"@,
        22 => "SIGTTOU"@,
        23 => "SIGURG"@,
        24 => "SIGXCPU"@,
        25 => "SIGXFSZ"@,
        26 => "SIGVTALRM"@,
        27 => "SIGPROF"@,
        28 => "SIGWINCH"@,
        29 => "SIGIO"@,
        30 => "SIGPWR"@,
        31 => "SIGSYS"@,
        34 => "SIGRTMIN"@,
        35 => "SIGRTMIN+1"@,
        36 => "SIGRTMIN+2"@,
        37 => "SIGRTMIN+3"@,
        38 => "SIGRTMIN+4"@,
        39 => "SIGRTMIN+5"@,
        40 => "SIGRTMIN+6"@,
        41 => "SIGRTMIN+7"@,
        42 => "SIGRTMIN+8"@,
        43 => "SIGRTMIN+9"@,
        44 => "SIGRTMIN+10"@,
        45 => "SIGRTMIN+11"@,
        46 => "SIGRTMIN+12"@,
        47 => "SIGRTMIN+13"@,
        48 => "SIGRTMIN+14"@,
        49 => "SIGRTMIN+15"@,
        50 => "SIGRTMAX-14"@,
        51 => "SIGRTMAX-13"@,
        52 => "SIGRTMAX-12"@,
        53 => "SIGRTMAX-11"@,
        54 => "SIGRTMAX-10"@,
        55 => "SIGRTMAX-9"@,
        56 => "SIGRTMAX-8"@,
        57 => "SIGRTMAX-7"@,
        58 => "SIGRTMAX-6"@,
        59 => "SIGRTMAX-5"@,
        60 => "SIGRTMAX-4"@,
        61 => "SIGRTMAX-3"@,
        62 => "SIGRTMAX-2"@,
        63 => "SIGRTMAX-1"@,
        64 => "SIGRTMAX"@,
        _ => "SIGUNKNOWN"@,
    }
}

/// Canonical name of a signal number, `SIGUNKNOWN` outside the table.
pub fn sig_name(signum: u64) -> (r: String)
    ensures
        r@ == sig_text(signum),
{
    let s: &'static str = match signum {
        1 => "SIGHUP",
        2 => "SIGINT",
        3 => "SIGQUIT",
        4 => "SIGILL",
        5 => "SIGTRAP",
        6 => "SIGABRT",
        7 => "SIGBUS",
        8 => "SIGFPE",
        9 => "SIGKILL",
        10 => "SIGUSR1",
        11 => "SIGSEGV",
        12 => "SIGUSR2",
        13 => "SIGPIPE",
        14 => "SIGALRM",
        15 => "SIGTERM",
        16 => "SIGSTKFLT",
        17 => "SIGCHLD",
        18 => "SIGCONT",
        19 => "SIGSTOP",
        20 => "SIGTSTP",
        21 => "SIGTTIN",
        22 => "SIGTTOU",
        23 => "SIGURG",
        24 => "SIGXCPU",
        25 => "SIGXFSZ",
        26 => "SIGVTALRM",
        27 => "SIGPROF",
        28 => "SIGWINCH",
        29 => "SIGIO",
        30 => "SIGPWR",
        31 => "SIGSYS",
        34 => "SIGRTMIN",
        35 => "SIGRTMIN+1",
        36 => "SIGRTMIN+2",
        37 => "SIGRTMIN+3",
        38 => "SIGRTMIN+4",
        39 => "SIGRTMIN+5",
        40 => "SIGRTMIN+6",
        41 => "SIGRTMIN+7",
        42 => "SIGRTMIN+8",
        43 => "SIGRTMIN+9",
        44 => "SIGRTMIN+10",
        45 => "SIGRTMIN+11",
        46 => "SIGRTMIN+12",
        47 => "SIGRTMIN+13",
        48 => "SIGRTMIN+14",
        49 => "SIGRTMIN+15",
        50 => "SIGRTMAX-14",
        51 => "SIGRTMAX-13",
        52 => "SIGRTMAX-12",
        53 => "SIGRTMAX-11",
        54 => "SIGRTMAX-10",
        55 => "SIGRTMAX-9",
        56 => "SIGRTMAX-8",
        57 => "SIGRTMAX-7",
        58 => "SIGRTMAX-6",
        59 => "SIGRTMAX-5",
        60 => "SIGRTMAX-4",
        61 => "SIGRTMAX-3",
        62 => "SIGRTMAX-2",
        63 => "SIGRTMAX-1",
        64 => "SIGRTMAX",
        _ => "SIGUNKNOWN",
    };
    String::from_str(s)
}

/// Names joined with `|`.
pub open spec fn join_bar(parts: Seq<Seq<char>>) -> Seq<char>
    decreases parts.len(),
{
    if parts.len() == 0 {
        Seq::empty()
    } else if parts.len() == 1 {
        parts[0]
    } else {
        join_bar(parts.drop_last()) + "|"@ + parts.last()
    }
}

/// `name` alone when `on`, else nothing.
pub open spec fn flag_part(on: bool, name: Seq<char>) -> Seq<Seq<char>> {
    if on { seq![name] } else { Seq::empty() }
}

pub const PROT_READ: u64 = 0x1;
pub const PROT_WRITE: u64 = 0x2;
pub const PROT_EXEC: u64 = 0x4;
pub const PROT_SEM: u64 = 0x8;
pub const PROT_NONE: u64 = 0x0;
pub const PROT_GROWSDOWN: u64 = 0x01000000;
pub const PROT_GROWSUP: u64 = 0x02000000;

pub const MAP_SHARED: u64 = 0x01;
pub const MAP_PRIVATE: u64 = 0x02;
pub const MAP_SHARED_VALIDATE: u64 = 0x03;
pub const MAP_FIXED: u64 = 0x10;
pub const MAP_ANONYMOUS: u64 = 0x20;
pub const MAP_GROWSDOWN: u64 = 0x0100;
pub const MAP_DENYWRITE: u64 = 0x0800;
pub const MAP_EXECUTABLE: u64 = 0x1000;
pub const MAP_LOCKED: u64 = 0x2000;
pub const MAP_NORESERVE: u64 = 0x4000;

pub const SA_RESTORER: u64 = 0x4000000;
pub const SA_RESTART: u64 = 0x10000000;

/// The protection flags set in `prot`, in display order.
pub open spec fn prot_parts(prot: u64) -> Seq<Seq<char>> {
    flag_part(prot & PROT_READ != 0, "PROT_READ"@)
        + flag_part(prot & PROT_WRITE != 0, "PROT_WRITE"@)
        + flag_part(prot & PROT_EXEC != 0, "PROT_EXEC"@)
        + flag_part(prot & PROT_SEM != 0, "PROT_SEM"@)
        + flag_part(prot & PROT_GROWSDOWN != 0, "PROT_GROWSDOWN"@)
        + flag_part(prot & PROT_GROWSUP != 0, "PROT_GROWSUP"@)
}

pub open spec fn prot_text(prot: u64) -> Seq<char> {
    if prot == PROT_NONE { "PROT_NONE"@ } else { join_bar(prot_parts(prot)) }
}

/// The name of the sharing mode held in the low two bits of `map`.
pub open spec fn map_mode_name(map: u64) -> Seq<char> {
    let mode = map & 3;
    if mode == MAP_SHARED_VALIDATE { "MAP_SHARED_VALIDATE"@ }
    else if mode == MAP_SHARED { "MAP_SHARED"@ }
    else if mode == MAP_PRIVATE { "MAP_PRIVATE"@ }
    else { "MAP_UNKNOWN"@ }
}

/// The sharing mode of `map` followed by the names of its other flags.
pub open spec fn map_parts(map: u64) -> Seq<Seq<char>> {
    seq![map_mode_name(map)]
        + flag_part(map & MAP_FIXED != 0, "MAP_FIXED"@)
        + flag_part(map & MAP_ANONYMOUS != 0, "MAP_ANONYMOUS"@)
        + flag_part(map & MAP_GROWSDOWN != 0, "MAP_GROWSDOWN"@)
        + flag_part(map & MAP_DENYWRITE != 0, "MAP_DENYWRITE"@)
        + flag_part(map & MAP_EXECUTABLE != 0, "MAP_EXECUTABLE"@)
        + flag_part(map & MAP_LOCKED != 0, "MAP_LOCKED"@)
        + flag_part(map & MAP_NORESERVE != 0, "MAP_NORESERVE"@)
}

pub open spec fn map_text(map: u64) -> Seq<char> {
    join_bar(map_parts(map))
}

pub open spec fn sa_flag_parts(flags: u64) -> Seq<Seq<char>> {
    flag_part(flags & SA_RESTART != 0, "SA_RESTART"@)
        + flag_part(flags & SA_RESTORER != 0, "SA_RESTORER"@)
}

pub open spec fn sa_flag_text(flags: u64) -> Seq<char> {
    if sa_flag_parts(flags).len() == 0 { "0x0"@ } else { join_bar(sa_flag_parts(flags)) }
}

proof fn lemma_join_push(parts: Seq<Seq<char>>, name: Seq<char>)
    ensures
        join_bar(parts.push(name)) == if parts.len() == 0 {
            name
        } else {
            join_bar(parts) + "|"@ + name
        },
{
    assert(parts.push(name).drop_last() =~= parts);
}

/// Appends `name` to a `|`-joined list when `on` holds.
fn add_part(s: &mut String, count: &mut usize, parts: Ghost<Seq<Seq<char>>>, on: bool, name: &str)
    requires
        old(s)@ == join_bar(parts@),
        *old(count) == parts@.len(),
        parts@.len() < 100,
    ensures
        final(s)@ == join_bar(parts@ + flag_part(on, name@)),
        *final(count) == (parts@ + flag_part(on, name@)).len(),
{
    if on {
        proof {
            lemma_join_push(parts@, name@);
            assert(parts@ + flag_part(on, name@) =~= parts@.push(name@));
        }
        if *count > 0 {
            s.append("|");
        }
        s.append(name);
        *count = *count + 1;
    } else {
        assert(parts@ + flag_part(on, name@) =~= parts@);
    }
}

/// `|`-joined names of the protection bits set in `prot`; `PROT_NONE` for zero.
pub fn prot_name(prot: u64) -> (r: String)
    ensures
        r@ == prot_text(prot),
{
    if prot == PROT_NONE {
        return String::from_str("PROT_NONE");
    }
    let mut s = String::new();
    let mut n: usize = 0;
    let ghost p0: Seq<Seq<char>> = Seq::empty();
    add_part(&mut s, &mut n, Ghost(p0), prot & PROT_READ != 0, "PROT_READ");
    let ghost p1 = p0 + flag_part(prot & PROT_READ != 0, "PROT_READ"@);
    add_part(&mut s, &mut n, Ghost(p1), prot & PROT_WRITE != 0, "PROT_WRITE");
    let ghost p2 = p1 + flag_part(prot & PROT_WRITE != 0, "PROT_WRITE"@);
    add_part(&mut s, &mut n, Ghost(p2), prot & PROT_EXEC != 0, "PROT_EXEC");
    let ghost p3 = p2 + flag_part(prot & PROT_EXEC != 0, "PROT_EXEC"@);
    add_part(&mut s, &mut n, Ghost(p3), prot & PROT_SEM != 0, "PROT_SEM");
    let ghost p4 = p3 + flag_part(prot & PROT_SEM != 0, "PROT_SEM"@);
    add_part(&mut s, &mut n, Ghost(p4), prot & PROT_GROWSDOWN != 0, "PROT_GROWSDOWN");
    let ghost p5 = p4 + flag_part(prot & PROT_GROWSDOWN != 0, "PROT_GROWSDOWN"@);
    add_part(&mut s, &mut n, Ghost(p5), prot & PROT_GROWSUP != 0, "PROT_GROWSUP");
    assert(p0 + prot_parts(prot) =~= prot_parts(prot));
    s
}

/// The sharing mode of `map` and the names of its other flag bits, `|`-joined.
pub fn map_name(map: u64) -> (r: String)
    ensures
        r@ == map_text(map),
{
    let mode = map & 3;
    let first: &'static str = if mode == MAP_SHARED_VALIDATE {
        "MAP_SHARED_VALIDATE"
    } else if mode == MAP_SHARED {
        "MAP_SHARED"
    } else if mode == MAP_PRIVATE {
        "MAP_PRIVATE"
    } else {
        "MAP_UNKNOWN"
    };
    let mut s = String::new();
    let mut n: usize = 0;
    let ghost p0: Seq<Seq<char>> = Seq::empty();
    add_part(&mut s, &mut n, Ghost(p0), true, first);
    let ghost p1 = p0 + flag_part(true, first@);
    add_part(&mut s, &mut n, Ghost(p1), map & MAP_FIXED != 0, "MAP_FIXED");
    let ghost p2 = p1 + flag_part(map & MAP_FIXED != 0, "MAP_FIXED"@);
    add_part(&mut s, &mut n, Ghost(p2), map & MAP_ANONYMOUS != 0, "MAP_ANONYMOUS");
    let ghost p3 = p2 + flag_part(map & MAP_ANONYMOUS != 0, "MAP_ANONYMOUS"@);
    add_part(&mut s, &mut n, Ghost(p3), map & MAP_GROWSDOWN != 0, "MAP_GROWSDOWN");
    let ghost p4 = p3 + flag_part(map & MAP_GROWSDOWN != 0, "MAP_GROWSDOWN"@);
    add_part(&mut s, &mut n, Ghost(p4), map & MAP_DENYWRITE != 0, "MAP_DENYWRITE");
    let ghost p5 = p4 + flag_part(map & MAP_DENYWRITE != 0, "MAP_DENYWRITE"@);
    add_part(&mut s, &mut n, Ghost(p5), map & MAP_EXECUTABLE != 0, "MAP_EXECUTABLE");
    let ghost p6 = p5 + flag_part(map & MAP_EXECUTABLE != 0, "MAP_EXECUTABLE"@);
    add_part(&mut s, &mut n, Ghost(p6), map & MAP_LOCKED != 0, "MAP_LOCKED");
    let ghost p7 = p6 + flag_part(map & MAP_LOCKED != 0, "MAP_LOCKED"@);
    add_part(&mut s, &mut n, Ghost(p7), map & MAP_NORESERVE != 0, "MAP_NORESERVE");
    assert(p0 + map_parts(map) =~= map_parts(map));
    s
}

/// `|`-joined names of the sigaction flags set in `flags`; `0x0` when none is.
pub fn sa_flag_name(flags: u64) -> (r: String)
    ensures
        r@ == sa_flag_text(flags),
{
    let mut s = String::new();
    let mut n: usize = 0;
    let ghost p0: Seq<Seq<char>> = Seq::empty();
    add_part(&mut s, &mut n, Ghost(p0), flags & SA_RESTART != 0, "SA_RESTART");
    let ghost p1 = p0 + flag_part(flags & SA_RESTART != 0, "SA_RESTART"@);
    add_part(&mut s, &mut n, Ghost(p1), flags & SA_RESTORER != 0, "SA_RESTORER");
    assert(p0 + sa_flag_parts(flags) =~= sa_flag_parts(flags));
    if n > 0 {
        s
    } else {
        String::from_str("0x0")
    }
}

proof fn lemma_concat_contains(a: Seq<Seq<char>>, b: Seq<Seq<char>>, x: Seq<char>)
    ensures
        (a + b).contains(x) <==> (a.contains(x) || b.contains(x)),
{
    if (a + b).contains(x) {
        let k = choose|k: int| 0 <= k < (a + b).len() && (a + b)[k] == x;
        if k < a.len() { assert(a[k] == x); } else { assert(b[k - a.len()] == x); }
    }
    if a.contains(x) {
        let k = choose|k: int| 0 <= k < a.len() && a[k] == x;
        assert((a + b)[k] == x);
    }
    if b.contains(x) {
        let k = choose|k: int| 0 <= k < b.len() && b[k] == x;
        assert((a + b)[a.len() + k] == x);
    }
}

proof fn lemma_flag_part_contains(on: bool, name: Seq<char>, x: Seq<char>)
    ensures
        flag_part(on, name).contains(x) <==> (on && x == name),
{
    if on {
        assert(flag_part(on, name)[0] == name);
    }
}

proof fn lemma_flag_part_excludes(on: bool, name: Seq<char>, x: Seq<char>, k: int)
    requires
        (0 <= k < name.len() && k < x.len() && name[k] != x[k]) || name.len() != x.len(),
    ensures
        !flag_part(on, name).contains(x),
{
    lemma_flag_part_contains(on, name, x);
}

proof fn lemma_join_bar_head(parts: Seq<Seq<char>>, k: int)
    requires
        parts.len() >= 1,
        0 <= k < parts[0].len(),
    ensures
        join_bar(parts).len() > k,
        join_bar(parts)[k] == parts[0][k],
    decreases parts.len(),
{
    if parts.len() > 1 {
        assert(parts.drop_last()[0] == parts[0]);
        lemma_join_bar_head(parts.drop_last(), k);
    }
}

/// Bit-flag decoding of protections: each named protection is listed exactly
/// when its bit is set, and `PROT_NONE` is the rendering of zero alone.
pub proof fn law_prot_flags(prot: u64)
    ensures
        prot_parts(prot).contains("PROT_READ"@) <==> prot & PROT_READ != 0,
        prot_parts(prot).contains("PROT_WRITE"@) <==> prot & PROT_WRITE != 0,
        prot_parts(prot).contains("PROT_EXEC"@) <==> prot & PROT_EXEC != 0,
        prot_parts(prot).contains("PROT_SEM"@) <==> prot & PROT_SEM != 0,
        prot_parts(prot).contains("PROT_GROWSDOWN"@) <==> prot & PROT_GROWSDOWN != 0,
        prot_parts(prot).contains("PROT_GROWSUP"@) <==> prot & PROT_GROWSUP != 0,
        prot_text(prot) == "PROT_NONE"@ <==> prot == 0,
{
    reveal_strlit("PROT_READ"); reveal_strlit("PROT_WRITE"); reveal_strlit("PROT_EXEC"); reveal_strlit("PROT_SEM"); reveal_strlit("PROT_GROWSDOWN"); reveal_strlit("PROT_GROWSUP"); reveal_strlit("PROT_NONE");
    let p0 = flag_part(prot & PROT_READ != 0, "PROT_READ"@);
    let p1 = flag_part(prot & PROT_WRITE != 0, "PROT_WRITE"@);
    let p2 = flag_part(prot & PROT_EXEC != 0, "PROT_EXEC"@);
    let p3 = flag_part(prot & PROT_SEM != 0, "PROT_SEM"@);
    let p4 = flag_part(prot & PROT_GROWSDOWN != 0, "PROT_GROWSDOWN"@);
    let p5 = flag_part(prot & PROT_GROWSUP != 0, "PROT_GROWSUP"@);
    let ps = prot_parts(prot);
    assert(ps == p0 + p1 + p2 + p3 + p4 + p5);
    assert forall|x: Seq<char>| #[trigger] ps.contains(x) <==> (p0.contains(x) || p1.contains(x) || p2.contains(x)
        || p3.contains(x) || p4.contains(x) || p5.contains(x)) by {
        lemma_concat_contains(p0 + p1 + p2 + p3 + p4, p5, x);
        lemma_concat_contains(p0 + p1 + p2 + p3, p4, x);
        lemma_concat_contains(p0 + p1 + p2, p3, x);
        lemma_concat_contains(p0 + p1, p2, x);
        lemma_concat_contains(p0, p1, x);
    }
    lemma_flag_part_contains(prot & PROT_READ != 0, "PROT_READ"@, "PROT_READ"@);
    lemma_flag_part_excludes(prot & PROT_WRITE != 0, "PROT_WRITE"@, "PROT_READ"@, 5);
    lemma_flag_part_excludes(prot & PROT_EXEC != 0, "PROT_EXEC"@, "PROT_READ"@, 5);
    lemma_flag_part_excludes(prot & PROT_SEM != 0, "PROT_SEM"@, "PROT_READ"@, 5);
    lemma_flag_part_excludes(prot & PROT_GROWSDOWN != 0, "PROT_GROWSDOWN"@, "PROT_READ"@, 5);
    lemma_flag_part_excludes(prot & PROT_GROWSUP != 0, "PROT_GROWSUP"@, "PROT_READ"@, 5);
    lemma_flag_part_contains(prot & PROT_WRITE != 0, "PROT_WRITE"@, "PROT_WRITE"@);
    lemma_flag_part_excludes(prot & PROT_READ != 0, "PROT_READ"@, "PROT_WRITE"@, 5);
    lemma_flag_part_excludes(prot & PROT_EXEC != 0, "PROT_EXEC"@, "PROT_WRITE"@, 5);
    lemma_flag_part_excludes(prot & PROT_SEM != 0, "PROT_SEM"@, "PROT_WRITE"@, 5);
    lemma_flag_part_excludes(prot & PROT_GROWSDOWN != 0, "PROT_GROWSDOWN"@, "PROT_WRITE"@, 5);
    lemma_flag_part_excludes(prot & PROT_GROWSUP != 0, "PROT_GROWSUP"@, "PROT_WRITE"@, 5);
    lemma_flag_part_contains(prot & PROT_EXEC != 0, "PROT_EXEC"@, "PROT_EXEC"@);
    lemma_flag_part_excludes(prot & PROT_READ != 0, "PROT_READ"@, "PROT_EXEC"@, 5);
    lemma_flag_part_excludes(prot & PROT_WRITE != 0, "PROT_WRITE"@, "PROT_EXEC"@, 5);
    lemma_flag_part_excludes(prot & PROT_SEM != 0, "PROT_SEM"@, "PROT_EXEC"@, 5);
    lemma_flag_part_excludes(prot & PROT_GROWSDOWN != 0, "PROT_GROWSDOWN"@, "PROT_EXEC"@, 5);
    lemma_flag_part_excludes(prot & PROT_GROWSUP != 0, "PROT_GROWSUP"@, "PROT_EXEC"@, 5);
    lemma_flag_part_contains(prot & PROT_SEM != 0, "PROT_SEM"@, "PROT_SEM"@);
    lemma_flag_part_excludes(prot & PROT_READ != 0, "PROT_READ"@, "PROT_SEM"@, 5);
    lemma_flag_part_excludes(prot & PROT_WRITE != 0, "PROT_WRITE"@, "PROT_SEM"@, 5);
    lemma_flag_part_excludes(prot & PROT_EXEC != 0, "PROT_EXEC"@, "PROT_SEM"@, 5);
    lemma_flag_part_excludes(prot & PROT_GROWSDOWN != 0, "PROT_GROWSDOWN"@, "PROT_SEM"@, 5);
    lemma_flag_part_excludes(prot & PROT_GROWSUP != 0, "PROT_GROWSUP"@, "PROT_SEM"@, 5);
    lemma_flag_part_contains(prot & PROT_GROWSDOWN != 0, "PROT_GROWSDOWN"@, "PROT_GROWSDOWN"@);
    lemma_flag_part_excludes(prot & PROT_READ != 0, "PROT_READ"@, "PROT_GROWSDOWN"@, 5);
    lemma_flag_part_excludes(prot & PROT_WRITE != 0, "PROT_WRITE"@, "PROT_GROWSDOWN"@, 5);
    lemma_flag_part_excludes(prot & PROT_EXEC != 0, "PROT_EXEC"@, "PROT_GROWSDOWN"@, 5);
    lemma_flag_part_excludes(prot & PROT_SEM != 0, "PROT_SEM"@, "PROT_GROWSDOWN"@, 5);
    lemma_flag_part_excludes(prot & PROT_GROWSUP != 0, "PROT_GROWSUP"@, "PROT_GROWSDOWN"@, 5);
    lemma_flag_part_contains(prot & PROT_GROWSUP != 0, "PROT_GROWSUP"@, "PROT_GROWSUP"@);
    lemma_flag_part_excludes(prot & PROT_READ != 0, "PROT_READ"@, "PROT_GROWSUP"@, 5);
    lemma_flag_part_excludes(prot & PROT_WRITE != 0, "PROT_WRITE"@, "PROT_GROWSUP"@, 5);
    lemma_flag_part_excludes(prot & PROT_EXEC != 0, "PROT_EXEC"@, "PROT_GROWSUP"@, 5);
    lemma_flag_part_excludes(prot & PROT_SEM != 0, "PROT_SEM"@, "PROT_GROWSUP"@, 5);
    lemma_flag_part_excludes(prot & PROT_GROWSDOWN != 0, "PROT_GROWSDOWN"@, "PROT_GROWSUP"@, 5);
    if prot != 0 && ps.len() > 0 {
        let x = ps[0];
        assert(ps.contains(x));
        lemma_flag_part_contains(prot & PROT_READ != 0, "PROT_READ"@, x);
        lemma_flag_part_contains(prot & PROT_WRITE != 0, "PROT_WRITE"@, x);
        lemma_flag_part_contains(prot & PROT_EXEC != 0, "PROT_EXEC"@, x);
        lemma_flag_part_contains(prot & PROT_SEM != 0, "PROT_SEM"@, x);
        lemma_flag_part_contains(prot & PROT_GROWSDOWN != 0, "PROT_GROWSDOWN"@, x);
        lemma_flag_part_contains(prot & PROT_GROWSUP != 0, "PROT_GROWSUP"@, x);
        assert(x.len() > 5 && x[5] != 'N');
        lemma_join_bar_head(ps, 5);
        assert(join_bar(ps)[5] != "PROT_NONE"@[5]);
    }
    if prot != 0 && ps.len() == 0 {
        assert(join_bar(ps).len() == 0);
    }
}

proof fn lemma_map_parts_contains(map: u64, x: Seq<char>)
    ensures
        map_parts(map).contains(x) <==> (seq![map_mode_name(map)].contains(x) || flag_part(map & MAP_FIXED != 0, "MAP_FIXED"@).contains(x) || flag_part(map & MAP_ANONYMOUS != 0, "MAP_ANONYMOUS"@).contains(x) || flag_part(map & MAP_GROWSDOWN != 0, "MAP_GROWSDOWN"@).contains(x) || flag_part(map & MAP_DENYWRITE != 0, "MAP_DENYWRITE"@).contains(x) || flag_part(map & MAP_EXECUTABLE != 0, "MAP_EXECUTABLE"@).contains(x) || flag_part(map & MAP_LOCKED != 0, "MAP_LOCKED"@).contains(x) || flag_part(map & MAP_NORESERVE != 0, "MAP_NORESERVE"@).contains(x)),
{
    let m = seq![map_mode_name(map)];
    let p0 = flag_part(map & MAP_FIXED != 0, "MAP_FIXED"@);
    let p1 = flag_part(map & MAP_ANONYMOUS != 0, "MAP_ANONYMOUS"@);
    let p2 = flag_part(map & MAP_GROWSDOWN != 0, "MAP_GROWSDOWN"@);
    let p3 = flag_part(map & MAP_DENYWRITE != 0, "MAP_DENYWRITE"@);
    let p4 = flag_part(map & MAP_EXECUTABLE != 0, "MAP_EXECUTABLE"@);
    let p5 = flag_part(map & MAP_LOCKED != 0, "MAP_LOCKED"@);
    let p6 = flag_part(map & MAP_NORESERVE != 0, "MAP_NORESERVE"@);
    lemma_concat_contains(m + p0 + p1 + p2 + p3 + p4 + p5, p6, x);
    lemma_concat_contains(m + p0 + p1 + p2 + p3 + p4, p5, x);
    lemma_concat_contains(m + p0 + p1 + p2 + p3, p4, x);
    lemma_concat_contains(m + p0 + p1 + p2, p3, x);
    lemma_concat_contains(m + p0 + p1, p2, x);
    lemma_concat_contains(m + p0, p1, x);
    lemma_concat_contains(m, p0, x);
}

proof fn lemma_mode_excludes(map: u64, x: Seq<char>)
    requires
        x.len() > 4,
        x[4] != 'S' && x[4] != 'P' && x[4] != 'U',
    ensures
        !seq![map_mode_name(map)].contains(x),
{
    reveal_strlit("MAP_SHARED_VALIDATE"); reveal_strlit("MAP_SHARED"); reveal_strlit("MAP_PRIVATE"); reveal_strlit("MAP_UNKNOWN");
    let m = seq![map_mode_name(map)];
    if m.contains(x) {
        let k = choose|k: int| 0 <= k < m.len() && m[k] == x;
        assert(k == 0);
    }
}

/// Bit-flag decoding of mappings: each named flag is listed exactly when its
/// bit is set.
pub proof fn law_map_flags(map: u64)
    ensures
        map_parts(map).contains("MAP_FIXED"@) <==> map & MAP_FIXED != 0,
        map_parts(map).contains("MAP_ANONYMOUS"@) <==> map & MAP_ANONYMOUS != 0,
        map_parts(map).contains("MAP_GROWSDOWN"@) <==> map & MAP_GROWSDOWN != 0,
        map_parts(map).contains("MAP_DENYWRITE"@) <==> map & MAP_DENYWRITE != 0,
        map_parts(map).contains("MAP_EXECUTABLE"@) <==> map & MAP_EXECUTABLE != 0,
        map_parts(map).contains("MAP_LOCKED"@) <==> map & MAP_LOCKED != 0,
        map_parts(map).contains("MAP_NORESERVE"@) <==> map & MAP_NORESERVE != 0,
{
    reveal_strlit("MAP_FIXED"); reveal_strlit("MAP_ANONYMOUS"); reveal_strlit("MAP_GROWSDOWN"); reveal_strlit("MAP_DENYWRITE"); reveal_strlit("MAP_EXECUTABLE"); reveal_strlit("MAP_LOCKED"); reveal_strlit("MAP_NORESERVE");
    lemma_map_parts_contains(map, "MAP_FIXED"@);
    lemma_mode_excludes(map, "MAP_FIXED"@);
    lemma_flag_part_contains(map & MAP_FIXED != 0, "MAP_FIXED"@, "MAP_FIXED"@);
    lemma_flag_part_excludes(map & MAP_ANONYMOUS != 0, "MAP_ANONYMOUS"@, "MAP_FIXED"@, 4);
    lemma_flag_part_excludes(map & MAP_GROWSDOWN != 0, "MAP_GROWSDOWN"@, "MAP_FIXED"@, 4);
    lemma_flag_part_excludes(map & MAP_DENYWRITE != 0, "MAP_DENYWRITE"@, "MAP_FIXED"@, 4);
    lemma_flag_part_excludes(map & MAP_EXECUTABLE != 0, "MAP_EXECUTABLE"@, "MAP_FIXED"@, 4);
    lemma_flag_part_excludes(map & MAP_LOCKED != 0, "MAP_LOCKED"@, "MAP_FIXED"@, 4);
    lemma_flag_part_excludes(map & MAP_NORESERVE != 0, "MAP_NORESERVE"@, "MAP_FIXED"@, 4);
    lemma_map_parts_contains(map, "MAP_ANONYMOUS"@);
    lemma_mode_excludes(map, "MAP_ANONYMOUS"@);
    lemma_flag_part_contains(map & MAP_ANONYMOUS != 0, "MAP_ANONYMOUS"@, "MAP_ANONYMOUS"@);
    lemma_flag_part_excludes(map & MAP_FIXED != 0, "MAP_FIXED"@, "MAP_ANONYMOUS"@, 4);
    lemma_flag_part_excludes(map & MAP_GROWSDOWN != 0, "MAP_GROWSDOWN"@, "MAP_ANONYMOUS"@, 4);
    lemma_flag_part_excludes(map & MAP_DENYWRITE != 0, "MAP_DENYWRITE"@, "MAP_ANONYMOUS"@, 4);
    lemma_flag_part_excludes(map & MAP_EXECUTABLE != 0, "MAP_EXECUTABLE"@, "MAP_ANONYMOUS"@, 4);
    lemma_flag_part_excludes(map & MAP_LOCKED != 0, "MAP_LOCKED"@, "MAP_ANONYMOUS"@, 4);
    lemma_flag_part_excludes(map & MAP_NORESERVE != 0, "MAP_NORESERVE"@, "MAP_ANONYMOUS"@, 4);
    lemma_map_parts_contains(map, "MAP_GROWSDOWN"@);
    lemma_mode_excludes(map, "MAP_GROWSDOWN"@);
    lemma_flag_part_contains(map & MAP_GROWSDOWN != 0, "MAP_GROWSDOWN"@, "MAP_GROWSDOWN"@);
    lemma_flag_part_excludes(map & MAP_FIXED != 0, "MAP_FIXED"@, "MAP_GROWSDOWN"@, 4);
    lemma_flag_part_excludes(map & MAP_ANONYMOUS != 0, "MAP_ANONYMOUS"@, "MAP_GROWSDOWN"@, 4);
    lemma_flag_part_excludes(map & MAP_DENYWRITE != 0, "MAP_DENYWRITE"@, "MAP_GROWSDOWN"@, 4);
    lemma_flag_part_excludes(map & MAP_EXECUTABLE != 0, "MAP_EXECUTABLE"@, "MAP_GROWSDOWN"@, 4);
    lemma_flag_part_excludes(map & MAP_LOCKED != 0, "MAP_LOCKED"@, "MAP_GROWSDOWN"@, 4);
    lemma_flag_part_excludes(map & MAP_NORESERVE != 0, "MAP_NORESERVE"@, "MAP_GROWSDOWN"@, 4);
    lemma_map_parts_contains(map, "MAP_DENYWRITE"@);
    lemma_mode_excludes(map, "MAP_DENYWRITE"@);
    lemma_flag_part_contains(map & MAP_DENYWRITE != 0, "MAP_DENYWRITE"@, "MAP_DENYWRITE"@);
    lemma_flag_part_excludes(map & MAP_FIXED != 0, "MAP_FIXED"@, "MAP_DENYWRITE"@, 4);
    lemma_flag_part_excludes(map & MAP_ANONYMOUS != 0, "MAP_ANONYMOUS"@, "MAP_DENYWRITE"@, 4);
    lemma_flag_part_excludes(map & MAP_GROWSDOWN != 0, "MAP_GROWSDOWN"@, "MAP_DENYWRITE"@, 4);
    lemma_flag_part_excludes(map & MAP_EXECUTABLE != 0, "MAP_EXECUTABLE"@, "MAP_DENYWRITE"@, 4);
    lemma_flag_part_excludes(map & MAP_LOCKED != 0, "MAP_LOCKED"@, "MAP_DENYWRITE"@, 4);
    lemma_flag_part_excludes(map & MAP_NORESERVE != 0, "MAP_NORESERVE"@, "MAP_DENYWRITE"@, 4);
    lemma_map_parts_contains(map, "MAP_EXECUTABLE"@);
    lemma_mode_excludes(map, "MAP_EXECUTABLE"@);
    lemma_flag_part_contains(map & MAP_EXECUTABLE != 0, "MAP_EXECUTABLE"@, "MAP_EXECUTABLE"@);
    lemma_flag_part_excludes(map & MAP_FIXED != 0, "MAP_FIXED"@, "MAP_EXECUTABLE"@, 4);
    lemma_flag_part_excludes(map & MAP_ANONYMOUS != 0, "MAP_ANONYMOUS"@, "MAP_EXECUTABLE"@, 4);
    lemma_flag_part_excludes(map & MAP_GROWSDOWN != 0, "MAP_GROWSDOWN"@, "MAP_EXECUTABLE"@, 4);
    lemma_flag_part_excludes(map & MAP_DENYWRITE != 0, "MAP_DENYWRITE"@, "MAP_EXECUTABLE"@, 4);
    lemma_flag_part_excludes(map & MAP_LOCKED != 0, "MAP_LOCKED"@, "MAP_EXECUTABLE"@, 4);
    lemma_flag_part_excludes(map & MAP_NORESERVE != 0, "MAP_NORESERVE"@, "MAP_EXECUTABLE"@, 4);
    lemma_map_parts_contains(map, "MAP_LOCKED"@);
    lemma_mode_excludes(map, "MAP_LOCKED"@);
    lemma_flag_part_contains(map & MAP_LOCKED != 0, "MAP_LOCKED"@, "MAP_LOCKED"@);
    lemma_flag_part_excludes(map & MAP_FIXED != 0, "MAP_FIXED"@, "MAP_LOCKED"@, 4);
    lemma_flag_part_excludes(map & MAP_ANONYMOUS != 0, "MAP_ANONYMOUS"@, "MAP_LOCKED"@, 4);
    lemma_flag_part_excludes(map & MAP_GROWSDOWN != 0, "MAP_GROWSDOWN"@, "MAP_LOCKED"@, 4);
    lemma_flag_part_excludes(map & MAP_DENYWRITE != 0, "MAP_DENYWRITE"@, "MAP_LOCKED"@, 4);
    lemma_flag_part_excludes(map & MAP_EXECUTABLE != 0, "MAP_EXECUTABLE"@, "MAP_LOCKED"@, 4);
    lemma_flag_part_excludes(map & MAP_NORESERVE != 0, "MAP_NORESERVE"@, "MAP_LOCKED"@, 4);
    lemma_map_parts_contains(map, "MAP_NORESERVE"@);
    lemma_mode_excludes(map, "MAP_NORESERVE"@);
    lemma_flag_part_contains(map & MAP_NORESERVE != 0, "MAP_NORESERVE"@, "MAP_NORESERVE"@);
    lemma_flag_part_excludes(map & MAP_FIXED != 0, "MAP_FIXED"@, "MAP_NORESERVE"@, 4);
    lemma_flag_part_excludes(map & MAP_ANONYMOUS != 0, "MAP_ANONYMOUS"@, "MAP_NORESERVE"@, 4);
    lemma_flag_part_excludes(map & MAP_GROWSDOWN != 0, "MAP_GROWSDOWN"@, "MAP_NORESERVE"@, 4);
    lemma_flag_part_excludes(map & MAP_DENYWRITE != 0, "MAP_DENYWRITE"@, "MAP_NORESERVE"@, 4);
    lemma_flag_part_excludes(map & MAP_EXECUTABLE != 0, "MAP_EXECUTABLE"@, "MAP_NORESERVE"@, 4);
    lemma_flag_part_excludes(map & MAP_LOCKED != 0, "MAP_LOCKED"@, "MAP_NORESERVE"@, 4);
}

/// Bit-flag decoding of sigaction flags: each named flag is listed exactly
/// when its bit is set, and `0x0` stands for none.
pub proof fn law_sa_flags(flags: u64)
    ensures
        sa_flag_parts(flags).contains("SA_RESTART"@) <==> flags & SA_RESTART != 0,
        sa_flag_parts(flags).contains("SA_RESTORER"@) <==> flags & SA_RESTORER != 0,
        sa_flag_text(flags) == "0x0"@ <==> (flags & SA_RESTART == 0 && flags & SA_RESTORER == 0),
{
    reveal_strlit("SA_RESTART"); reveal_strlit("SA_RESTORER"); reveal_strlit("0x0");
    let p0 = flag_part(flags & SA_RESTART != 0, "SA_RESTART"@);
    let p1 = flag_part(flags & SA_RESTORER != 0, "SA_RESTORER"@);
    let ps = sa_flag_parts(flags);
    assert(ps == p0 + p1);
    assert forall|x: Seq<char>| #[trigger] ps.contains(x) <==> (p0.contains(x) || p1.contains(x)) by {
        lemma_concat_contains(p0, p1, x);
    }
    lemma_flag_part_contains(flags & SA_RESTART != 0, "SA_RESTART"@, "SA_RESTART"@);
    lemma_flag_part_excludes(flags & SA_RESTORER != 0, "SA_RESTORER"@, "SA_RESTART"@, 0);
    lemma_flag_part_contains(flags & SA_RESTORER != 0, "SA_RESTORER"@, "SA_RESTORER"@);
    lemma_flag_part_excludes(flags & SA_RESTART != 0, "SA_RESTART"@, "SA_RESTORER"@, 0);
    if ps.len() > 0 {
        let x = ps[0];
        assert(ps.contains(x));
        lemma_flag_part_contains(flags & SA_RESTART != 0, "SA_RESTART"@, x);
        lemma_flag_part_contains(flags & SA_RESTORER != 0, "SA_RESTORER"@, x);
        lemma_join_bar_head(ps, 0);
        assert(join_bar(ps).len() > 3 || join_bar(ps)[0] != '0');
    }
}

/// Errno naming: the rendering is a canonical name exactly when `-err` is
/// zero or a known errno, and `Unknown errno` otherwise.
pub proof fn law_errno_naming(err: i64)
    ensures
        errno_known(err) <==> errno_text(err) != "Unknown errno"@,
{
    reveal_strlit("Unknown errno"); reveal_strlit("OK"); reveal_strlit("EPERM"); reveal_strlit("ENOENT");
    reveal_strlit("ECHILD"); reveal_strlit("ENOTDIR"); reveal_strlit("EISDIR"); reveal_strlit("EINVAL");
    reveal_strlit("ENOTTY");
    assert("Unknown errno"@.len() == 13);
}

} // verus!
