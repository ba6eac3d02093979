use lktrace::analysis::{analyse, TraceError};
use lktrace::event::DecodeError;
use lktrace::flow::FlowError;
use lktrace::render::RenderError;
use lktrace::sysno::{
    SYS_CLONE, SYS_CLOSE, SYS_EXECVE, SYS_EXIT_GROUP, SYS_GETPID, SYS_MMAP, SYS_OPENAT, SYS_READ,
    SYS_RT_SIGACTION, SYS_RT_SIGPROCMASK, SYS_RT_SIGRETURN, SYS_WRITE,
};

const IN: u64 = 0;
const OUT: u64 = 1;

struct Rec {
    inout: u64,
    epc: u64,
    ax: [u64; 8],
    tid: u64,
    payloads: Vec<(u16, Vec<u8>)>,
}

fn rec(inout: u64, tid: u64, sysno: u64, a0: u64) -> Rec {
    let mut ax = [0u64; 8];
    ax[0] = a0;
    ax[7] = sysno;
    Rec { inout, epc: 0x1000, ax, tid, payloads: vec![] }
}

fn encode_with(r: &Rec, magic: u16, headsize: u16, cause: u64) -> Vec<u8> {
    let payload_len: usize = r.payloads.iter().map(|(_, d)| 8 + d.len()).sum();
    let total = 200 + payload_len;
    let mut b = Vec::new();
    b.extend_from_slice(&magic.to_le_bytes());
    b.extend_from_slice(&headsize.to_le_bytes());
    b.extend_from_slice(&(total as u32).to_le_bytes());
    let mut words = vec![r.inout, cause, r.epc];
    words.extend_from_slice(&r.ax);
    words.push(0x3ff0); // usp
    words.extend_from_slice(&[0u64; 8]);
    words.extend_from_slice(&[0, 0x8000, 0, r.tid]);
    for w in words {
        b.extend_from_slice(&w.to_le_bytes());
    }
    for (index, data) in &r.payloads {
        b.extend_from_slice(&0xABCDu16.to_le_bytes());
        b.extend_from_slice(&index.to_le_bytes());
        b.extend_from_slice(&(data.len() as u32).to_le_bytes());
        b.extend_from_slice(data);
    }
    b
}

fn encode(recs: &[Rec]) -> Vec<u8> {
    let mut out = Vec::new();
    for r in recs {
        out.extend(encode_with(r, 0xABCD, 200, 8));
    }
    out
}

fn sigaction_bytes(handler: u64, flags: u64, mask: u64) -> Vec<u8> {
    let mut d = Vec::new();
    d.extend_from_slice(&handler.to_le_bytes());
    d.extend_from_slice(&flags.to_le_bytes());
    d.extend_from_slice(&mask.to_le_bytes());
    d
}

#[test]
fn one_thread_openat_close_exit() {
    let mut open_in = rec(IN, 0x10, SYS_OPENAT, (-100i64) as u64);
    open_in.payloads.push((1, b"/etc/passwd\0".to_vec()));
    let recs = vec![
        open_in,
        rec(OUT, 0x10, SYS_OPENAT, 3),
        rec(IN, 0x10, SYS_CLOSE, 3),
        rec(OUT, 0x10, SYS_CLOSE, 0),
        rec(IN, 0x10, SYS_EXIT_GROUP, 0),
    ];
    let (lines, err) = analyse(&encode(&recs), 1);
    assert_eq!(err, None);
    assert_eq!(lines[0], "Task[0x10] ========>");
    assert_eq!(lines[1], "[0]: openat(AT_FDCWD, \"/etc/passwd\", 0x0, 0x0) -> 0x3, usp: 0x3ff0");
    assert_eq!(lines[2], "[1]: close(0x3) -> OK, usp: 0x3ff0");
    assert_eq!(lines[3], "[2]: exit_group(0x0) -> OK, usp: 0x3ff0");
    assert_eq!(lines[4], "");
    assert_eq!(lines[5], "Task sequence: ");
    assert_eq!(lines[6], "0x10");
    assert_eq!(lines.len(), 7);
}

#[test]
fn openat_failure_names_errno() {
    let mut open_in = rec(IN, 0x10, SYS_OPENAT, 3);
    open_in.payloads.push((1, b"missing\0".to_vec()));
    let recs = vec![open_in, rec(OUT, 0x10, SYS_OPENAT, (-2i64) as u64)];
    let (lines, err) = analyse(&encode(&recs), 1);
    assert_eq!(err, None);
    assert_eq!(lines[1], "[0]: openat(0x3, \"missing\", 0x0, 0x0) -> ENOENT, usp: 0x3ff0");
}

#[test]
fn openat_path_not_utf8_is_marked() {
    let mut open_in = rec(IN, 0x10, SYS_OPENAT, 3);
    open_in.payloads.push((1, vec![0xff, 0xfe, 0]));
    let recs = vec![open_in, rec(OUT, 0x10, SYS_OPENAT, 4)];
    let (lines, _) = analyse(&encode(&recs), 1);
    assert_eq!(lines[1], "[0]: openat(0x3, [!parse_str_err!], 0x0, 0x0) -> 0x4, usp: 0x3ff0");
}

#[test]
fn mmap_arguments_decoded() {
    let mut m = rec(IN, 0x10, SYS_MMAP, 0);
    m.ax[1] = 0x1000;
    m.ax[2] = 0x3;
    m.ax[3] = 0x22;
    m.ax[4] = u64::MAX;
    m.ax[5] = 0;
    let recs = vec![m, rec(OUT, 0x10, SYS_MMAP, 0x7f000000)];
    let (lines, err) = analyse(&encode(&recs), 1);
    assert_eq!(err, None);
    assert_eq!(
        lines[1],
        "[0]: mmap(NULL, 0x1000, PROT_READ|PROT_WRITE, MAP_PRIVATE|MAP_ANONYMOUS, -1, 0x0) -> 0x7f000000, usp: 0x3ff0"
    );
}

#[test]
fn mmap_failure_renders_map_failed() {
    let recs = vec![rec(IN, 0x10, SYS_MMAP, 0), rec(OUT, 0x10, SYS_MMAP, (-12i64) as u64)];
    let (lines, _) = analyse(&encode(&recs), 1);
    assert!(lines[1].ends_with("-> MAP_FAILED, usp: 0x3ff0"));
}

#[test]
fn clone_exit_on_new_thread_pairs_with_parent_entry() {
    let recs = vec![
        rec(IN, 0x10, SYS_CLONE, 0x11),
        rec(OUT, 0x20, SYS_CLONE, 0),
        rec(OUT, 0x10, SYS_CLONE, 0x20),
    ];
    let (lines, err) = analyse(&encode(&recs), 1);
    assert_eq!(err, None);
    assert_eq!(lines[0], "Task[0x10] ========>");
    assert_eq!(lines[1], "[0]: clone(0x11, 0x0, 0x0, 0x0, 0x0) -> 0x20, usp: 0x3ff0");
    assert_eq!(lines[3], "Task[0x20] ========>");
    assert_eq!(lines[4], "[0]: clone(0x11, 0x0, 0x0, 0x0, 0x0) -> 0x0, usp: 0x3ff0");
    assert_eq!(lines[6], "Task sequence: ");
    assert_eq!(lines[7], "0x10");
    assert_eq!(lines[8], "0x20");
}

#[test]
fn signal_delivery_nests_until_sigreturn() {
    let mut sa_out = rec(OUT, 0x10, SYS_RT_SIGACTION, 0);
    sa_out.payloads.push((1, sigaction_bytes(0xdead, 0x1000_0000, 0)));
    let mut deliver = rec(OUT, 0x10, SYS_READ, 10);
    deliver.epc = 0xdead;
    let recs = vec![
        rec(IN, 0x10, SYS_RT_SIGACTION, 10),
        sa_out,
        rec(IN, 0x10, SYS_READ, 3),
        deliver,
        rec(IN, 0x10, SYS_WRITE, 5),
        rec(OUT, 0x10, SYS_WRITE, 1),
        rec(IN, 0x10, SYS_RT_SIGRETURN, 0),
        rec(OUT, 0x10, SYS_READ, 7),
        rec(IN, 0x10, SYS_EXIT_GROUP, 0),
    ];
    let (lines, err) = analyse(&encode(&recs), 1);
    assert_eq!(err, None);
    assert_eq!(
        lines[1],
        "[0]: rt_sigaction(SIGUSR1, { handler: 0xdead, flags: SA_RESTART, mask: 0x0 }, 0x0) -> 0x0, usp: 0x3ff0"
    );
    assert_eq!(lines[2], "[1]: Signal[SIGUSR1] enter..");
    assert_eq!(lines[3], "[2]: write(5, 0x0, 0x0) -> 0x1, usp: 0x3ff0");
    assert_eq!(lines[4], "[3]: Signal[SIGUSR1] exit..\nread(3, 0x0, 0x0) -> 0x7, usp: 0x3ff0");
    assert_eq!(lines[5], "[4]: exit_group(0x0) -> OK, usp: 0x3ff0");
}

#[test]
fn level_two_masks_getpid_results() {
    let recs = vec![
        rec(IN, 0x10, SYS_GETPID, 0),
        rec(OUT, 0x10, SYS_GETPID, 0x4242),
        rec(IN, 0x10, SYS_GETPID, 0),
        rec(OUT, 0x10, SYS_GETPID, 0x4242),
        rec(IN, 0x10, SYS_GETPID, 0),
        rec(OUT, 0x10, SYS_GETPID, 0x4243),
    ];
    let (lines, err) = analyse(&encode(&recs), 2);
    assert_eq!(err, None);
    assert_eq!(lines[1], "[0]: getpid() -> tid_0, usp: 0x3ff0");
    assert_eq!(lines[2], "[1]: getpid() -> tid_0, usp: 0x3ff0");
    assert_eq!(lines[3], "[2]: getpid() -> tid_1, usp: 0x3ff0");
}

#[test]
fn level_one_keeps_getpid_hex() {
    let recs = vec![rec(IN, 0x10, SYS_GETPID, 0), rec(OUT, 0x10, SYS_GETPID, 0x4242)];
    let (lines, _) = analyse(&encode(&recs), 1);
    assert_eq!(lines[1], "[0]: getpid() -> 0x4242, usp: 0x3ff0");
}

#[test]
fn pairs_complete_in_order_with_merged_payloads() {
    let mut w_out = rec(OUT, 0x30, SYS_WRITE, 3);
    w_out.payloads.push((1, b"hi\n\0".to_vec()));
    let mut r_out = rec(OUT, 0x30, SYS_READ, 2);
    r_out.payloads.push((1, b"ok\0".to_vec()));
    let recs = vec![
        rec(IN, 0x30, SYS_WRITE, 1),
        w_out,
        rec(IN, 0x30, SYS_READ, 0),
        r_out,
    ];
    let (lines, err) = analyse(&encode(&recs), 1);
    assert_eq!(err, None);
    assert_eq!(lines[0], "Task[0x30] ========>");
    assert_eq!(lines[1], "[0]: write(1, \"hi\\n\", 0x0) -> 0x3, usp: 0x3ff0");
    assert_eq!(lines[2], "[1]: read(0, \"ok\", 0x0) -> 0x2, usp: 0x3ff0");
}

#[test]
fn stat_payload_rendered_and_masked() {
    let mut st = vec![0u8; 120];
    st[0..8].copy_from_slice(&0x803u64.to_le_bytes());
    st[8..16].copy_from_slice(&77u64.to_le_bytes());
    st[16..20].copy_from_slice(&0o100644u32.to_le_bytes());
    st[20..24].copy_from_slice(&1u32.to_le_bytes());
    st[48..56].copy_from_slice(&42u64.to_le_bytes());
    st[56..60].copy_from_slice(&4096u32.to_le_bytes());
    st[64..72].copy_from_slice(&8u64.to_le_bytes());
    let mut s_in = rec(IN, 0x10, lktrace::sysno::SYS_FSTATAT, (-100i64) as u64);
    s_in.payloads.push((1, b"/a\0".to_vec()));
    let mut s_out = rec(OUT, 0x10, lktrace::sysno::SYS_FSTATAT, 0);
    s_out.payloads.push((2, st));
    let bytes = encode(&[s_in, s_out]);
    let (lines, err) = analyse(&bytes, 1);
    assert_eq!(err, None);
    assert_eq!(
        lines[1],
        "[0]: fstatat(AT_FDCWD, \"/a\", {dev=0x803, ino=77, mode=0o100644, nlink=1, rdev=0, size=42, blksize=4096, blocks=8}, 0x0) -> OK, usp: 0x3ff0"
    );
    let (lines2, _) = analyse(&bytes, 2);
    assert_eq!(
        lines2[1],
        "[0]: fstatat(AT_FDCWD, \"/a\", {dev, ino, mode=0o100644, nlink=1, rdev=0, size=42, blksize, blocks=8}, 0x0) -> OK, usp: 0x3ff0"
    );
}

#[test]
fn uname_fields_joined_and_release_hidden() {
    let mut d = vec![0u8; 390];
    for (i, f) in ["Linux", "host", "6.1", "#1 SMP 2024", "riscv64", "none"].iter().enumerate() {
        d[65 * i..65 * i + f.len()].copy_from_slice(f.as_bytes());
    }
    let mut u_out = rec(OUT, 0x10, 0xa0, 0);
    u_out.payloads.push((0, d));
    let bytes = encode(&[rec(IN, 0x10, 0xa0, 0x5000), u_out]);
    let (lines, err) = analyse(&bytes, 1);
    assert_eq!(err, None);
    assert_eq!(lines[1], "[0]: uname({\"Linux\", \"host\", \"6.1\", \"#1 SMP 2024\", \"riscv64\", \"none\"}) -> 0x0, usp: 0x3ff0");
    let (lines2, _) = analyse(&bytes, 2);
    assert_eq!(lines2[1], "[0]: uname({\"Linux\", \"host\", \"6.1\", %timestamp%, \"riscv64\", \"none\"}) -> 0x0, usp: 0x3ff0");
}

#[test]
fn killed_thread_is_reported() {
    let recs = vec![rec(IN, 0x10, SYS_READ, 0), rec(IN, 0x10, SYS_CLOSE, 3)];
    let (lines, err) = analyse(&encode(&recs), 1);
    assert_eq!(err, None);
    assert_eq!(lines[0], "======================= might be killed: 63");
}

#[test]
fn unknown_syscall_rendered_with_number() {
    let recs = vec![rec(IN, 0x10, 400, 1), rec(OUT, 0x10, 400, 2)];
    let (lines, _) = analyse(&encode(&recs), 1);
    assert_eq!(lines[1], "[0]: sys_400(0x1, 0x0, 0x0, 0x0, 0x0, 0x0, 0x0) -> 0x2, usp: 0x3ff0");
}

#[test]
fn execve_gathers_argv_and_envp() {
    let mut e = rec(IN, 0x10, SYS_EXECVE, 0);
    e.payloads.push((0, b"/bin/ls\0".to_vec()));
    e.payloads.push((1, b"ls\0".to_vec()));
    e.payloads.push((1, b"-l\0".to_vec()));
    e.payloads.push((2, b"A=1\0".to_vec()));
    let recs = vec![e, rec(OUT, 0x10, SYS_EXECVE, 0)];
    let (lines, err) = analyse(&encode(&recs), 1);
    assert_eq!(err, None);
    assert_eq!(lines[1], "[0]: execve(\"/bin/ls\", {\"ls\", \"-l\"}, {\"A=1\"}) -> 0x0, usp: 0x3ff0");
}

#[test]
fn sigprocmask_renders_sets() {
    let mut m = rec(IN, 0x10, SYS_RT_SIGPROCMASK, 2);
    m.ax[1] = 0x1234;
    m.payloads.push((1, 0x4000u64.to_le_bytes().to_vec()));
    let recs = vec![m, rec(OUT, 0x10, SYS_RT_SIGPROCMASK, 0)];
    let (lines, err) = analyse(&encode(&recs), 1);
    assert_eq!(err, None);
    assert_eq!(lines[1], "[0]: rt_sigprocmask(SIG_SETMASK, nset: 0x4000, oset: NULL, 0x0) -> 0x0, usp: 0x3ff0");
}

#[test]
fn level_zero_lists_raw_records() {
    let recs = vec![rec(IN, 0x10, SYS_CLOSE, 3)];
    let (lines, err) = analyse(&encode(&recs), 0);
    assert_eq!(err, None);
    assert_eq!(lines, vec!["tid: 0x10 -> (0)[0x8, 0x1000, 57]; pid: 0x8000".to_string()]);
}

#[test]
fn level_zero_rejects_number_past_table() {
    let recs = vec![rec(IN, 0x10, 500, 3)];
    let (_, err) = analyse(&encode(&recs), 0);
    assert_eq!(err, Some(TraceError::UnknownSyscall(500)));
}

#[test]
fn bad_level_is_refused() {
    let (lines, err) = analyse(&[], 3);
    assert!(lines.is_empty());
    assert_eq!(err, Some(TraceError::BadLevel(3)));
}

#[test]
fn empty_stream_prints_only_task_sequence() {
    let (lines, err) = analyse(&[], 1);
    assert_eq!(err, None);
    assert_eq!(lines, vec!["Task sequence: ".to_string()]);
}

#[test]
fn decode_errors_are_reported() {
    let r = rec(IN, 0x10, SYS_CLOSE, 3);
    let good = encode_with(&r, 0xABCD, 200, 8);
    assert_eq!(analyse(&encode_with(&r, 0x1234, 200, 8), 1).1, Some(TraceError::Decode(DecodeError::BadMagic)));
    assert_eq!(analyse(&encode_with(&r, 0xABCD, 199, 8), 1).1, Some(TraceError::Decode(DecodeError::BadHeadSize)));
    assert_eq!(analyse(&encode_with(&r, 0xABCD, 200, 9), 1).1, Some(TraceError::Decode(DecodeError::BadCause)));
    let mut short_total = good.clone();
    short_total[4..8].copy_from_slice(&100u32.to_le_bytes());
    assert_eq!(analyse(&short_total, 1).1, Some(TraceError::Decode(DecodeError::BadTotalSize)));
    let mut long_total = good.clone();
    long_total[4..8].copy_from_slice(&300u32.to_le_bytes());
    assert_eq!(analyse(&long_total, 1).1, Some(TraceError::Decode(DecodeError::Truncated)));
    let mut with_payload = rec(IN, 0x10, SYS_CLOSE, 3);
    with_payload.payloads.push((0, vec![1, 2, 3, 4]));
    let mut bad = encode_with(&with_payload, 0xABCD, 200, 8);
    bad[204..208].copy_from_slice(&100u32.to_le_bytes());
    assert_eq!(analyse(&bad, 1).1, Some(TraceError::Decode(DecodeError::BadPayload)));
}

#[test]
fn flow_errors_are_reported() {
    let first_out = encode(&[rec(OUT, 0x10, SYS_CLOSE, 0)]);
    assert_eq!(analyse(&first_out, 1).1, Some(TraceError::Flow(FlowError::UnexpectedFirstEvent)));
    let orphan_clone = encode(&[rec(OUT, 0x10, SYS_CLONE, 0)]);
    assert_eq!(analyse(&orphan_clone, 1).1, Some(TraceError::Flow(FlowError::NoCloneRequest)));
    let stray_return = encode(&[rec(IN, 0x10, SYS_RT_SIGRETURN, 0)]);
    assert_eq!(analyse(&stray_return, 1).1, Some(TraceError::Flow(FlowError::EmptySignalStack)));
    let mismatch = encode(&[rec(IN, 0x10, SYS_READ, 0), rec(OUT, 0x10, SYS_WRITE, 0)]);
    assert_eq!(analyse(&mismatch, 1).1, Some(TraceError::Flow(FlowError::SyscallMismatch)));
    let bad_dir = encode(&[rec(2, 0x10, SYS_READ, 0)]);
    assert_eq!(analyse(&bad_dir, 1).1, Some(TraceError::Flow(FlowError::BadDirection)));
    let mut sa_out = rec(OUT, 0x10, SYS_RT_SIGACTION, 0);
    sa_out.payloads.push((1, sigaction_bytes(0xbeef, 0, 0)));
    let mut exec_out = rec(OUT, 0x10, SYS_EXECVE, 0);
    exec_out.epc = 0xbeef;
    let in_exec = encode(&[rec(IN, 0x10, SYS_RT_SIGACTION, 2), sa_out, rec(IN, 0x10, SYS_EXECVE, 0), exec_out]);
    assert_eq!(analyse(&in_exec, 1).1, Some(TraceError::Flow(FlowError::SignalInExecve)));
}

#[test]
fn render_errors_are_reported() {
    let no_path = encode(&[rec(IN, 0x10, SYS_OPENAT, 3), rec(OUT, 0x10, SYS_OPENAT, 4), rec(IN, 0x10, SYS_EXIT_GROUP, 0)]);
    assert_eq!(analyse(&no_path, 1).1, Some(TraceError::Render(RenderError::MissingPayload)));
    let mut unterminated = rec(IN, 0x10, SYS_OPENAT, 3);
    unterminated.payloads.push((1, b"abc".to_vec()));
    let bytes = encode(&[unterminated, rec(OUT, 0x10, SYS_OPENAT, 4)]);
    assert_eq!(analyse(&bytes, 1).1, Some(TraceError::Render(RenderError::UnterminatedString)));
    let bad_how = encode(&[rec(IN, 0x10, SYS_RT_SIGPROCMASK, 7), rec(OUT, 0x10, SYS_RT_SIGPROCMASK, 0)]);
    assert_eq!(analyse(&bad_how, 1).1, Some(TraceError::Render(RenderError::BadHow)));
}

#[test]
fn remaining_threads_render_by_ascending_id() {
    let recs = vec![rec(IN, 0x30, SYS_CLOSE, 1), rec(IN, 0x10, SYS_CLOSE, 2), rec(IN, 0x20, SYS_CLOSE, 3)];
    let (lines, err) = analyse(&encode(&recs), 1);
    assert_eq!(err, None);
    assert_eq!(lines[0], "Task[0x10] ========>");
    assert_eq!(lines[3], "Task[0x20] ========>");
    assert_eq!(lines[6], "Task[0x30] ========>");
    assert_eq!(lines[9], "Task sequence: ");
    assert_eq!(lines[10], "0x30");
    assert_eq!(lines[11], "0x10");
    assert_eq!(lines[12], "0x20");
}

#[test]
fn write_payload_not_for_slot_one_leaves_slot() {
    let mut w_in = rec(IN, 0x30, SYS_WRITE, 1);
    w_in.payloads.push((1, b"hi\0".to_vec()));
    let recs = vec![w_in, rec(OUT, 0x30, SYS_WRITE, 2)];
    let (lines, err) = analyse(&encode(&recs), 1);
    assert_eq!(err, None);
    assert_eq!(lines[1], "[0]: write(1, 0x0, 0x0) -> 0x2, usp: 0x3ff0");
}

#[test]
fn short_sigaction_payload_is_refused() {
    let mut sa_out = rec(OUT, 0x10, SYS_RT_SIGACTION, 0);
    sa_out.payloads.push((1, vec![1, 2, 3]));
    let recs = vec![rec(IN, 0x10, SYS_RT_SIGACTION, 10), sa_out];
    let (_, err) = analyse(&encode(&recs), 1);
    assert_eq!(err, Some(TraceError::Render(RenderError::BadPayload)));
}
