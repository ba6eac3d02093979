use lktrace::flow::Reconstructor;
use lktrace::names::{
    dec_string, errno_name, hex_string, map_name, oct_string, prot_name, sa_flag_name, sig_name, signed_string,
};
use lktrace::render::TidMap;

#[test]
fn hex_and_decimal_rendering() {
    assert_eq!(hex_string(0), "0x0");
    assert_eq!(hex_string(0xdeadbeef), "0xdeadbeef");
    assert_eq!(hex_string(u64::MAX), "0xffffffffffffffff");
    assert_eq!(oct_string(0o755), "0o755");
    assert_eq!(dec_string(1234567890), "1234567890");
    assert_eq!(signed_string(-1), "-1");
    assert_eq!(signed_string(i64::MIN), "-9223372036854775808");
    assert_eq!(signed_string(42), "42");
}

#[test]
fn errno_names() {
    assert_eq!(errno_name(0), "OK");
    assert_eq!(errno_name(-1), "EPERM");
    assert_eq!(errno_name(-2), "ENOENT");
    assert_eq!(errno_name(-10), "ECHILD");
    assert_eq!(errno_name(-20), "ENOTDIR");
    assert_eq!(errno_name(-21), "EISDIR");
    assert_eq!(errno_name(-22), "EINVAL");
    assert_eq!(errno_name(-25), "ENOTTY");
    assert_eq!(errno_name(-3), "Unknown errno");
    assert_eq!(errno_name(5), "Unknown errno");
    assert_eq!(errno_name(i64::MIN), "Unknown errno");
    assert_eq!(errno_name(-(1i64 << 31)), "Unknown errno");
    assert_eq!(errno_name(0xFFFF_FFFE), "Unknown errno");
    assert_eq!(errno_name(-(1i64 << 32) - 2), "Unknown errno");
}

#[test]
fn signal_names() {
    assert_eq!(sig_name(1), "SIGHUP");
    assert_eq!(sig_name(9), "SIGKILL");
    assert_eq!(sig_name(31), "SIGSYS");
    assert_eq!(sig_name(32), "SIGUNKNOWN");
    assert_eq!(sig_name(34), "SIGRTMIN");
    assert_eq!(sig_name(49), "SIGRTMIN+15");
    assert_eq!(sig_name(50), "SIGRTMAX-14");
    assert_eq!(sig_name(64), "SIGRTMAX");
    assert_eq!(sig_name(0), "SIGUNKNOWN");
    assert_eq!(sig_name(65), "SIGUNKNOWN");
}

#[test]
fn prot_flags() {
    assert_eq!(prot_name(0), "PROT_NONE");
    assert_eq!(prot_name(0x1), "PROT_READ");
    assert_eq!(prot_name(0x7), "PROT_READ|PROT_WRITE|PROT_EXEC");
    assert_eq!(prot_name(0x0300_0008), "PROT_SEM|PROT_GROWSDOWN|PROT_GROWSUP");
    assert_eq!(prot_name(0x10), "");
}

#[test]
fn map_flags() {
    assert_eq!(map_name(0x22), "MAP_PRIVATE|MAP_ANONYMOUS");
    assert_eq!(map_name(0x01), "MAP_SHARED");
    assert_eq!(map_name(0x03), "MAP_SHARED_VALIDATE");
    assert_eq!(map_name(0x00), "MAP_UNKNOWN");
    assert_eq!(
        map_name(0x7912),
        "MAP_PRIVATE|MAP_FIXED|MAP_GROWSDOWN|MAP_DENYWRITE|MAP_EXECUTABLE|MAP_LOCKED|MAP_NORESERVE"
    );
}

#[test]
fn sigaction_flags() {
    assert_eq!(sa_flag_name(0), "0x0");
    assert_eq!(sa_flag_name(0x1000_0000), "SA_RESTART");
    assert_eq!(sa_flag_name(0x0400_0000), "SA_RESTORER");
    assert_eq!(sa_flag_name(0x1400_0000), "SA_RESTART|SA_RESTORER");
    assert_eq!(sa_flag_name(0x1), "0x0");
}

#[test]
fn tid_names_are_stable_and_distinct() {
    let mut m = TidMap::new();
    assert_eq!(m.mask_tid(0x4242), "tid_0");
    assert_eq!(m.mask_tid(0x99), "tid_1");
    assert_eq!(m.mask_tid(0x4242), "tid_0");
    assert_eq!(m.mask_tid(0x99), "tid_1");
    assert_eq!(m.mask_tid(7), "tid_2");
}

#[test]
fn fresh_reconstructor_has_no_threads() {
    let r = Reconstructor::new();
    let (flows, seq) = r.finish();
    assert!(flows.is_empty());
    assert!(seq.is_empty());
}
