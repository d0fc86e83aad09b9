use vibeos::arch::aarch64::context_switch as a64;
use vibeos::arch::x86_64::context_switch::{self as x64, push_u64, StackFrame};
use vibeos::common::Stat;
use vibeos::ipc::{recv, send, IpcMessage, Mailboxes, IPC_PAYLOAD_SIZE};
use vibeos::syscalls::{dispatch, dispatch_3, pack_wait_result, write_len, Syscall, SyscallRequest};
use vibeos::time::{tick, uptime_ms, uptime_timespec, uptime_timeval, Clock};

#[test]
fn uptime_splits_into_seconds_and_fractions() {
    let mut c = Clock::new();
    for _ in 0..1500 {
        tick(&mut c);
    }
    assert_eq!(uptime_ms(&c), 1500);
    assert_eq!(uptime_timeval(&c), (1, 500_000));
    assert_eq!(uptime_timespec(&c), (1, 500_000_000));
    c.uptime_ms = u64::MAX;
    tick(&mut c);
    assert_eq!(uptime_ms(&c), u64::MAX);
    assert_eq!(uptime_timeval(&c), (u64::MAX / 1000, 615_000));
}

#[test]
fn mailbox_delivers_per_recipient_in_order() {
    let mut mb = Mailboxes::new();
    let mut m1 = IpcMessage::new(1, 10);
    m1.payload[0] = 1;
    let m2 = IpcMessage::new(1, 20);
    let m3 = IpcMessage::new(4, 30);
    assert_eq!(m2.payload, [0u8; IPC_PAYLOAD_SIZE]);
    send(&mut mb, 2, m1);
    send(&mut mb, 3, m2);
    send(&mut mb, 2, m3);
    let got = recv(&mut mb, 2).unwrap();
    assert_eq!((got.sender, got.msg_type, got.payload[0]), (1, 10, 1));
    assert_eq!(recv(&mut mb, 2).unwrap().msg_type, 30);
    assert!(recv(&mut mb, 2).is_none());
    assert_eq!(recv(&mut mb, 3).unwrap().msg_type, 20);
    assert!(recv(&mut mb, 3).is_none());
}

#[test]
fn syscall_numbers_round_trip() {
    let all = [
        Syscall::Exit, Syscall::Write, Syscall::Read, Syscall::Spawn, Syscall::Yield, Syscall::Fork,
        Syscall::Wait, Syscall::Exec, Syscall::IpcSend, Syscall::IpcRecv, Syscall::ShmCreate,
        Syscall::ShmMap, Syscall::FramebufferMap, Syscall::MachOExec,
    ];
    for s in all {
        assert_eq!(Syscall::from_number(s.number()), Some(s));
    }
    assert_eq!(Syscall::MachOExec.number(), 0x700);
    assert_eq!(Syscall::from_number(13), None);
}

#[test]
fn dispatch_decodes_arguments() {
    assert_eq!(dispatch(0, 0xFFFF_FFFF_FFFF_FFFE, 0, 0, 0, 0, 0), SyscallRequest::Exit { code: -2 });
    assert_eq!(dispatch(1, 1, 0x1000, 5, 0, 0, 0), SyscallRequest::Write { fd: 1, buf: 0x1000, count: 5 });
    assert_eq!(dispatch(6, usize::MAX, 0, 0, 0, 0, 0), SyscallRequest::Wait { pid: -1 });
    assert_eq!(dispatch(0x700, 1, 2, 3, 4, 5, 6), SyscallRequest::MachOExec { data: 1, len: 2 });
    assert_eq!(dispatch(99, 0, 0, 0, 0, 0, 0), SyscallRequest::Unknown { number: 99 });
    assert_eq!(dispatch_3(4, 1, 2, 3), SyscallRequest::Yield);
    assert_eq!(dispatch_3(12, 0, 0, 0), SyscallRequest::FramebufferMap { info_ptr: 0 });
}

#[test]
fn write_syscall_counts_bytes_before_zero() {
    assert_eq!(write_len(1, b"abc\0def"), 3);
    assert_eq!(write_len(2, b"abc"), 3);
    assert_eq!(write_len(3, b"abc"), 0);
    assert_eq!(write_len(1, b""), 0);
}

#[test]
fn wait_result_packs_pid_and_status() {
    assert_eq!(pack_wait_result(5, 3), (5usize << 32) | 3);
    assert_eq!(pack_wait_result(2, -1), (2usize << 32) | 0xFFFF_FFFF);
    assert_eq!(vibeos::libc::unpack_wait_result(pack_wait_result(7, -9)), (7, -9));
}

#[test]
fn stacks_are_64_kib() {
    assert_eq!(x64::stack_size(), 64 * 1024);
    assert_eq!(a64::stack_size(), 64 * 1024);
    assert_eq!(a64::initial_stack(0x1234, 0x8000), 0x8000);
}

#[test]
fn x86_initial_frame_holds_entry_stub_and_registers() {
    let f = x64::initial_stack(0xAAAA, 0xBBBB, 0x10000);
    assert_eq!(f.rsp, 0x10000 - 64);
    assert_eq!(f.words[0], (0x10000 - 8, 0xAAAA));
    assert_eq!(f.words[1], (0x10000 - 16, 0xBBBB));
    assert_eq!(f.words.len(), 8);
    for i in 2..8 {
        assert_eq!(f.words[i], (0x10000 - 8 * (i as u64 + 1), 0));
    }
    let mut g = StackFrame { rsp: 4, words: Vec::new() };
    push_u64(&mut g, 1);
    assert_eq!(g.rsp, u64::MAX - 3);
}

#[test]
fn default_stat_has_one_link_and_page_blocks() {
    let s = Stat::default();
    assert_eq!((s.st_nlink, s.st_blksize, s.st_mode, s.st_size), (1, 4096, 0, 0));
}
