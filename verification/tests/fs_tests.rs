use vibeos::fs::pipe::{pipe_create, pipe_get, PipeState, PipeTable, PIPE_BUF_SIZE};
use vibeos::fs::vfs_ops::{
    bytes_before_nul, complete_vfs_read, create_fd_table, destroy_fd_table, install_vfs_file,
    open_path, seek_would_overflow, sys_close, sys_dup, sys_fstat, sys_mkdir, sys_pipe, sys_read,
    sys_seek, sys_unlink, sys_write, FdKind, FdTables, FileDescriptor, ProcessFdTable,
    ReadOutcome, WriteOutcome, MAX_FDS, O_RDONLY, O_WRONLY, SEEK_CUR, SEEK_END, SEEK_SET,
};
use vibeos::fs::FileHandle;

#[test]
fn pipe_reads_back_what_was_written_in_order() {
    let mut p = PipeState::new();
    assert!(p.is_empty());
    assert_eq!(p.write(b"hello"), 5);
    assert_eq!(p.write(b" world"), 6);
    let mut buf = [0u8; 8];
    assert_eq!(p.read(&mut buf), 8);
    assert_eq!(&buf, b"hello wo");
    let mut rest = [9u8; 8];
    assert_eq!(p.read(&mut rest), 3);
    assert_eq!(&rest, &[b'r', b'l', b'd', 9, 9, 9, 9, 9]);
    assert!(p.is_empty());
    assert_eq!(p.read(&mut rest), 0);
}

#[test]
fn pipe_write_stops_at_capacity() {
    let mut p = PipeState::new();
    let data = vec![7u8; 5000];
    assert_eq!(p.write(&data), PIPE_BUF_SIZE);
    assert!(p.is_full());
    assert_eq!(p.write(b"x"), 0);
    let mut buf = [0u8; 10];
    assert_eq!(p.read(&mut buf), 10);
    assert!(!p.is_full());
    assert_eq!(p.write(b"abcdefghijklmnop"), 10);
}

#[test]
fn pipe_end_of_file_needs_closed_writer_and_empty_buffer() {
    let mut p = PipeState::new();
    assert!(!p.is_eof());
    p.write(b"z");
    p.close_write();
    assert!(!p.is_eof());
    let mut buf = [0u8; 4];
    assert_eq!(p.read(&mut buf), 1);
    assert!(p.is_eof());
}

#[test]
fn pipe_registry_hands_out_ids_in_order() {
    let mut t = PipeTable::new();
    assert_eq!(pipe_create(&mut t), 0);
    assert_eq!(pipe_create(&mut t), 1);
    assert_eq!(t.len(), 2);
    assert_eq!(t.write(1, b"abc"), 3);
    assert!(!pipe_get(&mut t, 1).unwrap().is_empty());
    assert!(pipe_get(&mut t, 0).unwrap().is_empty());
    assert!(pipe_get(&mut t, 2).is_none());
}

#[test]
fn pipe_get_gives_access_to_the_pipe_itself() {
    let mut t = PipeTable::new();
    pipe_create(&mut t);
    pipe_create(&mut t);
    {
        let p = pipe_get(&mut t, 1).unwrap();
        assert_eq!(p.write(b"xy"), 2);
        p.close_write();
    }
    let mut buf = [0u8; 4];
    assert_eq!(t.read(1, &mut buf), 2);
    assert_eq!(&buf[..2], b"xy");
    assert!(pipe_get(&mut t, 1).unwrap().is_eof());
    assert!(!pipe_get(&mut t, 0).unwrap().is_eof());
}

fn vfs_desc(ino: u32, size: u32) -> FileDescriptor {
    FileDescriptor { kind: FdKind::Vfs(FileHandle { ino, size }), offset: 0, flags: O_RDONLY }
}

#[test]
fn fd_table_slots_and_lowest_free_allocation() {
    let mut t = ProcessFdTable::new_with_stdio();
    assert_eq!(t.get(0).unwrap().kind, FdKind::Stdin);
    assert_eq!(t.get(1).unwrap().kind, FdKind::Stdout);
    assert_eq!(t.get(2).unwrap().kind, FdKind::Stderr);
    assert!(t.get(3).is_none());
    assert!(t.get(MAX_FDS).is_none());
    assert_eq!(t.insert(vfs_desc(1, 10)), Some(3));
    assert_eq!(t.insert(vfs_desc(2, 20)), Some(4));
    assert_eq!(t.remove(3), Some(vfs_desc(1, 10)));
    assert_eq!(t.insert(vfs_desc(3, 30)), Some(3));
    assert!(!t.insert_at(MAX_FDS, vfs_desc(4, 40)));
    assert!(t.insert_at(100, vfs_desc(4, 40)));
    assert_eq!(t.remove(MAX_FDS + 5), None);
    if let Some(d) = t.get_mut(100) {
        d.offset = 77;
    }
    assert_eq!(t.get(100).unwrap().offset, 77);
    assert!(t.get_mut(101).is_none());
}

#[test]
fn fd_table_runs_out_of_slots() {
    let mut t = ProcessFdTable::new();
    for fd in 3..MAX_FDS {
        assert_eq!(t.insert(vfs_desc(fd as u32, 0)), Some(fd));
    }
    assert_eq!(t.insert(vfs_desc(999, 0)), None);
}

#[test]
fn close_keeps_stdio_and_fails_on_unknown() {
    let mut tables = FdTables::new();
    assert_eq!(sys_close(&mut tables, 1, 3), -1);
    create_fd_table(&mut tables, 1);
    assert_eq!(sys_close(&mut tables, 1, 0), 0);
    assert_eq!(sys_fstat(&tables, 1, 0).unwrap().st_mode, 0o20000);
    assert_eq!(install_vfs_file(&mut tables, 1, FileHandle { ino: 5, size: 100 }, O_RDONLY), 3);
    assert_eq!(sys_close(&mut tables, 1, 3), 0);
    assert_eq!(sys_close(&mut tables, 1, 3), -1);
    assert_eq!(sys_close(&mut tables, 1, 500), -1);
    destroy_fd_table(&mut tables, 1);
    assert_eq!(sys_close(&mut tables, 1, 0), -1);
}

#[test]
fn dup_copies_descriptor_to_lowest_free_slot() {
    let mut tables = FdTables::new();
    create_fd_table(&mut tables, 7);
    assert_eq!(sys_dup(&mut tables, 7, 1), 3);
    assert_eq!(sys_fstat(&tables, 7, 3).unwrap().st_ino, 3);
    assert_eq!(sys_dup(&mut tables, 7, 10), -1);
    assert_eq!(sys_dup(&mut tables, 8, 1), -1);
    assert_eq!(sys_close(&mut tables, 7, 3), 0);
    assert_eq!(sys_dup(&mut tables, 7, 0), 3);
}

#[test]
fn open_creates_a_table_when_missing() {
    let mut tables = FdTables::new();
    assert_eq!(install_vfs_file(&mut tables, 42, FileHandle { ino: 1, size: 1 }, O_RDONLY), 3);
    assert_eq!(sys_fstat(&tables, 42, 0).unwrap().st_mode, 0o20000);
    assert_eq!(install_vfs_file(&mut tables, 42, FileHandle { ino: 2, size: 1 }, O_RDONLY), 4);
}

#[test]
fn seek_moves_vfs_offsets_only() {
    let mut tables = FdTables::new();
    create_fd_table(&mut tables, 1);
    let fd = install_vfs_file(&mut tables, 1, FileHandle { ino: 9, size: 100 }, O_RDONLY) as usize;
    assert_eq!(sys_seek(&mut tables, 1, fd, 10, SEEK_SET), 10);
    assert_eq!(sys_seek(&mut tables, 1, fd, 5, SEEK_CUR), 15);
    assert_eq!(sys_seek(&mut tables, 1, fd, -20, SEEK_CUR), 0);
    assert_eq!(sys_seek(&mut tables, 1, fd, 5, SEEK_END), 105);
    assert_eq!(sys_seek(&mut tables, 1, fd, 0, 9), -1);
    assert_eq!(sys_seek(&mut tables, 1, 1, 0, SEEK_SET), -1);
    assert_eq!(sys_seek(&mut tables, 2, fd, 0, SEEK_SET), -1);
    assert!(!seek_would_overflow(&tables, 1, fd, -10, SEEK_END));
    assert_eq!(sys_seek(&mut tables, 1, fd, -10, SEEK_END), 90);
    assert_eq!(sys_seek(&mut tables, 1, fd, -100, SEEK_END), 0);
    // Before the start of the file: the offset wraps around.
    assert_eq!(sys_seek(&mut tables, 1, fd, -101, SEEK_END), -1);
    assert!(!seek_would_overflow(&tables, 1, fd, i64::MIN, SEEK_END));
    assert!(seek_would_overflow(&tables, 1, fd, i64::MIN, SEEK_CUR));
    assert!(!seek_would_overflow(&tables, 1, fd, -10, SEEK_SET));
    assert!(!seek_would_overflow(&tables, 1, 1, -10, SEEK_END));
}

#[test]
fn fstat_reports_by_descriptor_kind() {
    let mut tables = FdTables::new();
    let mut pipes = PipeTable::new();
    create_fd_table(&mut tables, 1);
    let fd = install_vfs_file(&mut tables, 1, FileHandle { ino: 77, size: 1000 }, O_RDONLY) as usize;
    let st = sys_fstat(&tables, 1, fd).unwrap();
    assert_eq!((st.st_ino, st.st_size, st.st_mode, st.st_blocks), (77, 1000, 0o100000, 2));
    assert_eq!((st.st_nlink, st.st_blksize), (1, 4096));
    let out = sys_fstat(&tables, 1, 2).unwrap();
    assert_eq!((out.st_ino, out.st_mode), (2, 0o20000));
    let (r, w) = sys_pipe(&mut tables, &mut pipes, 1).unwrap();
    assert_eq!(sys_fstat(&tables, 1, r).unwrap().st_mode, 0o10000);
    assert_eq!(sys_fstat(&tables, 1, w).unwrap().st_mode, 0o10000);
    assert!(sys_fstat(&tables, 1, 99).is_none());
    assert!(sys_fstat(&tables, 2, 0).is_none());
}

#[test]
fn pipe_syscalls_carry_bytes_between_ends() {
    let mut tables = FdTables::new();
    let mut pipes = PipeTable::new();
    create_fd_table(&mut tables, 3);
    let (r, w) = sys_pipe(&mut tables, &mut pipes, 3).unwrap();
    assert_eq!((r, w), (3, 4));
    assert_eq!(sys_write(&tables, &mut pipes, 3, w, b"ping"), WriteOutcome::Done(4));
    assert_eq!(sys_write(&tables, &mut pipes, 3, r, b"x"), WriteOutcome::Done(-1));
    let mut buf = [0u8; 16];
    assert_eq!(sys_read(&tables, &mut pipes, 3, r, &mut buf), ReadOutcome::Done(4));
    assert_eq!(&buf[..4], b"ping");
    assert_eq!(sys_read(&tables, &mut pipes, 3, w, &mut buf), ReadOutcome::Done(-1));
    assert_eq!(sys_read(&tables, &mut pipes, 3, r, &mut buf), ReadOutcome::Done(0));
    assert!(sys_pipe(&mut tables, &mut pipes, 99).is_none());
    assert_eq!(pipes.len(), 2);
}

#[test]
fn pipe_creation_fails_cleanly_when_one_slot_is_left() {
    let mut tables = FdTables::new();
    let mut pipes = PipeTable::new();
    create_fd_table(&mut tables, 1);
    for _ in 3..MAX_FDS - 1 {
        assert!(sys_dup(&mut tables, 1, 0) >= 3);
    }
    assert!(sys_pipe(&mut tables, &mut pipes, 1).is_none());
    assert!(sys_fstat(&tables, 1, MAX_FDS - 1).is_none());
}

#[test]
fn read_hands_keyboard_and_vfs_reads_back() {
    let mut tables = FdTables::new();
    let mut pipes = PipeTable::new();
    let mut buf = [0u8; 4];
    assert_eq!(sys_read(&tables, &mut pipes, 5, 0, &mut buf), ReadOutcome::Stdin);
    assert_eq!(sys_read(&tables, &mut pipes, 5, 3, &mut buf), ReadOutcome::Done(-1));
    assert_eq!(sys_read(&tables, &mut pipes, 5, 0, &mut []), ReadOutcome::Done(0));
    create_fd_table(&mut tables, 5);
    assert_eq!(sys_read(&tables, &mut pipes, 5, 0, &mut buf), ReadOutcome::Stdin);
    assert_eq!(sys_read(&tables, &mut pipes, 5, 1, &mut buf), ReadOutcome::Done(-1));
    let h = FileHandle { ino: 3, size: 50 };
    let fd = install_vfs_file(&mut tables, 5, h, O_RDONLY) as usize;
    sys_seek(&mut tables, 5, fd, 7, SEEK_SET);
    assert_eq!(sys_read(&tables, &mut pipes, 5, fd, &mut buf), ReadOutcome::Vfs { handle: h, offset: 7 });
    complete_vfs_read(&mut tables, 5, fd, 4);
    assert_eq!(sys_read(&tables, &mut pipes, 5, fd, &mut buf), ReadOutcome::Vfs { handle: h, offset: 11 });
}

#[test]
fn write_to_console_stops_at_zero_byte() {
    let mut tables = FdTables::new();
    let mut pipes = PipeTable::new();
    assert_eq!(
        sys_write(&tables, &mut pipes, 1, 1, b"hi\0there"),
        WriteOutcome::Console { print_len: 2, result: 2 }
    );
    assert_eq!(sys_write(&tables, &mut pipes, 1, 2, b""), WriteOutcome::Done(0));
    create_fd_table(&mut tables, 1);
    assert_eq!(sys_dup(&mut tables, 1, 1), 3);
    assert_eq!(
        sys_write(&tables, &mut pipes, 1, 3, b"ab\0cd"),
        WriteOutcome::Console { print_len: 2, result: 5 }
    );
    assert_eq!(sys_write(&tables, &mut pipes, 1, 0, b"x"), WriteOutcome::Done(-1));
    let fd = install_vfs_file(&mut tables, 1, FileHandle { ino: 1, size: 1 }, O_WRONLY) as usize;
    assert_eq!(sys_write(&tables, &mut pipes, 1, fd, b"x"), WriteOutcome::Done(-1));
    assert_eq!(sys_write(&tables, &mut pipes, 2, 5, b"x"), WriteOutcome::Done(-1));
    assert_eq!(bytes_before_nul(b"abc"), 3);
}

#[test]
fn open_path_takes_utf8_before_the_zero_byte() {
    assert_eq!(open_path(b"/etc/motd\0junk"), Some("/etc/motd"));
    assert_eq!(open_path(b"/bin/sh"), Some("/bin/sh"));
    assert_eq!(open_path(b""), None);
    assert_eq!(open_path(&[0xff, 0xfe]), None);
    assert_eq!(open_path(&vec![b'a'; 4097]), None);
    assert_eq!(open_path(&vec![b'a'; 4096]).map(|s| s.len()), Some(4096));
}

#[test]
fn mkdir_and_unlink_are_unsupported() {
    assert_eq!(sys_mkdir(1, 0, 0, 0), -1);
    assert_eq!(sys_unlink(1, 0, 0), -1);
}
