use vibeos::libc::{
    atoi, calloc, free, malloc, malloc_size_fits, memcmp, memcpy, memmove, memset, realloc, strcmp, strcpy,
    strdup, strlen, strncmp, timespec_from_timeval, unpack_wait_result, BumpAlloc, BumpHeap, Reallocation, Timeval,
    HEAP_BUFFER_SIZE, LIBC_HEAP_SIZE,
};

#[test]
fn string_lengths_and_comparisons() {
    assert_eq!(strlen(b"hello\0world\0"), 5);
    assert_eq!(strlen(b"\0"), 0);
    assert_eq!(strcmp(b"abc\0", b"abc\0zz"), 0);
    assert_eq!(strcmp(b"abd\0", b"abc\0"), 1);
    assert_eq!(strcmp(b"ab\0", b"abc\0"), -99);
    assert_eq!(strncmp(b"abcdef", b"abcxyz", 3), 0);
    assert_eq!(strncmp(b"abcdef", b"abcxyz", 4), (b'd' as i32) - (b'x' as i32));
    assert_eq!(strncmp(b"a\0", b"a\0", 10), 0);
    assert_eq!(memcmp(b"abc", b"abd", 3), -1);
    assert_eq!(memcmp(b"abc", b"abd", 2), 0);
    assert_eq!(memcmp(&[0, 255], &[0, 1], 2), 254);
}

#[test]
fn memory_fill_copy_and_move() {
    let mut b = [1u8; 6];
    memset(&mut b, 0x1FF, 4);
    assert_eq!(b, [0xFF, 0xFF, 0xFF, 0xFF, 1, 1]);
    let mut d = [0u8; 5];
    memcpy(&mut d, b"abcdef", 3);
    assert_eq!(&d, b"abc\0\0");
    let mut m = *b"0123456789";
    memmove(&mut m, 2, 0, 5);
    assert_eq!(&m, b"0101234789");
    let mut m = *b"0123456789";
    memmove(&mut m, 0, 3, 5);
    assert_eq!(&m, b"3456756789");
    let mut s = [9u8; 6];
    strcpy(&mut s, b"hi\0xx");
    assert_eq!(s, [b'h', b'i', 0, 9, 9, 9]);
}

#[test]
fn atoi_reads_sign_and_digits() {
    assert_eq!(atoi(b"  -42x\0"), -42);
    assert_eq!(atoi(b"\t+17\0"), 17);
    assert_eq!(atoi(b"abc\0"), 0);
    assert_eq!(atoi(b"\n -42x\0"), -42);
    assert_eq!(atoi(b"\r\x0b\x0c\t 7\0"), 7);
    assert_eq!(atoi(b"\x0e5\0"), 0);
    assert_eq!(atoi(b"2147483647\0"), i32::MAX);
    assert_eq!(atoi(b"-\0"), 0);
}

#[test]
fn bump_allocator_aligns_and_runs_out() {
    let mut h = BumpHeap::new(0x1003);
    assert_eq!(malloc(&mut h, 0), 0);
    assert!(malloc_size_fits(&h, 10));
    assert!(!malloc_size_fits(&h, usize::MAX));
    assert_eq!(malloc(&mut h, 10), 0x1010);
    assert_eq!(malloc(&mut h, 1), 0x1020);
    assert_eq!(malloc(&mut h, HEAP_BUFFER_SIZE), 0);
    assert_eq!(calloc(&mut h, 4, 4), 0x1030);
    assert_eq!(calloc(&mut h, 0, 4), 0);
    free(&mut h, 0x1030);
    assert_eq!(realloc(&mut h, 0, 8), Reallocation { ptr: 0x1040, copy_old: false });
    assert_eq!(realloc(&mut h, 0x1040, 0), Reallocation { ptr: 0, copy_old: false });
    assert_eq!(realloc(&mut h, 0x1040, 16), Reallocation { ptr: 0x1050, copy_old: true });
    assert_eq!(realloc(&mut h, 0x1050, HEAP_BUFFER_SIZE), Reallocation { ptr: 0, copy_old: false });
}

#[test]
fn wait_and_time_conversions() {
    assert_eq!(unpack_wait_result((3usize << 32) | 0xFFFF_FFFF), (3, -1));
    let ts = timespec_from_timeval(&Timeval { tv_sec: 4, tv_usec: 250 });
    assert_eq!((ts.tv_sec, ts.tv_nsec), (4, 250_000));
}

#[test]
fn strdup_allocates_length_plus_one() {
    let mut h = BumpHeap::new(0x2000);
    assert_eq!(strdup(&mut h, b"abc\0junk"), (0x2000, 4));
    // The next block starts at the next multiple of 16.
    assert_eq!(strdup(&mut h, b"\0"), (0x2010, 1));
    assert_eq!(malloc(&mut h, 1), 0x2020);
}

#[test]
fn strdup_of_too_long_string_fails() {
    let mut h = BumpHeap::new(0x2000);
    let mut s = vec![b'x'; HEAP_BUFFER_SIZE];
    s.push(0);
    assert_eq!(strdup(&mut h, &s), (0, 0));
}

#[test]
fn global_allocator_aligns_and_bumps() {
    let mut a = BumpAlloc::new();
    // The first allocation sets up the heap at its base.
    assert_eq!(a.alloc_block(0x10001, 3, 1), 0x10001);
    assert_eq!(a.alloc_block(0x99999, 8, 8), 0x10008);
    assert_eq!(a.alloc_block(0x99999, 1, 4096), 0x11000);
    assert_eq!(a.alloc_block(0x99999, 2, 2), 0x11002);
}

#[test]
fn global_allocator_refuses_what_does_not_fit() {
    let mut a = BumpAlloc::new();
    assert_eq!(a.alloc_block(0x1000, LIBC_HEAP_SIZE + 1, 1), 0);
    // Nothing was taken: the whole heap is still there.
    assert_eq!(a.alloc_block(0x1000, LIBC_HEAP_SIZE, 1), 0x1000);
    assert_eq!(a.alloc_block(0x1000, 1, 1), 0);
}
