//! The C library for user programs: string and memory routines over byte
//! buffers, the bump allocator, and the unpacking of system call results.
use vstd::prelude::*;
use crate::least::{least_index, lemma_least_index_is};
use vstd::arithmetic::power2::{lemma_pow2_pos, pow2};
use vstd::bits::lemma_usize_low_bits_mask_is_mod;
use vstd::arithmetic::div_mod::{
    lemma_fundamental_div_mod,
    lemma_fundamental_div_mod_converse,
    lemma_mod_bound,
};

verus! {

/// Whether `s` holds a zero byte (a C string ends inside it).
pub open spec fn has_nul(s: Seq<u8>) -> bool {
    exists|i: int| 0 <= i < s.len() && s[i] == 0
}

/// Whether byte `i` of `s` is zero.
pub open spec fn zero_at(s: Seq<u8>) -> spec_fn(int) -> bool {
    |i: int| s[i] == 0
}

/// Length of the C string at the start of `s`: the position of the first
/// zero byte (the whole of `s` when it holds none).
pub open spec fn c_strlen(s: Seq<u8>) -> int {
    match least_index(zero_at(s), 0, s.len() as int) {
        Some(i) => i,
        None => s.len() as int,
    }
}

/// Length of the C string in `s` (which must hold its terminating zero).
pub fn strlen(s: &[u8]) -> (len: usize)
    requires
        has_nul(s@),
    ensures
        len == c_strlen(s@),
        len < s@.len(),
        s@[len as int] == 0,
        forall|j: int| 0 <= j < len ==> s@[j] != 0,
{
    let mut len: usize = 0;
    while s[len] != 0
        invariant
            has_nul(s@),
            len < s@.len(),
            forall|j: int| 0 <= j < len ==> s@[j] != 0,
        decreases s@.len() - len,
    {
        len += 1;
        assert(len < s@.len()) by {
            let k = choose|k: int| 0 <= k < s@.len() && s@[k] == 0;
            assert(k >= len);
        }
    }
    proof {
        lemma_least_index_is(zero_at(s@), 0, s@.len() as int, len as int);
    }
    len
}

/// Fill the first `n` bytes of `s` with the low byte of `c`.
pub fn memset(s: &mut [u8], c: i32, n: usize)
    requires
        n <= old(s)@.len(),
    ensures
        final(s)@.len() == old(s)@.len(),
        forall|i: int| 0 <= i < n ==> final(s)@[i] == c as u8,
        forall|i: int| n <= i < old(s)@.len() ==> final(s)@[i] == old(s)@[i],
{
    let mut i: usize = 0;
    while i < n
        invariant
            i <= n,
            n <= s@.len(),
            s@.len() == old(s)@.len(),
            forall|j: int| 0 <= j < i ==> s@[j] == c as u8,
            forall|j: int| i <= j < s@.len() ==> s@[j] == old(s)@[j],
        decreases n - i,
    {
        s[i] = c as u8;
        i += 1;
    }
}

/// Copy the first `n` bytes of `src` to the front of `dest`.
pub fn memcpy(dest: &mut [u8], src: &[u8], n: usize)
    requires
        n <= old(dest)@.len(),
        n <= src@.len(),
    ensures
        final(dest)@ == src@.take(n as int) + old(dest)@.skip(n as int),
{
    let mut i: usize = 0;
    while i < n
        invariant
            i <= n,
            n <= dest@.len(),
            n <= src@.len(),
            dest@.len() == old(dest)@.len(),
            forall|j: int| 0 <= j < i ==> dest@[j] == src@[j],
            forall|j: int| i <= j < dest@.len() ==> dest@[j] == old(dest)@[j],
        decreases n - i,
    {
        dest[i] = src[i];
        i += 1;
    }
    assert(dest@ =~= src@.take(n as int) + old(dest)@.skip(n as int));
}

/// Signed difference of two bytes, as C compares them.
pub open spec fn byte_diff(a: u8, b: u8) -> i32 {
    (a - b) as i32
}

/// Whether `a` and `b` differ at position `i`.
pub open spec fn differ_at(a: Seq<u8>, b: Seq<u8>) -> spec_fn(int) -> bool {
    |i: int| a[i] != b[i]
}

/// First position below `n` where `a` and `b` differ, or `n`.
pub open spec fn first_difference(a: Seq<u8>, b: Seq<u8>, n: int) -> int {
    match least_index(differ_at(a, b), 0, n) {
        Some(i) => i,
        None => n,
    }
}

/// What comparing the first `n` bytes of `a` and `b` gives: the
/// difference of the first pair that differs, 0 when none does.
pub open spec fn memory_difference(a: Seq<u8>, b: Seq<u8>, n: usize) -> i32 {
    let d = first_difference(a, b, n as int);
    if d < n {
        byte_diff(a[d], b[d])
    } else {
        0
    }
}

/// Difference of two bytes as C compares them.
fn byte_difference(a: u8, b: u8) -> (d: i32)
    ensures
        d == byte_diff(a, b),
{
    (a as i32) - (b as i32)
}

/// Compare the first `n` bytes of two buffers.
fn compare_bytes(s1: &[u8], s2: &[u8], n: usize) -> (r: i32)
    requires
        n <= s1@.len(),
        n <= s2@.len(),
    ensures
        r == memory_difference(s1@, s2@, n),
{
    let mut i: usize = 0;
    while i < n
        invariant
            i <= n,
            n <= s1@.len(),
            n <= s2@.len(),
            forall|j: int| 0 <= j < i ==> s1@[j] == s2@[j],
        decreases n - i,
    {
        let a = s1[i];
        let b = s2[i];
        if a != b {
            proof {
                lemma_least_index_is(differ_at(s1@, s2@), 0, n as int, i as int);
            }
            return byte_difference(a, b);
        }
        i += 1;
    }
    0
}

/// Compare the first `n` bytes (see [`memory_difference`]).
pub fn memcmp(s1: &[u8], s2: &[u8], n: usize) -> (r: i32)
    requires
        n <= s1@.len(),
        n <= s2@.len(),
    ensures
        r == memory_difference(s1@, s2@, n),
{
    compare_bytes(s1, s2, n)
}

/// The memory `mem` after moving `n` bytes from offset `src` to offset
/// `dest`, as if through a temporary buffer.
pub open spec fn moved(mem: Seq<u8>, dest: int, src: int, n: int) -> Seq<u8> {
    Seq::new(mem.len(), |i: int| if dest <= i < dest + n { mem[src + (i - dest)] } else { mem[i] })
}

/// Move `n` bytes within `mem` from offset `src` to offset `dest`; the
/// ranges may overlap (the copy runs backwards when `dest` lies inside the
/// source range).
pub fn memmove(mem: &mut [u8], dest: usize, src: usize, n: usize)
    requires
        dest + n <= old(mem)@.len(),
        src + n <= old(mem)@.len(),
    ensures
        final(mem)@ == moved(old(mem)@, dest as int, src as int, n as int),
{
    let ghost m0 = mem@;
    let len = mem.len();
    assert(src + n <= len && dest + n <= len);
    if dest < src || dest >= src + n {
        let mut i: usize = 0;
        while i < n
            invariant
                i <= n,
                dest + n <= m0.len(),
                src + n <= m0.len(),
                m0.len() <= usize::MAX,
                dest < src || dest >= src + n,
                mem@.len() == m0.len(),
                forall|k: int| dest <= k < dest + i ==> #[trigger] mem@[k] == m0[src + (k - dest)],
                forall|k: int| 0 <= k < mem@.len() && !(dest <= k < dest + i) ==> #[trigger] mem@[k] == m0[k],
            decreases n - i,
        {
            assert(mem@[src + i] == m0[src + i]);
            let b = mem[src + i];
            mem[dest + i] = b;
            i += 1;
        }
    } else {
        let mut i: usize = n;
        while i > 0
            invariant
                i <= n,
                dest + n <= m0.len(),
                src + n <= m0.len(),
                m0.len() <= usize::MAX,
                src <= dest < src + n,
                mem@.len() == m0.len(),
                forall|k: int| dest + i <= k < dest + n ==> #[trigger] mem@[k] == m0[src + (k - dest)],
                forall|k: int| 0 <= k < mem@.len() && !(dest + i <= k < dest + n) ==> #[trigger] mem@[k] == m0[k],
            decreases i,
        {
            i -= 1;
            assert(mem@[src + i] == m0[src + i]);
            let b = mem[src + i];
            mem[dest + i] = b;
        }
    }
    assert(mem@ =~= moved(m0, dest as int, src as int, n as int));
}

/// Copy the C string in `src`, with its terminating zero, to the front of
/// `dest`.
pub fn strcpy(dest: &mut [u8], src: &[u8])
    requires
        has_nul(src@),
        c_strlen(src@) < old(dest)@.len(),
    ensures
        final(dest)@ == src@.take(c_strlen(src@) + 1) + old(dest)@.skip(c_strlen(src@) + 1),
{
    let len = strlen(src);
    let mut i: usize = 0;
    loop
        invariant_except_break
            i <= len,
            len < dest@.len(),
            len < src@.len(),
            len == c_strlen(src@),
            src@[len as int] == 0,
            forall|j: int| 0 <= j < len ==> src@[j] != 0,
            dest@.len() == old(dest)@.len(),
            forall|j: int| 0 <= j < i ==> dest@[j] == src@[j],
            forall|j: int| i <= j < dest@.len() ==> dest@[j] == old(dest)@[j],
        ensures
            dest@.len() == old(dest)@.len(),
            forall|j: int| 0 <= j <= len ==> dest@[j] == src@[j],
            forall|j: int| len < j < dest@.len() ==> dest@[j] == old(dest)@[j],
        decreases len - i,
    {
        let c = src[i];
        dest[i] = c;
        if c == 0 {
            break;
        }
        i += 1;
    }
    assert(dest@ =~= src@.take(len + 1) + old(dest)@.skip(len + 1));
}

/// Whether the C strings in `a` and `b` stop agreeing at position `i`:
/// the bytes differ or `a` ends there.
pub open spec fn stop_at(a: Seq<u8>, b: Seq<u8>) -> spec_fn(int) -> bool {
    |i: int| a[i] != b[i] || a[i] == 0
}

/// First position below `n` where the C strings in `a` and `b` stop
/// agreeing (see [`stop_at`]); `n` when there is none.
pub open spec fn first_stop(a: Seq<u8>, b: Seq<u8>, n: int) -> int {
    match least_index(stop_at(a, b), 0, n) {
        Some(i) => i,
        None => n,
    }
}

/// Whether a comparison of at most `n` bytes stays inside `s`: `s` is at
/// least `n` long or its string ends inside it.
pub open spec fn readable_upto(s: Seq<u8>, n: int) -> bool {
    s.len() >= n || has_nul(s)
}

/// The result of comparing at most `n` bytes of two C strings.
pub open spec fn bounded_string_difference(a: Seq<u8>, b: Seq<u8>, n: usize) -> i32 {
    let k = first_stop(a, b, n as int);
    if k < n && a[k] != b[k] {
        byte_diff(a[k], b[k])
    } else {
        0
    }
}

/// Whether both strings can be compared over at most `n` bytes.
pub open spec fn comparable(a: Seq<u8>, b: Seq<u8>, n: usize) -> bool {
    readable_upto(a, n as int) && readable_upto(b, n as int)
}

/// Compare two C strings over at most `n` bytes.
fn compare_strings(s1: &[u8], s2: &[u8], n: usize) -> (r: i32)
    requires
        comparable(s1@, s2@, n),
    ensures
        r == bounded_string_difference(s1@, s2@, n),
{
    let mut i: usize = 0;
    while i < n
        invariant
            i <= n,
            readable_upto(s1@, n as int),
            readable_upto(s2@, n as int),
            forall|j: int| 0 <= j < i ==> s1@[j] == s2@[j] && s1@[j] != 0,
        decreases n - i,
    {
        assert(i < s1@.len()) by {
            if s1@.len() < n {
                let k = choose|k: int| 0 <= k < s1@.len() && s1@[k] == 0;
                assert(k >= i);
            }
        }
        assert(i < s2@.len()) by {
            if s2@.len() < n {
                let k = choose|k: int| 0 <= k < s2@.len() && s2@[k] == 0;
                if k < i {
                    assert(s1@[k] == s2@[k] && s1@[k] != 0);
                }
            }
        }
        let a = s1[i];
        let b = s2[i];
        if a != b || a == 0 {
            proof {
                lemma_least_index_is(stop_at(s1@, s2@), 0, n as int, i as int);
            }
            if a != b {
                return byte_difference(a, b);
            }
            return 0;
        }
        i += 1;
    }
    0
}

/// Compare at most `n` bytes of the C strings in `s1` and `s2`: the
/// difference of the first differing bytes, 0 when they agree up to the end
/// of the string or `n` bytes.
pub fn strncmp(s1: &[u8], s2: &[u8], n: usize) -> (r: i32)
    requires
        comparable(s1@, s2@, n),
    ensures
        r == bounded_string_difference(s1@, s2@, n),
{
    compare_strings(s1, s2, n)
}

/// The result of comparing the whole C strings in `a` and `b`.
pub open spec fn string_difference(a: Seq<u8>, b: Seq<u8>) -> i32 {
    bounded_string_difference(a, b, a.len() as usize)
}

/// Whether both buffers hold a whole C string.
pub open spec fn both_terminated(a: Seq<u8>, b: Seq<u8>) -> bool {
    has_nul(a) && has_nul(b)
}

/// Compare the whole strings (see [`compare_strings`] over the length of
/// `s1`, which the string in `s1` ends within).
fn compare_whole(s1: &[u8], s2: &[u8]) -> (r: i32)
    requires
        both_terminated(s1@, s2@),
    ensures
        r == string_difference(s1@, s2@),
{
    compare_strings(s1, s2, s1.len())
}

/// Compare the C strings in `s1` and `s2`: the difference of the first
/// differing bytes, 0 when they are equal.
pub fn strcmp(s1: &[u8], s2: &[u8]) -> (r: i32)
    requires
        both_terminated(s1@, s2@),
    ensures
        r == string_difference(s1@, s2@),
{
    compare_whole(s1, s2)
}

/// POSIX file status as user programs see it.
#[derive(Clone, Copy, PartialEq, Eq, Structural, Debug)]
pub struct Stat {
    pub st_dev: u64,
    pub st_ino: u64,
    pub st_mode: u32,
    pub st_nlink: u32,
    pub st_uid: u32,
    pub st_gid: u32,
    pub st_rdev: u64,
    pub st_size: u64,
    pub st_blksize: u32,
    pub st_blocks: u64,
    pub st_atime: u64,
    pub st_mtime: u64,
    pub st_ctime: u64,
}

/// Seconds and microseconds.
#[derive(Clone, Copy, PartialEq, Eq, Structural, Debug)]
pub struct Timeval {
    pub tv_sec: i64,
    pub tv_usec: i64,
}

/// Seconds and nanoseconds.
#[derive(Clone, Copy, PartialEq, Eq, Structural, Debug)]
pub struct Timespec {
    pub tv_sec: i64,
    pub tv_nsec: i64,
}

/// The time `clock_gettime` reports for the time `gettimeofday` gave:
/// the same seconds, the microseconds as nanoseconds.
pub fn timespec_from_timeval(tv: &Timeval) -> (ts: Timespec)
    requires
        i64::MIN <= tv.tv_usec * 1000 <= i64::MAX,
    ensures
        ts == (Timespec { tv_sec: tv.tv_sec, tv_nsec: (tv.tv_usec * 1000) as i64 }),
{
    Timespec { tv_sec: tv.tv_sec, tv_nsec: tv.tv_usec * 1000 }
}

/// The child id and exit status `waitpid` takes from the `wait` system
/// call's 64-bit result: the high and the low 32 bits.
pub open spec fn unpacked_wait(result: u64) -> (i32, i32) {
    ((result >> 32u64) as i32, (result & 0xFFFF_FFFFu64) as i32)
}

/// Split the result of the `wait` system call (see [`unpacked_wait`]).
pub fn unpack_wait_result(result: usize) -> (r: (i32, i32))
    ensures
        r == unpacked_wait(result as u64),
{
    let v = result as u64;
    ((v >> 32) as i32, (v & 0xFFFFFFFF) as i32)
}

/// Size of the static heap the bump allocator hands out.
pub const HEAP_BUFFER_SIZE: usize = 65536;

/// The bump allocator: allocations come in order from the static heap at
/// `base`, 16-byte aligned, and are never given back. `ptr` is 0 until the
/// first allocation.
pub struct BumpHeap {
    base: usize,
    ptr: usize,
    end: usize,
}

/// `x` rounded up to a multiple of 16.
pub open spec fn align16(x: int) -> int {
    x + 15 - (x + 15) % 16
}

impl BumpHeap {
    /// The heap's start address.
    pub closed spec fn base_addr(&self) -> usize {
        self.base
    }

    /// The next free address (0 before the first allocation).
    pub closed spec fn next(&self) -> usize {
        self.ptr
    }

    /// One past the heap's last byte (0 before the first allocation).
    pub closed spec fn limit(&self) -> usize {
        self.end
    }

    /// Well-formedness: the heap fits in the address space with room for
    /// alignment, the next free address lies within it, and once set up
    /// the limit is the heap's end.
    pub closed spec fn wf(&self) -> bool {
        &&& self.base + HEAP_BUFFER_SIZE + 16 <= usize::MAX
        &&& self.ptr <= self.base + HEAP_BUFFER_SIZE
        &&& (self.ptr != 0 ==> self.end == self.base + HEAP_BUFFER_SIZE)
    }

    /// An allocator over the static heap at `base`, not yet used.
    pub fn new(base: usize) -> (h: Self)
        requires
            base + HEAP_BUFFER_SIZE + 16 <= usize::MAX,
        ensures
            h.wf(),
            h.base_addr() == base,
            h.next() == 0,
            h.limit() == 0,
    {
        BumpHeap { base, ptr: 0, end: 0 }
    }
}

/// The next free address once the heap is set up.
pub open spec fn current_next(h: &BumpHeap) -> int {
    if h.next() == 0 {
        h.base_addr() as int
    } else {
        h.next() as int
    }
}

/// Address `malloc(size)` returns (0 for a null pointer), and the next
/// free address afterwards: the aligned next free address when the block
/// fits in the heap, else 0 with nothing taken. `malloc(0)` returns 0.
pub open spec fn malloc_effect(h: &BumpHeap, size: usize) -> (int, int) {
    if size == 0 {
        (0, h.next() as int)
    } else {
        let a = align16(current_next(h));
        if a + size > h.base_addr() + HEAP_BUFFER_SIZE {
            (0, current_next(h))
        } else {
            (a, a + size)
        }
    }
}

/// Whether the address arithmetic of `malloc(size)` stays within `usize`
/// (it does unless `size` is within a heap's length of `usize::MAX`).
pub open spec fn malloc_fits(h: &BumpHeap, size: usize) -> bool {
    size == 0 || align16(current_next(h)) + size <= usize::MAX
}

/// Whether `malloc(size)` can be called (see [`malloc_fits`]).
pub fn malloc_size_fits(h: &BumpHeap, size: usize) -> (ok: bool)
    requires
        h.wf(),
    ensures
        ok == malloc_fits(h, size),
{
    if size == 0 {
        return true;
    }
    let cur = if h.ptr == 0 { h.base } else { h.ptr };
    let aligned = align_up16(cur);
    size <= usize::MAX - aligned
}

/// Round `x` up to a multiple of 16.
fn align_up16(x: usize) -> (r: usize)
    requires
        x + 15 <= usize::MAX,
    ensures
        r == align16(x as int),
{
    let y = x + 15;
    assert(y & !15usize == y - y % 16) by (bit_vector);
    y & !15usize
}

/// Allocate `size` bytes (see [`malloc_effect`]); the caller zeroes the
/// block.
pub fn malloc(h: &mut BumpHeap, size: usize) -> (p: usize)
    requires
        old(h).wf(),
        malloc_fits(old(h), size),
    ensures
        final(h).wf(),
        final(h).base_addr() == old(h).base_addr(),
        p == malloc_effect(old(h), size).0,
        size != 0 ==> final(h).next() == malloc_effect(old(h), size).1,
        size == 0 ==> final(h).next() == old(h).next() && final(h).limit() == old(h).limit(),
{
    if size == 0 {
        return 0;
    }
    if h.ptr == 0 {
        h.ptr = h.base;
        h.end = h.base + HEAP_BUFFER_SIZE;
    }
    let aligned = align_up16(h.ptr);
    let new_ptr = aligned + size;
    if new_ptr > h.end {
        return 0;
    }
    h.ptr = new_ptr;
    aligned
}

/// Release a block: the bump allocator keeps everything, so nothing
/// changes.
pub fn free(h: &mut BumpHeap, _ptr: usize)
    ensures
        final(h).base_addr() == old(h).base_addr(),
        final(h).next() == old(h).next(),
        final(h).limit() == old(h).limit(),
{
}

/// Allocate `nmemb` elements of `size` bytes (zeroed by the caller, as
/// every `malloc` block is); 0 when the total is 0.
pub fn calloc(h: &mut BumpHeap, nmemb: usize, size: usize) -> (p: usize)
    requires
        old(h).wf(),
        nmemb * size <= usize::MAX,
        malloc_fits(old(h), (nmemb * size) as usize),
    ensures
        final(h).wf(),
        final(h).base_addr() == old(h).base_addr(),
        p == malloc_effect(old(h), (nmemb * size) as usize).0,
        nmemb * size != 0 ==> final(h).next() == malloc_effect(old(h), (nmemb * size) as usize).1,
        nmemb * size == 0 ==> final(h).next() == old(h).next(),
{
    let total = nmemb * size;
    if total == 0 {
        return 0;
    }
    malloc(h, total)
}

/// What `realloc` did: the pointer it returns, and whether the caller
/// copies `size` bytes from the old block to it.
#[derive(Clone, Copy, PartialEq, Eq, Structural, Debug)]
pub struct Reallocation {
    pub ptr: usize,
    pub copy_old: bool,
}

/// Resize the block at `ptr` to `size` bytes: a null `ptr` is a plain
/// `malloc`; size 0 frees and returns null; otherwise a new block is
/// allocated and, if that succeeded, the old contents are copied to it.
pub fn realloc(h: &mut BumpHeap, ptr: usize, size: usize) -> (r: Reallocation)
    requires
        old(h).wf(),
        malloc_fits(old(h), size),
    ensures
        final(h).wf(),
        ptr == 0 ==> r == (Reallocation { ptr: malloc_effect(old(h), size).0 as usize, copy_old: false }),
        ptr != 0 && size == 0 ==> r == (Reallocation { ptr: 0, copy_old: false }) && final(h).next()
            == old(h).next(),
        ptr != 0 && size != 0 ==> r == (Reallocation {
            ptr: malloc_effect(old(h), size).0 as usize,
            copy_old: malloc_effect(old(h), size).0 != 0,
        }),
        size != 0 ==> final(h).next() == malloc_effect(old(h), size).1,
{
    if ptr == 0 {
        let p = malloc(h, size);
        return Reallocation { ptr: p, copy_old: false };
    }
    if size == 0 {
        free(h, ptr);
        return Reallocation { ptr: 0, copy_old: false };
    }
    let new_ptr = malloc(h, size);
    if new_ptr == 0 {
        return Reallocation { ptr: 0, copy_old: false };
    }
    Reallocation { ptr: new_ptr, copy_old: true }
}

/// Duplicate the C string `s`: a block of its length plus one is
/// allocated. Returns the block's address and the number of bytes the
/// caller copies into it from `s` (the string and its terminating zero;
/// none when the allocation failed).
pub fn strdup(h: &mut BumpHeap, s: &[u8]) -> (r: (usize, usize))
    requires
        old(h).wf(),
        has_nul(s@),
        malloc_fits(old(h), (c_strlen(s@) + 1) as usize),
    ensures
        final(h).wf(),
        final(h).base_addr() == old(h).base_addr(),
        r.0 == malloc_effect(old(h), (c_strlen(s@) + 1) as usize).0,
        final(h).next() == malloc_effect(old(h), (c_strlen(s@) + 1) as usize).1,
        r.1 == if r.0 == 0 { 0 } else { c_strlen(s@) + 1 },
{
    let len = strlen(s);
    let n = s.len();
    assert(len < n);
    let p = malloc(h, len + 1);
    if p == 0 {
        (0, 0)
    } else {
        (p, len + 1)
    }
}

/// Size of the heap behind the global allocator.
pub const LIBC_HEAP_SIZE: usize = 4194304;

/// Whether `a` is a power of two (as every alignment is).
pub open spec fn is_power_of_two(a: usize) -> bool {
    exists|k: nat| k < usize::BITS && a == pow2(k)
}

/// The least multiple of `a` that is at least `c`.
pub open spec fn align_up(c: int, a: int) -> int {
    if c % a == 0 {
        c
    } else {
        c - c % a + a
    }
}

/// The global allocator's state: the heap's start (0 until the first
/// allocation) and the next free address. Blocks come in order and are
/// never given back.
pub struct BumpAlloc {
    next: usize,
    base: usize,
}

impl BumpAlloc {
    /// The heap's start, 0 before the first allocation.
    pub closed spec fn base(&self) -> usize {
        self.base
    }

    /// The next free address.
    pub closed spec fn next(&self) -> usize {
        self.next
    }

    /// Well-formedness: the next free address lies in the heap, between its
    /// start and its end.
    pub open spec fn wf(&self) -> bool {
        self.base() <= self.next() <= self.base() + LIBC_HEAP_SIZE
    }

    /// An allocator that has handed out nothing.
    pub fn new() -> (a: Self)
        ensures
            a.wf(),
            a.base() == 0,
            a.next() == 0,
    {
        BumpAlloc { next: 0, base: 0 }
    }

    /// The heap's start once the heap at `heap_base` is set up.
    pub open spec fn start(&self, heap_base: usize) -> int {
        if self.base() == 0 {
            heap_base as int
        } else {
            self.base() as int
        }
    }

    /// The next free address once the heap at `heap_base` is set up.
    pub open spec fn free_from(&self, heap_base: usize) -> int {
        if self.base() == 0 {
            heap_base as int
        } else {
            self.next() as int
        }
    }

    /// Whether the address arithmetic of an allocation of `size` bytes
    /// aligned to `align` stays within `usize`.
    pub open spec fn alloc_fits(&self, heap_base: usize, size: usize, align: usize) -> bool {
        &&& self.start(heap_base) + LIBC_HEAP_SIZE <= usize::MAX
        &&& self.free_from(heap_base) + align <= usize::MAX
        &&& align_up(self.free_from(heap_base), align as int) + size <= usize::MAX
    }

    /// Allocate `size` bytes aligned to `align` from the heap at
    /// `heap_base` (set up on the first call): the block starts at the
    /// first aligned free address and is taken when it ends within the
    /// heap; otherwise 0 (a null pointer) with nothing taken.
    pub fn alloc_block(&mut self, heap_base: usize, size: usize, align: usize) -> (p: usize)
        requires
            old(self).wf(),
            is_power_of_two(align),
            old(self).alloc_fits(heap_base, size, align),
        ensures
            final(self).wf(),
            final(self).base() == old(self).start(heap_base),
            ({
                let a = align_up(old(self).free_from(heap_base), align as int);
                if a + size > old(self).start(heap_base) + LIBC_HEAP_SIZE {
                    p == 0 && final(self).next() == old(self).free_from(heap_base)
                } else {
                    p == a && final(self).next() == a + size
                }
            }),
    {
        if self.base == 0 {
            self.base = heap_base;
            self.next = heap_base;
        }
        let current = self.next;
        proof {
            lemma_power_of_two_pos(align);
        }
        let bumped = current + align - 1;
        let aligned = bumped & !(align - 1);
        proof {
            lemma_mask_rounds_down(bumped, align);
            lemma_round_down_is_align_up(current as int, align as int);
        }
        let new = aligned + size;
        if new > self.base + LIBC_HEAP_SIZE {
            return 0;
        }
        self.next = new;
        aligned
    }
}

/// A power of two is positive.
proof fn lemma_power_of_two_pos(a: usize)
    requires
        is_power_of_two(a),
    ensures
        a > 0,
{
    let k = choose|k: nat| k < usize::BITS && a == pow2(k);
    lemma_pow2_pos(k);
}

/// Clearing the bits below a power of two rounds down to its multiple.
proof fn lemma_mask_rounds_down(x: usize, a: usize)
    requires
        is_power_of_two(a),
    ensures
        x & !((a - 1) as usize) == x - x % a,
{
    let k = choose|k: nat| k < usize::BITS && a == pow2(k);
    lemma_pow2_pos(k);
    lemma_usize_low_bits_mask_is_mod(x, k);
    let m = (a - 1) as usize;
    assert(x & !m == x - (x & m)) by (bit_vector);
}

/// `c + a - 1` rounded down to a multiple of `a` is `c` rounded up.
proof fn lemma_round_down_is_align_up(c: int, a: int)
    requires
        0 <= c,
        0 < a,
    ensures
        (c + a - 1) - (c + a - 1) % a == align_up(c, a),
{
    let r = c % a;
    lemma_fundamental_div_mod(c, a);
    lemma_mod_bound(c, a);
    let q = c / a;
    assert(a * q == q * a) by (nonlinear_arith);
    assert((q + 1) * a == q * a + a) by (nonlinear_arith);
    if r == 0 {
        lemma_fundamental_div_mod_converse(c + a - 1, a, q, a - 1);
    } else {
        lemma_fundamental_div_mod_converse(c + a - 1, a, q + 1, r - 1);
    }
}

/// A blank that `atoi` skips, as C's `isspace` has them: space, and tab,
/// line feed, vertical tab, form feed and carriage return (9 to 13).
pub open spec fn is_blank(c: u8) -> bool {
    c == 32 || 9 <= c <= 13
}

/// A decimal digit.
pub open spec fn is_digit(c: u8) -> bool {
    48 <= c <= 57
}

/// The first position at or after `i` that is not a blank.
pub open spec fn skip_blanks(s: Seq<u8>, i: int) -> int
    decreases s.len() - i,
{
    if 0 <= i < s.len() && is_blank(s[i]) {
        skip_blanks(s, i + 1)
    } else {
        i
    }
}

/// The first position at or after `i` that is not a digit.
pub open spec fn digits_end(s: Seq<u8>, i: int) -> int
    decreases s.len() - i,
{
    if 0 <= i < s.len() && is_digit(s[i]) {
        digits_end(s, i + 1)
    } else {
        i
    }
}

/// The number the decimal digits `s[start..end]` spell.
pub open spec fn digits_value(s: Seq<u8>, start: int, end: int) -> int
    decreases end - start,
{
    if end <= start {
        0
    } else {
        digits_value(s, start, end - 1) * 10 + (s[end - 1] - 48)
    }
}

/// Position of the first digit after the blanks and an optional sign.
pub open spec fn number_start(s: Seq<u8>) -> int {
    let b = skip_blanks(s, 0);
    if s[b] == 45 || s[b] == 43 {
        b + 1
    } else {
        b
    }
}

/// Whether the number is negative (a minus sign after the blanks).
pub open spec fn number_negative(s: Seq<u8>) -> bool {
    s[skip_blanks(s, 0)] == 45
}

/// The magnitude `atoi` reads from the C string in `s`.
pub open spec fn number_magnitude(s: Seq<u8>) -> int {
    digits_value(s, number_start(s), digits_end(s, number_start(s)))
}

/// The value `atoi` gives for the C string in `s`: blanks skipped, an
/// optional sign, then as many decimal digits as follow.
pub open spec fn atoi_value(s: Seq<u8>) -> int {
    if number_negative(s) {
        -number_magnitude(s)
    } else {
        number_magnitude(s)
    }
}

/// Digit prefixes never spell more than the whole run of digits.
proof fn lemma_digits_monotonic(s: Seq<u8>, start: int, k: int, end: int)
    requires
        0 <= start <= k <= end <= s.len(),
        forall|j: int| start <= j < end ==> is_digit(s[j]),
    ensures
        0 <= digits_value(s, start, k) <= digits_value(s, start, end),
    decreases end - k,
{
    if k < end {
        lemma_digits_monotonic(s, start, k, end - 1);
        lemma_digits_nonneg(s, start, end - 1);
    } else {
        lemma_digits_nonneg(s, start, k);
    }
}

/// Digits spell a non-negative number.
proof fn lemma_digits_nonneg(s: Seq<u8>, start: int, end: int)
    requires
        0 <= start <= end <= s.len(),
        forall|j: int| start <= j < end ==> is_digit(s[j]),
    ensures
        digits_value(s, start, end) >= 0,
    decreases end - start,
{
    if end > start {
        lemma_digits_nonneg(s, start, end - 1);
    }
}

/// The digits from `i` to the end of the run are digits.
proof fn lemma_digits_end(s: Seq<u8>, i: int)
    requires
        0 <= i <= s.len(),
    ensures
        i <= digits_end(s, i) <= s.len(),
        forall|j: int| i <= j < digits_end(s, i) ==> is_digit(s[j]),
    decreases s.len() - i,
{
    if 0 <= i < s.len() && is_digit(s[i]) {
        lemma_digits_end(s, i + 1);
    }
}

/// Parse the decimal integer at the start of the C string in `s` (see
/// [`atoi_value`]); the number must fit in an `i32`.
pub fn atoi(s: &[u8]) -> (v: i32)
    requires
        has_nul(s@),
        number_magnitude(s@) <= i32::MAX,
    ensures
        v == atoi_value(s@),
{
    let ghost k = choose|k: int| 0 <= k < s@.len() && s@[k] == 0;
    let mut i: usize = 0;
    while s[i] == 32 || (s[i] >= 9 && s[i] <= 13)
        invariant
            0 <= k < s@.len(),
            s@[k] == 0,
            i <= k,
            skip_blanks(s@, i as int) == skip_blanks(s@, 0),
        decreases k - i,
    {
        i += 1;
    }
    let mut negative = false;
    if s[i] == 45 {
        negative = true;
        i += 1;
    } else if s[i] == 43 {
        i += 1;
    }
    let ghost start = i as int;
    assert(start == number_start(s@));
    assert(start <= k);
    proof {
        lemma_digits_end(s@, start);
        lemma_digits_monotonic(s@, start, start, digits_end(s@, start));
    }
    let mut result: i32 = 0;
    while s[i] >= 48 && s[i] <= 57
        invariant
            0 <= k < s@.len(),
            s@[k] == 0,
            start <= i <= k,
            start == number_start(s@),
            digits_end(s@, i as int) == digits_end(s@, start),
            start <= digits_end(s@, start) <= s@.len(),
            forall|j: int| start <= j < digits_end(s@, start) ==> is_digit(s@[j]),
            number_magnitude(s@) <= i32::MAX,
            result == digits_value(s@, start, i as int),
            i <= digits_end(s@, start),
        decreases k - i,
    {
        proof {
            assert(digits_end(s@, i as int) == digits_end(s@, i + 1));
            lemma_digits_end(s@, i + 1);
            lemma_digits_monotonic(s@, start, i + 1, digits_end(s@, start));
        }
        result = result * 10 + (s[i] - 48) as i32;
        i += 1;
    }
    assert(i == digits_end(s@, start));
    if negative {
        -result
    } else {
        result
    }
}

/// A string compares equal to itself.
pub proof fn lemma_strcmp_reflexive(s: Seq<u8>)
    requires
        has_nul(s),
    ensures
        string_difference(s, s) == 0,
{
}

/// A buffer compares equal to itself.
pub proof fn lemma_memcmp_reflexive(s: Seq<u8>, n: usize)
    requires
        n <= s.len(),
    ensures
        memory_difference(s, s, n) == 0,
{
}

/// `waitpid` recovers what the kernel's `wait` packed: the low 32 bits of
/// the child id and the exit status (with the 64-bit return register of
/// the kernel's targets).
pub proof fn lemma_wait_roundtrip(pid: isize, status: i32)
    requires
        usize::BITS == 64,
    ensures
        unpacked_wait(crate::syscalls::packed_wait(pid, status) as u64) == (pid as i32, status),
{
    let p = pid as u64;
    let st = status as u64;
    let packed: u64 = ((p << 32u64) | (st & 0xFFFF_FFFFu64)) as u64;
    assert(((packed >> 32u64) as i32) == (p as i32) && ((packed & 0xFFFF_FFFFu64) as i32) == (st as i32))
        by (bit_vector)
        requires
            packed == ((p << 32u64) | (st & 0xFFFF_FFFFu64)),
    ;
    assert((pid as u64) as i32 == pid as i32) by (bit_vector);
    assert((status as u64) as i32 == status) by (bit_vector);
    assert(packed as usize as u64 == packed) by (bit_vector)
        requires
            usize::BITS == 64,
    ;
}

} // verus!
