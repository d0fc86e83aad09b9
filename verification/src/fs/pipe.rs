//! Pipes: a bounded byte queue between a writer and a reader.
use vstd::prelude::*;
use std::collections::VecDeque;

verus! {

/// Capacity of a pipe's buffer in bytes.
pub const PIPE_BUF_SIZE: usize = 4096;

/// The smaller of two naturals.
pub open spec fn min_nat(a: nat, b: nat) -> nat {
    if a <= b { a } else { b }
}

/// How many bytes a write of `data_len` bytes accepts into a pipe that
/// already holds `held` bytes: none once the buffer is full, else as many as
/// fit.
pub open spec fn accepted_by_write(held: nat, data_len: nat) -> nat {
    if held >= PIPE_BUF_SIZE {
        0
    } else {
        min_nat(data_len, (PIPE_BUF_SIZE - held) as nat)
    }
}

/// One end of the pipe model: the bytes a write leaves queued.
pub open spec fn contents_after_write(held: Seq<u8>, data: Seq<u8>) -> Seq<u8> {
    held + data.take(accepted_by_write(held.len(), data.len()) as int)
}

/// State of a pipe: the queued bytes, oldest first, and whether the write
/// end has been closed.
pub struct PipeState {
    buffer: VecDeque<u8>,
    write_closed: bool,
}

impl PipeState {
    /// The bytes waiting to be read, oldest first.
    pub closed spec fn queued(&self) -> Seq<u8> {
        self.buffer@
    }

    /// Whether the write end has been closed.
    pub closed spec fn closed_for_writing(&self) -> bool {
        self.write_closed
    }

    /// An empty pipe with both ends open.
    pub fn new() -> (p: Self)
        ensures
            p.queued() == Seq::<u8>::empty(),
            !p.closed_for_writing(),
    {
        PipeState { buffer: VecDeque::with_capacity(PIPE_BUF_SIZE), write_closed: false }
    }

    /// Read up to `buf.len()` bytes from the pipe into the front of `buf`,
    /// returning how many were read. An empty pipe gives 0 (end of file if
    /// the write end is closed; otherwise the caller retries later).
    pub fn read(&mut self, buf: &mut [u8]) -> (n: usize)
        ensures
            n == min_nat(old(buf)@.len(), old(self).queued().len()),
            final(buf)@ == old(self).queued().take(n as int) + old(buf)@.skip(n as int),
            final(self).queued() == old(self).queued().skip(n as int),
            final(self).closed_for_writing() == old(self).closed_for_writing(),
    {
        let mut i: usize = 0;
        let ghost q0 = self.buffer@;
        let ghost b0 = buf@;
        while i < buf.len()
            invariant_except_break
                i <= buf@.len(),
                i <= q0.len(),
                buf@.len() == b0.len(),
                self.buffer@ == q0.skip(i as int),
                buf@ == q0.take(i as int) + b0.skip(i as int),
                self.write_closed == old(self).write_closed,
            ensures
                i == min_nat(b0.len(), q0.len()),
                self.buffer@ == q0.skip(i as int),
                buf@ == q0.take(i as int) + b0.skip(i as int),
                self.write_closed == old(self).write_closed,
            decreases buf@.len() - i,
        {
            match self.buffer.pop_front() {
                Some(byte) => {
                    buf[i] = byte;
                    assert(q0.take(i + 1) == q0.take(i as int).push(byte));
                    assert(q0.skip(i + 1) == q0.skip(i as int).subrange(1, q0.skip(i as int).len() as int));
                    i += 1;
                    assert(buf@ =~= q0.take(i as int) + b0.skip(i as int));
                }
                None => {
                    break;
                }
            }
        }
        i
    }

    /// Append as many bytes of `data` as fit in the buffer, returning how
    /// many were accepted (0 when the pipe is full).
    pub fn write(&mut self, data: &[u8]) -> (written: usize)
        ensures
            written == accepted_by_write(old(self).queued().len(), data@.len()),
            final(self).queued() == contents_after_write(old(self).queued(), data@),
            final(self).closed_for_writing() == old(self).closed_for_writing(),
    {
        let mut written: usize = 0;
        let ghost q0 = self.buffer@;
        while written < data.len()
            invariant_except_break
                written <= data@.len(),
                q0.len() + written <= PIPE_BUF_SIZE || written == 0,
                self.buffer@ == q0 + data@.take(written as int),
                self.write_closed == old(self).write_closed,
            ensures
                written == accepted_by_write(q0.len(), data@.len()),
                self.buffer@ == q0 + data@.take(written as int),
                self.write_closed == old(self).write_closed,
            decreases data@.len() - written,
        {
            if self.buffer.len() >= PIPE_BUF_SIZE {
                break;
            }
            self.buffer.push_back(data[written]);
            assert(data@.take(written + 1) == data@.take(written as int).push(data@[written as int]));
            written += 1;
        }
        written
    }

    /// Close the write end of the pipe.
    pub fn close_write(&mut self)
        ensures
            final(self).queued() == old(self).queued(),
            final(self).closed_for_writing(),
    {
        self.write_closed = true;
    }

    /// End of file: the write end is closed and nothing is left to read.
    pub fn is_eof(&self) -> (b: bool)
        ensures
            b == (self.closed_for_writing() && self.queued().len() == 0),
    {
        self.write_closed && self.buffer.len() == 0
    }

    /// Whether the buffer holds its full capacity.
    pub fn is_full(&self) -> (b: bool)
        ensures
            b == (self.queued().len() >= PIPE_BUF_SIZE),
    {
        self.buffer.len() >= PIPE_BUF_SIZE
    }

    /// Whether no byte is waiting to be read.
    pub fn is_empty(&self) -> (b: bool)
        ensures
            b == (self.queued().len() == 0),
    {
        self.buffer.len() == 0
    }
}

impl Clone for PipeState {
    fn clone(&self) -> (p: Self)
        ensures
            p.queued() == self.queued(),
            p.closed_for_writing() == self.closed_for_writing(),
    {
        let buffer = self.buffer.clone();
        assert(buffer@ =~= self.buffer@);
        PipeState { buffer, write_closed: self.write_closed }
    }
}

/// What a pipe holds, as seen from outside: the queued bytes and whether
/// the write end is closed.
pub type PipeView = (Seq<u8>, bool);

/// The registry of pipes; a pipe's id is its position here.
pub struct PipeTable {
    pipes: Vec<PipeState>,
}

impl View for PipeTable {
    type V = Seq<PipeView>;

    closed spec fn view(&self) -> Seq<PipeView> {
        Seq::new(
            self.pipes@.len(),
            |i: int| (self.pipes@[i].queued(), self.pipes@[i].closed_for_writing()),
        )
    }
}

impl PipeTable {
    /// A registry with no pipes.
    pub fn new() -> (t: Self)
        ensures
            t@ == Seq::<PipeView>::empty(),
    {
        let t = PipeTable { pipes: Vec::new() };
        assert(t@ =~= Seq::<PipeView>::empty());
        t
    }

    /// Number of pipes created so far.
    pub fn len(&self) -> (n: usize)
        ensures
            n == self@.len(),
    {
        self.pipes.len()
    }

    /// Read from pipe `id` into the front of `buf`, as [`PipeState::read`];
    /// the other pipes are untouched.
    pub fn read(&mut self, id: usize, buf: &mut [u8]) -> (n: usize)
        requires
            id < old(self)@.len(),
        ensures
            n == min_nat(old(buf)@.len(), old(self)@[id as int].0.len()),
            final(buf)@ == old(self)@[id as int].0.take(n as int) + old(buf)@.skip(n as int),
            final(self)@ == old(self)@.update(
                id as int,
                (old(self)@[id as int].0.skip(n as int), old(self)@[id as int].1),
            ),
    {
        let n = self.pipes[id].read(buf);
        assert(self@ =~= old(self)@.update(
            id as int,
            (old(self)@[id as int].0.skip(n as int), old(self)@[id as int].1),
        ));
        n
    }

    /// Write `data` to pipe `id`, as [`PipeState::write`]; the other pipes
    /// are untouched.
    pub fn write(&mut self, id: usize, data: &[u8]) -> (written: usize)
        requires
            id < old(self)@.len(),
        ensures
            written == accepted_by_write(old(self)@[id as int].0.len(), data@.len()),
            final(self)@ == old(self)@.update(
                id as int,
                (contents_after_write(old(self)@[id as int].0, data@), old(self)@[id as int].1),
            ),
    {
        let w = self.pipes[id].write(data);
        assert(self@ =~= old(self)@.update(
            id as int,
            (contents_after_write(old(self)@[id as int].0, data@), old(self)@[id as int].1),
        ));
        w
    }
}

/// Create a new, empty pipe and return its id (its position in the
/// registry).
pub fn pipe_create(table: &mut PipeTable) -> (id: usize)
    ensures
        id == old(table)@.len(),
        final(table)@ == old(table)@.push((Seq::<u8>::empty(), false)),
{
    let id = table.pipes.len();
    table.pipes.push(PipeState::new());
    assert(table@ =~= old(table)@.push((Seq::<u8>::empty(), false)));
    id
}

/// Mutable access to pipe `id`, or `None` when no such pipe exists. What
/// is done through the reference is done to the pipe in the registry.
pub fn pipe_get(table: &mut PipeTable, id: usize) -> (p: Option<&mut PipeState>)
    ensures
        id < old(table)@.len() ==> p is Some && p->0.queued() == old(table)@[id as int].0
            && p->0.closed_for_writing() == old(table)@[id as int].1 && final(table)@ == old(
            table,
        )@.update(id as int, (final(p->0).queued(), final(p->0).closed_for_writing())),
        id >= old(table)@.len() ==> p is None && final(table)@ == old(table)@,
{
    if id < table.pipes.len() {
        Some(&mut table.pipes[id])
    } else {
        None
    }
}

/// A pipe hands bytes out in the order they were written: while the
/// buffer has room, a write appends all of its bytes after those already
/// queued.
pub proof fn lemma_pipe_fifo(held: Seq<u8>, data: Seq<u8>)
    requires
        held.len() + data.len() <= PIPE_BUF_SIZE,
    ensures
        accepted_by_write(held.len(), data.len()) == data.len(),
        contents_after_write(held, data) == held + data,
{
    assert(data.take(data.len() as int) =~= data);
}

/// A pipe never holds more than `PIPE_BUF_SIZE` bytes, and a write to a
/// full pipe accepts nothing.
pub proof fn lemma_pipe_capacity(held: Seq<u8>, data: Seq<u8>)
    requires
        held.len() <= PIPE_BUF_SIZE,
    ensures
        contents_after_write(held, data).len() <= PIPE_BUF_SIZE,
        held.len() == PIPE_BUF_SIZE ==> contents_after_write(held, data) == held,
{
    if held.len() == PIPE_BUF_SIZE {
        assert(data.take(0) =~= Seq::<u8>::empty());
        assert(held + data.take(0) =~= held);
    }
}

} // verus!
