//! The buffer between a caller and work that is done elsewhere.

use crate::read_buf::{after_first, capacity_of, filled_bytes, room_in, spare_bytes};
use tokio::io::ReadBuf;
use vstd::math::min;
use vstd::prelude::*;

verus! {

/// The most bytes that are handed over in one go.
pub const DEFAULT_MAX_BUF_SIZE: usize = 2_097_152;

/// Bytes that are taken from the front.
pub struct Buf {
    buf: Vec<u8>,
    pos: usize,
}

/// What came of an attempt to read.
pub enum ReadAttempt<E> {
    /// So many bytes were read.
    Done(usize),
    /// The attempt was interrupted, and is to be made again.
    Interrupted,
    Failed(E),
}

/// These slices one after the other.
pub open spec fn joined(bufs: Seq<&[u8]>) -> Seq<u8>
    decreases bufs.len(),
{
    if bufs.len() == 0 {
        Seq::empty()
    } else {
        joined(bufs.drop_last()) + bufs.last()@
    }
}

impl View for Buf {
    type V = Seq<u8>;

    /// The bytes that are left.
    closed spec fn view(&self) -> Seq<u8> {
        self.buf@.skip(self.pos as int)
    }
}

impl Buf {
    /// A buffer with nothing left in it has nothing before its front either.
    pub closed spec fn wf(self) -> bool {
        &&& self.pos <= self.buf@.len()
        &&& self.pos == self.buf@.len() ==> self.pos == 0
    }

    /// Whether nothing has been taken from the front.
    pub closed spec fn is_whole(self) -> bool {
        self.pos == 0
    }

    pub fn with_capacity(n: usize) -> (buf: Buf)
        ensures
            buf@ == Seq::<u8>::empty(),
            buf.is_whole(),
            buf.wf(),
    {
        let buf = Buf { buf: Vec::with_capacity(n), pos: 0 };
        assert(buf@ =~= Seq::<u8>::empty());
        buf
    }

    pub fn is_empty(&self) -> (empty: bool)
        requires
            self.wf(),
        ensures
            empty == (self@.len() == 0),
            empty ==> self.is_whole(),
    {
        self.len() == 0
    }

    pub fn len(&self) -> (len: usize)
        requires
            self.wf(),
        ensures
            len == self@.len(),
    {
        self.buf.len() - self.pos
    }

    pub fn bytes(&self) -> (bytes: &[u8])
        requires
            self.wf(),
        ensures
            bytes@ == self@,
    {
        let bytes = vstd::slice::slice_subrange(self.buf.as_slice(), self.pos, self.buf.len());
        assert(bytes@ =~= self@);
        bytes
    }

    /// Moves as many bytes as there is room for to `dst`, from the front.
    pub fn copy_to(&mut self, dst: &mut ReadBuf<'_>) -> (n: usize)
        requires
            old(self).wf(),
        ensures
            n == min(old(self)@.len() as int, room_in(*old(dst))),
            filled_bytes(*final(dst)) == filled_bytes(*old(dst)) + old(self)@.take(n as int),
            capacity_of(*final(dst)) == capacity_of(*old(dst)),
            spare_bytes(*final(dst)) == after_first(spare_bytes(*old(dst)), n as int),
            final(self)@ == old(self)@.skip(n as int),
            final(self).wf(),
    {
        let len: usize = self.len();
        let room: usize = dst.remaining();
        let n: usize = if len <= room {
            len
        } else {
            room
        };
        dst.put_slice(vstd::slice::slice_subrange(self.bytes(), 0, n));
        proof {
            assert(old(self)@.subrange(0, n as int) =~= old(self)@.take(n as int));
            assert(old(self).buf@.skip(old(self).pos as int).skip(n as int) =~= old(self).buf@.skip(
                old(self).pos + n,
            ));
        }
        assert(self.pos + n <= self.buf.len());
        self.pos = self.pos + n;
        if self.pos == self.buf.len() {
            self.buf.truncate(0);
            self.pos = 0;
            assert(self@ =~= old(self)@.skip(n as int));
        }
        n
    }

    /// Takes as many bytes as are allowed from the front of `src`.
    pub fn copy_from(&mut self, src: &[u8], max_buf_size: usize) -> (n: usize)
        requires
            old(self).wf(),
            old(self)@.len() == 0,
        ensures
            n == min(src@.len() as int, max_buf_size as int),
            final(self)@ == src@.take(n as int),
            final(self).is_whole(),
            final(self).wf(),
    {
        let n: usize = if src.len() <= max_buf_size {
            src.len()
        } else {
            max_buf_size
        };
        self.buf.extend_from_slice(vstd::slice::slice_subrange(src, 0, n));
        assert(self@ =~= src@.take(n as int));
        n
    }

    /// Takes as many bytes as are allowed from the front of these slices.
    pub fn copy_from_bufs(&mut self, bufs: &[&[u8]], max_buf_size: usize) -> (n: usize)
        requires
            old(self).wf(),
            old(self)@.len() == 0,
        ensures
            n == min(joined(bufs@).len() as int, max_buf_size as int),
            final(self)@ == joined(bufs@).take(n as int),
            final(self).is_whole(),
            final(self).wf(),
    {
        let mut rem: usize = max_buf_size;
        let mut i: usize = 0;
        proof {
            assert(bufs@.take(0) =~= Seq::empty());
            assert(self.buf@ =~= joined(bufs@.take(0)).take(0));
        }
        while i < bufs.len() && rem > 0
            invariant
                i <= bufs@.len(),
                self.pos == 0,
                rem <= max_buf_size,
                self.buf@.len() == max_buf_size - rem,
                self.buf@.len() <= joined(bufs@.take(i as int)).len(),
                rem > 0 ==> self.buf@ == joined(bufs@.take(i as int)),
                self.buf@ == joined(bufs@.take(i as int)).take(self.buf@.len() as int),
            decreases bufs@.len() - i,
        {
            let buf: &[u8] = bufs[i];
            let len: usize = if buf.len() <= rem {
                buf.len()
            } else {
                rem
            };
            let ghost before = self.buf@;
            self.buf.extend_from_slice(vstd::slice::slice_subrange(buf, 0, len));
            rem = rem - len;
            proof {
                assert(bufs@.take(i + 1).drop_last() =~= bufs@.take(i as int));
                assert(self.buf@ =~= before + buf@.take(len as int));
                assert(self.buf@ =~= joined(bufs@.take(i + 1)).take(self.buf@.len() as int));
            }
            i = i + 1;
        }
        proof {
            lemma_joined_prefix(bufs@, i as int);
            assert(bufs@.take(bufs@.len() as int) =~= bufs@);
            assert(self@ =~= self.buf@);
            assert(self.buf@ =~= joined(bufs@).take(self.buf@.len() as int));
        }
        max_buf_size - rem
    }

    /// Makes room for a read of up to so many bytes.
    pub fn begin_read_from(&mut self, max_buf_size: usize)
        requires
            old(self).wf(),
            old(self)@.len() == 0,
        ensures
            final(self)@ == Seq::new(max_buf_size as nat, |i: int| 0u8),
            final(self).is_whole(),
            final(self).wf(),
    {
        self.buf.resize(max_buf_size, 0);
        assert(self@ =~= Seq::new(max_buf_size as nat, |i: int| 0u8));
    }

    /// The room for a read.
    pub fn read_target(&mut self) -> (target: &mut [u8])
        requires
            old(self).wf(),
            old(self).is_whole(),
        ensures
            target@ == old(self)@,
            final(self)@ == final(target)@,
            final(self).is_whole(),
            final(self).wf(),
    {
        let target = self.buf.as_mut_slice();
        assert(target@ =~= old(self)@);
        target
    }

    /// Takes note of an attempt to read into the room made for it. One that was interrupted has no
    /// result yet. One that failed leaves nothing.
    pub fn end_read_from<E>(&mut self, attempt: ReadAttempt<E>) -> (result: Option<
        Result<usize, E>,
    >)
        requires
            old(self).wf(),
            old(self).is_whole(),
            attempt matches ReadAttempt::Done(n) ==> n <= old(self)@.len(),
        ensures
            match attempt {
                ReadAttempt::Done(n) => {
                    &&& result == Some(Ok::<usize, E>(n))
                    &&& final(self)@ == old(self)@.take(n as int)
                },
                ReadAttempt::Interrupted => {
                    &&& result is None
                    &&& final(self)@ == old(self)@
                },
                ReadAttempt::Failed(e) => {
                    &&& result == Some(Err::<usize, E>(e))
                    &&& final(self)@ == Seq::<u8>::empty()
                },
            },
            final(self).is_whole(),
            final(self).wf(),
    {
        match attempt {
            ReadAttempt::Done(n) => {
                self.buf.truncate(n);
                assert(self@ =~= old(self)@.take(n as int));
                Some(Ok(n))
            },
            ReadAttempt::Interrupted => None,
            ReadAttempt::Failed(e) => {
                self.buf.clear();
                assert(self@ =~= Seq::<u8>::empty());
                Some(Err(e))
            },
        }
    }

    /// Empties the buffer once its bytes were handed to a writer, whatever came of it, and passes
    /// on what did.
    pub fn write_to<R>(&mut self, result: R) -> (same: R)
        requires
            old(self).wf(),
            old(self).is_whole(),
        ensures
            same == result,
            final(self)@ == Seq::<u8>::empty(),
            final(self).is_whole(),
            final(self).wf(),
    {
        self.buf.clear();
        assert(self@ =~= Seq::<u8>::empty());
        result
    }

    /// Drops what is left. Returns by how much a position behind it has to go back, as a number
    /// that is not positive.
    pub fn discard_read(&mut self) -> (offset: i64)
        requires
            old(self).wf(),
            old(self)@.len() <= i64::MAX,
        ensures
            offset == -(old(self)@.len() as int),
            final(self)@ == Seq::<u8>::empty(),
            final(self).is_whole(),
            final(self).wf(),
    {
        let offset: i64 = -(self.len() as i64);
        self.pos = 0;
        self.buf.truncate(0);
        assert(self@ =~= Seq::<u8>::empty());
        offset
    }
}

proof fn lemma_joined_prefix(bufs: Seq<&[u8]>, i: int)
    requires
        0 <= i <= bufs.len(),
    ensures
        joined(bufs.take(i)).len() <= joined(bufs).len(),
        joined(bufs).take(joined(bufs.take(i)).len() as int) == joined(bufs.take(i)),
    decreases bufs.len() - i,
{
    if i == bufs.len() {
        assert(bufs.take(i) =~= bufs);
        assert(joined(bufs).take(joined(bufs).len() as int) =~= joined(bufs));
    } else {
        lemma_joined_prefix(bufs, i + 1);
        assert(bufs.take(i + 1).drop_last() =~= bufs.take(i));
        let whole = joined(bufs);
        let part = joined(bufs.take(i + 1));
        let less = joined(bufs.take(i));
        assert(whole.take(less.len() as int) =~= whole.take(part.len() as int).take(
            less.len() as int,
        ));
        assert(part.take(less.len() as int) =~= less);
    }
}

/// Slices are joined in their order, each of them whole.
pub proof fn law_slices_are_joined_in_order(bufs: Seq<&[u8]>, buf: &[u8])
    ensures
        joined(Seq::empty()) == Seq::<u8>::empty(),
        joined(bufs.push(buf)) == joined(bufs) + buf@,
{
    assert(bufs.push(buf).drop_last() =~= bufs);
}

/// What a buffer takes in is from the front of what it is given, all of it or as much as is
/// allowed, in the order given, and nothing is left out between.
pub proof fn law_buffers_take_in_from_the_front()
    ensures
        forall|buf: &mut Buf, src: &[u8], max_buf_size: usize, n: usize|
            #[trigger] call_ensures(Buf::copy_from, (buf, src, max_buf_size), n) ==> {
                &&& n <= src@.len()
                &&& n <= max_buf_size
                &&& n == src@.len() || n == max_buf_size
                &&& (*final(buf))@ == src@.subrange(0, n as int)
            },
        forall|buf: &mut Buf, bufs: &[&[u8]], max_buf_size: usize, n: usize|
            #[trigger] call_ensures(Buf::copy_from_bufs, (buf, bufs, max_buf_size), n) ==> {
                &&& n <= joined(bufs@).len()
                &&& n <= max_buf_size
                &&& n == joined(bufs@).len() || n == max_buf_size
                &&& (*final(buf))@ == joined(bufs@).subrange(0, n as int)
            },
{
    assert forall|buf: &mut Buf, src: &[u8], max_buf_size: usize, n: usize|
        #[trigger] call_ensures(Buf::copy_from, (buf, src, max_buf_size), n) implies ({
        &&& n <= src@.len()
        &&& n <= max_buf_size
        &&& n == src@.len() || n == max_buf_size
        &&& (*final(buf))@ == src@.subrange(0, n as int)
    }) by {
        assert(src@.take(n as int) =~= src@.subrange(0, n as int));
    }
    assert forall|buf: &mut Buf, bufs: &[&[u8]], max_buf_size: usize, n: usize|
        #[trigger] call_ensures(Buf::copy_from_bufs, (buf, bufs, max_buf_size), n) implies ({
        &&& n <= joined(bufs@).len()
        &&& n <= max_buf_size
        &&& n == joined(bufs@).len() || n == max_buf_size
        &&& (*final(buf))@ == joined(bufs@).subrange(0, n as int)
    }) by {
        assert(joined(bufs@).take(n as int) =~= joined(bufs@).subrange(0, n as int));
    }
}

/// What a buffer gives out goes behind what the destination has, as much as there is room for, and
/// with what is left it is what the buffer held.
pub proof fn law_buffers_give_out_from_the_front()
    ensures
        forall|buf: &mut Buf, dst: &mut ReadBuf<'_>, n: usize| #[trigger]
            call_ensures(Buf::copy_to, (buf, dst), n) && capacity_of(*dst) >= filled_bytes(
                *dst,
            ).len() ==> {
                &&& filled_bytes(*final(dst)) + (*final(buf))@ == filled_bytes(*dst) + (*buf)@
                &&& filled_bytes(*final(dst)).len() == filled_bytes(*dst).len() + n
                &&& filled_bytes(*final(dst)).len() <= capacity_of(*dst)
                &&& (*final(buf))@.len() == 0 || filled_bytes(*final(dst)).len() == capacity_of(
                    *dst,
                )
            },
{
    assert forall|buf: &mut Buf, dst: &mut ReadBuf<'_>, n: usize| #[trigger]
        call_ensures(Buf::copy_to, (buf, dst), n) && capacity_of(*dst) >= filled_bytes(
            *dst,
        ).len() implies ({
        &&& filled_bytes(*final(dst)) + (*final(buf))@ == filled_bytes(*dst) + (*buf)@
        &&& filled_bytes(*final(dst)).len() == filled_bytes(*dst).len() + n
        &&& filled_bytes(*final(dst)).len() <= capacity_of(*dst)
        &&& (*final(buf))@.len() == 0 || filled_bytes(*final(dst)).len() == capacity_of(*dst)
    }) by {
        let held = (*buf)@;
        assert(held.take(n as int) + held.skip(n as int) =~= held);
        assert((filled_bytes(*dst) + held.take(n as int)) + held.skip(n as int) =~= filled_bytes(
            *dst,
        ) + (held.take(n as int) + held.skip(n as int)));
    }
}

/// A read leaves in a buffer just the bytes that it counts, from the front of the room that was
/// made. One that failed leaves nothing, and one that was interrupted is not over.
pub proof fn law_reads_leave_what_they_count<E>()
    ensures
        forall|buf: &mut Buf, attempt: ReadAttempt<E>, result: Option<Result<usize, E>>| #[trigger]
            call_ensures(Buf::end_read_from::<E>, (buf, attempt), result) ==> match attempt {
                ReadAttempt::Done(n) => {
                    &&& result == Some(Ok::<usize, E>(n))
                    &&& n <= (*buf)@.len() ==> (*final(buf))@ == (*buf)@.subrange(0, n as int)
                },
                ReadAttempt::Interrupted => result is None && (*final(buf))@ == (*buf)@,
                ReadAttempt::Failed(e) => {
                    &&& result == Some(Err::<usize, E>(e))
                    &&& (*final(buf))@.len() == 0
                },
            },
{
    assert forall|buf: &mut Buf, attempt: ReadAttempt<E>, result: Option<Result<usize, E>>|
        #[trigger] call_ensures(Buf::end_read_from::<E>, (buf, attempt), result) implies (
    match attempt {
        ReadAttempt::Done(n) => {
            &&& result == Some(Ok::<usize, E>(n))
            &&& n <= (*buf)@.len() ==> (*final(buf))@ == (*buf)@.subrange(0, n as int)
        },
        ReadAttempt::Interrupted => result is None && (*final(buf))@ == (*buf)@,
        ReadAttempt::Failed(e) => {
            &&& result == Some(Err::<usize, E>(e))
            &&& (*final(buf))@.len() == 0
        },
    }) by {
        if let ReadAttempt::Done(n) = attempt {
            if n <= (*buf)@.len() {
                assert((*buf)@.take(n as int) =~= (*buf)@.subrange(0, n as int));
            }
        }
    }
}

/// What is dropped from a buffer is all that was left, and the way back is as long as that was.
pub proof fn law_discarding_goes_back_by_what_was_left()
    ensures
        forall|buf: &mut Buf, offset: i64| #[trigger]
            call_ensures(Buf::discard_read, (buf,), offset) ==> offset + (*buf)@.len() == 0 && (
            *final(buf))@.len() == 0,
{
}

} // verus!
