//! `tokio::io::ReadBuf`, the buffer that a read fills.
//!
//! A read buffer has a capacity, the bytes filled so far, and behind those some bytes that have
//! been initialized but do not count as read.

use tokio::io::ReadBuf;
use vstd::prelude::*;

verus! {

/// `tokio::io::ReadBuf`.
#[verifier::external_type_specification]
#[verifier::external_body]
pub struct ExReadBuf<'a>(ReadBuf<'a>);

/// The bytes that count as read (`ReadBuf::filled`).
pub uninterp spec fn filled_bytes(buf: ReadBuf<'_>) -> Seq<u8>;

/// The bytes behind those that are initialized all the same (what `ReadBuf::initialized` has more
/// than `ReadBuf::filled`).
pub uninterp spec fn spare_bytes(buf: ReadBuf<'_>) -> Seq<u8>;

/// How many bytes the buffer can hold (`ReadBuf::capacity`).
pub uninterp spec fn capacity_of(buf: ReadBuf<'_>) -> nat;

/// How many more bytes can be filled.
pub open spec fn room_in(buf: ReadBuf<'_>) -> int {
    capacity_of(buf) - filled_bytes(buf).len()
}

/// `tokio::io::ReadBuf::remaining` returns the capacity less the length of what is filled.
pub assume_specification<'a>[ ReadBuf::<'a>::remaining ](buf: &ReadBuf<'a>) -> (room: usize)
    ensures
        room == room_in(*buf),
;

/// `tokio::io::ReadBuf::filled` returns the bytes that count as read.
pub assume_specification<'a, 'b>[ ReadBuf::<'a>::filled ](buf: &'b ReadBuf<'a>) -> (filled: &'b [u8])
    ensures
        filled@ == filled_bytes(*buf),
;

/// `tokio::io::ReadBuf::put_slice` appends the data to what is filled, over the spare bytes that
/// stand there. It panics where the data does not fit.
pub assume_specification<'a>[ ReadBuf::<'a>::put_slice ](buf: &mut ReadBuf<'a>, data: &[u8])
    requires
        data@.len() <= room_in(*old(buf)),
    ensures
        capacity_of(*final(buf)) == capacity_of(*old(buf)),
        filled_bytes(*final(buf)) == filled_bytes(*old(buf)) + data@,
        spare_bytes(*final(buf)) == after_first(spare_bytes(*old(buf)), data@.len() as int),
;

/// `tokio::io::ReadBuf::advance` counts the first `n` spare bytes as read. It panics where there
/// are not that many.
pub assume_specification<'a>[ ReadBuf::<'a>::advance ](buf: &mut ReadBuf<'a>, n: usize)
    requires
        n <= spare_bytes(*old(buf)).len(),
    ensures
        capacity_of(*final(buf)) == capacity_of(*old(buf)),
        filled_bytes(*final(buf)) == filled_bytes(*old(buf)) + spare_bytes(*old(buf)).take(
            n as int,
        ),
        spare_bytes(*final(buf)) == after_first(spare_bytes(*old(buf)), n as int),
;

/// Calls `tokio::io::ReadBuf::initialize_unfilled`, which writes a zero to each byte of the buffer
/// that is not initialized yet. The slice that it returns is left alone.
#[verifier::external_body]
pub(crate) fn initialize_unfilled(buf: &mut ReadBuf<'_>)
    ensures
        capacity_of(*final(buf)) == capacity_of(*old(buf)),
        filled_bytes(*final(buf)) == filled_bytes(*old(buf)),
        spare_bytes(*final(buf)).len() == room_in(*old(buf)),
        spare_bytes(*old(buf)).is_prefix_of(spare_bytes(*final(buf))),
        forall|i: int|
            spare_bytes(*old(buf)).len() <= i < room_in(*old(buf)) ==> #[trigger] spare_bytes(
                *final(buf),
            )[i] == 0,
{
    buf.initialize_unfilled();
}

/// What follows the first `n` elements, or nothing where there are not that many.
pub open spec fn after_first(s: Seq<u8>, n: int) -> Seq<u8> {
    if n <= s.len() {
        s.skip(n)
    } else {
        Seq::empty()
    }
}

/// Room is what the capacity leaves beside what is filled. What follows the first elements has
/// just the others, in their order.
pub proof fn law_room_and_rest(buf: ReadBuf<'_>, s: Seq<u8>, n: int)
    requires
        0 <= n,
    ensures
        room_in(buf) + filled_bytes(buf).len() == capacity_of(buf),
        n <= s.len() ==> s.subrange(0, n) + after_first(s, n) == s,
        n > s.len() ==> after_first(s, n).len() == 0,
{
    if n <= s.len() {
        assert(s.subrange(0, n) + s.skip(n) =~= s);
    }
}

} // verus!
