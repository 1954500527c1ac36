//! The byte buffers that messages are read from and written to.
//!
//! The buffer is `bytes::BytesMut`. This module says what the library relies
//! on when it calls one, and holds the rule by which an output buffer grows.

use crate::compressor::TransformError;
use bytes::Buf;
use bytes::BytesMut;
use vstd::prelude::*;

verus! {

/// The size of the pieces by which an output buffer grows.
pub const BUFFER_SIZE: usize = 8 * 1024;

/// `bytes::BytesMut`, of which nothing but `buffer_bytes` is looked at.
#[verifier::external_type_specification]
#[verifier::external_body]
pub struct ExBytesMut(BytesMut);

/// The bytes that a buffer holds, from its read position to its end.
pub uninterp spec fn buffer_bytes(buffer: &BytesMut) -> Seq<u8>;

/// `BytesMut::len`: the number of bytes that the buffer holds.
pub assume_specification[ BytesMut::len ](buffer: &BytesMut) -> (len: usize)
    ensures
        len == buffer_bytes(buffer).len(),
;

/// `Deref` of `BytesMut`: the bytes that the buffer holds, as a slice.
pub assume_specification[ <BytesMut as core::ops::Deref>::deref ](buffer: &BytesMut) -> (bytes:
    &[u8])
    ensures
        bytes@ == buffer_bytes(buffer),
;

/// `BytesMut::reserve`: makes room for `additional` more bytes and leaves the
/// bytes of the buffer as they are. It panics where the new capacity
/// overflows, so the call is kept to what `bytes` itself counts as the room
/// of a buffer: `isize::MAX` less its length. Whether the allocator has that
/// much to give is, as for every allocation, beyond this contract.
pub assume_specification[ BytesMut::reserve ](buffer: &mut BytesMut, additional: usize)
    requires
        buffer_bytes(old(buffer)).len() + additional <= isize::MAX,
    ensures
        buffer_bytes(final(buffer)) == buffer_bytes(old(buffer)),
;

/// `BytesMut::extend_from_slice`: reserves room for `extend` as `reserve`
/// does, and appends it.
pub assume_specification[ BytesMut::extend_from_slice ](buffer: &mut BytesMut, extend: &[u8])
    requires
        buffer_bytes(old(buffer)).len() + extend@.len() <= isize::MAX,
    ensures
        buffer_bytes(final(buffer)) == buffer_bytes(old(buffer)) + extend@,
;

/// `Buf::advance` of `BytesMut`: moves the read position `cnt` bytes on. It
/// panics where the buffer holds fewer.
pub assume_specification[ <BytesMut as Buf>::advance ](buffer: &mut BytesMut, cnt: usize)
    requires
        cnt <= buffer_bytes(old(buffer)).len(),
    ensures
        buffer_bytes(final(buffer)) == buffer_bytes(old(buffer)).skip(cnt as int),
;

/// The room that is reserved in the output before `len` bytes are
/// transformed: the next multiple of the piece size above `len`.
pub open spec fn reserve_len(len: nat) -> nat {
    (len / (BUFFER_SIZE as nat) + 1) * (BUFFER_SIZE as nat)
}

/// The room that is reserved for `len` bytes is more than `len`, and no more
/// than a piece more.
pub proof fn lemma_reserve_len_covers(len: nat)
    ensures
        len < reserve_len(len) <= len + BUFFER_SIZE,
        reserve_len(len) % (BUFFER_SIZE as nat) == 0,
{
}

/// Whether a buffer that holds `held` can take `more` bytes: no buffer holds
/// more than `isize::MAX`.
pub open spec fn has_room(held: Seq<u8>, more: nat) -> bool {
    held.len() + more <= isize::MAX
}

/// The room to reserve before `len` bytes are transformed, where a `usize`
/// can hold that number.
pub fn reserve_size(len: usize) -> (size: Option<usize>)
    ensures
        match size {
            Some(size) => size == reserve_len(len as nat),
            None => reserve_len(len as nat) > usize::MAX,
        },
{
    let pieces: usize = len / BUFFER_SIZE + 1;
    pieces.checked_mul(BUFFER_SIZE)
}

/// Reserves room in `out_buffer` for the transform of `len` bytes, where the
/// buffer can take that much. The bytes of the buffer stay as they are.
pub fn reserve_chunks(out_buffer: &mut BytesMut, len: usize) -> (result: Result<
    (),
    TransformError,
>)
    ensures
        buffer_bytes(final(out_buffer)) == buffer_bytes(old(out_buffer)),
        result == (if has_room(buffer_bytes(old(out_buffer)), reserve_len(len as nat)) {
            Ok::<(), TransformError>(())
        } else {
            Err::<(), TransformError>(TransformError::Capacity)
        }),
{
    let most: usize = isize::MAX as usize;
    let held = out_buffer.len();
    if held > most {
        return Err(TransformError::Capacity);
    }
    match reserve_size(len) {
        Some(size) => {
            if size > most - held {
                return Err(TransformError::Capacity);
            }
            out_buffer.reserve(size);
            Ok(())
        },
        None => Err(TransformError::Capacity),
    }
}

} // verus!
