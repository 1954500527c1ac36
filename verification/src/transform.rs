//! The transform: one routine that runs an algorithm over the front of an
//! input buffer and appends what comes out to an output buffer.
//!
//! Compression and decompression are its two uses. Both reserve room in the
//! output first, hand exactly `len` bytes to the algorithm, and touch the
//! buffers only once the algorithm has succeeded: a transform that fails
//! leaves both as they were.

use crate::buffer::{buffer_bytes, has_room, lemma_reserve_len_covers, reserve_chunks, reserve_len};
use crate::compressor::{Compressor, IdentityCompressor, TransformError};
use crate::registry::Entry;
use bytes::Buf;
use bytes::BytesMut;
use vstd::prelude::*;
use vstd::slice::slice_subrange;

verus! {

/// Which of the two operations of an algorithm a transform runs.
#[derive(Debug, Clone, Copy, PartialEq, Eq)]
pub enum Operation {
    /// Compress.
    Compress,
    /// Decompress, and take no more than `limit` bytes.
    Decompress { limit: usize },
}

/// How a transform ends: its result, and what the two buffers then hold.
pub struct Transfer {
    pub result: Result<(), TransformError>,
    pub input: Seq<u8>,
    pub output: Seq<u8>,
}

/// The end of a call that returned `result` and left the buffers as
/// `in_buffer` and `out_buffer`.
pub open spec fn ended(
    result: Result<(), TransformError>,
    in_buffer: &BytesMut,
    out_buffer: &BytesMut,
) -> Transfer {
    Transfer { result, input: buffer_bytes(in_buffer), output: buffer_bytes(out_buffer) }
}

/// What an algorithm returned, with the bytes in place of the vector.
pub open spec fn outcome_bytes(outcome: Result<Vec<u8>, TransformError>) -> Result<
    Seq<u8>,
    TransformError,
> {
    match outcome {
        Ok(bytes) => Ok(bytes@),
        Err(error) => Err(error),
    }
}

/// Whether `bytes` are more than `operation` takes.
pub open spec fn exceeds_limit(operation: Operation, bytes: Seq<u8>) -> bool {
    operation matches Operation::Decompress { limit } && bytes.len() > limit
}

/// How a transform of the first `len` bytes of `input` ends, once room is
/// reserved and the algorithm has returned `outcome`.
///
/// An error of the algorithm is handed on. Bytes beyond the limit of a
/// decompression are refused, and so are bytes that the output cannot take.
/// Otherwise the bytes are appended to the output and the input loses its
/// first `len` bytes.
pub open spec fn settled(
    operation: Operation,
    outcome: Result<Seq<u8>, TransformError>,
    input: Seq<u8>,
    output: Seq<u8>,
    len: nat,
) -> Transfer {
    match outcome {
        Err(error) => Transfer { result: Err(error), input, output },
        Ok(bytes) => if exceeds_limit(operation, bytes) {
            Transfer {
                result: Err(TransformError::TooLarge { limit: operation->limit }),
                input,
                output,
            }
        } else if !has_room(output, bytes.len()) {
            Transfer { result: Err(TransformError::Capacity), input, output }
        } else {
            Transfer { result: Ok(()), input: input.skip(len as int), output: output + bytes }
        },
    }
}

/// How a transform of the first `len` bytes of `input` ends where the
/// algorithm returns `outcome`: where the output cannot take the room that is
/// reserved up front, the algorithm is not asked at all.
pub open spec fn transformed(
    operation: Operation,
    outcome: Result<Seq<u8>, TransformError>,
    input: Seq<u8>,
    output: Seq<u8>,
    len: nat,
) -> Transfer {
    if has_room(output, reserve_len(len)) {
        settled(operation, outcome, input, output, len)
    } else {
        Transfer { result: Err(TransformError::Capacity), input, output }
    }
}

/// What a transform hands to the algorithm: the first `len` bytes of
/// `in_buffer`, which stay in the buffer.
pub fn front<'a>(in_buffer: &'a BytesMut, len: usize) -> (bytes: &'a [u8])
    requires
        len <= buffer_bytes(in_buffer).len(),
    ensures
        bytes@ == buffer_bytes(in_buffer).take(len as int),
{
    let held: &[u8] = in_buffer;
    slice_subrange(held, 0, len)
}

/// Ends a transform of the first `len` bytes of `in_buffer` whose algorithm
/// has returned `outcome`.
pub fn settle(
    operation: Operation,
    outcome: Result<Vec<u8>, TransformError>,
    in_buffer: &mut BytesMut,
    out_buffer: &mut BytesMut,
    len: usize,
) -> (result: Result<(), TransformError>)
    requires
        len <= buffer_bytes(old(in_buffer)).len(),
    ensures
        ended(result, final(in_buffer), final(out_buffer)) == settled(
            operation,
            outcome_bytes(outcome),
            buffer_bytes(old(in_buffer)),
            buffer_bytes(old(out_buffer)),
            len as nat,
        ),
{
    let bytes = match outcome {
        Ok(bytes) => bytes,
        Err(error) => {
            return Err(error);
        },
    };
    match operation {
        Operation::Decompress { limit } => {
            if bytes.len() > limit {
                return Err(TransformError::TooLarge { limit });
            }
        },
        Operation::Compress => {},
    }
    let most: usize = isize::MAX as usize;
    let held = out_buffer.len();
    if held > most || bytes.len() > most - held {
        return Err(TransformError::Capacity);
    }
    out_buffer.extend_from_slice(bytes.as_slice());
    in_buffer.advance(len);
    Ok(())
}

/// Runs `operation` of `algorithm` over the first `len` bytes of `in_buffer`
/// and appends what comes out to `out_buffer`. Without an algorithm the
/// identity is run.
///
/// The algorithm decides the outcome, so the first clause holds for some
/// outcome. Of the identity the outcome is known: the `len` bytes themselves.
pub fn transform(
    algorithm: Option<&Entry>,
    operation: Operation,
    in_buffer: &mut BytesMut,
    out_buffer: &mut BytesMut,
    len: usize,
) -> (result: Result<(), TransformError>)
    requires
        len <= buffer_bytes(old(in_buffer)).len(),
    ensures
        exists|outcome: Result<Seq<u8>, TransformError>|
            ended(result, final(in_buffer), final(out_buffer)) == #[trigger] transformed(
                operation,
                outcome,
                buffer_bytes(old(in_buffer)),
                buffer_bytes(old(out_buffer)),
                len as nat,
            ),
        runs_identity(algorithm) ==> ended(result, final(in_buffer), final(out_buffer))
            == transformed(
            operation,
            Ok(buffer_bytes(old(in_buffer)).take(len as int)),
            buffer_bytes(old(in_buffer)),
            buffer_bytes(old(out_buffer)),
            len as nat,
        ),
        result is Ok ==> {
            &&& buffer_bytes(final(in_buffer)) == buffer_bytes(old(in_buffer)).skip(len as int)
            &&& buffer_bytes(old(out_buffer)).is_prefix_of(buffer_bytes(final(out_buffer)))
        },
        result is Err ==> {
            &&& buffer_bytes(final(in_buffer)) == buffer_bytes(old(in_buffer))
            &&& buffer_bytes(final(out_buffer)) == buffer_bytes(old(out_buffer))
        },
{
    let ghost input = buffer_bytes(in_buffer);
    let ghost output = buffer_bytes(out_buffer);
    match reserve_chunks(out_buffer, len) {
        Ok(()) => {},
        Err(error) => {
            return Err(error);
        },
    }
    let bytes = front(in_buffer, len);
    let outcome = match algorithm {
        Some(entry) => match operation {
            Operation::Compress => entry.compress(bytes),
            Operation::Decompress { limit } => entry.decompress(bytes, limit),
        },
        None => match operation {
            Operation::Compress => IdentityCompressor {  }.compress(bytes),
            Operation::Decompress { limit } => IdentityCompressor {  }.decompress(bytes, limit),
        },
    };
    let ghost returned = outcome_bytes(outcome);
    let result = settle(operation, outcome, in_buffer, out_buffer, len);
    assert(ended(result, in_buffer, out_buffer) == transformed(
        operation,
        returned,
        input,
        output,
        len as nat,
    ));
    result
}

/// A transform takes what the algorithm made whole, or nothing: it fails
/// whenever the algorithm does; a failure leaves both buffers as they were;
/// and a success means that the algorithm succeeded and that exactly its
/// bytes, within the limit, were appended, while the input lost its first
/// `len` bytes.
pub proof fn lemma_whole_or_nothing(
    operation: Operation,
    outcome: Result<Seq<u8>, TransformError>,
    input: Seq<u8>,
    output: Seq<u8>,
    len: nat,
)
    ensures
        ({
            let end = transformed(operation, outcome, input, output, len);
            &&& outcome is Err ==> end.result is Err
            &&& end.result is Err ==> end.input == input && end.output == output
            &&& end.result is Ok ==> {
                &&& outcome is Ok
                &&& !exceeds_limit(operation, outcome->Ok_0)
                &&& end.input == input.skip(len as int)
                &&& end.output == output + outcome->Ok_0
            }
        }),
{
}

/// A round trip through the buffers asks of the algorithm only that it
/// undoes itself: where it turns `message` into `compressed` and `compressed`
/// back into `message`, a compression into an empty buffer and a
/// decompression of what it wrote hand `message` back, provided that
/// `message` is within the limit and the buffers can take the room that is
/// reserved.
pub proof fn lemma_round_trip(message: Seq<u8>, compressed: Seq<u8>, limit: usize)
    requires
        message.len() <= limit,
        has_room(Seq::empty(), reserve_len(message.len())),
        has_room(Seq::empty(), reserve_len(compressed.len())),
    ensures
        ({
            let sent = transformed(
                Operation::Compress,
                Ok(compressed),
                message,
                Seq::empty(),
                message.len(),
            );
            let received = transformed(
                Operation::Decompress { limit },
                Ok(message),
                sent.output,
                Seq::empty(),
                sent.output.len(),
            );
            &&& sent == (Transfer { result: Ok(()), input: Seq::empty(), output: compressed })
            &&& received == (Transfer { result: Ok(()), input: Seq::empty(), output: message })
        }),
{
    lemma_reserve_len_covers(message.len());
    lemma_reserve_len_covers(compressed.len());
    assert(message.skip(message.len() as int) == Seq::<u8>::empty());
    assert(compressed.skip(compressed.len() as int) == Seq::<u8>::empty());
}

/// Whether a transform runs the identity: it was given no algorithm, or the
/// entry of the identity.
pub open spec fn runs_identity(algorithm: Option<&Entry>) -> bool {
    match algorithm {
        Some(entry) => entry.is_identity(),
        None => true,
    }
}

} // verus!
