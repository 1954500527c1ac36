//! The receiving side: undoing the compression that a message declares.

use crate::buffer::{buffer_bytes, has_room, reserve_len};
use crate::compressor::{TransformError, IDENTITY};
use crate::headers::{declared_encoding, encoding_of, header_fields};
use crate::registry::{Entry, Registry};
use crate::transform::{transform, transformed, Operation};
use bytes::BytesMut;
use http::header::{HeaderMap, HeaderValue};
use vstd::prelude::*;

verus! {

/// Why a message could not be decompressed.
#[derive(Debug, PartialEq, Eq)]
pub enum DecompressionError {
    /// The message declares an algorithm that the registry does not hold.
    NotFound { requested: String },
    /// The algorithm did not accept the bytes, what it made of them is more
    /// than the limit allows, or the output buffer cannot take it.
    Failed { cause: TransformError },
}

/// The result of a decompression for the result of its transform: success
/// stays success, and every failure of the transform is a failed
/// decompression.
pub open spec fn classified(result: Result<(), TransformError>) -> Result<(), DecompressionError> {
    match result {
        Ok(()) => Ok(()),
        Err(cause) => Err(DecompressionError::Failed { cause }),
    }
}

/// What is known of the compression of incoming messages: the algorithm that
/// their headers declare, and the most bytes that one message may
/// decompress to.
#[derive(Debug, Clone)]
pub struct Decompression {
    encoding: Option<String>,
    limit: usize,
}

impl Decompression {
    /// The name of the declared algorithm. Without one the messages are
    /// taken as they are.
    pub closed spec fn declared(&self) -> Option<Seq<char>> {
        match self.encoding {
            Some(name) => Some(name@),
            None => None,
        }
    }

    /// The most bytes that one message may decompress to.
    pub closed spec fn limit(&self) -> usize {
        self.limit
    }

    /// Whether `registry` holds the declared algorithm. It always holds the
    /// one that stands for no declaration.
    pub open spec fn known_to(&self, registry: &Registry) -> bool {
        self.declared() matches Some(name) ==> registry.lookup(name) is Some
    }

    /// Whether decompression leaves the bytes as they are: nothing is
    /// declared, or the identity by its name.
    pub open spec fn is_identity(&self) -> bool {
        self.declared() matches Some(name) ==> name == IDENTITY@
    }

    /// For messages that declare no algorithm.
    pub fn disabled(limit: usize) -> (decompression: Decompression)
        ensures
            decompression.declared() is None,
            decompression.limit() == limit,
    {
        Decompression { encoding: None, limit }
    }

    /// For messages that declare the algorithm `encoding`.
    pub fn new(encoding: &str, limit: usize) -> (decompression: Decompression)
        ensures
            decompression.declared() == Some(encoding@),
            decompression.limit() == limit,
    {
        Decompression { encoding: Some(encoding.to_owned()), limit }
    }

    /// For the messages that came with `headers`: they declare what the
    /// encoding field names, and nothing where that field is missing.
    pub fn from_headers(headers: &HeaderMap<HeaderValue>, limit: usize) -> (decompression:
        Decompression)
        ensures
            decompression.declared() == encoding_of(header_fields(headers)),
            decompression.limit() == limit,
    {
        match declared_encoding(headers) {
            Some(name) => Self::new(name, limit),
            None => Self::disabled(limit),
        }
    }

    /// The declared algorithm as `registry` holds it, before any byte is
    /// looked at: the entry of the declared name, no entry where nothing is
    /// declared, and a failure where the registry does not hold the name.
    pub fn algorithm<'a>(&self, registry: &'a Registry) -> (found: Result<
        Option<&'a Entry>,
        DecompressionError,
    >)
        ensures
            found is Ok <==> self.known_to(registry),
            match found {
                Ok(Some(entry)) => self.declared() matches Some(name) && registry.lookup(name)
                    == Some(*entry),
                Ok(None) => self.declared() is None,
                Err(error) => error matches DecompressionError::NotFound { requested }
                    && Some(requested@) == self.declared(),
            },
    {
        match &self.encoding {
            None => Ok(None),
            Some(name) => match registry.get(name.as_str()) {
                Some(entry) => Ok(Some(entry)),
                None => Err(DecompressionError::NotFound { requested: name.clone() }),
            },
        }
    }

    /// Decompresses the first `len` bytes of `in_buffer` into `out_buffer`
    /// with the declared algorithm, which is looked up in `registry`.
    ///
    /// Where the registry does not hold the algorithm the call fails before
    /// it touches a buffer. Otherwise the algorithm decides the outcome, so
    /// the second clause holds for some outcome; of the identity the outcome
    /// is the `len` bytes themselves. On success `in_buffer` has lost its
    /// first `len` bytes and `out_buffer` has gained the decompressed bytes,
    /// no more than the limit. On failure both hold what they held.
    pub fn decompress(
        &self,
        registry: &Registry,
        in_buffer: &mut BytesMut,
        out_buffer: &mut BytesMut,
        len: usize,
    ) -> (result: Result<(), DecompressionError>)
        requires
            len <= buffer_bytes(old(in_buffer)).len(),
        ensures
            !self.known_to(registry) ==> {
                &&& result matches Err(DecompressionError::NotFound { requested })
                &&& Some(requested@) == self.declared()
                &&& *final(in_buffer) == *old(in_buffer)
                &&& *final(out_buffer) == *old(out_buffer)
            },
            self.known_to(registry) ==> exists|outcome: Result<Seq<u8>, TransformError>|
                {
                    let end = #[trigger] transformed(
                        Operation::Decompress { limit: self.limit() },
                        outcome,
                        buffer_bytes(old(in_buffer)),
                        buffer_bytes(old(out_buffer)),
                        len as nat,
                    );
                    &&& result == classified(end.result)
                    &&& buffer_bytes(final(in_buffer)) == end.input
                    &&& buffer_bytes(final(out_buffer)) == end.output
                },
            self.known_to(registry) && self.is_identity() ==> {
                let end = transformed(
                    Operation::Decompress { limit: self.limit() },
                    Ok(buffer_bytes(old(in_buffer)).take(len as int)),
                    buffer_bytes(old(in_buffer)),
                    buffer_bytes(old(out_buffer)),
                    len as nat,
                );
                &&& result == classified(end.result)
                &&& buffer_bytes(final(in_buffer)) == end.input
                &&& buffer_bytes(final(out_buffer)) == end.output
            },
            result is Ok ==> {
                &&& buffer_bytes(final(in_buffer)) == buffer_bytes(old(in_buffer)).skip(len as int)
                &&& buffer_bytes(old(out_buffer)).is_prefix_of(buffer_bytes(final(out_buffer)))
                &&& buffer_bytes(final(out_buffer)).len() <= buffer_bytes(old(out_buffer)).len()
                    + self.limit()
            },
            result is Err ==> {
                &&& buffer_bytes(final(in_buffer)) == buffer_bytes(old(in_buffer))
                &&& buffer_bytes(final(out_buffer)) == buffer_bytes(old(out_buffer))
            },
    {
        let operation = Operation::Decompress { limit: self.limit };
        let algorithm = match self.algorithm(registry) {
            Ok(algorithm) => algorithm,
            Err(error) => {
                return Err(error);
            },
        };
        proof {
            match self.declared() {
                Some(name) => {
                    registry.lemma_lookup(name);
                },
                None => {},
            }
        }
        match transform(algorithm, operation, in_buffer, out_buffer, len) {
            Ok(()) => Ok(()),
            Err(cause) => Err(DecompressionError::Failed { cause }),
        }
    }
}

/// A stream that the algorithm rejects is never taken: whatever error the
/// algorithm reports for it, the decompression fails as `Failed`, with that
/// error or, where the output had no room to begin with, for want of room,
/// and both buffers hold what they held.
pub proof fn lemma_rejected_is_failed(
    limit: usize,
    error: TransformError,
    input: Seq<u8>,
    output: Seq<u8>,
    len: nat,
)
    ensures
        ({
            let end = transformed(Operation::Decompress { limit }, Err(error), input, output, len);
            &&& classified(end.result) == Err::<(), DecompressionError>(
                DecompressionError::Failed {
                    cause: if has_room(output, reserve_len(len)) {
                        error
                    } else {
                        TransformError::Capacity
                    },
                },
            )
            &&& end.input == input
            &&& end.output == output
        }),
{
}

} // verus!
