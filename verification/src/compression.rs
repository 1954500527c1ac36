//! The outcome of a negotiation: the algorithm that the messages of one call
//! are compressed with, or none.

use crate::buffer::{buffer_bytes, has_room, lemma_reserve_len_covers, reserve_len};
use crate::compressor::{TransformError, IDENTITY};
use crate::headers::{
    accept_encoding, accept_encoding_of, announce, bytes_of, field_fits, header_fields,
    HeadersFull, MetadataMap, ENCODING_HEADER,
};
use crate::list::parse_accept_encoding_header;
use crate::negotiation::{first_supported_compressor, lemma_negotiated, negotiated};
use crate::registry::{Entry, Registry};
use crate::transform::{ended, transform, transformed, Operation};
use bytes::BytesMut;
use http::header::{HeaderMap, HeaderValue};
use vstd::prelude::*;

verus! {

/// The algorithm that was negotiated for a call. Without one, messages go
/// out as they are.
#[derive(Clone, Copy)]
pub struct Compression<'a> {
    compressor: Option<&'a Entry>,
}

impl<'a> Compression<'a> {
    /// The identity is never selected: it is what the absence of a selection
    /// stands for.
    #[verifier::type_invariant]
    spec fn valid(&self) -> bool {
        self.compressor matches Some(entry) ==> !entry.is_identity()
    }

    /// The entry of the selected algorithm.
    pub closed spec fn selected(&self) -> Option<Entry> {
        match self.compressor {
            Some(entry) => Some(*entry),
            None => None,
        }
    }

    /// The name that stands for this outcome on the wire: that of the
    /// selected algorithm, or that of the identity.
    pub open spec fn spec_encoding_name(&self) -> Seq<char> {
        match self.selected() {
            Some(entry) => entry.name()@,
            None => IDENTITY@,
        }
    }

    /// An outcome that selects nothing.
    pub fn disabled() -> (compression: Compression<'a>)
        ensures
            compression.selected() is None,
    {
        Compression { compressor: None }
    }

    /// The outcome for a peer that accepts the algorithms of the list
    /// `accept_encoding`.
    pub fn negotiate(registry: &'a Registry, accept_encoding: &str) -> (compression: Compression<
        'a,
    >)
        ensures
            compression.selected() == negotiated(registry, accept_encoding@),
    {
        let parsed = parse_accept_encoding_header(accept_encoding);
        let compressor = first_supported_compressor(registry, &parsed);
        proof {
            lemma_negotiated(registry, accept_encoding@);
        }
        Compression { compressor }
    }

    /// The outcome for the peer whose request carried the metadata
    /// `request_metadata`.
    pub fn response_from_metadata(
        registry: &'a Registry,
        request_metadata: &MetadataMap,
    ) -> (compression: Compression<'a>)
        ensures
            compression.selected() == negotiated(
                registry,
                accept_encoding_of(request_metadata.fields()),
            ),
    {
        Self::negotiate(registry, accept_encoding(request_metadata.headers()))
    }

    /// The outcome for the peer whose request carried the headers
    /// `request_headers`.
    pub fn response_from_headers(
        registry: &'a Registry,
        request_headers: &HeaderMap<HeaderValue>,
    ) -> (compression: Compression<'a>)
        ensures
            compression.selected() == negotiated(
                registry,
                accept_encoding_of(header_fields(request_headers)),
            ),
    {
        Self::negotiate(registry, accept_encoding(request_headers))
    }

    /// Whether an algorithm other than the identity was selected.
    pub fn is_enabled(&self) -> (enabled: bool)
        ensures
            enabled == self.selected() is Some,
            enabled == (self.spec_encoding_name() != IDENTITY@),
    {
        proof {
            use_type_invariant(self);
        }
        self.compressor.is_some()
    }

    /// The name that stands for this outcome on the wire.
    pub fn encoding_name(&self) -> (name: &'static str)
        ensures
            name@ == self.spec_encoding_name(),
    {
        match self.compressor {
            Some(entry) => entry.name(),
            None => IDENTITY,
        }
    }

    /// Compresses the first `len` bytes of `in_buffer` into `out_buffer`,
    /// with the selected algorithm or, without one, the identity.
    ///
    /// On success `in_buffer` has lost its first `len` bytes and
    /// `out_buffer` has gained what the algorithm made of them. On failure
    /// both hold what they held. The algorithm decides the outcome, so the
    /// first clause holds for some outcome; without a selection the outcome
    /// is the `len` bytes themselves, and the call fails only where
    /// `out_buffer` cannot grow.
    ///
    /// The way back is `Decompression::decompress`, which runs the other
    /// operation of the algorithm through the same transform.
    pub fn compress(&self, in_buffer: &mut BytesMut, out_buffer: &mut BytesMut, len: usize) -> (result:
        Result<(), TransformError>)
        requires
            len <= buffer_bytes(old(in_buffer)).len(),
        ensures
            exists|outcome: Result<Seq<u8>, TransformError>|
                ended(result, final(in_buffer), final(out_buffer)) == #[trigger] transformed(
                    Operation::Compress,
                    outcome,
                    buffer_bytes(old(in_buffer)),
                    buffer_bytes(old(out_buffer)),
                    len as nat,
                ),
            result is Ok ==> {
                &&& buffer_bytes(final(in_buffer)) == buffer_bytes(old(in_buffer)).skip(len as int)
                &&& buffer_bytes(old(out_buffer)).is_prefix_of(buffer_bytes(final(out_buffer)))
            },
            result is Err ==> {
                &&& buffer_bytes(final(in_buffer)) == buffer_bytes(old(in_buffer))
                &&& buffer_bytes(final(out_buffer)) == buffer_bytes(old(out_buffer))
            },
            self.selected() is None ==> {
                if has_room(buffer_bytes(old(out_buffer)), reserve_len(len as nat)) {
                    &&& result is Ok
                    &&& buffer_bytes(final(out_buffer)) == buffer_bytes(old(out_buffer))
                        + buffer_bytes(old(in_buffer)).take(len as int)
                } else {
                    result == Err::<(), TransformError>(TransformError::Capacity)
                }
            },
    {
        proof {
            lemma_reserve_len_covers(len as nat);
        }
        transform(self.compressor, Operation::Compress, in_buffer, out_buffer, len)
    }

    /// Announces the selected algorithm in `headers`: its name becomes the
    /// only value of the encoding field. Without a selection the headers are
    /// not touched: a missing field stands for the identity. The call fails
    /// exactly where an algorithm is selected and the header map takes no
    /// value for the field, which is so only of a map that cannot grow; such
    /// a map stays as it is.
    pub fn set_headers(&self, headers: &mut HeaderMap<HeaderValue>) -> (result: Result<
        (),
        HeadersFull,
    >)
        ensures
            result is Ok <==> (self.selected() is Some ==> field_fits(
                old(headers),
                ENCODING_HEADER@,
            )),
            match self.selected() {
                None => result is Ok && *final(headers) == *old(headers),
                Some(entry) => match result {
                    Ok(()) => header_fields(final(headers)) == header_fields(old(headers)).insert(
                        ENCODING_HEADER@,
                        seq![bytes_of(entry.name()@)],
                    ),
                    Err(_) => header_fields(final(headers)) == header_fields(old(headers)),
                },
            },
    {
        match self.compressor {
            None => Ok(()),
            Some(compressor) => announce(headers, compressor.name()),
        }
    }
}

} // verus!
