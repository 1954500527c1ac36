//! Negotiated, pluggable compression for the messages of an RPC codec.
//!
//! A peer lists the algorithms that it accepts; `Compression` chooses the
//! first of them that the `Registry` holds and compresses outgoing messages
//! with it. `Decompression` undoes what an incoming message declares. The
//! algorithms themselves implement `Compressor` and are registered by name.

pub mod buffer;
pub mod compression;
pub mod compressor;
pub mod decompression;
pub mod headers;
pub mod list;
pub mod negotiation;
pub mod registry;
pub mod text;
pub mod transform;

pub use buffer::BUFFER_SIZE;
pub use compression::Compression;
pub use compressor::{Compressor, IdentityCompressor, TransformError, IDENTITY};
pub use decompression::{Decompression, DecompressionError};
pub use headers::{HeadersFull, MetadataMap, ACCEPT_ENCODING_HEADER, ENCODING_HEADER};
pub use list::parse_accept_encoding_header;
pub use negotiation::first_supported_compressor;
pub use registry::{Entry, Registry, RegistryError};
