use bytes::BytesMut;
use flate2::read::GzDecoder;
use flate2::write::GzEncoder;
use grpc_compression::buffer::reserve_chunks;
use grpc_compression::transform::{front, settle, transform, Operation};
use grpc_compression::{Compression, Compressor, Registry, TransformError, BUFFER_SIZE};
use std::io::{Read, Write};

fn fault(error: std::io::Error) -> TransformError {
    TransformError::Algorithm { message: error.to_string() }
}

struct Gzip;

impl Compressor for Gzip {
    fn name(&self) -> &'static str {
        "gzip"
    }

    fn compress(&self, input: &[u8]) -> Result<Vec<u8>, TransformError> {
        let mut encoder = GzEncoder::new(Vec::new(), flate2::Compression::new(6));
        encoder.write_all(input).map_err(fault)?;
        encoder.finish().map_err(fault)
    }

    fn decompress(&self, input: &[u8], limit: usize) -> Result<Vec<u8>, TransformError> {
        let mut out = Vec::new();
        let most = (limit as u64).saturating_add(1);
        GzDecoder::new(input).take(most).read_to_end(&mut out).map_err(fault)?;
        if out.len() > limit {
            return Err(TransformError::TooLarge { limit });
        }
        Ok(out)
    }
}

struct Broken;

impl Compressor for Broken {
    fn name(&self) -> &'static str {
        "broken"
    }

    fn compress(&self, _input: &[u8]) -> Result<Vec<u8>, TransformError> {
        Err(TransformError::Algorithm { message: String::from("out of memory") })
    }

    fn decompress(&self, _input: &[u8], _limit: usize) -> Result<Vec<u8>, TransformError> {
        Err(TransformError::Algorithm { message: String::from("out of memory") })
    }
}

fn registry() -> Registry {
    let mut registry = Registry::new();
    registry.register(Box::new(Gzip)).unwrap();
    registry.register(Box::new(Broken)).unwrap();
    registry
}

fn gunzip(bytes: &[u8]) -> Vec<u8> {
    let mut out = Vec::new();
    GzDecoder::new(bytes).read_to_end(&mut out).unwrap();
    out
}

#[test]
fn buffer_size_is_eight_kibibytes() {
    assert_eq!(BUFFER_SIZE, 8192);
}

#[test]
fn without_a_selection_bytes_pass_unchanged() {
    let mut input = BytesMut::from(&b"hello world"[..]);
    let mut output = BytesMut::new();
    assert_eq!(Compression::disabled().compress(&mut input, &mut output, 11), Ok(()));
    assert_eq!(&output[..], b"hello world");
    assert!(input.is_empty());
}

#[test]
fn exactly_len_bytes_leave_the_input() {
    let mut input = BytesMut::from(&b"hello world"[..]);
    let mut output = BytesMut::new();
    assert_eq!(Compression::disabled().compress(&mut input, &mut output, 5), Ok(()));
    assert_eq!(&output[..], b"hello");
    assert_eq!(&input[..], b" world");
}

#[test]
fn output_is_appended_to() {
    let mut input = BytesMut::from(&b"world"[..]);
    let mut output = BytesMut::from(&b"hello "[..]);
    assert_eq!(Compression::disabled().compress(&mut input, &mut output, 5), Ok(()));
    assert_eq!(&output[..], b"hello world");
}

#[test]
fn nothing_can_be_compressed() {
    let mut input = BytesMut::from(&b"abc"[..]);
    let mut output = BytesMut::from(&b"x"[..]);
    assert_eq!(Compression::disabled().compress(&mut input, &mut output, 0), Ok(()));
    assert_eq!(&output[..], b"x");
    assert_eq!(&input[..], b"abc");
    let mut empty = BytesMut::new();
    assert_eq!(Compression::disabled().compress(&mut empty, &mut output, 0), Ok(()));
    assert_eq!(&output[..], b"x");
}

#[test]
fn messages_are_taken_one_after_another() {
    let compression = Compression::disabled();
    let mut input = BytesMut::from(&b"onetwo"[..]);
    let mut output = BytesMut::new();
    assert_eq!(compression.compress(&mut input, &mut output, 3), Ok(()));
    input.extend_from_slice(b"three");
    assert_eq!(compression.compress(&mut input, &mut output, 3), Ok(()));
    assert_eq!(&input[..], b"three");
    assert_eq!(compression.compress(&mut input, &mut output, 5), Ok(()));
    assert_eq!(&output[..], b"onetwothree");
    assert!(input.is_empty());
}

#[test]
fn room_is_reserved_in_whole_pieces() {
    let mut input = BytesMut::from(&b"abc"[..]);
    let mut output = BytesMut::new();
    Compression::disabled().compress(&mut input, &mut output, 3).unwrap();
    assert!(output.capacity() >= 8192);
    let mut input = BytesMut::from(&[7u8; 8192][..]);
    let mut output = BytesMut::new();
    Compression::disabled().compress(&mut input, &mut output, 8192).unwrap();
    assert_eq!(output.len(), 8192);
    assert!(output.capacity() >= 16384);
}

#[test]
fn selected_algorithm_compresses() {
    let registry = registry();
    let compression = Compression::negotiate(&registry, "gzip");
    let message = b"aaaaaaaaaaaaaaaaaaaaaaaaaaaaaaaaaaaaaaaaaaaaaaaaaaaaaaaaaaaaaaaaaaaaaaaaaaaaaaaa";
    let mut input = BytesMut::from(&message[..]);
    input.extend_from_slice(b"next");
    let mut output = BytesMut::new();
    assert_eq!(compression.compress(&mut input, &mut output, message.len()), Ok(()));
    assert_eq!(&input[..], b"next");
    assert_ne!(&output[..], &message[..]);
    assert_eq!(gunzip(&output), message.to_vec());
}

#[test]
fn output_grows_by_the_compressed_size() {
    let registry = registry();
    let compression = Compression::negotiate(&registry, "gzip");
    let message = b"the quick brown fox jumps over the lazy dog";
    let expected = Gzip.compress(message).unwrap();
    let mut input = BytesMut::from(&message[..]);
    let mut output = BytesMut::from(&b"head"[..]);
    assert_eq!(compression.compress(&mut input, &mut output, message.len()), Ok(()));
    assert_eq!(output.len(), 4 + expected.len());
    assert_eq!(&output[..4], b"head");
    assert_eq!(&output[4..], &expected[..]);
    assert!(input.is_empty());
}

#[test]
fn a_fault_of_the_algorithm_is_handed_on() {
    let registry = registry();
    let compression = Compression::negotiate(&registry, "broken");
    let mut input = BytesMut::from(&b"abc"[..]);
    let mut output = BytesMut::from(&b"kept"[..]);
    assert_eq!(
        compression.compress(&mut input, &mut output, 3),
        Err(TransformError::Algorithm { message: String::from("out of memory") })
    );
    assert_eq!(&input[..], b"abc");
    assert_eq!(&output[..], b"kept");
}

#[test]
fn round_trip_through_the_buffers() {
    let registry = registry();
    let compression = Compression::negotiate(&registry, "deflate, gzip");
    let message: Vec<u8> = (0..20000u32).map(|i| (i * 7 % 251) as u8).collect();
    let mut input = BytesMut::from(&message[..]);
    let mut wire = BytesMut::new();
    assert_eq!(compression.compress(&mut input, &mut wire, message.len()), Ok(()));
    let compressed = wire.len();
    let mut output = BytesMut::new();
    let entry = registry.get(compression.encoding_name());
    let operation = Operation::Decompress { limit: message.len() };
    assert_eq!(transform(entry, operation, &mut wire, &mut output, compressed), Ok(()));
    assert_eq!(&output[..], &message[..]);
    assert!(wire.is_empty());
}

#[test]
fn transform_without_an_algorithm_is_the_identity() {
    let mut input = BytesMut::from(&b"abcdef"[..]);
    let mut output = BytesMut::new();
    assert_eq!(transform(None, Operation::Compress, &mut input, &mut output, 2), Ok(()));
    let operation = Operation::Decompress { limit: 4 };
    assert_eq!(transform(None, operation, &mut input, &mut output, 4), Ok(()));
    assert_eq!(&output[..], b"abcdef");
    assert!(input.is_empty());
}

#[test]
fn settle_appends_and_advances() {
    let mut input = BytesMut::from(&b"abcdef"[..]);
    let mut output = BytesMut::from(&b"12"[..]);
    let outcome = Ok(vec![9, 8, 7]);
    assert_eq!(settle(Operation::Compress, outcome, &mut input, &mut output, 4), Ok(()));
    assert_eq!(&input[..], b"ef");
    assert_eq!(&output[..], &[b'1', b'2', 9, 8, 7]);
}

#[test]
fn settle_hands_an_error_on() {
    let mut input = BytesMut::from(&b"abcdef"[..]);
    let mut output = BytesMut::from(&b"12"[..]);
    let outcome = Err(TransformError::Algorithm { message: String::from("bad") });
    assert_eq!(
        settle(Operation::Compress, outcome, &mut input, &mut output, 4),
        Err(TransformError::Algorithm { message: String::from("bad") })
    );
    assert_eq!(&input[..], b"abcdef");
    assert_eq!(&output[..], b"12");
}

#[test]
fn settle_holds_a_decompression_to_its_limit() {
    let mut input = BytesMut::from(&b"abcdef"[..]);
    let mut output = BytesMut::from(&b"12"[..]);
    let operation = Operation::Decompress { limit: 3 };
    assert_eq!(
        settle(operation, Ok(vec![0; 4]), &mut input, &mut output, 6),
        Err(TransformError::TooLarge { limit: 3 })
    );
    assert_eq!(&input[..], b"abcdef");
    assert_eq!(&output[..], b"12");
    assert_eq!(settle(operation, Ok(vec![0; 3]), &mut input, &mut output, 6), Ok(()));
    assert_eq!(&output[..], &[b'1', b'2', 0, 0, 0]);
    assert!(input.is_empty());
}

#[test]
fn settle_sets_no_limit_on_a_compression() {
    let mut input = BytesMut::from(&b"a"[..]);
    let mut output = BytesMut::new();
    assert_eq!(settle(Operation::Compress, Ok(vec![1; 100]), &mut input, &mut output, 1), Ok(()));
    assert_eq!(output.len(), 100);
}

#[test]
fn front_is_the_first_len_bytes() {
    let input = BytesMut::from(&b"abcdef"[..]);
    assert_eq!(front(&input, 4), b"abcd");
    assert_eq!(front(&input, 6), b"abcdef");
    assert_eq!(front(&input, 0), b"");
    assert_eq!(&input[..], b"abcdef");
}

#[test]
fn front_starts_at_the_read_position() {
    let mut input = BytesMut::from(&b"abcdef"[..]);
    let mut output = BytesMut::new();
    Compression::disabled().compress(&mut input, &mut output, 2).unwrap();
    assert_eq!(front(&input, 3), b"cde");
}

#[test]
fn reserve_chunks_keeps_the_bytes() {
    let mut output = BytesMut::from(&b"abc"[..]);
    assert_eq!(reserve_chunks(&mut output, 10000), Ok(()));
    assert_eq!(&output[..], b"abc");
    assert!(output.capacity() >= 3 + 16384);
}
