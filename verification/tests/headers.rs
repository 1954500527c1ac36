use grpc_compression::buffer::reserve_size;
use grpc_compression::headers::{accept_encoding, announcement, declared_encoding};
use grpc_compression::text::{ascii_whitespace, chars_of, token};
use grpc_compression::{
    Compression, Compressor, HeadersFull, Registry, TransformError, ACCEPT_ENCODING_HEADER,
    ENCODING_HEADER,
};
use http::header::HeaderName;
use http::{HeaderMap, HeaderValue};

struct Gzip;

impl Compressor for Gzip {
    fn name(&self) -> &'static str {
        "gzip"
    }

    fn compress(&self, input: &[u8]) -> Result<Vec<u8>, TransformError> {
        Ok(input.to_vec())
    }

    fn decompress(&self, input: &[u8], _limit: usize) -> Result<Vec<u8>, TransformError> {
        Ok(input.to_vec())
    }
}

fn full_headers() -> HeaderMap {
    let mut headers = HeaderMap::new();
    let mut i = 0;
    loop {
        let name = HeaderName::from_bytes(format!("x-field-{}", i).as_bytes()).unwrap();
        if headers.try_insert(name, HeaderValue::from_static("v")).is_err() {
            return headers;
        }
        i += 1;
    }
}

#[test]
fn field_names_are_those_of_the_protocol() {
    assert_eq!(ACCEPT_ENCODING_HEADER, "grpc-accept-encoding");
    assert_eq!(ENCODING_HEADER, "grpc-encoding");
}

#[test]
fn accept_encoding_is_the_text_of_the_field() {
    let mut headers = HeaderMap::new();
    assert_eq!(accept_encoding(&headers), "");
    headers.insert("grpc-encoding", HeaderValue::from_static("zstd"));
    assert_eq!(accept_encoding(&headers), "");
    headers.insert("grpc-accept-encoding", HeaderValue::from_static(" gzip,\tbr "));
    assert_eq!(accept_encoding(&headers), " gzip,\tbr ");
    headers.insert("grpc-accept-encoding", HeaderValue::from_bytes(b"\x80").unwrap());
    assert_eq!(accept_encoding(&headers), "");
    headers.insert("grpc-accept-encoding", HeaderValue::from_static(""));
    assert_eq!(accept_encoding(&headers), "");
}

#[test]
fn declared_encoding_is_the_text_of_the_field() {
    let mut headers = HeaderMap::new();
    assert_eq!(declared_encoding(&headers), None);
    headers.insert("grpc-accept-encoding", HeaderValue::from_static("gzip"));
    assert_eq!(declared_encoding(&headers), None);
    headers.insert("grpc-encoding", HeaderValue::from_static("gzip"));
    assert_eq!(declared_encoding(&headers), Some("gzip"));
    headers.insert("grpc-encoding", HeaderValue::from_static(""));
    assert_eq!(declared_encoding(&headers), Some(""));
    headers.insert("grpc-encoding", HeaderValue::from_bytes(b"gz\xe9p").unwrap());
    assert_eq!(declared_encoding(&headers), Some(""));
}

#[test]
fn a_full_header_map_takes_no_announcement() {
    let mut registry = Registry::new();
    registry.register(Box::new(Gzip)).unwrap();
    let compression = Compression::negotiate(&registry, "gzip");
    let mut headers = full_headers();
    let fields = headers.len();
    assert!(fields > 0);
    assert_eq!(compression.set_headers(&mut headers), Err(HeadersFull {}));
    assert_eq!(headers.len(), fields);
    assert!(headers.get("grpc-encoding").is_none());
    assert_eq!(headers.get("x-field-0").unwrap(), "v");
}

#[test]
fn a_full_header_map_is_no_trouble_without_a_selection() {
    let mut headers = full_headers();
    let fields = headers.len();
    assert_eq!(Compression::disabled().set_headers(&mut headers), Ok(()));
    assert_eq!(headers.len(), fields);
}

#[test]
fn reserve_size_is_the_next_multiple_above() {
    assert_eq!(reserve_size(0), Some(8192));
    assert_eq!(reserve_size(1), Some(8192));
    assert_eq!(reserve_size(8191), Some(8192));
    assert_eq!(reserve_size(8192), Some(16384));
    assert_eq!(reserve_size(8193), Some(16384));
    assert_eq!(reserve_size(100000), Some(106496));
    assert_eq!(reserve_size(usize::MAX - 8192), Some(usize::MAX - 8191));
}

#[test]
fn reserve_size_gives_up_beyond_usize() {
    assert_eq!(reserve_size(usize::MAX), None);
    assert_eq!(reserve_size(usize::MAX - 8191), None);
}

#[test]
fn token_is_printable_ascii_without_comma_or_space() {
    assert!(token("gzip"));
    assert!(token("x-snappy_framed.v2"));
    assert!(token("!"));
    assert!(token("~"));
    assert!(!token(""));
    assert!(!token(","));
    assert!(!token(" "));
    assert!(!token("gzip "));
    assert!(!token("gz,ip"));
    assert!(!token("gzip\n"));
    assert!(!token("\u{7f}"));
    assert!(!token("gz\u{ef}p"));
}

#[test]
fn ascii_whitespace_is_six_characters() {
    for c in [' ', '\t', '\n', '\x0B', '\x0C', '\r'] {
        assert!(ascii_whitespace(c));
    }
    for c in ['\x08', '\x0e', '\u{a0}', '\u{85}', '\u{2028}', 'a', ',', '\0', '\x1f', '!'] {
        assert!(!ascii_whitespace(c));
    }
}

#[test]
fn chars_of_gives_each_character() {
    assert_eq!(chars_of(""), Vec::<char>::new());
    assert_eq!(chars_of("a,b"), vec!['a', ',', 'b']);
    assert_eq!(chars_of("\u{e9}\u{1f600}"), vec!['\u{e9}', '\u{1f600}']);
}

#[test]
fn announcement_follows_the_header_map() {
    let mut headers = HeaderMap::new();
    let first = headers.try_insert("grpc-encoding", HeaderValue::from_static("gzip"));
    assert_eq!(announcement(first), Ok(()));
    let second = headers.try_insert("grpc-encoding", HeaderValue::from_static("br"));
    assert_eq!(announcement(second), Ok(()));
    let mut full = full_headers();
    let refused = full.try_insert("grpc-encoding", HeaderValue::from_static("gzip"));
    assert_eq!(announcement(refused), Err(HeadersFull {}));
}
