use grpc_compression::{
    Compressor, IdentityCompressor, Registry, RegistryError, TransformError, IDENTITY,
};

struct Tagged {
    name: &'static str,
    tag: u8,
}

impl Compressor for Tagged {
    fn name(&self) -> &'static str {
        self.name
    }

    fn compress(&self, input: &[u8]) -> Result<Vec<u8>, TransformError> {
        let mut out = vec![self.tag];
        out.extend_from_slice(input);
        Ok(out)
    }

    fn decompress(&self, input: &[u8], _limit: usize) -> Result<Vec<u8>, TransformError> {
        match input.split_first() {
            Some((tag, rest)) if *tag == self.tag => Ok(rest.to_vec()),
            _ => Err(TransformError::Algorithm { message: String::from("wrong tag") }),
        }
    }
}

fn tagged(name: &'static str, tag: u8) -> Box<dyn Compressor> {
    Box::new(Tagged { name, tag })
}

#[test]
fn identity_name_is_identity() {
    assert_eq!(IDENTITY, "identity");
    assert_eq!(IdentityCompressor {}.name(), "identity");
}

#[test]
fn identity_copies() {
    let identity = IdentityCompressor {};
    assert_eq!(identity.compress(b"abc"), Ok(b"abc".to_vec()));
    assert_eq!(identity.decompress(b"abc", 0), Ok(b"abc".to_vec()));
    assert_eq!(identity.compress(b""), Ok(Vec::new()));
}

#[test]
fn new_registry_holds_the_identity_alone() {
    let registry = Registry::new();
    let entry = registry.get("identity").unwrap();
    assert_eq!(entry.name(), "identity");
    assert_eq!(entry.compress(b"xyz"), Ok(b"xyz".to_vec()));
    assert_eq!(entry.decompress(b"xyz", 1), Ok(b"xyz".to_vec()));
    assert!(registry.get("gzip").is_none());
    assert!(registry.get("").is_none());
}

#[test]
fn identity_is_always_at_hand() {
    let registry = Registry::new();
    assert_eq!(registry.identity().name(), "identity");
    assert_eq!(registry.identity().compress(b"\x00\xff"), Ok(vec![0, 255]));
}

#[test]
fn register_adds_under_the_algorithms_own_name() {
    let mut registry = Registry::new();
    assert_eq!(registry.register(tagged("gzip", 1)), Ok(()));
    let entry = registry.get("gzip").unwrap();
    assert_eq!(entry.name(), "gzip");
    assert_eq!(entry.compress(b"ab"), Ok(vec![1, b'a', b'b']));
    assert_eq!(entry.decompress(&[1, b'a'], 10), Ok(vec![b'a']));
    assert!(registry.get("identity").is_some());
}

#[test]
fn register_as_adds_under_the_given_name() {
    let mut registry = Registry::new();
    assert_eq!(registry.register_as("x-gzip", tagged("gzip", 1)), Ok(()));
    assert_eq!(registry.get("x-gzip").unwrap().name(), "x-gzip");
    assert!(registry.get("gzip").is_none());
}

#[test]
fn register_refuses_a_name_twice() {
    let mut registry = Registry::new();
    assert_eq!(registry.register(tagged("gzip", 1)), Ok(()));
    assert_eq!(registry.register(tagged("gzip", 2)), Err(RegistryError::Duplicate));
    assert_eq!(registry.get("gzip").unwrap().compress(b""), Ok(vec![1]));
}

#[test]
fn register_refuses_the_name_of_the_identity() {
    let mut registry = Registry::new();
    assert_eq!(registry.register(tagged("identity", 1)), Err(RegistryError::Duplicate));
    assert_eq!(registry.get("identity").unwrap().compress(b"a"), Ok(vec![b'a']));
}

#[test]
fn register_refuses_names_that_are_no_tokens() {
    let mut registry = Registry::new();
    for name in ["", " ", "gz ip", " gzip", "gzip ", "a,b", ",", "gzip\t", "gz\u{ed}p", "\u{7f}"] {
        assert_eq!(registry.register(tagged(name, 1)), Err(RegistryError::InvalidName));
        assert!(registry.get(name).is_none());
    }
}

#[test]
fn register_accepts_every_printable_character_but_the_comma() {
    let mut registry = Registry::new();
    assert_eq!(registry.register(tagged("!\"#$%&'()*+-./09:;<=>?@AZ[\\]^_`az{|}~", 1)), Ok(()));
}

#[test]
fn names_are_compared_letter_for_letter() {
    let mut registry = Registry::new();
    registry.register(tagged("gzip", 1)).unwrap();
    assert!(registry.get("GZIP").is_none());
    assert!(registry.get("gzip ").is_none());
    assert!(registry.get("gzi").is_none());
    assert!(registry.get("Identity").is_none());
    assert_eq!(registry.register(tagged("GZIP", 2)), Ok(()));
    assert_eq!(registry.get("GZIP").unwrap().compress(b""), Ok(vec![2]));
    assert_eq!(registry.get("gzip").unwrap().compress(b""), Ok(vec![1]));
}

#[test]
fn earlier_entries_stay_when_more_are_added() {
    let mut registry = Registry::new();
    registry.register(tagged("a", 1)).unwrap();
    registry.register(tagged("b", 2)).unwrap();
    registry.register(tagged("c", 3)).unwrap();
    assert_eq!(registry.get("a").unwrap().compress(b""), Ok(vec![1]));
    assert_eq!(registry.get("b").unwrap().compress(b""), Ok(vec![2]));
    assert_eq!(registry.get("c").unwrap().compress(b""), Ok(vec![3]));
}

#[test]
fn names_that_differ_in_one_byte_are_different() {
    let mut registry = Registry::new();
    registry.register(tagged("gzip", 1)).unwrap();
    registry.register(tagged("gzIp", 2)).unwrap();
    registry.register(tagged("gzi", 3)).unwrap();
    assert_eq!(registry.get("gzip").unwrap().compress(b""), Ok(vec![1]));
    assert_eq!(registry.get("gzIp").unwrap().compress(b""), Ok(vec![2]));
    assert_eq!(registry.get("gzi").unwrap().compress(b""), Ok(vec![3]));
    assert!(registry.get("gzip\u{301}").is_none());
    assert!(registry.get("gz\u{131}p").is_none());
    assert!(registry.get("g").is_none());
}
