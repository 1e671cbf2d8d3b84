use std::cmp::Ordering;
use std::collections::{BTreeMap, HashMap};

use ascii_string::{AsciiStr, AsciiString, CaseInsensitive, CaseSensitive, Comparator};

type SensitiveStr<'a> = AsciiStr<'a, CaseSensitive>;
type InsensitiveStr<'a> = AsciiStr<'a, CaseInsensitive>;
type SensitiveString = AsciiString<CaseSensitive>;
type InsensitiveString = AsciiString<CaseInsensitive>;

/// A map key ordered by the library's `cmp`, so that a `BTreeMap` can hold ASCII strings.
struct OrdKey<C: Comparator>(AsciiString<C>);

impl<C: Comparator> PartialEq for OrdKey<C> {
    fn eq(&self, other: &Self) -> bool {
        self.0 == other.0
    }
}

impl<C: Comparator> Eq for OrdKey<C> {}

impl<C: Comparator> PartialOrd for OrdKey<C> {
    fn partial_cmp(&self, other: &Self) -> Option<Ordering> {
        Some(self.0.cmp(&other.0))
    }
}

impl<C: Comparator> Ord for OrdKey<C> {
    fn cmp(&self, other: &Self) -> Ordering {
        self.0.cmp(&other.0)
    }
}

#[test]
fn test_ascii_str_from_ascii() {
    let s = SensitiveStr::from_ascii(b"Hello, World!").unwrap();
    assert_eq!(s.as_str(), "Hello, World!");
    assert_eq!(s.as_bytes(), b"Hello, World!");
    assert_eq!(s.len(), 13);
    assert!(!s.is_empty());

    let e = match SensitiveStr::from_ascii("héllo".as_bytes()) {
        Ok(_) => panic!("non-ASCII bytes were accepted"),
        Err(e) => e,
    };
    assert_eq!(e.to_string(), format!("Invalid ASCII bytes: {:?}", "héllo".as_bytes()));

    let s: SensitiveStr = "Hello".try_into().unwrap();
    assert_eq!(s.as_str(), "Hello");
    let s: SensitiveStr = b"Hello".as_slice().try_into().unwrap();
    assert_eq!(s.as_str(), "Hello");
    assert!(SensitiveStr::try_from("héllo").is_err());

    let empty = SensitiveStr::default();
    assert!(empty.is_empty());
    assert_eq!(empty.len(), 0);
}

#[test]
fn test_case_sensitive_eq() {
    let a = SensitiveStr::from_ascii(b"Hello").unwrap();
    let b = SensitiveStr::from_ascii(b"hELLO").unwrap();
    let c = SensitiveStr::from_ascii(b"Hello").unwrap();
    assert!(a != b);
    assert!(a == c);

    assert!(a == "Hello");
    assert!(a != "hELLO");
    assert!("Hello" == a);
    assert!("hELLO" != a);

    let owned = SensitiveString::from_ascii(b"Hello".to_vec()).unwrap();
    assert!(a == owned);
    assert!(owned == a);
    assert!(owned == a);
    assert!(a == owned);
    assert!(owned == "Hello");
    assert!(owned != "hELLO");
    assert!("Hello" == owned);
    assert!(owned == String::from("Hello"));
    assert!(String::from("hELLO") != owned);
    let other = SensitiveString::from_ascii(b"hELLO".to_vec()).unwrap();
    assert!(a != other);
}

#[test]
fn test_case_insensitive_eq() {
    let a = InsensitiveStr::from_ascii(b"Hello").unwrap();
    let b = InsensitiveStr::from_ascii(b"hELLO").unwrap();
    let c = InsensitiveStr::from_ascii(b"goodbye").unwrap();
    assert!(a == b);
    assert!(a != c);

    assert!(a == "HELLO");
    assert!("hello" == a);
    assert!(a != "goodbye");
    // Non-ASCII strings can never compare equal: the left side is always pure ASCII.
    assert!(a != "héllo");

    let owned = InsensitiveString::from_ascii(b"HELLO".to_vec()).unwrap();
    assert!(a == owned);
    assert!(owned == a);
    assert!(owned == a);
    assert!(a == owned);
    assert!(owned == "hello");
    assert!("HeLLo" == owned);
    assert!(owned == String::from("hello"));
    assert!(String::from("HELLO") == owned);
}

#[test]
fn test_case_sensitive_ord() {
    let apple = SensitiveStr::from_ascii(b"APPLE").unwrap();
    let banana = SensitiveStr::from_ascii(b"banana").unwrap();
    let zebra = SensitiveStr::from_ascii(b"Zebra").unwrap();

    // Byte-wise ordering: all uppercase letters sort before all lowercase letters.
    assert!(apple < banana);
    assert!(zebra < banana);
    assert_eq!(apple.cmp(&SensitiveStr::from_ascii(b"apple").unwrap()), Ordering::Less);

    let mut values = vec![banana, zebra, apple];
    values.sort_by(|x, y| x.cmp(y));
    assert!(values == vec![apple, zebra, banana]);

    let mut map: BTreeMap<OrdKey<CaseSensitive>, u32> = BTreeMap::new();
    map.insert(OrdKey(SensitiveString::from_ascii(b"Content-Type".to_vec()).unwrap()), 42);
    let found = SensitiveStr::from_ascii(b"Content-Type").unwrap().to_owned();
    assert_eq!(map.get(&OrdKey(found)), Some(&42));
    let missing = SensitiveStr::from_ascii(b"CONTENT-TYPE").unwrap().to_owned();
    assert_eq!(map.get(&OrdKey(missing)), None);
}

#[test]
fn test_case_insensitive_ord() {
    let apple = InsensitiveStr::from_ascii(b"APPLE").unwrap();
    let banana = InsensitiveStr::from_ascii(b"banana").unwrap();
    let zebra = InsensitiveStr::from_ascii(b"Zebra").unwrap();

    assert!(apple < banana);
    assert!(zebra > banana);
    assert_eq!(apple.cmp(&InsensitiveStr::from_ascii(b"apple").unwrap()), Ordering::Equal);

    // A common prefix means the shorter string sorts first.
    assert!(InsensitiveStr::from_ascii(b"App").unwrap() < apple);

    let mut values = vec![zebra, apple, banana];
    values.sort_by(|x, y| x.cmp(y));
    assert!(values == vec![apple, banana, zebra]);

    let mut map: BTreeMap<OrdKey<CaseInsensitive>, u32> = BTreeMap::new();
    map.insert(OrdKey(InsensitiveString::from_ascii(b"Content-Type".to_vec()).unwrap()), 42);
    let found = InsensitiveStr::from_ascii(b"CONTENT-TYPE").unwrap().to_owned();
    assert_eq!(map.get(&OrdKey(found)), Some(&42));

    let a = InsensitiveString::from_ascii(b"APPLE".to_vec()).unwrap();
    let b = InsensitiveString::from_ascii(b"banana".to_vec()).unwrap();
    assert!(a < b);
    assert_eq!(a.cmp(&a), Ordering::Equal);
}

#[test]
fn test_ascii_str_index() {
    let s = InsensitiveStr::from_ascii(b"Hello, World!").unwrap();
    assert_eq!(s.index(0, s.len()).as_str(), "Hello, World!");
    assert_eq!(s.index(7, 12).as_str(), "World");
    assert!(s.index(0, 5) == "hello");

    let s = SensitiveStr::from_ascii(b"Hello, World!").unwrap();
    assert!(s.index(0, 5) != "hello");
    assert!(s.index(0, 5) == "Hello");
}

#[test]
fn test_display_debug() {
    let s = SensitiveStr::from_ascii(b"Hello").unwrap();
    assert_eq!(s.to_string(), "Hello");
    assert_eq!(s.debug_string(), "\"Hello\"");

    let owned = SensitiveString::from_ascii(b"Hello".to_vec()).unwrap();
    assert_eq!(owned.to_string(), "Hello");
    assert_eq!(owned.debug_string(), "\"Hello\"");
}

#[test]
fn test_ascii_string_push() {
    let mut s = SensitiveString::new();
    s.push(b'H').unwrap();
    s.push(b'i').unwrap();
    assert_eq!(s.as_str(), "Hi");

    let e = match s.push(0x80) {
        Ok(()) => panic!("a non-ASCII byte was accepted"),
        Err(e) => e,
    };
    assert_eq!(e.to_string(), "Invalid ASCII bytes: [128]");
    assert_eq!(s.as_str(), "Hi");
}

#[test]
fn test_ascii_string_deref_and_borrow() {
    let owned = InsensitiveString::from_ascii(b"Content-Type".to_vec()).unwrap();
    let slice: InsensitiveStr = owned.as_ascii_str();
    assert_eq!(slice.as_str(), "Content-Type");
    assert!(owned.as_ascii_str() == slice);
    assert_eq!(owned.as_ascii_str().index(8, owned.len()).as_str(), "Type");

    let roundtrip: InsensitiveString = slice.to_owned();
    assert!(roundtrip == owned);
    let converted = InsensitiveString::from(slice);
    assert!(converted == owned);

    let cloned = owned.clone();
    assert!(cloned == owned);
    let mut target = InsensitiveString::new();
    target.clone_from(&owned);
    assert!(target == owned);
}

#[test]
fn test_hash_map() {
    let mut map: HashMap<InsensitiveString, u32> = HashMap::new();
    map.insert(InsensitiveString::from_ascii(b"Content-Type".to_vec()).unwrap(), 42);
    let upper = InsensitiveStr::from_ascii(b"CONTENT-TYPE").unwrap().to_owned();
    assert_eq!(map.get(&upper), Some(&42));
    let other = InsensitiveStr::from_ascii(b"Content-Length").unwrap().to_owned();
    assert_eq!(map.get(&other), None);

    let mut map: HashMap<SensitiveString, u32> = HashMap::new();
    map.insert(SensitiveString::from_ascii(b"Content-Type".to_vec()).unwrap(), 42);
    let same = SensitiveStr::from_ascii(b"Content-Type").unwrap().to_owned();
    assert_eq!(map.get(&same), Some(&42));
    let upper = SensitiveStr::from_ascii(b"CONTENT-TYPE").unwrap().to_owned();
    assert_eq!(map.get(&upper), None);
}
