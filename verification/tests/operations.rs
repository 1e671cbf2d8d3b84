use std::cmp::Ordering;
use std::collections::hash_map::DefaultHasher;
use std::hash::{Hash, Hasher};

use ascii_string::{
    bytes_are_ascii, char_utf8_bytes, compare_bytes, compare_lowercase, render_debug,
    to_ascii_lowercase, AsciiStr, AsciiString, CaseInsensitive, CaseSensitive, Comparator, Order,
};

type SensitiveStr<'a> = AsciiStr<'a, CaseSensitive>;
type InsensitiveStr<'a> = AsciiStr<'a, CaseInsensitive>;
type SensitiveString = AsciiString<CaseSensitive>;
type InsensitiveString = AsciiString<CaseInsensitive>;

fn hash_of<T: Hash>(value: &T) -> u64 {
    let mut h = DefaultHasher::new();
    value.hash(&mut h);
    h.finish()
}

fn string(text: &str) -> SensitiveString {
    SensitiveString::from_ascii(text.as_bytes().to_vec()).unwrap()
}

fn err_text(r: Result<(), ascii_string::FromAsciiError>) -> String {
    match r {
        Ok(()) => panic!("expected an error"),
        Err(e) => e.to_string(),
    }
}

#[test]
fn byte_helpers() {
    assert!(bytes_are_ascii(b""));
    assert!(bytes_are_ascii(&[0, 65, 127]));
    assert!(!bytes_are_ascii(&[65, 128]));
    assert_eq!(to_ascii_lowercase(b'A'), b'a');
    assert_eq!(to_ascii_lowercase(b'Z'), b'z');
    assert_eq!(to_ascii_lowercase(b'@'), b'@');
    assert_eq!(to_ascii_lowercase(b'['), b'[');
    assert_eq!(to_ascii_lowercase(b'a'), b'a');
    assert_eq!(to_ascii_lowercase(0xC0), 0xC0);
    for ch in ['A', '\u{7f}', 'é', 'ß', '€', '\u{10FFFF}', '😀'] {
        assert_eq!(char_utf8_bytes(ch), ch.to_string().into_bytes());
    }
}

#[test]
fn comparisons_of_bytes() {
    assert_eq!(compare_bytes(b"abc", b"abd"), Order::Less);
    assert_eq!(compare_bytes(b"abc", b"abc"), Order::Equal);
    assert_eq!(compare_bytes(b"abcd", b"abc"), Order::Greater);
    assert_eq!(compare_bytes(b"", b""), Order::Equal);
    assert_eq!(compare_bytes(b"Z", b"a"), Order::Less);
    assert_eq!(compare_lowercase(b"Z", b"a"), Order::Greater);
    assert_eq!(compare_lowercase(b"HeLLo", b"hello"), Order::Equal);
    assert_eq!(compare_lowercase(b"[", b"a"), Order::Less);
    assert_eq!(compare_lowercase(b"ab", b"ABC"), Order::Less);
    assert_eq!(CaseSensitive::cmp(b"b", b"a"), Order::Greater);
    assert_eq!(CaseInsensitive::hash_key(b"MiXeD-1"), b"mixed-1".to_vec());
    assert_eq!(CaseSensitive::hash_key(b"MiXeD-1"), b"MiXeD-1".to_vec());
    assert_eq!(Order::Less.to_ordering(), Ordering::Less);
    assert_eq!(Order::Equal.to_ordering(), Ordering::Equal);
    assert_eq!(Order::Greater.to_ordering(), Ordering::Greater);
}

#[test]
fn order_is_total_and_reversible() {
    let words: [&[u8]; 6] = [b"", b"a", b"A", b"ab", b"B", b"Ab"];
    for x in words {
        for y in words {
            let a = InsensitiveStr::from_ascii(x).unwrap();
            let b = InsensitiveStr::from_ascii(y).unwrap();
            assert_eq!(a.cmp(&b), b.cmp(&a).reverse());
            assert_eq!(a == b, a.cmp(&b) == Ordering::Equal);
            assert_eq!(a.partial_cmp(&b), Some(a.cmp(&b)));
            let a = SensitiveStr::from_ascii(x).unwrap();
            let b = SensitiveStr::from_ascii(y).unwrap();
            assert_eq!(a.cmp(&b), x.cmp(y));
            assert_eq!(a == b, x == y);
            for z in words {
                let c = SensitiveStr::from_ascii(z).unwrap();
                if a <= b && b <= c {
                    assert!(a <= c);
                }
            }
        }
        let a = InsensitiveStr::from_ascii(x).unwrap();
        assert_eq!(a.cmp(&a), Ordering::Equal);
    }
}

#[test]
fn equal_strings_hash_alike() {
    let a = InsensitiveString::from_ascii(b"Content-Type".to_vec()).unwrap();
    let b = InsensitiveString::from_ascii(b"CONTENT-type".to_vec()).unwrap();
    assert!(a == b);
    assert_eq!(a.hash_bytes(), b.hash_bytes());
    assert_eq!(hash_of(&a), hash_of(&b));
    assert_eq!(hash_of(&a), hash_of(&b.as_ascii_str()));
    let s = SensitiveStr::from_ascii(b"Key").unwrap();
    assert_eq!(hash_of(&s), hash_of(&s.to_owned()));
    assert_eq!(s.hash_bytes(), b"Key".to_vec());
}

#[test]
fn hash_streams_follow_the_comparator() {
    let mut expected = DefaultHasher::new();
    for b in b"content-type" {
        expected.write_u8(*b);
    }
    let mut got = DefaultHasher::new();
    CaseInsensitive::hash(b"Content-TYPE", &mut got);
    assert_eq!(got.finish(), expected.finish());
    let s = InsensitiveStr::from_ascii(b"Content-TYPE").unwrap();
    assert_eq!(hash_of(&s), expected.finish());

    let mut expected = DefaultHasher::new();
    b"Content-TYPE"[..].hash(&mut expected);
    let mut got = DefaultHasher::new();
    CaseSensitive::hash(b"Content-TYPE", &mut got);
    assert_eq!(got.finish(), expected.finish());
    let s = SensitiveString::from_ascii(b"Content-TYPE".to_vec()).unwrap();
    assert_eq!(hash_of(&s), expected.finish());
}

#[test]
fn ascii_never_equals_non_ascii() {
    let a = InsensitiveStr::from_ascii(b"caf").unwrap();
    assert!(a != "café");
    assert!("CAFÉ" != a);
    let owned = SensitiveString::from_ascii(b"x".to_vec()).unwrap();
    assert!(owned != "é");
    assert!(String::from("\u{0}") != owned);
}

#[test]
fn prefix_and_case_ordering() {
    let short = SensitiveStr::from_ascii(b"Con").unwrap();
    let long = SensitiveStr::from_ascii(b"Content").unwrap();
    assert!(short < long);
    let short = InsensitiveStr::from_ascii(b"CON").unwrap();
    let long = InsensitiveStr::from_ascii(b"content").unwrap();
    assert!(short < long);
    let upper = SensitiveStr::from_ascii(b"Zz").unwrap();
    let lower = SensitiveStr::from_ascii(b"aa").unwrap();
    assert!(upper < lower);
}

#[test]
fn from_ascii_edges() {
    let empty = SensitiveString::from_ascii(Vec::new()).unwrap();
    assert!(empty.is_empty());
    let top = SensitiveString::from_ascii(vec![127]).unwrap();
    assert_eq!(top.as_bytes(), &[127]);
    let e = match SensitiveString::from_ascii(vec![65, 200, 66]) {
        Ok(_) => panic!("non-ASCII bytes were accepted"),
        Err(e) => e,
    };
    assert_eq!(e.bytes(), &[65, 200, 66]);
    assert_eq!(e.to_string(), "Invalid ASCII bytes: [65, 200, 66]");
    let e = match SensitiveStr::from_ascii(&[255, 0, 9]) {
        Ok(_) => panic!("non-ASCII bytes were accepted"),
        Err(e) => e,
    };
    assert_eq!(e.to_string(), format!("Invalid ASCII bytes: {:?}", [255u8, 0, 9]));
    let s = SensitiveStr::from_ascii_unchecked(b"ok");
    assert_eq!(s.as_str(), "ok");
    assert_eq!(s.into_string_text(), "ok");
}

trait IntoText {
    fn into_string_text(self) -> String;
}

impl<'a> IntoText for SensitiveStr<'a> {
    fn into_string_text(self) -> String {
        self.to_string()
    }
}

#[test]
fn insert_char() {
    let mut s = string("ac");
    s.insert(1, 'b').unwrap();
    assert_eq!(s.as_str(), "abc");
    s.insert(0, '>').unwrap();
    s.insert(4, '<').unwrap();
    assert_eq!(s.as_str(), ">abc<");
    assert_eq!(err_text(s.insert(100, 'é')), "Invalid ASCII bytes: [195, 169]");
    assert_eq!(err_text(s.insert(0, '€')), "Invalid ASCII bytes: [226, 130, 172]");
    assert_eq!(err_text(s.insert(0, '😀')), "Invalid ASCII bytes: [240, 159, 152, 128]");
    assert_eq!(s.as_str(), ">abc<");
    assert_eq!(s.remove(0), b'>');
    assert_eq!(s.remove(3), b'<');
    assert_eq!(s.as_str(), "abc");
}

#[test]
fn insert_str_and_ascii() {
    let mut s = string("held");
    s.insert_str(2, "llo wor").unwrap();
    assert_eq!(s.as_str(), "hello world");
    assert_eq!(err_text(s.insert_str(999, "ñ")), "Invalid ASCII bytes: [195, 177]");
    assert_eq!(s.as_str(), "hello world");
    s.insert_str(0, "").unwrap();
    assert_eq!(s.as_str(), "hello world");
    let mut t = string("[]");
    t.insert_ascii(1, &string("x, y"));
    assert_eq!(t.as_str(), "[x, y]");
    t.insert_ascii(t.len(), &string("!"));
    assert_eq!(t.as_str(), "[x, y]!");
}

#[test]
fn push_pop_split_truncate() {
    let mut s = string("ab");
    s.push(b'c').unwrap();
    assert_eq!(s.pop(), Some(b'c'));
    assert_eq!(s.as_str(), "ab");
    s.push_ascii(SensitiveStr::from_ascii(b"cdef").unwrap());
    assert_eq!(s.as_str(), "abcdef");
    let tail = s.split_off(2);
    assert_eq!(s.as_str(), "ab");
    assert_eq!(tail.as_str(), "cdef");
    s.push_ascii(tail.as_ascii_str());
    assert_eq!(s.as_str(), "abcdef");
    let none = s.split_off(6);
    assert!(none.is_empty());
    s.truncate(10);
    assert_eq!(s.as_str(), "abcdef");
    s.truncate(3);
    assert_eq!(s.as_str(), "abc");
    s.clear();
    assert!(s.is_empty());
    assert_eq!(s.pop(), None);
    let v = string("xyz").into_bytes();
    assert_eq!(v, b"xyz".to_vec());
}

#[test]
fn retain_keeps_order() {
    let mut s = string("hello, world");
    s.retain(|c| c != b'l');
    assert_eq!(s.as_str(), "heo, word");
    s.retain(|_| true);
    assert_eq!(s.as_str(), "heo, word");
    s.retain(|c| c.is_ascii_alphabetic());
    assert_eq!(s.as_str(), "heoword");
    s.retain(|_| false);
    assert!(s.is_empty());
}

#[test]
fn capacity_operations_keep_contents() {
    let mut s = SensitiveString::with_capacity(16);
    assert!(s.is_empty());
    assert!(s.capacity() >= 16);
    assert!(s.capacity() <= isize::MAX as usize);
    s.push_ascii(SensitiveStr::from_ascii(b"abc").unwrap());
    s.reserve(100);
    assert!(s.capacity() >= 103);
    s.reserve_exact(200);
    assert!(s.capacity() >= 203);
    s.shrink_to(10);
    assert!(s.capacity() >= 10);
    s.shrink_to_fit();
    assert!(s.capacity() >= 3);
    assert!(s.try_reserve(5).is_ok());
    assert!(s.try_reserve_exact(5).is_ok());
    assert!(s.try_reserve(usize::MAX).is_err());
    assert!(s.try_reserve_exact(usize::MAX).is_err());
    assert!(s.try_reserve(isize::MAX as usize - 2).is_err());
    assert!(s.try_reserve_exact(isize::MAX as usize - 2).is_err());
    assert_eq!(s.as_str(), "abc");
    let d = SensitiveString::default();
    assert!(d.is_empty());
}

#[test]
fn debug_form_escapes() {
    let bytes = b"a\"b\\c\n\t\r\0\x01\x1f\x7f'~ ";
    let s = SensitiveStr::from_ascii(bytes).unwrap();
    let text = std::str::from_utf8(bytes).unwrap();
    assert_eq!(s.debug_string(), format!("{:?}", text));
    assert_eq!(render_debug(b"").as_slice(), b"\"\"");
    let owned = s.to_owned();
    assert_eq!(owned.debug_string(), format!("{:?}", text));
}

#[test]
fn views_and_slices() {
    let s = SensitiveStr::from_ascii(b"Hello").unwrap();
    let r: &[u8] = AsRef::<[u8]>::as_ref(&s);
    assert_eq!(r, b"Hello");
    let t: &str = s.as_ref();
    assert_eq!(t, "Hello");
    assert!(s.index(2, 2).is_empty());
    assert_eq!(s.index(1, 4).as_bytes(), b"ell");
    let owned = s.to_owned();
    assert_eq!(owned.as_ascii_str().as_str(), "Hello");
    assert_eq!(owned.as_bytes(), b"Hello");
}
