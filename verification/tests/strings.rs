use std::collections::hash_map::DefaultHasher;
use std::hash::Hash;
use std::hash::Hasher;

use winstr::bstr::BStr;
use winstr::bstr::ForeignStr;
use winstr::bstring::BString;
use winstr::bstring::ESI;

fn hash_of<T: Hash>(v: &T) -> u64 {
    let mut h = DefaultHasher::new();
    v.hash(&mut h);
    h.finish()
}

#[test]
fn round_trip_code_units() {
    let units: Vec<u16> = vec![1, 2, 3, 0, 0xFFFF, 42];
    let b = BString::from_code_units(&units, units.len()).unwrap();
    assert_eq!(b.units(), &units[..]);
    assert_eq!(b.len(), units.len());
}

#[test]
fn round_trip_empty() {
    let b = BString::from_code_units(&[], 0).unwrap();
    assert_eq!(b.units(), &[] as &[u16]);
    assert_eq!(b.len(), 0);
    assert_eq!(b.units0(), &[0u16]);
}

#[test]
fn under_reporting_source_zero_fills() {
    let b = BString::from_code_units(&[7, 8], 5).unwrap();
    assert_eq!(b.units(), &[7, 8, 0, 0, 0]);
}

#[test]
fn over_reporting_source_truncates() {
    let b = BString::from_code_units(&[7, 8], 1).unwrap();
    assert_eq!(b.units(), &[7]);
}

#[test]
fn overflow_guard_rejects() {
    assert!(BString::from_code_units(&[], 0x8000_0000usize).is_none());
    assert!(BString::from_code_units(&[1, 2], usize::MAX).is_none());
}

#[test]
fn terminator_always_present() {
    let cases: &[&[u16]] = &[&[], &[0], &[72, 101], &[0xD83D, 0xDE00]];
    for units in cases {
        let b = BString::from_code_units(units, units.len()).unwrap();
        let v = b.as_bstr();
        assert_eq!(*b.units0().last().unwrap(), 0u16);
        assert_eq!(b.units0().len(), b.len() + 1);
        assert_eq!(*v.units0().last().unwrap(), 0u16);
        assert_eq!(v.len0(), v.len() + 1);
        assert_eq!(v.len320(), v.len32() + 1);
    }
}

#[test]
fn from_str_encodes_utf16() {
    let b = BString::from_str("A\u{1F600}").unwrap();
    assert_eq!(b.units(), &[0x41, 0xD83D, 0xDE00]);
    assert!(b.eq_str("A\u{1F600}"));
    let empty = BString::from_str("").unwrap();
    assert_eq!(empty.len(), 0);
}

#[test]
fn from_bstr_copies_units() {
    let a = BString::from_str("copy me").unwrap();
    let v = a.as_bstr();
    let c = BString::from_bstr(&v).unwrap();
    assert!(a == c);
    assert_eq!(a.units(), c.units());
}

#[test]
fn clone_preserves_units() {
    let a = BString::from_str("clone me").unwrap();
    let c = a.clone();
    assert!(a == c);
    drop(a);
    assert!(c.eq_str("clone me"));
}

#[test]
fn eq_ord_hash_consistency() {
    let units: Vec<u16> = "same text".encode_utf16().collect();
    let a = BString::from_code_units(&units, units.len()).unwrap();
    let b = BString::from_str("same text").unwrap();
    let va = a.as_bstr();
    let vb = b.as_bstr();

    // Equality across owned/borrowed, in any combination.
    assert!(a == b);
    assert!(va == vb);
    assert!(a == vb);
    assert!(va == b);

    // Hashes agree whenever the code units agree, across both types.
    assert_eq!(hash_of(&a), hash_of(&b));
    assert_eq!(hash_of(&va), hash_of(&vb));
    assert_eq!(hash_of(&a), hash_of(&va));

    // Ordering is the lexicographic order of the code units.
    let x = BString::from_str("ab").unwrap();
    let y = BString::from_str("ac").unwrap();
    let z = BString::from_str("abc").unwrap();
    assert!(x.partial_cmp(&y) == Some(std::cmp::Ordering::Less));
    assert!(y.partial_cmp(&x) == Some(std::cmp::Ordering::Greater));
    assert!(x.partial_cmp(&z) == Some(std::cmp::Ordering::Less));
    assert!(x.partial_cmp(&x) == Some(std::cmp::Ordering::Equal));
    assert!(x.as_bstr().partial_cmp(&z.as_bstr()) == Some(std::cmp::Ordering::Less));
    assert!(x.partial_cmp(&z.as_bstr()) == Some(std::cmp::Ordering::Less));
    assert!(z.as_bstr().partial_cmp(&x) == Some(std::cmp::Ordering::Greater));
    assert!(x.partial_cmp(&x.as_bstr()) == Some(std::cmp::Ordering::Equal));
    assert!(x != y);
    assert!(x != z);
}

#[test]
fn foreign_pointer_conversion() {
    // Null converts to the absent value.
    assert!(BStr::from_bstr(None).is_none());

    // A valid foreign string converts to a view of its units.
    let f = ForeignStr::new(6, vec![72, 105, 33, 0]);
    let v = BStr::from_bstr(Some(&f)).unwrap();
    assert_eq!(v.units(), &[72, 105, 33]);
    assert_eq!(v.len32(), 3);

    // A prefix reading as the reserved sentinel is rejected.
    let bad = ForeignStr::new(u32::MAX, vec![0]);
    assert!(BStr::from_bstr(Some(&bad)).is_none());
}

#[test]
fn view_from_terminated_buffer() {
    let buf: Vec<u16> = vec![72, 0];
    let v = BStr::from_units0(&buf).unwrap();
    assert_eq!(v.units(), &[72]);
    assert_eq!(v.as_bstr(), &[72, 0]);
    assert_eq!(v.as_lpcwstr(), &[72, 0]);

    // Unterminated or empty buffers are rejected.
    assert!(BStr::from_units0(&[]).is_none());
    assert!(BStr::from_units0(&[72, 1]).is_none());
}

#[test]
fn exact_size_adapter() {
    let mut e = ESI::new(vec![5, 6]);
    assert_eq!(e.len(), 2);
    assert_eq!(e.as_units(), &[5, 6]);
    assert_eq!(e.next(), Some(5));
    assert_eq!(e.len(), 2);
    assert_eq!(e.next(), Some(6));
    assert_eq!(e.next(), None);
    assert_eq!(e.len(), 2);
}
