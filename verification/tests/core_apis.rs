use winstr::bstr::BStr;
use winstr::bstr::ForeignStr;
use winstr::bstring::BString;
use winstr::literal::parse_str;
use winstr::packed::from_packed;

#[test]
fn core_apis() {
    let hello_world = "Hello, world!\0\r\n\t\x12\u{1234}\u{10000}\u{a9}\u{2122}";
    let units: Vec<u16> = hello_world.encode_utf16().collect();

    // Owned, from code units.
    let a = BString::from_code_units(&units, units.len()).unwrap();
    // Borrowed view of the owned string.
    let b = a.as_bstr();
    // Through raw foreign memory and back.
    let mut foreign_buf = units.clone();
    foreign_buf.push(0);
    let f = ForeignStr::new(2 * units.len() as u32, foreign_buf);
    let d = BStr::from_bstr(Some(&f)).unwrap();
    // Through the literal encoder's packed layout.
    let words = parse_str(
        "\"Hello, world!\\0\\r\\n\\t\\x12\\u{1234}\\u{10000}\u{a9}\u{2122}\"",
    )
    .unwrap();
    let l = from_packed(&words).unwrap();

    assert!(a.eq_str(hello_world));
    assert!(b.eq_str(hello_world));
    assert!(d.eq_str(hello_world));
    assert!(l.eq_str(hello_world));

    assert!(a == a);
    assert!(a == b);
    assert!(a == d);
    assert!(a == l);

    assert_eq!(d.as_bstr(), b.as_bstr());
    assert_eq!(a.units0(), b.as_bstr());
    assert_eq!(a.len(), b.len());
    assert_eq!(a.len(), d.len());
    assert_eq!(a.len(), l.len());
    assert_eq!(a.len(), d.len0() - 1);
    assert_eq!(a.len(), l.as_bstr().len0() - 1);
    assert_eq!(d.len(), d.len32() as usize);
    assert_eq!(l.len(), l.as_bstr().len32() as usize);
    assert_eq!(d.len0(), d.len320() as usize);
    assert_eq!(l.as_bstr().len0(), l.as_bstr().len320() as usize);

    assert!(hello_world.encode_utf16().eq(d.units().iter().copied()));
    assert!(hello_world.encode_utf16().eq(l.units().iter().copied()));
    assert!(hello_world.encode_utf16().chain(Some(0)).eq(d.units0().iter().copied()));
    assert!(hello_world.encode_utf16().chain(Some(0)).eq(l.units0().iter().copied()));
}
