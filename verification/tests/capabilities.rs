use winstr::args::AsBStrPtr;
use winstr::args::AsOptBStrPtr;
use winstr::args::IntoBStr;
use winstr::args::IntoOptBStr;
use winstr::bstring::BString;

#[test]
fn borrow_as_foreign_pointer() {
    let owned = BString::from_str("arg").unwrap();
    let v = owned.as_bstr_ptr();
    assert_eq!(v.units(), &[b'a' as u16, b'r' as u16, b'g' as u16]);
    // A view borrows as itself, without a new allocation.
    let v2 = v.as_bstr_ptr();
    assert!(v == v2);
}

#[test]
fn borrow_as_nullable_foreign_pointer() {
    let owned = BString::from_str("x").unwrap();
    assert!(owned.as_opt_bstr_ptr().is_some());
    assert!(owned.as_bstr().as_opt_bstr_ptr().is_some());

    let present: Option<BString> = Some(BString::from_str("y").unwrap());
    let absent: Option<BString> = None;
    assert_eq!(present.as_opt_bstr_ptr().unwrap().units(), &[b'y' as u16]);
    assert!(absent.as_opt_bstr_ptr().is_none());
}

#[test]
fn into_foreign_string_arguments() {
    let from_text: BString = IntoBStr::into("text");
    assert!(from_text.eq_str("text"));
    let from_string: BString = IntoBStr::into(String::from("text"));
    assert!(from_string == from_text);
    // A string that already is one passes through unchanged.
    let passed: BString = IntoBStr::into(from_text.clone());
    assert!(passed == from_text);

    let explicit_null: Option<BString> = IntoOptBStr::into(());
    assert!(explicit_null.is_none());
    let opt: Option<BString> = IntoOptBStr::into("maybe");
    assert!(opt.unwrap().eq_str("maybe"));
    let through: Option<BString> = IntoOptBStr::into(Some(from_text.clone()));
    assert!(through.unwrap() == from_text);
}
