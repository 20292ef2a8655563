use hakufile::func::{
    add_ext, change_case, contains, ends_with, extract_part, join_path, match_regex, pad,
    replace, replace_ext, replace_name, replace_stem, starts_with, trim_string, PathPart,
    StrCase, Where,
};
use hakufile::value::VarValue;

#[test]
fn extract() {
    let v = vec![VarValue::from("c:\\tmp\\file.abc")];
    let r = extract_part(&v, PathPart::Ext);
    assert_eq!(r, Ok(VarValue::from("abc")));
    let r = extract_part(&v, PathPart::Stem);
    assert_eq!(r, Ok(VarValue::from("file")));
    let r = extract_part(&v, PathPart::Name);
    assert_eq!(r, Ok(VarValue::from("file.abc")));
    let r = extract_part(&v, PathPart::Dir);
    assert_eq!(r, Ok(VarValue::from("c:\\tmp")));
}

#[test]
fn change_ext() {
    let v = vec![VarValue::from("c:\\tmp\\file.abc"), VarValue::Str(String::new())];
    let r = replace_ext(&v);
    assert_eq!(r, Ok(VarValue::from("c:\\tmp\\file")));
    let v = vec![VarValue::from("c:\\tmp\\file.abc"), VarValue::from("def")];
    let r = replace_ext(&v);
    assert_eq!(r, Ok(VarValue::from("c:\\tmp\\file.def")));
    let v = vec![VarValue::from("c:\\tmp\\file.abc")];
    let r = replace_ext(&v);
    assert_eq!(r, Ok(VarValue::from("c:\\tmp\\file.abc")));
}

#[test]
fn append_ext() {
    let v = vec![VarValue::from("c:\\tmp\\file.abc"), VarValue::Str(String::new())];
    let r = add_ext(&v);
    assert_eq!(r, Ok(VarValue::from("c:\\tmp\\file.abc")));
    let v = vec![VarValue::from("c:\\tmp\\file.abc"), VarValue::from("def")];
    let r = add_ext(&v);
    assert_eq!(r, Ok(VarValue::from("c:\\tmp\\file.abc.def")));
    let v = vec![VarValue::from("c:\\tmp\\file.abc")];
    let r = add_ext(&v);
    assert_eq!(r, Ok(VarValue::from("c:\\tmp\\file.abc")));
}

#[test]
fn change_name() {
    let v = vec![VarValue::from("c:\\tmp\\file.abc"), VarValue::Str(String::new())];
    let r = replace_name(&v);
    assert_eq!(r, Ok(VarValue::from("c:\\tmp\\")));
    let v = vec![VarValue::from("c:\\tmp\\file.abc"), VarValue::from("some.def")];
    let r = replace_name(&v);
    assert_eq!(r, Ok(VarValue::from("c:\\tmp\\some.def")));
    let v = vec![VarValue::from("c:\\tmp\\file.abc")];
    let r = replace_name(&v);
    assert!(r.is_err());
}

#[test]
fn change_stem() {
    let v = vec![VarValue::from("c:\\tmp\\file.abc"), VarValue::Str(String::new())];
    let r = replace_stem(&v);
    assert!(r.is_err());
    let v = vec![VarValue::from("c:\\tmp\\file.abc"), VarValue::from("some.def")];
    let r = replace_stem(&v);
    assert_eq!(r, Ok(VarValue::from("c:\\tmp\\some.def.abc")));
    let v = vec![VarValue::from("c:\\tmp\\file.abc"), VarValue::from("some")];
    let r = replace_stem(&v);
    assert_eq!(r, Ok(VarValue::from("c:\\tmp\\some.abc")));
    let v = vec![VarValue::from("c:\\tmp\\file.abc")];
    let r = replace_stem(&v);
    assert!(r.is_err());
}

#[test]
fn trims() {
    let v = vec![VarValue::from(" \n abc\t   ")];
    let r = trim_string(&v, Where::All);
    assert_eq!(r, Ok(VarValue::from("abc")));
    let r = trim_string(&v, Where::Left);
    assert_eq!(r, Ok(VarValue::from("abc\t   ")));
    let r = trim_string(&v, Where::Right);
    assert_eq!(r, Ok(VarValue::from(" \n abc")));

    let v = vec![VarValue::from("++abc==="), VarValue::from("+")];
    let r = trim_string(&v, Where::All);
    assert_eq!(r, Ok(VarValue::from("abc===")));
    let v = vec![VarValue::from("++abc==="), VarValue::from("=")];
    let r = trim_string(&v, Where::All);
    assert_eq!(r, Ok(VarValue::from("++abc")));

    let v = vec![VarValue::from("++abc==="), VarValue::from("+")];
    let r = trim_string(&v, Where::Left);
    assert_eq!(r, Ok(VarValue::from("abc===")));
    let r = trim_string(&v, Where::Right);
    assert_eq!(r, Ok(VarValue::from("++abc===")));
}

#[test]
fn end_start() {
    let v = vec![VarValue::from("testabc")];
    let r = starts_with(&v);
    assert_eq!(r, Ok(VarValue::Int(1)));
    let r = ends_with(&v);
    assert_eq!(r, Ok(VarValue::Int(1)));
    let v = vec![VarValue::from("testabc"), VarValue::from("test")];
    let r = starts_with(&v);
    assert_eq!(r, Ok(VarValue::Int(1)));
    let r = ends_with(&v);
    assert_eq!(r, Ok(VarValue::Int(0)));
    let v = vec![VarValue::from("testabc"), VarValue::from("abc")];
    let r = starts_with(&v);
    assert_eq!(r, Ok(VarValue::Int(0)));
    let r = ends_with(&v);
    assert_eq!(r, Ok(VarValue::Int(1)));
    let v = vec![VarValue::from("testabc"), VarValue::from("xxx")];
    let r = starts_with(&v);
    assert_eq!(r, Ok(VarValue::Int(0)));
    let r = ends_with(&v);
    assert_eq!(r, Ok(VarValue::Int(0)));
    let v = vec![VarValue::from("testabc"), VarValue::from("")];
    let r = starts_with(&v);
    assert_eq!(r, Ok(VarValue::Int(1)));
    let r = ends_with(&v);
    assert_eq!(r, Ok(VarValue::Int(1)));
    let v = vec![VarValue::from("testabc"), VarValue::from("test"), VarValue::from("abc")];
    let r = starts_with(&v);
    assert_eq!(r, Ok(VarValue::Int(1)));
    let r = ends_with(&v);
    assert_eq!(r, Ok(VarValue::Int(1)));
}

#[test]
fn up_low() {
    let v = vec![VarValue::from("aBc DeF")];
    let r = change_case(&v, StrCase::Low);
    assert_eq!(r, Ok(VarValue::from("abc def")));
    let r = change_case(&v, StrCase::Up);
    assert_eq!(r, Ok(VarValue::from("ABC DEF")));
}

#[test]
fn contain() {
    let v = vec![VarValue::from("aBc DeF")];
    let r = contains(&v);
    assert_eq!(r, Ok(VarValue::Int(1)));
    let v = vec![VarValue::from("aBc DeF"), VarValue::from("Bc")];
    let r = contains(&v);
    assert_eq!(r, Ok(VarValue::Int(1)));
    let v = vec![VarValue::from("aBc DeF"), VarValue::from("bc")];
    let r = contains(&v);
    assert_eq!(r, Ok(VarValue::Int(0)));
    let v = vec![VarValue::from("aBc DeF"), VarValue::from("bc"), VarValue::from("eF")];
    let r = contains(&v);
    assert_eq!(r, Ok(VarValue::Int(1)));
}

#[test]
fn replaces() {
    let v = vec![VarValue::from("aBc DeF")];
    let r = replace(&v);
    assert!(r.is_err());
    let v = vec![VarValue::from("abc def"), VarValue::from("bc")];
    let r = replace(&v);
    assert_eq!(r, Ok(VarValue::from("a def")));
    let v = vec![VarValue::from("abc def"), VarValue::from("Bc")];
    let r = replace(&v);
    assert_eq!(r, Ok(VarValue::from("abc def")));
    let v = vec![VarValue::from("abc def"), VarValue::from("bc"), VarValue::from("eFG")];
    let r = replace(&v);
    assert_eq!(r, Ok(VarValue::from("aeFG def")));
}

#[test]
fn matches() {
    let v = vec![VarValue::from("aBc DeF")];
    let r = match_regex(&v);
    assert_eq!(r, Ok(VarValue::Int(1)));
    let v = vec![VarValue::from("abc def"), VarValue::from("bc")];
    let r = match_regex(&v);
    assert_eq!(r, Ok(VarValue::from(1)));
    let v = vec![VarValue::from("abc def"), VarValue::from("b.*e")];
    let r = match_regex(&v);
    assert_eq!(r, Ok(VarValue::from(1)));
    let v = vec![VarValue::from("abc def"), VarValue::from("b.*g")];
    let r = match_regex(&v);
    assert_eq!(r, Ok(VarValue::from(0)));
    let v = vec![VarValue::from("abc def"), VarValue::from("b.*g"), VarValue::from("d[mge]+")];
    let r = match_regex(&v);
    assert_eq!(r, Ok(VarValue::from(1)));
}

#[test]
fn pads() {
    let v = vec![VarValue::from("abc")];
    let r = pad(&v, Where::All);
    assert!(r.is_err());
    let v = vec![VarValue::from("abc"), VarValue::from("+=")];
    let r = pad(&v, Where::All);
    assert!(r.is_err());
    let v = vec![VarValue::from("abc"), VarValue::from("")];
    let r = pad(&v, Where::All);
    assert!(r.is_err());

    let v = vec![VarValue::from("abc"), VarValue::from("+="), VarValue::from("aa")];
    let r = pad(&v, Where::All);
    assert_eq!(r, Ok(VarValue::from("abc")));
    let v = vec![VarValue::from("abc"), VarValue::from("+="), VarValue::from(0)];
    let r = pad(&v, Where::All);
    assert_eq!(r, Ok(VarValue::from("abc")));
    let v = vec![VarValue::from("abc"), VarValue::from("+="), VarValue::from(2)];
    let r = pad(&v, Where::All);
    assert_eq!(r, Ok(VarValue::from("abc")));
    let v = vec![VarValue::from("abc"), VarValue::from("+="), VarValue::from(10)];
    let r = pad(&v, Where::All);
    assert_eq!(r, Ok(VarValue::from("+=+=abc+=")));
    let r = pad(&v, Where::Left);
    assert_eq!(r, Ok(VarValue::from("+=+=+=abc")));
    let r = pad(&v, Where::Right);
    assert_eq!(r, Ok(VarValue::from("abc+=+=+=")));

    let v = vec![VarValue::from("abc"), VarValue::from("+="), VarValue::from(11)];
    let r = pad(&v, Where::All);
    assert_eq!(r, Ok(VarValue::from("+=+=abc+=+=")));
}
