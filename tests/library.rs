use hakufile::feature::{process_feature, FeatureClause};
use hakufile::func::{
    add_ext, all_are, ends_with, extract_part, format_time, join_path, pad, pad_text, print_text,
    replace, replace_ext, replace_name, replace_stem, starts_with, system_path, time_format, trim_string, user_dir_result,
    PathPart, SysPath, TimeFormat, Where,
};
use hakufile::host::Platform;
use hakufile::registry::{func_by_name, run_func, CheckType, Func, HostCall, Step};
use hakufile::value::{int_to_text, text_to_int, VarValue};

fn strs(items: &[&str]) -> Vec<String> {
    items.iter().map(|s| s.to_string()).collect()
}

fn clause(negated: bool, key: &str, values: &[&str]) -> FeatureClause {
    FeatureClause {
        negated,
        key: key.to_string(),
        values: strs(values),
    }
}

fn linux_box() -> Platform {
    Platform {
        os: "linux".to_string(),
        family: "unix".to_string(),
        bit: "64".to_string(),
        arch: "x86_64".to_string(),
        endian: "little".to_string(),
    }
}

#[test]
fn parts_of_a_path_with_extension() {
    let v = vec![VarValue::from("/home/user/report.abc")];
    assert_eq!(extract_part(&v, PathPart::Ext), Ok(VarValue::from("abc")));
    assert_eq!(extract_part(&v, PathPart::Stem), Ok(VarValue::from("report")));
    assert_eq!(extract_part(&v, PathPart::Name), Ok(VarValue::from("report.abc")));
    assert_eq!(extract_part(&v, PathPart::Dir), Ok(VarValue::from("/home/user")));
}

#[test]
fn parts_without_extension_or_arguments() {
    let v = vec![VarValue::from("dir/.bashrc")];
    assert_eq!(extract_part(&v, PathPart::Ext), Ok(VarValue::from("")));
    assert_eq!(extract_part(&v, PathPart::Stem), Ok(VarValue::from(".bashrc")));
    let v = vec![VarValue::from("/top")];
    assert_eq!(extract_part(&v, PathPart::Dir), Ok(VarValue::from("/")));
    let v = vec![VarValue::from("plain")];
    assert_eq!(extract_part(&v, PathPart::Dir), Ok(VarValue::from("")));
    let none: Vec<VarValue> = Vec::new();
    assert_eq!(extract_part(&none, PathPart::Ext), Ok(VarValue::Int(0)));
}

#[test]
fn clearing_an_extension_twice() {
    let v = vec![VarValue::from("a/b.txt"), VarValue::from("x")];
    let set = replace_ext(&v).unwrap();
    assert_eq!(set, VarValue::from("a/b.x"));
    let cleared = replace_ext(&[set, VarValue::from("")]).unwrap();
    assert_eq!(cleared, VarValue::from("a/b"));
    assert_eq!(extract_part(&[cleared], PathPart::Ext), Ok(VarValue::from("")));
    assert_eq!(replace_ext(&[]), Err("path undefined".to_string()));
}

#[test]
fn adding_extensions() {
    let p = VarValue::from("x/y.z");
    assert_eq!(add_ext(&[p.clone(), VarValue::from("")]), Ok(p.clone()));
    assert_eq!(add_ext(&[p.clone(), VarValue::from(".gz")]), Ok(VarValue::from("x/y.z.gz")));
    assert_eq!(add_ext(&[]), Err("path undefined".to_string()));
}

#[test]
fn joining_paths() {
    assert_eq!(join_path(&[]), Ok(VarValue::from("")));
    assert_eq!(join_path(&[VarValue::Int(5)]), Ok(VarValue::Int(5)));
    let v = vec![VarValue::from("a"), VarValue::from("b"), VarValue::from("c.txt")];
    assert_eq!(join_path(&v), Ok(VarValue::from("a/b/c.txt")));
    let v = vec![VarValue::from("c:\\tmp"), VarValue::from("x")];
    assert_eq!(join_path(&v), Ok(VarValue::from("c:\\tmp\\x")));
    let v = vec![VarValue::from("a/"), VarValue::from("b"), VarValue::from("/root"), VarValue::from("d")];
    assert_eq!(join_path(&v), Ok(VarValue::from("/root/d")));
}

#[test]
fn lone_subject_probes() {
    let v = vec![VarValue::from("anything")];
    assert_eq!(starts_with(&v), Ok(VarValue::Int(1)));
    assert_eq!(ends_with(&v), Ok(VarValue::Int(1)));
}

#[test]
fn trimming_one_character() {
    let v = vec![VarValue::from("++abc==="), VarValue::from("+")];
    assert_eq!(trim_string(&v, Where::Left), Ok(VarValue::from("abc===")));
    let v = vec![VarValue::from("  x  "), VarValue::from("")];
    assert_eq!(trim_string(&v, Where::All), Ok(VarValue::from("  x  ")));
    assert_eq!(trim_string(&[], Where::All), Ok(VarValue::from("")));
    let v = vec![VarValue::from("\u{3000}wide\u{a0}")];
    assert_eq!(trim_string(&v, Where::All), Ok(VarValue::from("wide")));
}

#[test]
fn replacing_text() {
    let v = vec![VarValue::from("abc def"), VarValue::from("bc"), VarValue::from("eFG")];
    assert_eq!(replace(&v), Ok(VarValue::from("aeFG def")));
    let v = vec![VarValue::from("abc def"), VarValue::from("Bc"), VarValue::from("x")];
    assert_eq!(replace(&v), Ok(VarValue::from("abc def")));
    let v = vec![VarValue::from("aaaa"), VarValue::from("aa"), VarValue::from("b")];
    assert_eq!(replace(&v), Ok(VarValue::from("bb")));
    let v = vec![VarValue::from("ab"), VarValue::from(""), VarValue::from("-")];
    assert_eq!(replace(&v), Ok(VarValue::from("-a-b-")));
    assert_eq!(replace(&[VarValue::from("x")]), Err("requires two arguments".to_string()));
}

#[test]
fn padding_scenarios() {
    let v = vec![VarValue::from("abc"), VarValue::from("+="), VarValue::from(10)];
    assert_eq!(pad(&v, Where::All), Ok(VarValue::from("+=+=abc+=")));
    assert_eq!(pad(&v, Where::Left), Ok(VarValue::from("+=+=+=abc")));
    assert_eq!(pad(&v, Where::Right), Ok(VarValue::from("abc+=+=+=")));
    let v = vec![VarValue::from("abc"), VarValue::from("+="), VarValue::from(5)];
    assert_eq!(pad(&v, Where::All), Ok(VarValue::from("abc")));
    let v = vec![VarValue::from("abc"), VarValue::from("+="), VarValue::from(-7)];
    assert_eq!(pad(&v, Where::Left), Ok(VarValue::from("abc")));
    let v = vec![VarValue::from("abc"), VarValue::from(""), VarValue::from(10)];
    assert_eq!(pad(&v, Where::All), Err("pad string cannot be empty".to_string()));
    let v = vec![VarValue::from("abc"), VarValue::from("+="), VarValue::from(10), VarValue::from(1)];
    assert_eq!(pad(&v, Where::All), Err("requires three arguments".to_string()));
}

#[test]
fn renaming_takes_exactly_two_arguments() {
    let v = vec![VarValue::from("d/f.txt"), VarValue::from("g.md")];
    assert_eq!(replace_name(&v), Ok(VarValue::from("d/g.md")));
    let v = vec![VarValue::from("d/f.txt"), VarValue::from("g.md"), VarValue::from("h")];
    assert_eq!(replace_name(&v), Err("new name undefined".to_string()));
    assert_eq!(replace_name(&[]), Err("path undefined".to_string()));
    let v = vec![VarValue::from("d/f.txt"), VarValue::from("")];
    assert_eq!(replace_stem(&v), Err("new stem undefined".to_string()));
    let v = vec![VarValue::from("d/f"), VarValue::from("g")];
    assert_eq!(replace_stem(&v), Ok(VarValue::from("d/g")));
}

#[test]
fn padding_measures_display_width() {
    let v = vec![VarValue::from("\u{65e5}"), VarValue::from("-"), VarValue::from(6)];
    assert_eq!(pad(&v, Where::Left), Ok(VarValue::from("----\u{65e5}")));
    assert_eq!(pad_text("abc", "+=", 3, 2, 11, Where::All), "+=+=abc+=+=");
    assert_eq!(pad_text("abc", "+=", 3, 2, 4, Where::Right), "abc");
}

#[test]
fn integer_text() {
    assert_eq!(int_to_text(-42), "-42");
    assert_eq!(int_to_text(0), "0");
    assert_eq!(int_to_text(i64::MIN), "-9223372036854775808");
    assert_eq!(VarValue::Int(1234).to_text(), "1234");
}

#[test]
fn text_integers() {
    assert_eq!(text_to_int("123"), 123);
    assert_eq!(text_to_int("-9223372036854775808"), i64::MIN);
    assert_eq!(text_to_int("9223372036854775807"), i64::MAX);
    assert_eq!(text_to_int("9223372036854775808"), 0);
    assert_eq!(text_to_int("12a"), 0);
    assert_eq!(text_to_int("-"), 0);
    assert_eq!(text_to_int(""), 0);
    assert_eq!(VarValue::from("aa").to_int(), 0);
}

#[test]
fn checks_of_paths() {
    assert_eq!(all_are(&[]), Ok(VarValue::Int(0)));
    assert_eq!(all_are(&[true, true]), Ok(VarValue::Int(1)));
    assert_eq!(all_are(&[true, false]), Ok(VarValue::Int(0)));
}

#[test]
fn printed_text() {
    let v = vec![VarValue::from("a"), VarValue::Int(1), VarValue::from("b")];
    assert_eq!(print_text(&v, false), "a 1 b");
    assert_eq!(print_text(&v, true), "a 1 b\n");
    assert_eq!(print_text(&[], true), "\n");
}

#[test]
fn time_formats() {
    assert!(matches!(time_format(&[]), TimeFormat::Pattern(p) if p == "%Y%m%d-%H%M%S"));
    assert!(matches!(time_format(&[VarValue::from("RFC2822")]), TimeFormat::Rfc2822));
    assert!(matches!(time_format(&[VarValue::from("3339")]), TimeFormat::Rfc3339));
    assert!(matches!(time_format(&[VarValue::from("%H")]), TimeFormat::Pattern(p) if p == "%H"));
    match format_time(&[VarValue::from("%Y")]) {
        Ok(VarValue::Str(y)) => assert_eq!(y.len(), 4),
        other => panic!("unexpected {:?}", other),
    }
    match format_time(&[]) {
        Ok(VarValue::Str(t)) => assert_eq!(t.len(), 15),
        other => panic!("unexpected {:?}", other),
    }
}

#[test]
fn user_directories() {
    assert_eq!(
        user_dir_result(SysPath::Home, None),
        Err("user home directory undefined".to_string())
    );
    assert_eq!(
        user_dir_result(SysPath::Docs, Some("/d".to_string())),
        Ok(VarValue::from("/d"))
    );
    match system_path(SysPath::Config) {
        Ok(VarValue::Str(_)) => {}
        Err(e) => assert_eq!(e, "user configuration directory undefined"),
        other => panic!("unexpected {:?}", other),
    }
}

#[test]
fn names_of_functions() {
    assert_eq!(func_by_name("IS-FILE"), Some(Func::IsFile));
    assert_eq!(func_by_name("Trim_Start"), Some(Func::TrimLeft));
    assert_eq!(func_by_name("with_filename"), Some(Func::WithName));
    assert_eq!(func_by_name("nothing"), None);
}

#[test]
fn running_functions() {
    let pl = linux_box();
    match run_func("OS", &[], &pl) {
        Step::Done(r) => assert_eq!(r, Ok(VarValue::from("linux"))),
        other => panic!("unexpected {:?}", other),
    }
    match run_func("Frobnicate", &[], &pl) {
        Step::Done(r) => assert_eq!(r, Err("function Frobnicate not found".to_string())),
        other => panic!("unexpected {:?}", other),
    }
    match run_func("isdir", &[VarValue::from("/tmp"), VarValue::Int(3)], &pl) {
        Step::Host(HostCall::Check(CheckType::IsDir, paths)) => {
            assert_eq!(paths, vec!["/tmp".to_string(), "3".to_string()])
        }
        other => panic!("unexpected {:?}", other),
    }
    assert!(matches!(run_func("temp-dir", &[], &pl), Step::Host(HostCall::TempDir)));
    match run_func("println", &[VarValue::from("x")], &pl) {
        Step::Host(HostCall::Print(t)) => assert_eq!(t, "x\n"),
        other => panic!("unexpected {:?}", other),
    }
    match run_func("Pad-Left", &[VarValue::from("7"), VarValue::from("0"), VarValue::from(3)], &pl) {
        Step::Done(r) => assert_eq!(r, Ok(VarValue::from("007"))),
        other => panic!("unexpected {:?}", other),
    }
}

#[test]
fn host_platform_facts() {
    let pl = Platform::host();
    assert!(!pl.os.is_empty());
    assert!(pl.bit == "32" || pl.bit == "64" || pl.bit == "16" || pl.bit == "8");
    assert!(pl.endian == "little" || pl.endian == "big");
}

#[test]
fn enabled_features() {
    let pl = linux_box();
    let enabled = strs(&["X", "y"]);
    let mut feats = Vec::new();
    let r = process_feature(&vec![clause(false, "feature", &["x"])], &enabled, &pl, &mut feats);
    assert_eq!(r, Ok(true));
    let r = process_feature(&vec![clause(true, "feat", &["z"])], &enabled, &pl, &mut feats);
    assert_eq!(r, Ok(true));
    let r = process_feature(&vec![clause(true, "Feature", &["Y"])], &enabled, &pl, &mut feats);
    assert_eq!(r, Ok(false));
    assert_eq!(feats, strs(&["x", "z", "y"]));
}

#[test]
fn negated_feature_without_enabled_features() {
    let pl = linux_box();
    let mut feats = Vec::new();
    let r = process_feature(&vec![clause(true, "feature", &["anything"])], &Vec::new(), &pl, &mut feats);
    assert_eq!(r, Ok(false));
    assert_eq!(feats, strs(&["anything"]));
}

#[test]
fn collected_features_whatever_the_outcome() {
    let pl = linux_box();
    let cs = vec![clause(false, "feature", &["A", "b"]), clause(false, "os", &["linux"])];
    let mut feats = Vec::new();
    assert_eq!(process_feature(&cs, &strs(&["c"]), &pl, &mut feats), Ok(false));
    assert_eq!(feats, strs(&["a", "b"]));
    let cs = vec![clause(false, "feature", &["a", "b"]), clause(false, "os", &["windows"])];
    let mut feats = Vec::new();
    assert_eq!(process_feature(&cs, &strs(&["a"]), &pl, &mut feats), Ok(false));
    assert!(feats.contains(&"a".to_string()) && feats.contains(&"b".to_string()));
}

#[test]
fn platform_clauses() {
    let pl = linux_box();
    let mut feats = Vec::new();
    let cs = vec![
        clause(false, "OS", &["windows", "Linux"]),
        clause(false, "bit", &["64"]),
        clause(true, "platform", &["windows"]),
        clause(false, "arch", &["x86_64"]),
        clause(false, "endian", &["little"]),
    ];
    assert_eq!(process_feature(&cs, &Vec::new(), &pl, &mut feats), Ok(true));
    assert!(feats.is_empty());
}

#[test]
fn unknown_clause_key() {
    let pl = linux_box();
    let mut feats = Vec::new();
    let cs = vec![clause(false, "feat", &["q"]), clause(false, "Color", &["red"]), clause(false, "feat", &["r"])];
    assert_eq!(process_feature(&cs, &Vec::new(), &pl, &mut feats), Err("color".to_string()));
    assert_eq!(feats, strs(&["q"]));
}
