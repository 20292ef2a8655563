use vstd::prelude::*;

use crate::func::{
    add_ext,
    add_ext_post,
    change_case,
    change_case_post,
    contains,
    ends_with,
    extract_part,
    extract_part_post,
    fails_with,
    format_time,
    gives_str,
    join_path,
    join_path_post,
    match_regex,
    match_regex_post,
    missing_dir_message,
    pad,
    pad_post,
    print_text,
    print_text_spec,
    probe_post,
    replace,
    replace_ext,
    replace_ext_post,
    replace_name,
    replace_name_post,
    replace_post,
    replace_stem,
    replace_stem_post,
    starts_with,
    system_path,
    trim_string,
    trim_string_post,
    FuncResult,
    PathPart,
    Probe,
    StrCase,
    SysPath,
    Where,
};
use crate::host::Platform;
use crate::text::{lower_of, lowercase, text_eq};
use crate::value::VarValue;

verus! {

/// A built-in function.
#[derive(Clone, Copy, Debug, PartialEq, Eq)]
pub enum Func {
    Os,
    Family,
    Bit,
    Arch,
    Endian,
    IsFile,
    IsDir,
    Exists,
    Stem,
    Ext,
    Dir,
    FileName,
    AddExt,
    WithExt,
    WithName,
    WithStem,
    Join,
    Temp,
    Home,
    Config,
    Docs,
    Print,
    Println,
    Time,
    Trim,
    TrimLeft,
    TrimRight,
    StartsWith,
    EndsWith,
    Lowcase,
    Upcase,
    Contains,
    Replace,
    Match,
    PadCenter,
    PadLeft,
    PadRight,
}

/// The built-in function that a lower-case name stands for; each has one or more
/// spellings.
pub open spec fn func_of(low: Seq<char>) -> Option<Func> {
    if low == "os"@ {
        Some(Func::Os)
    } else if low == "family"@ {
        Some(Func::Family)
    } else if low == "bit"@ {
        Some(Func::Bit)
    } else if low == "arch"@ {
        Some(Func::Arch)
    } else if low == "endian"@ {
        Some(Func::Endian)
    } else if low == "is_file"@ || low == "is-file"@ || low == "isfile"@ {
        Some(Func::IsFile)
    } else if low == "is_dir"@ || low == "is-dir"@ || low == "isdir"@ {
        Some(Func::IsDir)
    } else if low == "exists"@ {
        Some(Func::Exists)
    } else if low == "stem"@ {
        Some(Func::Stem)
    } else if low == "ext"@ {
        Some(Func::Ext)
    } else if low == "dir"@ {
        Some(Func::Dir)
    } else if low == "filename"@ {
        Some(Func::FileName)
    } else if low == "add_ext"@ || low == "add-ext"@ {
        Some(Func::AddExt)
    } else if low == "with_ext"@ || low == "with-ext"@ {
        Some(Func::WithExt)
    } else if low == "with_filename"@ || low == "with-filename"@ || low == "with_name"@ || low == "with-name"@ {
        Some(Func::WithName)
    } else if low == "with_stem"@ || low == "with-stem"@ {
        Some(Func::WithStem)
    } else if low == "join"@ {
        Some(Func::Join)
    } else if low == "temp"@ || low == "temp_dir"@ || low == "temp-dir"@ {
        Some(Func::Temp)
    } else if low == "home"@ || low == "home_dir"@ || low == "home-dir"@ || low == "user_dir"@ || low == "user-dir"@ {
        Some(Func::Home)
    } else if low == "config"@ || low == "config_dir"@ || low == "config-dir"@ {
        Some(Func::Config)
    } else if low == "documents"@ || low == "docs_dir"@ || low == "docs-dir"@ {
        Some(Func::Docs)
    } else if low == "print"@ {
        Some(Func::Print)
    } else if low == "println"@ {
        Some(Func::Println)
    } else if low == "time"@ || low == "format-time"@ || low == "format_time"@ || low == "time-format"@ || low == "time_format"@ {
        Some(Func::Time)
    } else if low == "trim"@ {
        Some(Func::Trim)
    } else if low == "trim_left"@ || low == "trim-left"@ || low == "trim_start"@ || low == "trim-start"@ {
        Some(Func::TrimLeft)
    } else if low == "trim_right"@ || low == "trim-right"@ || low == "trim_end"@ || low == "trim-end"@ {
        Some(Func::TrimRight)
    } else if low == "starts-with"@ || low == "starts_with"@ {
        Some(Func::StartsWith)
    } else if low == "ends-with"@ || low == "ends_with"@ {
        Some(Func::EndsWith)
    } else if low == "lowcase"@ {
        Some(Func::Lowcase)
    } else if low == "upcase"@ {
        Some(Func::Upcase)
    } else if low == "contains"@ {
        Some(Func::Contains)
    } else if low == "replace"@ {
        Some(Func::Replace)
    } else if low == "match"@ {
        Some(Func::Match)
    } else if low == "pad-center"@ || low == "pad_center"@ {
        Some(Func::PadCenter)
    } else if low == "pad-left"@ || low == "pad_left"@ {
        Some(Func::PadLeft)
    } else if low == "pad-right"@ || low == "pad_right"@ {
        Some(Func::PadRight)
    } else {
        None
    }
}

/// The built-in function that a lower-case name stands for.
pub fn func_by_low_name(low: &str) -> (r: Option<Func>)
    ensures
        r == func_of(low@),
{
    if text_eq(low, "os") {
        Some(Func::Os)
    } else if text_eq(low, "family") {
        Some(Func::Family)
    } else if text_eq(low, "bit") {
        Some(Func::Bit)
    } else if text_eq(low, "arch") {
        Some(Func::Arch)
    } else if text_eq(low, "endian") {
        Some(Func::Endian)
    } else if text_eq(low, "is_file") || text_eq(low, "is-file") || text_eq(low, "isfile") {
        Some(Func::IsFile)
    } else if text_eq(low, "is_dir") || text_eq(low, "is-dir") || text_eq(low, "isdir") {
        Some(Func::IsDir)
    } else if text_eq(low, "exists") {
        Some(Func::Exists)
    } else if text_eq(low, "stem") {
        Some(Func::Stem)
    } else if text_eq(low, "ext") {
        Some(Func::Ext)
    } else if text_eq(low, "dir") {
        Some(Func::Dir)
    } else if text_eq(low, "filename") {
        Some(Func::FileName)
    } else if text_eq(low, "add_ext") || text_eq(low, "add-ext") {
        Some(Func::AddExt)
    } else if text_eq(low, "with_ext") || text_eq(low, "with-ext") {
        Some(Func::WithExt)
    } else if text_eq(low, "with_filename") || text_eq(low, "with-filename") || text_eq(low, "with_name") || text_eq(low, "with-name") {
        Some(Func::WithName)
    } else if text_eq(low, "with_stem") || text_eq(low, "with-stem") {
        Some(Func::WithStem)
    } else if text_eq(low, "join") {
        Some(Func::Join)
    } else if text_eq(low, "temp") || text_eq(low, "temp_dir") || text_eq(low, "temp-dir") {
        Some(Func::Temp)
    } else if text_eq(low, "home") || text_eq(low, "home_dir") || text_eq(low, "home-dir") || text_eq(low, "user_dir") || text_eq(low, "user-dir") {
        Some(Func::Home)
    } else if text_eq(low, "config") || text_eq(low, "config_dir") || text_eq(low, "config-dir") {
        Some(Func::Config)
    } else if text_eq(low, "documents") || text_eq(low, "docs_dir") || text_eq(low, "docs-dir") {
        Some(Func::Docs)
    } else if text_eq(low, "print") {
        Some(Func::Print)
    } else if text_eq(low, "println") {
        Some(Func::Println)
    } else if text_eq(low, "time") || text_eq(low, "format-time") || text_eq(low, "format_time") || text_eq(low, "time-format") || text_eq(low, "time_format") {
        Some(Func::Time)
    } else if text_eq(low, "trim") {
        Some(Func::Trim)
    } else if text_eq(low, "trim_left") || text_eq(low, "trim-left") || text_eq(low, "trim_start") || text_eq(low, "trim-start") {
        Some(Func::TrimLeft)
    } else if text_eq(low, "trim_right") || text_eq(low, "trim-right") || text_eq(low, "trim_end") || text_eq(low, "trim-end") {
        Some(Func::TrimRight)
    } else if text_eq(low, "starts-with") || text_eq(low, "starts_with") {
        Some(Func::StartsWith)
    } else if text_eq(low, "ends-with") || text_eq(low, "ends_with") {
        Some(Func::EndsWith)
    } else if text_eq(low, "lowcase") {
        Some(Func::Lowcase)
    } else if text_eq(low, "upcase") {
        Some(Func::Upcase)
    } else if text_eq(low, "contains") {
        Some(Func::Contains)
    } else if text_eq(low, "replace") {
        Some(Func::Replace)
    } else if text_eq(low, "match") {
        Some(Func::Match)
    } else if text_eq(low, "pad-center") || text_eq(low, "pad_center") {
        Some(Func::PadCenter)
    } else if text_eq(low, "pad-left") || text_eq(low, "pad_left") {
        Some(Func::PadLeft)
    } else if text_eq(low, "pad-right") || text_eq(low, "pad_right") {
        Some(Func::PadRight)
    } else {
        None
    }
}

/// The built-in function that a name stands for, in any case.
pub fn func_by_name(name: &str) -> (r: Option<Func>)
    ensures
        r == func_of(lower_of(name@)),
{
    let low = lowercase(name);
    func_by_low_name(low.as_str())
}

/// Which test of the file system a path must pass.
#[derive(Clone, Copy, Debug, PartialEq, Eq)]
pub enum CheckType {
    IsFile,
    IsDir,
    Exists,
}

/// Work that only the host can do: check paths on the file system, find the directory for
/// temporary files, or write text to the output.
#[derive(Debug, Clone)]
pub enum HostCall {
    Check(CheckType, Vec<String>),
    TempDir,
    Print(String),
}

/// The outcome of a call: done, or waiting on the host.
#[derive(Debug)]
pub enum Step {
    Done(FuncResult),
    Host(HostCall),
}

/// The texts of a list of values.
pub open spec fn arg_texts(args: Seq<VarValue>) -> Seq<Seq<char>> {
    args.map_values(|v: VarValue| v.text_value())
}

/// The texts of a list of strings.
pub open spec fn string_texts(v: Seq<String>) -> Seq<Seq<char>> {
    v.map_values(|s: String| s@)
}

pub open spec fn done_str(r: Step, t: Seq<char>) -> bool {
    r matches Step::Done(res) && gives_str(res, t)
}

pub open spec fn checks(r: Step, tp: CheckType, args: Seq<VarValue>) -> bool {
    r matches Step::Host(HostCall::Check(t, paths)) && t == tp && string_texts(paths@)
        == arg_texts(args)
}

pub open spec fn prints(r: Step, args: Seq<VarValue>, add_new_line: bool) -> bool {
    r matches Step::Host(HostCall::Print(t)) && t@ == print_text_spec(args, add_new_line)
}

pub open spec fn user_dir_step(r: Step, kind: SysPath) -> bool {
    r matches Step::Done(res) && (res matches Ok(v) ==> v is Str) && (res is Err ==> fails_with(
        res,
        missing_dir_message(kind),
    ))
}

pub open spec fn time_step(r: Step) -> bool {
    r matches Step::Done(res) && (res matches Ok(v) ==> v is Str) && (res is Err ==> fails_with(
        res,
        "invalid time format"@,
    ))
}

/// What calling built-in function `f` on `args` gives.
pub open spec fn call_post(f: Func, args: Seq<VarValue>, pl: Platform, r: Step) -> bool {
    match f {
        Func::Os => done_str(r, pl.os@),
        Func::Family => done_str(r, pl.family@),
        Func::Bit => done_str(r, pl.bit@),
        Func::Arch => done_str(r, pl.arch@),
        Func::Endian => done_str(r, pl.endian@),
        Func::IsFile => checks(r, CheckType::IsFile, args),
        Func::IsDir => checks(r, CheckType::IsDir, args),
        Func::Exists => checks(r, CheckType::Exists, args),
        Func::Stem => r matches Step::Done(res) && extract_part_post(args, PathPart::Stem, res),
        Func::Ext => r matches Step::Done(res) && extract_part_post(args, PathPart::Ext, res),
        Func::Dir => r matches Step::Done(res) && extract_part_post(args, PathPart::Dir, res),
        Func::FileName => r matches Step::Done(res) && extract_part_post(args, PathPart::Name, res),
        Func::AddExt => r matches Step::Done(res) && add_ext_post(args, res),
        Func::WithExt => r matches Step::Done(res) && replace_ext_post(args, res),
        Func::WithName => r matches Step::Done(res) && replace_name_post(args, res),
        Func::WithStem => r matches Step::Done(res) && replace_stem_post(args, res),
        Func::Join => r matches Step::Done(res) && join_path_post(args, res),
        Func::Temp => r is Host && r->Host_0 is TempDir,
        Func::Home => user_dir_step(r, SysPath::Home),
        Func::Config => user_dir_step(r, SysPath::Config),
        Func::Docs => user_dir_step(r, SysPath::Docs),
        Func::Print => prints(r, args, false),
        Func::Println => prints(r, args, true),
        Func::Time => time_step(r),
        Func::Trim => r matches Step::Done(res) && trim_string_post(args, Where::All, res),
        Func::TrimLeft => r matches Step::Done(res) && trim_string_post(args, Where::Left, res),
        Func::TrimRight => r matches Step::Done(res) && trim_string_post(args, Where::Right, res),
        Func::StartsWith => r matches Step::Done(res) && probe_post(args, Probe::Prefix, res),
        Func::EndsWith => r matches Step::Done(res) && probe_post(args, Probe::Suffix, res),
        Func::Lowcase => r matches Step::Done(res) && change_case_post(args, StrCase::Low, res),
        Func::Upcase => r matches Step::Done(res) && change_case_post(args, StrCase::Up, res),
        Func::Contains => r matches Step::Done(res) && probe_post(args, Probe::Infix, res),
        Func::Replace => r matches Step::Done(res) && replace_post(args, res),
        Func::Match => r matches Step::Done(res) && match_regex_post(args, res),
        Func::PadCenter => r matches Step::Done(res) && pad_post(args, Where::All, res),
        Func::PadLeft => r matches Step::Done(res) && pad_post(args, Where::Left, res),
        Func::PadRight => r matches Step::Done(res) && pad_post(args, Where::Right, res),
    }
}

/// The texts of all arguments.
fn arg_strings(args: &[VarValue]) -> (r: Vec<String>)
    ensures
        string_texts(r@) == arg_texts(args@),
{
    let mut out: Vec<String> = Vec::new();
    let mut k: usize = 0;
    while k < args.len()
        invariant
            k <= args@.len(),
            string_texts(out@) == arg_texts(args@.take(k as int)),
        decreases args@.len() - k,
    {
        let t = args[k].to_text();
        let ghost prev = out@;
        out.push(t);
        proof {
            assert(args@.take(k + 1) =~= args@.take(k as int).push(args@[k as int]));
            assert(string_texts(prev.push(t)) =~= string_texts(prev).push(t@));
            assert(arg_texts(args@.take(k + 1)) =~= arg_texts(args@.take(k as int)).push(
                args@[k as int].text_value(),
            ));
        }
        k = k + 1;
    }
    assert(args@.take(k as int) =~= args@);
    out
}

fn text_of(s: &String) -> (r: FuncResult)
    ensures
        gives_str(r, s@),
{
    Ok(VarValue::Str(s.clone()))
}

/// Calls built-in function `f` on `args`.
pub fn call_func(f: Func, args: &[VarValue], platform: &Platform) -> (r: Step)
    ensures
        call_post(f, args@, *platform, r),
{
    match f {
        Func::Os => Step::Done(text_of(&platform.os)),
        Func::Family => Step::Done(text_of(&platform.family)),
        Func::Bit => Step::Done(text_of(&platform.bit)),
        Func::Arch => Step::Done(text_of(&platform.arch)),
        Func::Endian => Step::Done(text_of(&platform.endian)),
        Func::IsFile => Step::Host(HostCall::Check(CheckType::IsFile, arg_strings(args))),
        Func::IsDir => Step::Host(HostCall::Check(CheckType::IsDir, arg_strings(args))),
        Func::Exists => Step::Host(HostCall::Check(CheckType::Exists, arg_strings(args))),
        Func::Stem => Step::Done(extract_part(args, PathPart::Stem)),
        Func::Ext => Step::Done(extract_part(args, PathPart::Ext)),
        Func::Dir => Step::Done(extract_part(args, PathPart::Dir)),
        Func::FileName => Step::Done(extract_part(args, PathPart::Name)),
        Func::AddExt => Step::Done(add_ext(args)),
        Func::WithExt => Step::Done(replace_ext(args)),
        Func::WithName => Step::Done(replace_name(args)),
        Func::WithStem => Step::Done(replace_stem(args)),
        Func::Join => Step::Done(join_path(args)),
        Func::Temp => Step::Host(HostCall::TempDir),
        Func::Home => Step::Done(system_path(SysPath::Home)),
        Func::Config => Step::Done(system_path(SysPath::Config)),
        Func::Docs => Step::Done(system_path(SysPath::Docs)),
        Func::Print => Step::Host(HostCall::Print(print_text(args, false))),
        Func::Println => Step::Host(HostCall::Print(print_text(args, true))),
        Func::Time => Step::Done(format_time(args)),
        Func::Trim => Step::Done(trim_string(args, Where::All)),
        Func::TrimLeft => Step::Done(trim_string(args, Where::Left)),
        Func::TrimRight => Step::Done(trim_string(args, Where::Right)),
        Func::StartsWith => Step::Done(starts_with(args)),
        Func::EndsWith => Step::Done(ends_with(args)),
        Func::Lowcase => Step::Done(change_case(args, StrCase::Low)),
        Func::Upcase => Step::Done(change_case(args, StrCase::Up)),
        Func::Contains => Step::Done(contains(args)),
        Func::Replace => Step::Done(replace(args)),
        Func::Match => Step::Done(match_regex(args)),
        Func::PadCenter => Step::Done(pad(args, Where::All)),
        Func::PadLeft => Step::Done(pad(args, Where::Left)),
        Func::PadRight => Step::Done(pad(args, Where::Right)),
    }
}

pub open spec fn run_func_post(name: Seq<char>, args: Seq<VarValue>, pl: Platform, r: Step) -> bool {
    match func_of(lower_of(name)) {
        Some(f) => call_post(f, args, pl, r),
        None => r matches Step::Done(res) && fails_with(
            res,
            "function "@ + name + " not found"@,
        ),
    }
}

/// Calls the built-in function that `name` stands for, in any case and in any of its
/// spellings. An unknown name fails with a message that repeats it as it was given.
pub fn run_func(name: &str, args: &[VarValue], platform: &Platform) -> (r: Step)
    ensures
        run_func_post(name@, args@, *platform, r),
{
    match func_by_name(name) {
        Some(f) => call_func(f, args, platform),
        None => {
            let mut msg = String::from_str("function ");
            msg.append(name);
            msg.append(" not found");
            Step::Done(Err(msg))
        },
    }
}

} // verus!
