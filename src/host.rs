use std::fmt::Write;
use vstd::prelude::*;

verus! {

/// Facts about the platform the scripts are built for, each a lower-case word.
#[derive(Debug, Clone)]
pub struct Platform {
    pub os: String,
    pub family: String,
    pub bit: String,
    pub arch: String,
    pub endian: String,
}

/// Relies on `target::os`: the operating system this program was built for.
#[verifier::external_body]
fn target_os() -> (r: &'static str) {
    target::os()
}

/// Relies on `target::family`: the family of operating systems this program was built for.
#[verifier::external_body]
fn target_family() -> (r: &'static str) {
    target::family()
}

/// Relies on `target::pointer_width`: the width of a pointer in bits, as text.
#[verifier::external_body]
fn target_pointer_width() -> (r: &'static str) {
    target::pointer_width()
}

/// Relies on `target::arch`: the processor architecture this program was built for.
#[verifier::external_body]
fn target_arch() -> (r: &'static str) {
    target::arch()
}

/// Relies on `target::endian`: the byte order this program was built for.
#[verifier::external_body]
fn target_endian() -> (r: &'static str) {
    target::endian()
}

impl Platform {
    /// The platform this program was built for.
    pub fn host() -> (r: Platform) {
        Platform {
            os: String::from_str(target_os()),
            family: String::from_str(target_family()),
            bit: String::from_str(target_pointer_width()),
            arch: String::from_str(target_arch()),
            endian: String::from_str(target_endian()),
        }
    }
}

/// Relies on `dirs::home_dir`: the user's home directory, when the host has one.
#[verifier::external_body]
pub(crate) fn user_home_dir() -> (r: Option<String>) {
    match dirs::home_dir() {
        Some(p) => Some(p.to_string_lossy().to_string()),
        None => None,
    }
}

/// Relies on `dirs::config_dir`: the user's configuration directory, when the host has one.
#[verifier::external_body]
pub(crate) fn user_config_dir() -> (r: Option<String>) {
    match dirs::config_dir() {
        Some(p) => Some(p.to_string_lossy().to_string()),
        None => None,
    }
}

/// Relies on `dirs::document_dir`: the user's documents directory, when the host has one.
#[verifier::external_body]
pub(crate) fn user_document_dir() -> (r: Option<String>) {
    match dirs::document_dir() {
        Some(p) => Some(p.to_string_lossy().to_string()),
        None => None,
    }
}

/// Relies on `chrono::Local::now` and `DateTime::to_rfc2822`: the local time now, in the
/// form of RFC 2822. (chrono panics on years outside 0 to 9999, which the clock does not
/// give.)
#[verifier::external_body]
pub(crate) fn now_rfc2822() -> (r: String) {
    chrono::Local::now().to_rfc2822()
}

/// Relies on `chrono::Local::now` and `DateTime::to_rfc3339`: the local time now, in the
/// form of RFC 3339.
#[verifier::external_body]
pub(crate) fn now_rfc3339() -> (r: String) {
    chrono::Local::now().to_rfc3339()
}

/// Relies on `chrono::Local::now` and `DateTime::format`: the local time now, written by a
/// strftime-style pattern; `None` when chrono reports that it cannot write the pattern.
#[verifier::external_body]
pub(crate) fn now_formatted(pattern: &str) -> (r: Option<String>) {
    let mut out = String::new();
    match write!(out, "{}", chrono::Local::now().format(pattern)) {
        Ok(()) => Some(out),
        Err(_) => None,
    }
}

} // verus!
