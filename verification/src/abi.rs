//! The decoded side of the plugin binary interface.
//!
//! Plugins hand the host NUL-terminated byte strings and numeric codes;
//! this module says what the host reads out of them: metadata with
//! fallbacks for missing or broken text, the announced API address, and
//! which entry point a plugin is invoked through.

use vstd::prelude::*;

verus! {

use vstd::string::StringExecFns;
use vstd::utf8::{valid_utf8, decode_utf8};
use crate::strutil::{spec_dec, u64_dec_str};
use crate::telemetry::{utf8_string, LogLevel};

/// The interface version the host announces in every plugin context.
pub const HOST_ABI_VERSION: u32 = 1;

/// A plugin's decoded metadata. Its identity is `name`.
pub struct PluginMeta {
    pub name: String,
    pub version: String,
    pub kind: String,
}

/// A plugin's announced HTTP interface: the port it listens on and the
/// path prefix it serves under.
pub struct PluginApiInfo {
    pub port: u16,
    pub prefix: String,
}

/// What a byte string from the plugin reads as: its decoded text, or the
/// fallback when it is missing (a null pointer) or not UTF-8.
pub open spec fn spec_cstr_or(b: Option<Seq<u8>>, fallback: Seq<char>) -> Seq<char> {
    match b {
        None => fallback,
        Some(bytes) => if valid_utf8(bytes) {
            decode_utf8(bytes)
        } else {
            fallback
        },
    }
}

/// Decodes a byte string from the plugin, as `spec_cstr_or` describes.
pub fn cstr_or(b: Option<Vec<u8>>, fallback: &str) -> (r: String)
    ensures
        r@ == spec_cstr_or(match b {
            Some(ref bytes) => Some(bytes@),
            None => None::<Seq<u8>>,
        }, fallback@),
{
    match b {
        None => String::from_str(fallback),
        Some(bytes) => {
            match utf8_string(bytes) {
                Some(s) => s,
                None => String::from_str(fallback),
            }
        },
    }
}

/// Decodes a plugin's metadata: each missing or broken field reads as
/// `<unknown>`.
pub fn meta_from_parts(
    name: Option<Vec<u8>>,
    version: Option<Vec<u8>>,
    kind: Option<Vec<u8>>,
) -> (m: PluginMeta)
    ensures
        m.name@ == spec_cstr_or(match name {
            Some(ref b) => Some(b@),
            None => None::<Seq<u8>>,
        }, "<unknown>"@),
        m.version@ == spec_cstr_or(match version {
            Some(ref b) => Some(b@),
            None => None::<Seq<u8>>,
        }, "<unknown>"@),
        m.kind@ == spec_cstr_or(match kind {
            Some(ref b) => Some(b@),
            None => None::<Seq<u8>>,
        }, "<unknown>"@),
{
    PluginMeta {
        name: cstr_or(name, "<unknown>"),
        version: cstr_or(version, "<unknown>"),
        kind: cstr_or(kind, "<unknown>"),
    }
}

/// The base address a plugin's API is reachable under.
pub open spec fn spec_base_url(port: u16, prefix: Seq<char>) -> Seq<char> {
    "http://127.0.0.1:"@ + spec_dec(port as int) + prefix
}

/// Builds a plugin's base address, as `spec_base_url` describes.
pub fn base_url(port: u16, prefix: &str) -> (r: String)
    ensures
        r@ == spec_base_url(port, prefix@),
{
    let mut r = String::from_str("http://127.0.0.1:");
    let p = u64_dec_str(port as u64);
    r.append(p.as_str());
    r.append(prefix);
    r
}

/// Which entry point a plugin is invoked through.
#[derive(Clone, Copy, PartialEq, Eq, Structural, Debug)]
pub enum RunChoice {
    /// The plugin exports `run_with_ctx`: call it with a fresh context.
    UseContext,
    /// Only the legacy `run` is exported: call it without a context.
    UseLegacy,
    /// Neither entry point exists: log and skip the plugin.
    NoEntry,
}

/// Chooses the entry point: `run_with_ctx` is preferred, the legacy
/// `run` is the fallback, and a plugin without either is skipped.
pub fn choose_entry(has_run_with_ctx: bool, has_run: bool) -> (r: RunChoice)
    ensures
        has_run_with_ctx ==> r == RunChoice::UseContext,
        (!has_run_with_ctx && has_run) ==> r == RunChoice::UseLegacy,
        (!has_run_with_ctx && !has_run) ==> r == RunChoice::NoEntry,
{
    if has_run_with_ctx {
        RunChoice::UseContext
    } else if has_run {
        RunChoice::UseLegacy
    } else {
        RunChoice::NoEntry
    }
}

/// The level a wire code denotes: 0 is Debug, 1 Info, 2 Warn, 3 Error;
/// anything else reads as Info.
pub open spec fn spec_level_from_code(c: u32) -> LogLevel {
    if c == 0 {
        LogLevel::Debug
    } else if c == 2 {
        LogLevel::Warn
    } else if c == 3 {
        LogLevel::Error
    } else {
        LogLevel::Info
    }
}

/// Decodes a wire level code, as `spec_level_from_code` describes.
pub fn level_from_code(c: u32) -> (l: LogLevel)
    ensures
        l == spec_level_from_code(c),
{
    if c == 0 {
        LogLevel::Debug
    } else if c == 2 {
        LogLevel::Warn
    } else if c == 3 {
        LogLevel::Error
    } else {
        LogLevel::Info
    }
}

/// The wire code of a level.
pub fn level_code(l: LogLevel) -> (c: u32)
    ensures
        spec_level_from_code(c) == l,
        c < 4,
{
    match l {
        LogLevel::Debug => 0,
        LogLevel::Info => 1,
        LogLevel::Warn => 2,
        LogLevel::Error => 3,
    }
}

} // verus!
