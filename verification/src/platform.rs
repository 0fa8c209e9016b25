//! Process environment decisions: trace verbosity, interpreter override, library search
//! path and console hiding for child processes.
use crate::text::{
    ascii_lowercase, ascii_lowercase_string, ends_with_str, non_blank_trimmed,
    push_str, str_eq, trim, trim_string,
};
use vstd::prelude::*;

verus! {

/// Whether the trimmed `YAPPER_VERBOSE` value, in any case, is one of `1`, `true`, `on`.
pub open spec fn verbose_on_value(v: Seq<char>) -> bool {
    let l = ascii_lowercase(trim(v));
    l == "1"@ || l == "true"@ || l == "on"@
}

/// Whether the trimmed `YAPPER_VERBOSE` value, in any case, is one of `0`, `false`, `off`.
pub open spec fn verbose_off_value(v: Seq<char>) -> bool {
    let l = ascii_lowercase(trim(v));
    l == "0"@ || l == "false"@ || l == "off"@
}

/// Verbose traces: debug builds are verbose unless `YAPPER_VERBOSE` is `0`, `false` or
/// `off`; release builds are quiet unless it is `1`, `true` or `on` (trimmed, any case).
pub open spec fn verbose_spec(env: Option<Seq<char>>, debug_build: bool) -> bool {
    match env {
        None => debug_build,
        Some(v) => if debug_build {
            !verbose_off_value(v)
        } else {
            verbose_on_value(v)
        },
    }
}

pub fn verbose_dictation_trace(env: Option<&str>, debug_build: bool) -> (r: bool)
    ensures
        r == verbose_spec(
            match env {
                Some(e) => Some(e@),
                None => None,
            },
            debug_build,
        ),
{
    match env {
        None => debug_build,
        Some(v) => {
            let t = trim_string(v);
            let l = ascii_lowercase_string(t.as_str());
            let l = l.as_str();
            if debug_build {
                !(str_eq(l, "0") || str_eq(l, "false") || str_eq(l, "off"))
            } else {
                str_eq(l, "1") || str_eq(l, "true") || str_eq(l, "on")
            }
        },
    }
}

/// The interpreter for the inference process, before any probe of the system: the
/// `YAPPER_PYTHON` value when non-blank (trimmed), else the bundled runtime when present.
/// `None` leaves the choice to the system probe.
pub fn choose_interpreter(env: Option<&str>, bundled: Option<String>) -> (r: Option<String>)
    ensures
        match env {
            Some(v) if trim(v@).len() > 0 => r matches Some(p) && p@ == trim(v@),
            _ => r == bundled,
        },
{
    match non_blank_trimmed(env) {
        Some(p) => Some(p),
        None => bundled,
    }
}

/// `LD_LIBRARY_PATH` with `fragment` in front of the old value.
pub fn merged_library_path(fragment: &str, old: &str) -> (r: String)
    ensures
        r@ == if old@.len() == 0 {
            fragment@
        } else {
            fragment@ + ":"@ + old@
        },
{
    let mut out = fragment.to_owned();
    if !old.is_empty() {
        push_str(&mut out, ":");
        push_str(&mut out, old);
    }
    out
}

/// Whether a console-less flag is needed for a Python child: not for `pythonw.exe`, which
/// has no console (matched case-insensitively at the end of the path).
pub fn needs_console_hiding(python_exe: &str) -> (r: bool)
    ensures
        r == !"pythonw.exe"@.is_suffix_of(ascii_lowercase(python_exe@)),
{
    let l = ascii_lowercase_string(python_exe);
    !ends_with_str(l.as_str(), "pythonw.exe")
}

} // verus!
