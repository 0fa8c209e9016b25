//! The NVIDIA runtime libraries that speed up local inference: which files make up the
//! Windows bundle, when it counts as installed, and which installer a platform gets.
use crate::errors::is_err_with;
use crate::numbers::{decimal, u64_to_decimal};
use crate::text::{ascii_lowercase, ascii_lowercase_string, contains_seq, contains_str, ends_with_str, push_str};
use vstd::prelude::*;

verus! {

/// Whether a file name (any case) is a cuBLAS or cuDNN library: it ends in `.dll` and
/// names `cudnn` or `cublas`.
pub open spec fn gpu_dll_spec(name: Seq<char>) -> bool {
    let l = ascii_lowercase(name);
    ".dll"@.is_suffix_of(l) && (contains_seq(l, "cudnn"@) || contains_seq(l, "cublas"@))
}

pub fn is_gpu_dll(name: &str) -> (r: bool)
    ensures
        r == gpu_dll_spec(name@),
{
    let l = ascii_lowercase_string(name);
    let l = l.as_str();
    ends_with_str(l, ".dll") && (contains_str(l, "cudnn") || contains_str(l, "cublas"))
}

/// How many of `names` are cuBLAS or cuDNN libraries.
pub open spec fn gpu_dll_count_spec(names: Seq<String>) -> nat
    decreases names.len(),
{
    if names.len() == 0 {
        0
    } else {
        gpu_dll_count_spec(names.drop_last()) + if gpu_dll_spec(names.last()@) {
            1nat
        } else {
            0nat
        }
    }
}

pub fn gpu_dll_count(names: &[String]) -> (r: usize)
    ensures
        r == gpu_dll_count_spec(names@),
{
    let mut n: usize = 0;
    let mut i: usize = 0;
    assert(names@.take(0) =~= Seq::<String>::empty());
    while i < names.len()
        invariant
            i <= names@.len(),
            n == gpu_dll_count_spec(names@.take(i as int)),
            n <= i,
        decreases names@.len() - i,
    {
        assert(names@.take(i + 1).drop_last() =~= names@.take(i as int));
        if is_gpu_dll(names[i].as_str()) {
            n = n + 1;
        }
        i = i + 1;
    }
    assert(names@.take(names@.len() as int) =~= names@);
    n
}

/// The bundle counts as installed once its folder holds at least two of its libraries.
pub const GPU_BUNDLE_MIN_DLLS: usize = 2;

pub fn bundle_installed(folder_exists: bool, dll_count: usize) -> (r: bool)
    ensures
        r == (folder_exists && dll_count >= GPU_BUNDLE_MIN_DLLS),
{
    folder_exists && dll_count >= GPU_BUNDLE_MIN_DLLS
}

/// Whether a file name has the extension `dll` in any case, as `Path::extension` reads
/// it: the part after the last dot, where the dot does not begin the name.
pub fn has_dll_extension(name: &str) -> (r: bool)
    ensures
        r == (name@.len() >= 5 && ".dll"@.is_suffix_of(ascii_lowercase(name@))),
{
    let l = ascii_lowercase_string(name);
    proof {
        assert(l@.len() == name@.len());
    }
    name.unicode_len() >= 5 && ends_with_str(l.as_str(), ".dll")
}

/// Which installer a platform runs.
#[derive(Debug, PartialEq, Eq, Structural)]
pub enum InstallTarget {
    /// Download and unpack the cuBLAS/cuDNN bundle.
    Windows,
    /// Install the pip packages and record their library folders.
    Linux,
}

/// The installer for this platform; macOS has none and gets an explanation.
pub fn install_target(macos: bool, windows: bool) -> (r: Result<InstallTarget, String>)
    ensures
        macos ==> is_err_with(
            r,
            "macOS: GPU packages from this installer target NVIDIA on Windows/Linux. Use Whisper on CPU, or set up your own Python environment."@,
        ),
        !macos && windows ==> r == Ok::<InstallTarget, String>(InstallTarget::Windows),
        !macos && !windows ==> r == Ok::<InstallTarget, String>(InstallTarget::Linux),
{
    if macos {
        return Err(
            "macOS: GPU packages from this installer target NVIDIA on Windows/Linux. Use Whisper on CPU, or set up your own Python environment.".to_owned(),
        );
    }
    if windows {
        Ok(InstallTarget::Windows)
    } else {
        Ok(InstallTarget::Linux)
    }
}

/// The Windows install's report once `n` libraries were copied into `bin`; no library at
/// all is an error.
pub fn windows_install_report(log: &str, n: u64, bin: &str) -> (r: Result<String, String>)
    ensures
        n == 0 ==> is_err_with(
            r,
            "Extracted archive contained no DLLs — check Purfview bundle layout or disk space."@,
        ),
        n > 0 ==> (r matches Ok(s) && s@ == log@ + "Installed "@ + decimal(n as nat) + " DLLs into "@
            + bin@ + ".\nRestart the inference engine (Home or Settings)."@),
{
    if n == 0 {
        return Err(
            "Extracted archive contained no DLLs — check Purfview bundle layout or disk space.".to_owned(),
        );
    }
    let mut s = log.to_owned();
    push_str(&mut s, "Installed ");
    let num = u64_to_decimal(n);
    push_str(&mut s, num.as_str());
    push_str(&mut s, " DLLs into ");
    push_str(&mut s, bin);
    push_str(&mut s, ".\nRestart the inference engine (Home or Settings).");
    Ok(s)
}

} // verus!
