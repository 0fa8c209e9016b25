//! Which URLs the application's web views may load, and which open in the browser.
use crate::text::{eq_ignore_ascii_case, ascii_lowercase, str_eq};
use vstd::prelude::*;

verus! {

/// The parts of a URL that navigation decisions read. `host` is the host as the URL writes
/// it (an IPv6 address in brackets, as in `[::1]`). `host_is_loopback_ip` is whether the
/// host is an IP address that is a loopback address, read from the host's address text
/// (`ip_address_text`, which drops the brackets of an IPv6 address); `None` when the host
/// is no IP address.
pub struct UrlParts {
    pub scheme: String,
    pub host: Option<String>,
    pub path: String,
    pub host_is_loopback_ip: Option<bool>,
}

/// In-app pages: `tauri:`, `about:` blank pages, and http(s) on localhost,
/// `tauri.localhost` or a loopback IP.
pub open spec fn in_app(url: UrlParts) -> bool {
    if url.scheme@ == "tauri"@ {
        true
    } else if url.scheme@ == "about"@ {
        url.path@ == ""@ || url.path@ == "blank"@
    } else if url.scheme@ == "http"@ || url.scheme@ == "https"@ {
        match url.host {
            Some(h) => ascii_lowercase(h@) == ascii_lowercase("localhost"@) || h@
                == "tauri.localhost"@ || url.host_is_loopback_ip == Some(true),
            None => false,
        }
    } else {
        false
    }
}

/// The text of an IP address in a URL host: an IPv6 address without the brackets that
/// URLs put around it; any other host unchanged.
pub open spec fn ip_address_text(host: Seq<char>) -> Seq<char> {
    if host.len() >= 2 && host[0] == '[' && host[host.len() - 1] == ']' {
        host.subrange(1, host.len() - 1)
    } else {
        host
    }
}

/// The text to read as an IP address when filling `host_is_loopback_ip`: `[::1]` gives
/// `::1`, and `127.0.0.1` stays as it is.
pub fn ip_address_text_of(host: &str) -> (r: String)
    ensures
        r@ == ip_address_text(host@),
{
    let v = crate::text::chars_of(host);
    let n = v.len();
    if n >= 2 && v[0] == '[' && v[n - 1] == ']' {
        let inner = crate::text::slice_range(v.as_slice(), 1, n - 1);
        crate::text::string_from_chars(inner)
    } else {
        host.to_owned()
    }
}

/// A scheme opened in the user's browser or mail program.
pub open spec fn external_scheme(scheme: Seq<char>) -> bool {
    scheme == "http"@ || scheme == "https"@ || scheme == "mailto"@
}

pub fn allow_in_app_navigation(url: &UrlParts) -> (r: bool)
    ensures
        r == in_app(*url),
{
    let scheme = url.scheme.as_str();
    if str_eq(scheme, "tauri") {
        true
    } else if str_eq(scheme, "about") {
        str_eq(url.path.as_str(), "") || str_eq(url.path.as_str(), "blank")
    } else if str_eq(scheme, "http") || str_eq(scheme, "https") {
        match &url.host {
            Some(h) => {
                if eq_ignore_ascii_case(h.as_str(), "localhost") || str_eq(h.as_str(), "tauri.localhost") {
                    return true;
                }
                match url.host_is_loopback_ip {
                    Some(b) => b,
                    None => false,
                }
            },
            None => false,
        }
    } else {
        false
    }
}

fn is_external_scheme(scheme: &str) -> (r: bool)
    ensures
        r == external_scheme(scheme@),
{
    str_eq(scheme, "http") || str_eq(scheme, "https") || str_eq(scheme, "mailto")
}

/// Navigation decision: (stay in the web view, open externally). In-app pages stay;
/// other http(s) and mail links open externally and the web view does not follow them;
/// anything else stays.
pub fn navigation_decision(url: &UrlParts) -> (r: (bool, bool))
    ensures
        r == if in_app(*url) {
            (true, false)
        } else if external_scheme(url.scheme@) {
            (false, true)
        } else {
            (true, false)
        },
{
    if allow_in_app_navigation(url) {
        (true, false)
    } else if is_external_scheme(url.scheme.as_str()) {
        (false, true)
    } else {
        (true, false)
    }
}

/// New-window requests are always denied; this says whether the URL opens externally.
pub fn new_window_opens_externally(url: &UrlParts) -> (r: bool)
    ensures
        r == (!in_app(*url) && external_scheme(url.scheme@)),
{
    !allow_in_app_navigation(url) && is_external_scheme(url.scheme.as_str())
}

} // verus!
