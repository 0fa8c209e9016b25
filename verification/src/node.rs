//! The optional network processing server: bind address, suggested client URLs, its
//! settings and its log tail.
use crate::errors::is_err_with;
use crate::numbers::{decimal, parse_u16, u64_to_decimal, unsigned_value};
use crate::sidecar::{capped_push, push_capped};
use crate::text::{is_blank, push_str, str_eq, trim, trim_string};
use std::collections::VecDeque;
use vstd::prelude::*;

verus! {

/// Lines of server output kept for display.
pub const LOG_CAP: usize = 48;

/// What the settings page shows about the server.
pub struct NodeServerStatus {
    pub running: bool,
    pub bind_mode: String,
    pub bind_host: String,
    pub port: u16,
    pub token_configured: bool,
    pub suggested_client_urls: Vec<String>,
    pub log_tail: Vec<String>,
    pub script_found: bool,
    pub script_path: String,
}

/// Loopback only for bind mode `loopback`; every other mode listens on all interfaces.
pub fn bind_host_from_setting(s: Option<String>) -> (r: &'static str)
    ensures
        r@ == (if s matches Some(v) && v@ == "loopback"@ {
            "127.0.0.1"@
        } else {
            "0.0.0.0"@
        }),
{
    match s {
        Some(v) => if str_eq(v.as_str(), "loopback") {
            "127.0.0.1"
        } else {
            "0.0.0.0"
        },
        None => "0.0.0.0",
    }
}

/// `ws://<host>:<port>`.
pub open spec fn ws_url(host: Seq<char>, port: u16) -> Seq<char> {
    "ws://"@ + host + ":"@ + decimal(port as nat)
}

fn ws_url_exec(host: &str, port: u16) -> (r: String)
    ensures
        r@ == ws_url(host@, port),
{
    let mut out = "ws://".to_owned();
    push_str(&mut out, host);
    push_str(&mut out, ":");
    let p = u64_to_decimal(port as u64);
    push_str(&mut out, p.as_str());
    out
}

/// URLs to enter in another installation: always the loopback URL; when the server
/// listens beyond loopback, also the machine's address if one is known.
pub fn suggested_urls(bind_host: &str, port: u16, local_ip: Option<&str>) -> (r: Vec<String>)
    ensures
        r@.len() >= 1,
        r@[0]@ == ws_url("127.0.0.1"@, port),
        bind_host@ == "127.0.0.1"@ ==> r@.len() == 1,
        bind_host@ != "127.0.0.1"@ ==> match local_ip {
            Some(ip) => r@.len() == 2 && r@[1]@ == ws_url(ip@, port),
            None => r@.len() == 1,
        },
{
    let mut out: Vec<String> = Vec::new();
    out.push(ws_url_exec("127.0.0.1", port));
    if str_eq(bind_host, "127.0.0.1") {
        return out;
    }
    if let Some(ip) = local_ip {
        out.push(ws_url_exec(ip, port));
    }
    out
}

/// Appends a log line, keeping only the newest lines.
pub fn push_log(logs: &mut VecDeque<String>, line: String)
    ensures
        final(logs)@ == capped_push(old(logs)@, line, LOG_CAP as nat),
{
    push_capped(logs, line, LOG_CAP);
}

/// Server settings as stored: bind mode (default `lan`), port text (default `8765`)
/// and password (default empty). Returns the bind mode, the port, the bind host and the
/// password; a port that is not a number up to 65535 is refused.
pub fn node_settings(bind: Option<String>, port: Option<String>, token: Option<String>) -> (r:
    Result<(String, u16, String, String), String>)
    ensures
        ({
            let mode = match bind {
                Some(b) => b@,
                None => "lan"@,
            };
            let port_text = match port {
                Some(p) => p@,
                None => "8765"@,
            };
            match unsigned_value(trim(port_text)) {
                Some(v) if v <= u16::MAX => r matches Ok((m, p, h, t)) && m@ == mode && p == v
                    && h@ == (if mode == "loopback"@ {
                    "127.0.0.1"@
                } else {
                    "0.0.0.0"@
                }) && t@ == match token {
                    Some(t) => t@,
                    None => Seq::<char>::empty(),
                },
                _ => is_err_with(r, "Invalid port (use 1024\u{2013}65535)"@),
            }
        }),
{
    let bind_mode = match bind {
        Some(b) => b,
        None => "lan".to_owned(),
    };
    let is_loopback = str_eq(bind_mode.as_str(), "loopback");
    let host = if is_loopback {
        "127.0.0.1".to_owned()
    } else {
        "0.0.0.0".to_owned()
    };
    let port_s = match port {
        Some(p) => p,
        None => "8765".to_owned(),
    };
    let trimmed = trim_string(port_s.as_str());
    let port = match parse_u16(trimmed.as_str()) {
        Some(p) => p,
        None => {
            return Err("Invalid port (use 1024\u{2013}65535)".to_owned());
        },
    };
    let token = match token {
        Some(t) => t,
        None => String::new(),
    };
    Ok((bind_mode, port, host, token))
}

/// Whether a server password is set (not blank).
pub fn token_configured(token: &str) -> (r: bool)
    ensures
        r == (trim(token@).len() > 0),
{
    !is_blank(token)
}

/// The password the server starts with; a blank password refuses to start.
pub fn start_token(token: &str) -> (r: Result<String, String>)
    ensures
        trim(token@).len() == 0 ==> is_err_with(
            r,
            "Set a server password first (Settings \u{2192} Network processing server)."@,
        ),
        trim(token@).len() > 0 ==> (r matches Ok(t) && t@ == trim(token@)),
{
    let t = trim_string(token);
    if t.as_str().is_empty() {
        Err("Set a server password first (Settings \u{2192} Network processing server).".to_owned())
    } else {
        Ok(t)
    }
}

/// Command-line arguments for the server script.
pub fn server_args(host: &str, port: u16, token: &str) -> (r: Vec<String>)
    ensures
        r@.len() == 6,
        r@[0]@ == "--host"@,
        r@[1]@ == host@,
        r@[2]@ == "--port"@,
        r@[3]@ == decimal(port as nat),
        r@[4]@ == "--token"@,
        r@[5]@ == token@,
{
    let mut v: Vec<String> = Vec::new();
    v.push("--host".to_owned());
    v.push(host.to_owned());
    v.push("--port".to_owned());
    v.push(u64_to_decimal(port as u64));
    v.push("--token".to_owned());
    v.push(token.to_owned());
    v
}

/// Whether the server may start: not while it runs, and only when its script was found.
pub fn node_start_check(running: bool, script_found: bool, script_display: &str) -> (r: Result<(), String>)
    ensures
        running ==> is_err_with(r, "Processing server is already running."@),
        !running && !script_found ==> is_err_with(
            r,
            "Yapper Node script not found: "@ + script_display@
                + ". Install or clone the full repo, or set YAPPER_NODE."@,
        ),
        !running && script_found ==> r is Ok,
{
    if running {
        return Err("Processing server is already running.".to_owned());
    }
    if !script_found {
        let mut m = "Yapper Node script not found: ".to_owned();
        push_str(&mut m, script_display);
        push_str(&mut m, ". Install or clone the full repo, or set YAPPER_NODE.");
        return Err(m);
    }
    Ok(())
}

/// The status shown for the server: its settings, whether the password is set, the URLs
/// to connect with, the kept log lines and where its script is.
pub fn node_status(
    running: bool,
    bind_mode: String,
    bind_host: String,
    port: u16,
    token: &str,
    local_ip: Option<&str>,
    log_tail: Vec<String>,
    script_found: bool,
    script_path: String,
) -> (r: NodeServerStatus)
    ensures
        r.running == running,
        r.bind_mode == bind_mode,
        r.bind_host == bind_host,
        r.port == port,
        r.token_configured == (trim(token@).len() > 0),
        r.suggested_client_urls@.len() >= 1,
        r.suggested_client_urls@[0]@ == ws_url("127.0.0.1"@, port),
        bind_host@ == "127.0.0.1"@ ==> r.suggested_client_urls@.len() == 1,
        bind_host@ != "127.0.0.1"@ ==> match local_ip {
            Some(ip) => r.suggested_client_urls@.len() == 2 && r.suggested_client_urls@[1]@ == ws_url(
                ip@,
                port,
            ),
            None => r.suggested_client_urls@.len() == 1,
        },
        r.log_tail == log_tail,
        r.script_found == script_found,
        r.script_path == script_path,
{
    let urls = suggested_urls(bind_host.as_str(), port, local_ip);
    NodeServerStatus {
        running,
        bind_mode,
        bind_host,
        port,
        token_configured: token_configured(token),
        suggested_client_urls: urls,
        log_tail,
        script_found,
        script_path,
    }
}

} // verus!

