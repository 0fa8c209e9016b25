use std::collections::VecDeque;
use yapper::hud::next_seq;
use yapper::navigation::{allow_in_app_navigation, ip_address_text_of, UrlParts};
use yapper::regex_engine::regex_escape;
use yapper::remote::{
    connect_frames, remember_init, while_connected, ConnectFrame, ConnectedStep, OutboundKind,
};
use yapper::sidecar::push_capped;

#[test]
fn connections_open_with_auth_then_the_latest_init() {
    let cmds = [
        (OutboundKind::Init, "init-a"),
        (OutboundKind::Other, "chunk"),
        (OutboundKind::Init, "init-b"),
        (OutboundKind::Other, "file"),
    ];
    let mut kept = None;
    for (kind, cmd) in cmds {
        kept = remember_init(kept, kind, cmd);
    }
    assert_eq!(kept, Some("init-b"));
    let frames = connect_frames(kept.is_some());
    assert_eq!(frames.len(), 2);
    assert!(frames[0] == ConnectFrame::Auth && frames[1] == ConnectFrame::Init);
    let first = connect_frames(false);
    assert_eq!(first.len(), 1);
    assert!(first[0] == ConnectFrame::Auth);
}

#[test]
fn connected_bridge_closes_only_on_shutdown() {
    assert!(while_connected(OutboundKind::Shutdown) == ConnectedStep::Close);
    assert!(while_connected(OutboundKind::Init) == ConnectedStep::Forward);
    assert!(while_connected(OutboundKind::Other) == ConnectedStep::Forward);
}

#[test]
fn pending_events_stay_within_the_cap() {
    let mut q = VecDeque::new();
    for i in 0..300 {
        push_capped(&mut q, i, 256);
        assert!(q.len() <= 256);
    }
    assert_eq!(q.front(), Some(&44));
    assert_eq!(q.back(), Some(&299));
}

#[test]
fn sequence_numbers_over_many_calls() {
    let mut seq = u64::MAX - 2;
    let taken: Vec<u64> = (0..5).map(|_| next_seq(&mut seq)).collect();
    assert_eq!(taken, vec![u64::MAX - 2, u64::MAX - 1, u64::MAX, 0, 1]);
    assert_eq!(seq, 2);
}

#[test]
fn escaping_matches_the_regex_crate() {
    for s in ["a.b*c", "(x|y)?", r"\d+ & #1 ~ -", "plain words", "[{^$}]", ""] {
        assert_eq!(regex_escape(s), regex::escape(s));
    }
    assert_eq!(regex_escape("C++"), r"C\+\+");
}

#[test]
fn loopback_ipv6_pages_stay_in_app() {
    assert_eq!(ip_address_text_of("[::1]"), "::1");
    assert_eq!(ip_address_text_of("127.0.0.1"), "127.0.0.1");
    assert_eq!(ip_address_text_of("["), "[");
    let url = UrlParts {
        scheme: "http".into(),
        host: Some("[::1]".into()),
        path: "/".into(),
        host_is_loopback_ip: Some(true),
    };
    assert!(allow_in_app_navigation(&url));
}
