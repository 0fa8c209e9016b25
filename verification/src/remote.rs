//! Decisions of the reconnecting bridge to a remote inference node: how long to wait
//! before the next attempt, what becomes of a command with or without a connection, which
//! configuration is kept for the next connection, and the frames that open a connection.
use vstd::prelude::*;

verus! {

/// Wait before the first reconnect attempt, and again after every successful connect.
pub const BACKOFF_START_MS: u64 = 500;

/// The wait never grows beyond this.
pub const BACKOFF_MAX_MS: u64 = 30000;

/// Outbound messages as the bridge tells them apart.
#[derive(PartialEq, Eq, Structural)]
pub enum OutboundKind {
    /// Model configuration: remembered and sent again after each reconnect.
    Init,
    /// Ends the bridge.
    Shutdown,
    /// Anything else.
    Other,
}

/// What the bridge does with a command taken from its queue while disconnected.
#[derive(PartialEq, Eq, Structural)]
pub enum DisconnectedStep {
    /// Stop the bridge for good.
    Stop,
    /// Keep it as the configuration to send after the next connect.
    RememberInit,
    /// Discard it.
    Discard,
}

/// The wait after a failed attempt: twice the last one, capped at `BACKOFF_MAX_MS`.
pub fn next_backoff_ms(ms: u64) -> (r: u64)
    requires
        ms <= u64::MAX / 2,
    ensures
        r == if 2 * ms < BACKOFF_MAX_MS {
            2 * ms
        } else {
            BACKOFF_MAX_MS as int
        },
{
    let d = ms * 2;
    if d < BACKOFF_MAX_MS {
        d
    } else {
        BACKOFF_MAX_MS
    }
}

/// While disconnected, a shutdown stops the bridge, an init is remembered, and any other
/// command is dropped.
pub fn while_disconnected(kind: OutboundKind) -> (r: DisconnectedStep)
    ensures
        kind == OutboundKind::Shutdown ==> r == DisconnectedStep::Stop,
        kind == OutboundKind::Init ==> r == DisconnectedStep::RememberInit,
        kind == OutboundKind::Other ==> r == DisconnectedStep::Discard,
{
    match kind {
        OutboundKind::Shutdown => DisconnectedStep::Stop,
        OutboundKind::Init => DisconnectedStep::RememberInit,
        OutboundKind::Other => DisconnectedStep::Discard,
    }
}

/// What the bridge does with a command taken from its queue while connected.
#[derive(PartialEq, Eq, Structural)]
pub enum ConnectedStep {
    /// Close the connection and stop the bridge for good.
    Close,
    /// Send it to the node.
    Forward,
}

/// While connected, a shutdown closes the connection and stops the bridge; any other
/// command is sent on.
pub fn while_connected(kind: OutboundKind) -> (r: ConnectedStep)
    ensures
        kind == OutboundKind::Shutdown ==> r == ConnectedStep::Close,
        kind != OutboundKind::Shutdown ==> r == ConnectedStep::Forward,
{
    match kind {
        OutboundKind::Shutdown => ConnectedStep::Close,
        _ => ConnectedStep::Forward,
    }
}

/// The configuration kept for the next connection after a command of `kind`: an init
/// replaces it, anything else leaves it.
pub open spec fn remembered<T>(last: Option<T>, kind: OutboundKind, cmd: T) -> Option<T> {
    if kind == OutboundKind::Init {
        Some(cmd)
    } else {
        last
    }
}

/// Keeps `cmd` as the configuration to send after the next connect when it is an init;
/// connected or not, every command taken from the queue goes through this.
pub fn remember_init<T>(last: Option<T>, kind: OutboundKind, cmd: T) -> (r: Option<T>)
    ensures
        r == remembered(last, kind, cmd),
{
    match kind {
        OutboundKind::Init => Some(cmd),
        _ => last,
    }
}

/// The configuration kept after the commands `cmds`, taken in order from an empty start.
pub open spec fn remembered_after<T>(cmds: Seq<(OutboundKind, T)>) -> Option<T>
    decreases cmds.len(),
{
    if cmds.len() == 0 {
        None
    } else {
        remembered(remembered_after(cmds.drop_last()), cmds.last().0, cmds.last().1)
    }
}

/// The last init among `cmds`, if any.
pub open spec fn latest_init<T>(cmds: Seq<(OutboundKind, T)>) -> Option<T>
    decreases cmds.len(),
{
    if cmds.len() == 0 {
        None
    } else if cmds.last().0 == OutboundKind::Init {
        Some(cmds.last().1)
    } else {
        latest_init(cmds.drop_last())
    }
}

/// A frame that opens a connection to the node.
#[derive(PartialEq, Eq, Structural)]
pub enum ConnectFrame {
    /// `{"type":"auth","token":…}` with the pre-shared secret.
    Auth,
    /// The kept configuration.
    Init,
}

/// The frames written when a connection comes up, before any queued command: the auth
/// frame, then the kept configuration when there is one.
pub open spec fn connect_frames_spec(has_init: bool) -> Seq<ConnectFrame> {
    if has_init {
        seq![ConnectFrame::Auth, ConnectFrame::Init]
    } else {
        seq![ConnectFrame::Auth]
    }
}

pub fn connect_frames(has_init: bool) -> (r: Vec<ConnectFrame>)
    ensures
        r@ == connect_frames_spec(has_init),
{
    let mut v = Vec::new();
    v.push(ConnectFrame::Auth);
    if has_init {
        v.push(ConnectFrame::Init);
    }
    v
}

proof fn remembered_is_latest<T>(cmds: Seq<(OutboundKind, T)>)
    ensures
        remembered_after(cmds) == latest_init(cmds),
    decreases cmds.len(),
{
    if cmds.len() > 0 {
        remembered_is_latest(cmds.drop_last());
    }
}

/// Every connection opens with the auth frame, followed by the latest init ever queued
/// (if any) and nothing else, before any other command: whatever commands the bridge took
/// before, connected or not, the configuration it kept is the last init among them.
pub proof fn connection_opens_with_auth_then_latest_init<T>(cmds: Seq<(OutboundKind, T)>)
    ensures
        remembered_after(cmds) == latest_init(cmds),
        connect_frames_spec(remembered_after(cmds) is Some)[0] == ConnectFrame::Auth,
        connect_frames_spec(remembered_after(cmds) is Some).len() == (if latest_init(cmds) is Some {
            2int
        } else {
            1int
        }),
        latest_init(cmds) is Some ==> connect_frames_spec(remembered_after(cmds) is Some)[1]
            == ConnectFrame::Init,
{
    remembered_is_latest(cmds);
}

/// Starting from the first wait, the wait stays within `[BACKOFF_START_MS, BACKOFF_MAX_MS]`
/// however many attempts fail in a row.
pub proof fn lemma_backoff_stays_bounded(ms: u64)
    requires
        BACKOFF_START_MS <= ms <= BACKOFF_MAX_MS,
    ensures
        ({
            let n = if 2 * ms < BACKOFF_MAX_MS { 2 * ms } else { BACKOFF_MAX_MS as int };
            BACKOFF_START_MS <= n <= BACKOFF_MAX_MS && n >= ms
        }),
{
}

} // verus!
