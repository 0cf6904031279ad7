//! Where the connection to the peer stands, as the user sees it.
use vstd::prelude::*;

verus! {

#[derive(Debug, Clone, Copy, PartialEq, Eq, Structural)]
pub enum ConnectionState {
    Idle,
    Connecting,
    Connected,
    Paired,
    Direct,
    DirectFailed,
}

/// Messages go over a direct link only.
pub fn can_send_to_room(state: ConnectionState, has_handle: bool) -> (r: bool)
    ensures
        r == (has_handle && state == ConnectionState::Direct),
{
    has_handle && state == ConnectionState::Direct
}

/// The server has answered.
pub open spec fn after_connected(state: ConnectionState) -> ConnectionState {
    if state == ConnectionState::Connecting {
        ConnectionState::Connected
    } else {
        state
    }
}

pub fn state_after_connected_event(state: ConnectionState) -> (r: ConnectionState)
    ensures
        r == after_connected(state),
{
    match state {
        ConnectionState::Connecting => ConnectionState::Connected,
        _ => state,
    }
}

/// The peer has shown itself.
pub open spec fn after_peer_activity(state: ConnectionState, has_handle: bool) -> ConnectionState {
    if has_handle && (state == ConnectionState::Connecting || state == ConnectionState::Connected) {
        ConnectionState::Paired
    } else {
        state
    }
}

pub fn state_after_peer_activity(state: ConnectionState, has_handle: bool) -> (r: ConnectionState)
    ensures
        r == after_peer_activity(state, has_handle),
{
    if has_handle && (state == ConnectionState::Connecting || state == ConnectionState::Connected) {
        ConnectionState::Paired
    } else {
        state
    }
}

/// How far a connection has come.
pub open spec fn rank(state: ConnectionState) -> int {
    match state {
        ConnectionState::Idle => 0,
        ConnectionState::Connecting => 1,
        ConnectionState::Connected => 2,
        ConnectionState::Paired => 3,
        ConnectionState::DirectFailed => 3,
        ConnectionState::Direct => 4,
    }
}

/// Neither the server's answer nor a sign of the peer sets a connection back, and either counts
/// once.
pub proof fn progress_is_never_undone(state: ConnectionState, has_handle: bool)
    ensures
        rank(after_connected(state)) >= rank(state),
        rank(after_peer_activity(state, has_handle)) >= rank(state),
        after_connected(after_connected(state)) == after_connected(state),
        after_peer_activity(after_peer_activity(state, has_handle), has_handle)
            == after_peer_activity(state, has_handle),
        after_connected(after_peer_activity(state, true)) == after_peer_activity(
            after_connected(state),
            true,
        ),
{
}

/// The word and the colour for a state.
pub open spec fn chip(state: ConnectionState) -> (Seq<char>, (u8, u8, u8)) {
    match state {
        ConnectionState::Idle => ("空闲"@, (122, 132, 146)),
        ConnectionState::Connecting => ("连接中"@, (212, 159, 70)),
        ConnectionState::Connected => ("已连接"@, (70, 146, 190)),
        ConnectionState::Paired => ("已对接"@, (75, 172, 123)),
        ConnectionState::Direct => ("直连"@, (57, 190, 112)),
        ConnectionState::DirectFailed => ("直连失败"@, (220, 94, 94)),
    }
}

pub fn status_chip(state: ConnectionState) -> (r: (&'static str, (u8, u8, u8)))
    ensures
        (r.0@, r.1) == chip(state),
{
    match state {
        ConnectionState::Idle => ("空闲", (122, 132, 146)),
        ConnectionState::Connecting => ("连接中", (212, 159, 70)),
        ConnectionState::Connected => ("已连接", (70, 146, 190)),
        ConnectionState::Paired => ("已对接", (75, 172, 123)),
        ConnectionState::Direct => ("直连", (57, 190, 112)),
        ConnectionState::DirectFailed => ("直连失败", (220, 94, 94)),
    }
}

/// Only a connection that is being made is made by the server's answer, and only one that waits for
/// the peer is paired by a sign of it, and only within a session; any other stays as it is.
pub proof fn signs_of_the_other_end_count_where_they_are_waited_for(
    state: ConnectionState,
    has_handle: bool,
)
    ensures
        ({
            let t = after_connected(state);
            let u = after_peer_activity(state, has_handle);
            let waits = state == ConnectionState::Connecting || state == ConnectionState::Connected;
            &&& state == ConnectionState::Connecting ==> t == ConnectionState::Connected
            &&& t != state ==> state == ConnectionState::Connecting
            &&& waits && has_handle ==> u == ConnectionState::Paired
            &&& u != state ==> waits && has_handle
        }),
{
}

/// Every state is shown in a word and a colour of its own.
pub proof fn states_look_different(a: ConnectionState, b: ConnectionState)
    requires
        a != b,
    ensures
        chip(a).0 != chip(b).0,
        chip(a).1 != chip(b).1,
{
    reveal_strlit("空闲");
    reveal_strlit("连接中");
    reveal_strlit("已连接");
    reveal_strlit("已对接");
    reveal_strlit("直连");
    reveal_strlit("直连失败");
    assert("空闲"@.len() == 2 && "直连"@.len() == 2 && "直连失败"@.len() == 4);
    assert("连接中"@.len() == 3 && "已连接"@.len() == 3 && "已对接"@.len() == 3);
    assert("空闲"@[0] != "直连"@[0]);
    assert("已连接"@[1] != "已对接"@[1]);
    assert("连接中"@[0] != "已连接"@[0]);
    assert("连接中"@[0] != "已对接"@[0]);
}

}
