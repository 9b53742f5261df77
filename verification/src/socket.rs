//! The echo socket's per-message decisions, as a pure function from the
//! received message to the action to take.  The transport layer owns the
//! connection; it performs each action and stops on a send failure.

use vstd::prelude::*;

verus! {

/// A message on the socket, carrying its payload as plain values.
pub enum SocketMessage {
    Text(String),
    Binary(Vec<u8>),
    Ping(Vec<u8>),
    Pong(Vec<u8>),
    Close,
}

/// What the socket loop does next.
pub enum SocketAction {
    Reply(SocketMessage),
    Ignore,
    Stop,
}

/// The echo protocol: text and binary messages are echoed back unchanged,
/// a ping is answered with a pong carrying the same payload, a pong is
/// ignored, and a close ends the session.
pub fn socket_reply(msg: SocketMessage) -> (r: SocketAction)
    ensures
        msg matches SocketMessage::Text(t) ==> (r matches SocketAction::Reply(m) && m matches
            SocketMessage::Text(t2) && t2@ == t@),
        msg matches SocketMessage::Binary(d) ==> (r matches SocketAction::Reply(m) && m matches
            SocketMessage::Binary(d2) && d2@ == d@),
        msg matches SocketMessage::Ping(d) ==> (r matches SocketAction::Reply(m) && m matches
            SocketMessage::Pong(d2) && d2@ == d@),
        msg is Pong ==> r is Ignore,
        msg is Close ==> r is Stop,
{
    match msg {
        SocketMessage::Text(t) => SocketAction::Reply(SocketMessage::Text(t)),
        SocketMessage::Binary(d) => SocketAction::Reply(SocketMessage::Binary(d)),
        SocketMessage::Ping(d) => SocketAction::Reply(SocketMessage::Pong(d)),
        SocketMessage::Pong(_) => SocketAction::Ignore,
        SocketMessage::Close => SocketAction::Stop,
    }
}

} // verus!
