//! The WebSocket endpoints: which messages of a client go where.
use vstd::prelude::*;

verus! {

/// A message of a WebSocket client.
#[derive(Debug)]
pub enum WsMessage {
    Binary(Vec<u8>),
    Close,
    /// Texts, pings and pongs.
    Other,
}

/// What to do with a message.
#[derive(Debug)]
pub enum RelayStep {
    /// Send these bytes out over MIDI.
    Forward(Vec<u8>),
    /// Nothing.
    Ignore,
    /// The client is leaving.
    Stop,
}

/// GET /raw is a bidirectional SysEx passthrough: what the client sends as binary goes out over
/// MIDI as it is.
pub fn handle_raw(message: WsMessage) -> (r: RelayStep)
    ensures
        match message {
            WsMessage::Binary(data) => r == RelayStep::Forward(data),
            WsMessage::Close => r == RelayStep::Stop,
            WsMessage::Other => r == RelayStep::Ignore,
        },
{
    match message {
        WsMessage::Binary(data) => RelayStep::Forward(data),
        WsMessage::Close => RelayStep::Stop,
        WsMessage::Other => RelayStep::Ignore,
    }
}

/// GET /monitor only streams to the client: nothing that the client sends goes out.
pub fn handle_monitor(message: WsMessage) -> (r: RelayStep)
    ensures
        r == if message is Close {
            RelayStep::Stop
        } else {
            RelayStep::Ignore
        },
{
    match message {
        WsMessage::Close => RelayStep::Stop,
        _ => RelayStep::Ignore,
    }
}

} // verus!
