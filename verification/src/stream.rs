//! The live stream to one browser: what the forwarder does after each thing it
//! waited for.
use vstd::prelude::*;

verus! {

/// What the forwarder of one WebSocket saw after waiting.
#[derive(Debug, Clone)]
pub enum StreamEvent {
    /// A message from the serial reader.
    Broadcast(String),
    /// The forwarder fell behind and this many messages were dropped for it.
    Lagged(u64),
    /// No reader will broadcast again.
    ChannelClosed,
    /// The browser could not be sent to.
    SendFailed,
    /// A frame from the browser other than `Close`.
    ClientMessage,
    /// The browser closed the socket, or it ended.
    ClientClosed,
}

/// What the forwarder does next.
#[derive(Debug, Clone)]
pub enum StreamAction {
    /// Send this text to the browser, then wait again.
    Forward(String),
    /// Wait again.
    Skip,
    /// End the stream.
    Stop,
}

/// The forwarder's decision: a broadcast goes to the browser as it is; a lag
/// loses only the dropped messages and the stream goes on; a frame from the
/// browser is ignored; a closed channel, a failed send or a closed socket end
/// the stream.
pub fn stream_step(event: StreamEvent) -> (action: StreamAction)
    ensures
        event matches StreamEvent::Broadcast(m) ==> (action matches StreamAction::Forward(f) && f@
            == m@),
        event is Lagged || event is ClientMessage ==> action is Skip,
        event is ChannelClosed || event is SendFailed || event is ClientClosed ==> action is Stop,
{
    match event {
        StreamEvent::Broadcast(m) => StreamAction::Forward(m),
        StreamEvent::Lagged(_) => StreamAction::Skip,
        StreamEvent::ClientMessage => StreamAction::Skip,
        StreamEvent::ChannelClosed => StreamAction::Stop,
        StreamEvent::SendFailed => StreamAction::Stop,
        StreamEvent::ClientClosed => StreamAction::Stop,
    }
}

} // verus!
