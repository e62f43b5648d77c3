use vstd::prelude::*;

verus! {

#[verifier::external_type_specification]
#[verifier::external_body]
#[verifier::reject_recursive_types(T)]
pub struct ExReceiver<T>(std::sync::mpsc::Receiver<T>);

/// What a non-blocking receive found on a channel.
#[derive(Debug, Clone, Copy, PartialEq, Eq)]
pub enum ChannelState {
    /// A message was waiting (and has been taken).
    Message,
    /// Nothing was waiting; senders remain.
    Empty,
    /// Nothing was waiting and every sender is gone.
    Disconnected,
}

/// Relies on `std::sync::mpsc::Receiver::try_recv`. What it finds depends on
/// other threads, so nothing is promised of it.
#[verifier::external_body]
fn try_receive(chan: &std::sync::mpsc::Receiver<()>) -> (r: ChannelState) {
    match chan.try_recv() {
        Ok(()) => ChannelState::Message,
        Err(std::sync::mpsc::TryRecvError::Empty) => ChannelState::Empty,
        Err(std::sync::mpsc::TryRecvError::Disconnected) => ChannelState::Disconnected,
    }
}

/// Whether a receive that found `state` means the channel is closed.
pub fn closed_state(state: ChannelState) -> (r: bool)
    ensures
        r == (state is Disconnected),
{
    match state {
        ChannelState::Disconnected => true,
        ChannelState::Message => false,
        ChannelState::Empty => false,
    }
}

/// Whether every sender of `chan` has gone, as one non-blocking receive finds it.
/// The answer is `closed_state` of whatever that receive found.
pub fn is_closed(chan: &std::sync::mpsc::Receiver<()>) -> (r: bool) {
    closed_state(try_receive(chan))
}

} // verus!
