use vstd::prelude::*;

verus! {

/// What the game side asks of the network side.
#[derive(Clone, Debug)]
pub enum NetworkMessage {
    /// Start announcing the game on the given TCP port.
    StartBroadcast(u16),
}

} // verus!
