use vstd::prelude::*;

verus! {

/// Identity assigned to a connection when it is accepted.  Allocated by a
/// monotonically increasing counter and never reused for the lifetime of the
/// process.
pub type ClientId = u32;

/// Server-to-client message catalog.  Every variant is encoded on the wire as
/// a positional array `[tag, fields...]`; the numeric fields `x`, `y`,
/// `vel_x`, `vel_y`, `dir_x`, `dir_y` are 64-bit floats on the wire and are
/// carried here as their IEEE-754 bit patterns.
#[derive(Clone, Copy, Debug, PartialEq, Eq, Structural)]
pub enum ServerMessage {
    /// Sent once, only to the newly connected client, with its assigned id.
    Init { id: ClientId },
    /// Broadcast to all other clients when a client completes registration.
    Joined { id: ClientId },
    /// Broadcast to all other clients when a client disconnects.
    Left { id: ClientId },
    /// Broadcast echo of a client's reported position and velocity,
    /// re-tagged with the sender's id.
    PlayerMove { id: ClientId, x: u64, y: u64, vel_x: u64, vel_y: u64 },
    /// Broadcast echo of a client's reported kick event and direction.
    Kick { id: ClientId, x: u64, y: u64, dir_x: u64, dir_y: u64 },
}

/// Client-to-server message catalog.  These carry no id field: the sender's
/// identity is implicit from the connection.
#[derive(Clone, Copy, Debug, PartialEq, Eq, Structural)]
pub enum ClientMessage {
    /// The client's own position and velocity.
    Move { x: u64, y: u64, vel_x: u64, vel_y: u64 },
    /// A kick event at a position, with a direction.
    Kick { x: u64, y: u64, dir_x: u64, dir_y: u64 },
}

/// Why a frame failed to decode.  A failed decode consumes no meaning from
/// the buffer: the frame is discarded as a whole.
#[derive(Clone, Copy, Debug, PartialEq, Eq, Structural)]
pub enum DecodeError {
    /// The buffer ended before the announced structure was complete.
    Truncated,
    /// The first element was a string, but not a tag of the catalog.
    UnknownTag,
    /// An element's wire type did not match what its position requires.
    TypeMismatch,
    /// The array length did not match the tag's fixed sequence length.
    LengthMismatch,
}

} // verus!
