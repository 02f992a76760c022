//! What a feed does with the frames of its connection.

use vstd::prelude::*;

verus! {

/// What the connection delivered.
#[derive(Debug)]
pub enum Frame {
    Text(String),
    Binary,
    Close,
    /// The connection failed.
    Failed,
    /// A frame that keeps the connection alive.
    Other,
}

/// What to do with a frame.
#[derive(Debug)]
pub enum FrameStep {
    /// Read the text as a message of the feed.
    Read(String),
    Skip,
    /// The connection is over.
    Stop,
}

/// Texts are read; a closed or failed connection is the end; anything else is skipped.
pub fn on_frame(frame: Frame) -> (r: FrameStep)
    ensures
        match frame {
            Frame::Text(t) => r == FrameStep::Read(t),
            Frame::Binary | Frame::Other => r == FrameStep::Skip,
            Frame::Close | Frame::Failed => r == FrameStep::Stop,
        },
{
    match frame {
        Frame::Text(t) => FrameStep::Read(t),
        Frame::Binary | Frame::Other => FrameStep::Skip,
        Frame::Close | Frame::Failed => FrameStep::Stop,
    }
}

} // verus!
