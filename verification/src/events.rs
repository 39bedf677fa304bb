//! The data that crosses the pipeline: load requests, decoded pixel
//! buffers, and the result events a worker emits while serving one
//! request.

use vstd::prelude::*;

verus! {

/// What the pipeline reads of a source file's filesystem metadata,
/// held as plain values.
#[derive(Clone, Copy, PartialEq, Eq, Structural, Debug)]
pub struct FileMeta {
    /// Size of the file in bytes.
    pub file_len: u64,
}

/// A decoded RGBA pixel buffer: four bytes per pixel.
#[derive(Clone, Debug)]
pub struct RgbaBuffer {
    pub width: u32,
    pub height: u32,
    pub data: Vec<u8>,
}

impl RgbaBuffer {
    /// The buffer holds exactly its dimensions' worth of pixel data.
    pub open spec fn wf(&self) -> bool {
        self.data@.len() == 4 * (self.width as nat) * (self.height as nat)
    }

    /// Builds a buffer from raw parts, checking that the data length
    /// matches the dimensions.
    pub fn from_raw(width: u32, height: u32, data: Vec<u8>) -> (r: Option<RgbaBuffer>)
        ensures
            match r {
                Some(b) => b.wf() && b.width == width && b.height == height && b.data@ == data@,
                None => data@.len() != 4 * (width as nat) * (height as nat),
            },
    {
        proof {
            assert((4 * (width as int) * (height as int)) <= 4 * 0xFFFF_FFFF * 0xFFFF_FFFF)
                by (nonlinear_arith)
                requires
                    width <= 0xFFFF_FFFFu32,
                    height <= 0xFFFF_FFFFu32,
            ;
        }
        let need: u128 = 4u128 * (width as u128) * (height as u128);
        if (data.len() as u128) == need {
            Some(RgbaBuffer { width, height, data })
        } else {
            None
        }
    }
}

/// One load request: a caller-assigned id and the path of the file to
/// decode. Consumed exactly once by exactly one worker.
#[derive(Clone, Debug)]
pub struct LoadRequest {
    pub req_id: u32,
    pub path: String,
}

/// One step in the lifecycle of a request's decode, as published to
/// the consumer.
#[derive(Debug)]
pub enum LoadResult {
    /// Emitted once, first, when the file's metadata could be read.
    Start { req_id: u32, metadata: FileMeta },
    /// One decoded frame, in decode order, with its display delay.
    Frame { req_id: u32, image: RgbaBuffer, delay_nano: u64 },
    /// Terminal: the whole decode succeeded.
    Done { req_id: u32 },
    /// Terminal: some step failed; no further event follows.
    Failed { req_id: u32 },
}

impl LoadResult {
    /// The request this event belongs to.
    pub open spec fn request_id(self) -> u32 {
        match self {
            LoadResult::Start { req_id, .. } => req_id,
            LoadResult::Frame { req_id, .. } => req_id,
            LoadResult::Done { req_id } => req_id,
            LoadResult::Failed { req_id } => req_id,
        }
    }

    pub fn req_id(&self) -> (id: u32)
        ensures
            id == self.request_id(),
    {
        match self {
            LoadResult::Start { req_id, .. } => *req_id,
            LoadResult::Frame { req_id, .. } => *req_id,
            LoadResult::Done { req_id } => *req_id,
            LoadResult::Failed { req_id } => *req_id,
        }
    }

    pub fn is_failed(&self) -> (r: bool)
        ensures
            r == (*self is Failed),
    {
        match self {
            LoadResult::Failed { .. } => true,
            _ => false,
        }
    }
}

/// What became of one frame pulled from an animated stream.
pub enum FrameOutcome {
    /// The frame decoded: its pixels and the format's millisecond
    /// delay fraction (numerator, denominator).
    Decoded { image: RgbaBuffer, numer_ms: u32, denom_ms: u32 },
    /// The frame failed to decode.
    Corrupt,
}

} // verus!
