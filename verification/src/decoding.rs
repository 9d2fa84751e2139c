//! When decoding gives up: decode errors are not fatal by themselves, a new
//! packet is tried, but too many in a row end the stream.
use vstd::prelude::*;

verus! {

/// How many decode errors in a row are tolerated.
pub const MAX_DECODE_ERRORS: usize = 3;

/// Why decoding a packet failed.
#[derive(Debug, Clone, Copy, PartialEq, Eq, Structural)]
pub enum DecodeFailure {
    /// The packet could not be decoded; the next one may be fine.
    Decode,
    /// Anything else: reading failed, or the stream ended.
    Other,
}

/// What to do after a failure.
#[derive(Debug, Clone, Copy, PartialEq, Eq, Structural)]
pub enum Retry {
    /// Try the next packet.
    Again,
    /// End the stream.
    GiveUp,
}

/// The decode errors seen in a row.
#[derive(Debug)]
pub struct DecodeErrors {
    count: usize,
}

impl DecodeErrors {
    pub closed spec fn count(self) -> nat {
        self.count as nat
    }

    /// Before the first packet.
    pub fn new() -> (e: DecodeErrors)
        ensures
            e.count() == 0,
    {
        DecodeErrors { count: 0 }
    }

    /// Records a failure: another decode error is retried while at most
    /// [`MAX_DECODE_ERRORS`] have happened in a row; anything else gives up.
    pub fn record(&mut self, failure: DecodeFailure) -> (r: Retry)
        ensures
            failure == DecodeFailure::Other ==> r == Retry::GiveUp && final(self).count() == old(self).count(),
            failure == DecodeFailure::Decode ==> {
                &&& final(self).count() == (if old(self).count() > MAX_DECODE_ERRORS { old(self).count() } else { old(self).count() + 1 })
                &&& r == (if old(self).count() + 1 > MAX_DECODE_ERRORS { Retry::GiveUp } else { Retry::Again })
            },
    {
        match failure {
            DecodeFailure::Other => Retry::GiveUp,
            DecodeFailure::Decode => {
                if self.count <= MAX_DECODE_ERRORS {
                    self.count = self.count + 1;
                }
                if self.count > MAX_DECODE_ERRORS {
                    Retry::GiveUp
                } else {
                    Retry::Again
                }
            },
        }
    }
}

/// Whether another attempt is made after `tried` failed ones, when each
/// packet gets at most [`MAX_DECODE_ERRORS`] attempts in total.
pub fn attempt_again(tried: usize) -> (b: bool)
    ensures
        b == (tried < MAX_DECODE_ERRORS),
{
    tried < MAX_DECODE_ERRORS
}

/// Where the next sample comes from: the position in the current frame.
#[derive(Debug)]
pub struct FrameCursor {
    offset: usize,
}

impl FrameCursor {
    pub closed spec fn offset(self) -> nat {
        self.offset as nat
    }

    /// At the start of a frame that is used up at once: the first sample
    /// asks for a frame.
    pub fn new() -> (c: FrameCursor)
        ensures
            c.offset() == 0,
    {
        FrameCursor { offset: 0 }
    }

    /// Whether the frame of `len` samples is used up, so a new one has to
    /// be decoded first.
    pub fn needs_frame(&self, len: usize) -> (b: bool)
        ensures
            b == (self.offset() == len),
    {
        self.offset == len
    }

    /// A new frame has been decoded.
    pub fn restart(&mut self)
        ensures
            final(self).offset() == 0,
    {
        self.offset = 0;
    }

    /// The next sample of the frame, if any; moves past it.
    pub fn take(&mut self, samples: &[i16]) -> (s: Option<i16>)
        ensures
            old(self).offset() < samples@.len() ==> s == Some(samples@[old(self).offset() as int])
                && final(self).offset() == old(self).offset() + 1,
            old(self).offset() >= samples@.len() ==> s is None && final(self).offset() == old(self).offset(),
    {
        if self.offset < samples.len() {
            let s = samples[self.offset];
            self.offset = self.offset + 1;
            Some(s)
        } else {
            None
        }
    }
}

/// Starting afresh, the first decode errors in a row are retried and the
/// one after [`MAX_DECODE_ERRORS`] of them ends the stream.
pub proof fn lemma_gives_up_after_max(count: nat)
    ensures
        count < MAX_DECODE_ERRORS ==> !(count + 1 > MAX_DECODE_ERRORS),
        count == MAX_DECODE_ERRORS ==> count + 1 > MAX_DECODE_ERRORS,
{
}

} // verus!
