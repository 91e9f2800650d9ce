//! The rules of a transcoding run: which sources are accepted, which
//! errors end the run, and what is counted.

use vstd::prelude::*;

verus! {

/// The most channels that a source may have.
pub const MAX_CHANNELS: u8 = 2;

/// What can go wrong while a stream is transcoded.
#[derive(Clone, Copy, Debug, PartialEq, Eq, Structural)]
pub enum TranscodeError {
    /// The source has more channels than the encoder takes.
    UnsupportedChannelLayout,
    /// One packet of the source could not be decoded.
    PacketDecodeError,
    /// The sink refused a write.
    SinkWriteError,
    /// The source could not be opened.
    SourceOpenError,
    /// The sink could not be opened.
    SinkOpenError,
}

/// What the driver does after an error.
#[derive(Clone, Copy, Debug, PartialEq, Eq, Structural)]
pub enum Recovery {
    /// Leave the packet out and go on with the next one.
    SkipPacket,
    /// End the run and report the error.
    Abort,
}

impl TranscodeError {
    /// Only a packet that cannot be decoded leaves the stream alive.
    pub open spec fn recoverable(self) -> bool {
        self == TranscodeError::PacketDecodeError
    }

    /// Decides how the run goes on after this error.
    pub fn recovery(self) -> (r: Recovery)
        ensures
            r == Recovery::SkipPacket <==> self.recoverable(),
            r == Recovery::Abort <==> !self.recoverable(),
    {
        match self {
            TranscodeError::PacketDecodeError => Recovery::SkipPacket,
            TranscodeError::UnsupportedChannelLayout => Recovery::Abort,
            TranscodeError::SinkWriteError => Recovery::Abort,
            TranscodeError::SourceOpenError => Recovery::Abort,
            TranscodeError::SinkOpenError => Recovery::Abort,
        }
    }
}

/// Accepts a source by its number of channels, before any encoding begins.
pub fn check_channels(channels: u8) -> (r: Result<(), TranscodeError>)
    ensures
        r.is_ok() <==> channels <= 2,
        r.is_err() ==> r == Err::<(), TranscodeError>(TranscodeError::UnsupportedChannelLayout),
{
    if channels > MAX_CHANNELS {
        Err(TranscodeError::UnsupportedChannelLayout)
    } else {
        Ok(())
    }
}

/// A sum that stops at the largest value.
pub open spec fn capped_sum(a: int, b: int) -> int {
    if a + b > u64::MAX {
        u64::MAX as int
    } else {
        a + b
    }
}

fn capped_add(a: u64, b: u64) -> (r: u64)
    ensures
        r == capped_sum(a as int, b as int),
{
    if a > u64::MAX - b {
        u64::MAX
    } else {
        a + b
    }
}

/// The counters of a run. Each stops at the largest value it can hold.
#[derive(Clone, Copy, Debug, PartialEq, Eq, Structural)]
pub struct Progress {
    /// Packets encoded.
    pub packets: u64,
    /// Packets left out because they could not be decoded.
    pub skipped: u64,
    /// Samples taken from the source.
    pub samples: u64,
    /// Bytes handed to the sink.
    pub bytes: u64,
}

impl Progress {
    /// The counters of a run that has not begun.
    pub fn new() -> (r: Progress)
        ensures
            r == (Progress { packets: 0, skipped: 0, samples: 0, bytes: 0 }),
    {
        Progress { packets: 0, skipped: 0, samples: 0, bytes: 0 }
    }

    /// Counts one encoded packet of `samples` samples that gave `bytes` bytes.
    pub fn packet_done(&mut self, samples: usize, bytes: usize)
        ensures
            final(self).packets == capped_sum(old(self).packets as int, 1),
            final(self).samples == capped_sum(old(self).samples as int, samples as int),
            final(self).bytes == capped_sum(old(self).bytes as int, bytes as int),
            final(self).skipped == old(self).skipped,
    {
        self.packets = capped_add(self.packets, 1);
        self.samples = capped_add(self.samples, samples as u64);
        self.bytes = capped_add(self.bytes, bytes as u64);
    }

    /// Counts one packet that was left out.
    pub fn packet_skipped(&mut self)
        ensures
            final(self).skipped == capped_sum(old(self).skipped as int, 1),
            final(self).packets == old(self).packets,
            final(self).samples == old(self).samples,
            final(self).bytes == old(self).bytes,
    {
        self.skipped = capped_add(self.skipped, 1);
    }

    /// Counts the bytes of the stream's ending.
    pub fn ending_done(&mut self, bytes: usize)
        ensures
            final(self).bytes == capped_sum(old(self).bytes as int, bytes as int),
            final(self).packets == old(self).packets,
            final(self).samples == old(self).samples,
            final(self).skipped == old(self).skipped,
    {
        self.bytes = capped_add(self.bytes, bytes as u64);
    }
}

} // verus!
