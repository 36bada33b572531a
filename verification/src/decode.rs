//! Decoded audio in the engine's format: interleaved stereo at the rate of
//! the output stream. Mono is duplicated on both channels; multichannel
//! sources keep their first two channels.

use vstd::prelude::*;

verus! {

/// Preferred decode target; the actual target follows the opened stream.
pub const TARGET_SAMPLE_RATE: u32 = 48_000;

/// Interleaved channel count of a decoded track.
pub const CHANNELS: usize = 2;

#[verifier::external_type_specification]
#[verifier::external_body]
pub struct ExIoError(std::io::Error);

/// Failure to decode a file.
#[derive(Debug)]
pub enum DecodeError {
    Io(std::io::Error),
    /// Unsupported or unrecognized format.
    UnsupportedFormat(String),
    /// No decodable audio track.
    NoAudioTrack,
    /// No decodable audio data.
    Empty,
    /// Resampling failure.
    Resample(String),
}

/// Track fully decoded in memory.
pub struct DecodedTrack<S> {
    /// Interleaved stereo at `sample_rate`; mono duplicated on both
    /// channels.
    pub samples: Vec<S>,
    /// Rate the track was resampled to (the engine's stream rate).
    pub sample_rate: u32,
    /// True when the file was truncated or corrupt mid-stream: what was
    /// decoded is kept and reported.
    pub truncated: bool,
}

impl<S> DecodedTrack<S> {
    /// Number of stereo frames.
    pub fn frames(&self) -> (r: usize)
        ensures
            r == self.samples@.len() / 2,
    {
        self.samples.len() / CHANNELS
    }
}

/// Stereo layout of `s`, interleaved with `channels` channels: identical
/// for stereo, each sample twice for mono, the first two channels of every
/// complete frame otherwise.
pub open spec fn spec_to_stereo<S>(s: Seq<S>, channels: int) -> Seq<S> {
    if channels == 2 {
        s
    } else if channels == 1 {
        Seq::new(2 * s.len(), |i: int| s[i / 2])
    } else {
        Seq::new((2 * (s.len() as int / channels)) as nat, |i: int| s[(i / 2) * channels + i % 2])
    }
}

/// Converts interleaved audio with `channels` channels to stereo.
pub fn to_stereo<S: Copy>(interleaved: Vec<S>, channels: usize) -> (r: Vec<S>)
    requires
        channels > 0,
    ensures
        r@ == spec_to_stereo(interleaved@, channels as int),
{
    if channels == 2 {
        return interleaved;
    }
    let n = interleaved.len();
    let mut out: Vec<S> = Vec::new();
    if channels == 1 {
        let mut i: usize = 0;
        while i < n
            invariant
                n == interleaved@.len(),
                i <= n,
                out@ == Seq::new(2 * i as nat, |k: int| interleaved@[k / 2]),
            decreases n - i,
        {
            let s = interleaved[i];
            out.push(s);
            out.push(s);
            i += 1;
            assert(out@ =~= Seq::new(2 * i as nat, |k: int| interleaved@[k / 2]));
        }
        return out;
    }
    let frames = n / channels;
    let mut f: usize = 0;
    while f < frames
        invariant
            n == interleaved@.len(),
            channels > 2,
            frames == n / channels,
            f <= frames,
            out@ == Seq::new(2 * f as nat, |k: int| interleaved@[(k / 2) * channels + k % 2]),
        decreases frames - f,
    {
        assert(f * channels + 1 < n) by (nonlinear_arith)
            requires
                f < frames,
                frames == n / channels,
                channels > 2,
        ;
        let base = f * channels;
        out.push(interleaved[base]);
        out.push(interleaved[base + 1]);
        f += 1;
        assert(out@ =~= Seq::new(2 * f as nat, |k: int| interleaved@[(k / 2) * channels + k % 2]));
    }
    out
}


/// What reading the next packet of the container gave.
#[derive(Debug, Clone, Copy, PartialEq, Eq, Structural)]
pub enum PacketRead {
    /// A packet; `ours` when it belongs to the decoded track.
    Packet { ours: bool },
    /// Clean end of the stream.
    End,
    /// Read failure: truncated or corrupt file.
    Failed,
}

/// What decoding one packet gave.
#[derive(Debug, Clone, Copy, PartialEq, Eq, Structural)]
pub enum PacketDecode {
    /// Samples were decoded.
    Samples,
    /// An isolated corrupt packet.
    Corrupt,
    /// Any other decoder failure.
    Failed,
}

/// Next step of the decoding loop.
#[derive(Debug, Clone, Copy, PartialEq, Eq, Structural)]
pub enum DecodeStep {
    /// Decode the packet just read.
    Decode,
    /// Go on with the next packet.
    Next,
    /// Stop reading; `truncated` when the stream did not end cleanly.
    Finish { truncated: bool },
}

/// Step after reading a packet: packets of other tracks are skipped; a
/// read failure keeps what was decoded and marks the track truncated.
pub fn after_read(read: PacketRead) -> (r: DecodeStep)
    ensures
        r == match read {
            PacketRead::Packet { ours: true } => DecodeStep::Decode,
            PacketRead::Packet { ours: false } => DecodeStep::Next,
            PacketRead::End => DecodeStep::Finish { truncated: false },
            PacketRead::Failed => DecodeStep::Finish { truncated: true },
        },
{
    match read {
        PacketRead::Packet { ours } => if ours {
            DecodeStep::Decode
        } else {
            DecodeStep::Next
        },
        PacketRead::End => DecodeStep::Finish { truncated: false },
        PacketRead::Failed => DecodeStep::Finish { truncated: true },
    }
}

/// Step after decoding a packet: an isolated corrupt packet is skipped,
/// any other decoder failure ends the track as truncated.
pub fn after_decode(result: PacketDecode) -> (r: DecodeStep)
    ensures
        r == match result {
            PacketDecode::Samples => DecodeStep::Next,
            PacketDecode::Corrupt => DecodeStep::Next,
            PacketDecode::Failed => DecodeStep::Finish { truncated: true },
        },
{
    match result {
        PacketDecode::Samples => DecodeStep::Next,
        PacketDecode::Corrupt => DecodeStep::Next,
        PacketDecode::Failed => DecodeStep::Finish { truncated: true },
    }
}

/// Verdict once the packets are read: no sample, no channel or no rate
/// means nothing decodable (`Empty`); otherwise whether the samples must
/// be resampled to `target_rate`.
pub fn check_decoded(samples: usize, channels: usize, source_rate: u32, target_rate: u32) -> (r: Result<bool, DecodeError>)
    ensures
        (samples == 0 || channels == 0 || source_rate == 0) <==> (r matches Err(DecodeError::Empty)),
        r is Ok <==> !(samples == 0 || channels == 0 || source_rate == 0),
        r matches Ok(resample) ==> resample == (source_rate != target_rate),
{
    if samples == 0 || channels == 0 || source_rate == 0 {
        Err(DecodeError::Empty)
    } else {
        Ok(source_rate != target_rate)
    }
}

} // verus!
