//! Which WAV files are fit for the denoiser.

use vstd::prelude::*;

verus! {

/// Channel count every accepted file has.
pub const TARGET_CHANNELS: u16 = 1;

/// Sample rate, in Hz, every accepted file has.
pub const TARGET_SAMPLE_RATE: u32 = 16000;

/// Bits per sample every accepted file has.
pub const TARGET_BITS_PER_SAMPLE: u16 = 16;

/// The three header fields that decide whether a file is accepted.
#[derive(Clone, Copy, Debug, PartialEq, Eq, Structural)]
pub struct AudioSpec {
    pub channels: u16,
    pub sample_rate: u32,
    pub bits_per_sample: u16,
}

impl AudioSpec {
    /// Mono, 16 kHz, 16 bits per sample.
    pub open spec fn accepted(self) -> bool {
        &&& self.channels == TARGET_CHANNELS
        &&& self.sample_rate == TARGET_SAMPLE_RATE
        &&& self.bits_per_sample == TARGET_BITS_PER_SAMPLE
    }

    /// Whether a file with this header is accepted.
    pub fn is_accepted(&self) -> (ok: bool)
        ensures
            ok == self.accepted(),
    {
        self.channels == TARGET_CHANNELS && self.sample_rate == TARGET_SAMPLE_RATE
            && self.bits_per_sample == TARGET_BITS_PER_SAMPLE
    }
}

/// `hound::Error`, carried through unopened.
#[verifier::external_type_specification]
#[verifier::external_body]
pub struct ExHoundError(hound::Error);

/// What `hound::WavReader::new` makes of a byte string: the header fields of
/// the reader it returns, or `None` where it returns an error.
pub uninterp spec fn wav_header(bytes: Seq<u8>) -> Option<AudioSpec>;

/// A file whose header could not be read, with the reader's reason.
#[derive(Debug)]
pub struct HeaderError {
    pub cause: hound::Error,
}

/// Reads the header of an in-memory WAV file with `hound::WavReader::new`
/// and copies the channel count, sample rate and bit depth out of the
/// reader's `spec()`.
///
/// Not proved: that the reader's answer depends on the bytes alone and
/// that it returns on every input. The answer is named `wav_header`;
/// nothing more is claimed of it.
#[verifier::external_body]
fn read_header(bytes: &[u8]) -> (res: Result<AudioSpec, hound::Error>)
    ensures
        res is Ok <==> wav_header(bytes@) is Some,
        res is Ok ==> wav_header(bytes@) == Some(res->Ok_0),
{
    match hound::WavReader::new(bytes) {
        Ok(reader) => {
            let spec = reader.spec();
            Ok(
                AudioSpec {
                    channels: spec.channels,
                    sample_rate: spec.sample_rate,
                    bits_per_sample: spec.bits_per_sample,
                },
            )
        },
        Err(e) => Err(e),
    }
}

/// The verdict on a header that was read, or the failure to read one.
pub fn judge_header(parsed: Result<AudioSpec, hound::Error>) -> (res: Result<bool, HeaderError>)
    ensures
        match parsed {
            Ok(spec) => res == Ok::<bool, HeaderError>(spec.accepted()),
            Err(e) => res == Err::<bool, HeaderError>(HeaderError { cause: e }),
        },
{
    match parsed {
        Ok(spec) => Ok(spec.is_accepted()),
        Err(e) => Err(HeaderError { cause: e }),
    }
}

/// Checks that a WAV file is mono 16-bit audio at 16 kHz. The file is given
/// as its bytes, or as many of them from its start as hold the header: the
/// samples are not looked at. `Ok(false)` is a well-formed file in another
/// format; `Err` is a file whose header cannot be read at all.
pub fn validate_wav(bytes: &[u8]) -> (res: Result<bool, HeaderError>)
    ensures
        match wav_header(bytes@) {
            Some(spec) => res == Ok::<bool, HeaderError>(spec.accepted()),
            None => res is Err,
        },
{
    judge_header(read_header(bytes))
}

} // verus!
