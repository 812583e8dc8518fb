//! Configuration types of effects whose settings are integers, flags or
//! enumerations.
//!
//! These types own validated configuration. Their sample processing works on
//! floating-point audio and is not part of this library.
use vstd::prelude::*;

use crate::error::EffectError;

verus! {

/// Default SoX-ng `downsample` factor.
pub const DEFAULT_DOWNSAMPLE_FACTOR: u32 = 2;

/// Maximum SoX-ng `downsample` factor accepted by the command parser.
pub const MAX_DOWNSAMPLE_FACTOR: u32 = 16_384;

/// Default SoX-ng `upsample` factor.
pub const DEFAULT_UPSAMPLE_FACTOR: u32 = 2;

/// Maximum SoX-ng `upsample` factor.
pub const MAX_UPSAMPLE_FACTOR: u32 = 256;

/// Maximum finite repeat count accepted by SoX-ng: `repeat COUNT` takes an
/// unsigned integer in `0..=UINT_MAX - 1`.
pub const MAX_FINITE_REPEAT_COUNT: u64 = 4_294_967_294u64;

/// Smallest Hilbert tap count.
pub const MIN_HILBERT_TAPS: u32 = 3;

/// Largest Hilbert tap count.
pub const MAX_HILBERT_TAPS: u32 = 1_073_741_823;

/// SoX-ng-style CD/DAT de-emphasis filter.
#[derive(Debug, Clone, Copy, PartialEq, Eq, Default)]
pub struct Deemph;

impl Deemph {
    /// Creates a de-emphasis filter.
    pub fn new() -> (r: Self)
        ensures
            r == Deemph,
    {
        Deemph
    }
}

/// SoX-ng-style headphone-cue filter for stereo 44.1 kHz CD audio.
#[derive(Debug, Clone, Copy, PartialEq, Eq, Default)]
pub struct Earwax;

impl Earwax {
    /// Creates an `earwax` headphone-cue filter.
    pub fn new() -> (r: Self)
        ensures
            r == Earwax,
    {
        Earwax
    }
}

/// SoX-ng-style out-of-phase stereo extraction (`remix 1,2i 1,2i`).
#[derive(Debug, Clone, Copy, PartialEq, Eq, Default)]
pub struct Oops;

impl Oops {
    /// Creates an out-of-phase stereo processor.
    pub fn new() -> (r: Self)
        ensures
            r == Oops,
    {
        Oops
    }
}

/// Frame-level reverse effect: reverses frame order within every channel.
#[derive(Debug, Clone, Copy, PartialEq, Eq, Default)]
pub struct Reverse;

impl Reverse {
    /// Creates a frame-level reverse processor.
    pub fn new() -> (r: Self)
        ensures
            r == Reverse,
    {
        Reverse
    }
}

/// SoX-ng-style RIAA vinyl playback equalization filter.
#[derive(Debug, Clone, Copy, PartialEq, Eq, Default)]
pub struct Riaa;

impl Riaa {
    /// Creates an RIAA equalization filter.
    pub fn new() -> (r: Self)
        ensures
            r == Riaa,
    {
        Riaa
    }
}

/// SoX-ng-style adjacent channel-pair swapping.
#[derive(Debug, Clone, Copy, PartialEq, Eq, Default)]
pub struct Swap;

impl Swap {
    /// Creates a channel-pair swap processor.
    pub fn new() -> (r: Self)
        ensures
            r == Swap,
    {
        Swap
    }
}

/// SoX-ng-style decimating downsample: keeps the first frame of each
/// `factor`-sized group.
#[derive(Debug, Clone, Copy, PartialEq, Eq, Structural)]
pub struct Downsample {
    /// Integer decimation factor.
    pub factor: u32,
}

impl Downsample {
    /// Creates a decimating downsample processor.
    ///
    /// Returns [`EffectError::InvalidDownsampleFactor`] when `factor` is zero
    /// or greater than [`MAX_DOWNSAMPLE_FACTOR`].
    pub fn new(factor: u32) -> (r: Result<Self, EffectError>)
        ensures
            1 <= factor <= MAX_DOWNSAMPLE_FACTOR ==> r == Ok::<Self, EffectError>(Downsample { factor }),
            !(1 <= factor <= MAX_DOWNSAMPLE_FACTOR) ==> r == Err::<Self, EffectError>(
                EffectError::InvalidDownsampleFactor,
            ),
    {
        if factor == 0 || factor > MAX_DOWNSAMPLE_FACTOR {
            return Err(EffectError::InvalidDownsampleFactor);
        }
        Ok(Downsample { factor })
    }

    /// Creates the SoX-ng default `downsample`, equivalent to `downsample 2`.
    pub fn default_factor() -> (r: Self)
        ensures
            r.factor == DEFAULT_DOWNSAMPLE_FACTOR,
    {
        Downsample { factor: DEFAULT_DOWNSAMPLE_FACTOR }
    }
}

/// SoX-ng-style zero-stuffing upsample.
#[derive(Debug, Clone, Copy, PartialEq, Eq, Structural)]
pub struct Upsample {
    /// Integer upsampling factor.
    pub factor: u32,
}

impl Upsample {
    /// Creates a zero-stuffing upsample processor.
    ///
    /// Returns [`EffectError::InvalidUpsampleFactor`] when `factor` is zero
    /// or greater than [`MAX_UPSAMPLE_FACTOR`].
    pub fn new(factor: u32) -> (r: Result<Self, EffectError>)
        ensures
            1 <= factor <= MAX_UPSAMPLE_FACTOR ==> r == Ok::<Self, EffectError>(Upsample { factor }),
            !(1 <= factor <= MAX_UPSAMPLE_FACTOR) ==> r == Err::<Self, EffectError>(
                EffectError::InvalidUpsampleFactor,
            ),
    {
        if factor == 0 || factor > MAX_UPSAMPLE_FACTOR {
            return Err(EffectError::InvalidUpsampleFactor);
        }
        Ok(Upsample { factor })
    }

    /// Creates the SoX-ng default `upsample`, equivalent to `upsample 2`.
    pub fn default_factor() -> (r: Self)
        ensures
            r.factor == DEFAULT_UPSAMPLE_FACTOR,
    {
        Upsample { factor: DEFAULT_UPSAMPLE_FACTOR }
    }
}

/// SoX-ng-style finite repeat: the input followed by `count` more copies.
#[derive(Debug, Clone, Copy, PartialEq, Eq, Structural)]
pub struct Repeat {
    /// Number of additional copies to append after the original input.
    pub count: u64,
}

impl Repeat {
    /// Creates a finite repeat processor.
    ///
    /// Returns [`EffectError::InvalidRepeatCount`] when `count` is larger
    /// than [`MAX_FINITE_REPEAT_COUNT`].
    pub fn new(count: u64) -> (r: Result<Self, EffectError>)
        ensures
            count <= MAX_FINITE_REPEAT_COUNT ==> r == Ok::<Self, EffectError>(Repeat { count }),
            count > MAX_FINITE_REPEAT_COUNT ==> r == Err::<Self, EffectError>(
                EffectError::InvalidRepeatCount,
            ),
    {
        if count > MAX_FINITE_REPEAT_COUNT {
            return Err(EffectError::InvalidRepeatCount);
        }
        Ok(Repeat { count })
    }

    /// Creates the SoX-ng default `repeat`, equivalent to `repeat 1`.
    pub fn default_count() -> (r: Self)
        ensures
            r.count == 1,
    {
        Repeat { count: 1 }
    }
}

/// Whether `taps` is an accepted Hilbert tap count: odd and in
/// `MIN_HILBERT_TAPS..=MAX_HILBERT_TAPS`.
pub open spec fn valid_hilbert_taps(taps: u32) -> bool {
    MIN_HILBERT_TAPS <= taps <= MAX_HILBERT_TAPS && taps % 2 == 1
}

/// Checks a Hilbert tap count.
pub fn validate_taps(taps: u32) -> (r: Result<(), EffectError>)
    ensures
        valid_hilbert_taps(taps) ==> r is Ok,
        !valid_hilbert_taps(taps) ==> r == Err::<(), EffectError>(EffectError::InvalidHilbert),
{
    if MIN_HILBERT_TAPS <= taps && taps <= MAX_HILBERT_TAPS && taps % 2 == 1 {
        Ok(())
    } else {
        Err(EffectError::InvalidHilbert)
    }
}

/// SoX-ng-style Hilbert transform FIR filter.
#[derive(Debug, Clone, Copy, PartialEq, Eq)]
pub struct Hilbert {
    taps: Option<u32>,
}

impl Hilbert {
    /// The explicit tap count, if one was configured.
    pub closed spec fn spec_taps(self) -> Option<u32> {
        self.taps
    }

    /// The filter whose tap count is derived from the sample rate.
    pub closed spec fn derived() -> Self {
        Hilbert { taps: None }
    }

    /// Creates a Hilbert filter whose tap count is derived from the sample rate.
    pub fn default_taps() -> (r: Self)
        ensures
            r == Hilbert::derived(),
            r.spec_taps() is None,
    {
        Hilbert { taps: None }
    }

    /// Creates a Hilbert filter with an explicit odd tap count.
    ///
    /// Returns [`EffectError::InvalidHilbert`] when `taps` is even or outside
    /// SoX-ng's accepted `3..=1073741823` range.
    pub fn with_taps(taps: u32) -> (r: Result<Self, EffectError>)
        ensures
            valid_hilbert_taps(taps) ==> (r matches Ok(h) && h.spec_taps() == Some(taps)),
            !valid_hilbert_taps(taps) ==> r == Err::<Self, EffectError>(EffectError::InvalidHilbert),
    {
        match validate_taps(taps) {
            Ok(()) => Ok(Hilbert { taps: Some(taps) }),
            Err(e) => Err(e),
        }
    }

    /// Lemma: a Hilbert filter is determined by its tap count, so any two
    /// with no explicit tap count (such as [`Hilbert::default`] and
    /// [`Hilbert::default_taps`]) are equal.
    pub proof fn lemma_taps_determine(a: Self, b: Self)
        requires
            a.spec_taps() == b.spec_taps(),
        ensures
            a == b,
    {
    }

    /// Returns the explicit tap count, if one was configured.
    pub fn taps(self) -> (r: Option<u32>)
        ensures
            r == self.spec_taps(),
    {
        self.taps
    }
}

impl Default for Downsample {
    /// The SoX-ng default `downsample`, as [`Downsample::default_factor`].
    fn default() -> (r: Self)
        ensures
            r.factor == DEFAULT_DOWNSAMPLE_FACTOR,
    {
        Downsample::default_factor()
    }
}

impl Default for Repeat {
    /// The SoX-ng default `repeat`, as [`Repeat::default_count`].
    fn default() -> (r: Self)
        ensures
            r.count == 1,
    {
        Repeat::default_count()
    }
}

impl Default for Hilbert {
    /// A Hilbert filter with the sample-rate-derived tap count, as
    /// [`Hilbert::default_taps`].
    fn default() -> (r: Self)
        ensures
            r == Hilbert::derived(),
            r.spec_taps() is None,
    {
        Hilbert::default_taps()
    }
}

impl Default for NoiseProf {
    /// A `noiseprof` analyzer writing to the SoX-ng default `-`, as
    /// [`NoiseProf::stdout`].
    fn default() -> (r: Self)
        ensures
            r.spec_output_path() is None,
    {
        NoiseProf::stdout()
    }
}

/// SoX-ng-style noise profile collector; the profile output path is `None`
/// for SoX-ng's `-` (standard output).
#[derive(Debug, Clone, PartialEq, Eq)]
pub struct NoiseProf {
    output_path: Option<String>,
}

impl NoiseProf {
    /// The configured output path, as characters.
    pub closed spec fn spec_output_path(&self) -> Option<Seq<char>> {
        match &self.output_path {
            Some(p) => Some(p@),
            None => None,
        }
    }

    /// Creates a `noiseprof` analyzer that writes to the SoX-ng default `-`.
    pub fn stdout() -> (r: Self)
        ensures
            r.spec_output_path() is None,
    {
        NoiseProf { output_path: None }
    }

    /// Creates a `noiseprof` analyzer with an explicit profile output path.
    ///
    /// Returns [`EffectError::InvalidNoiseProfile`] when the path is empty.
    pub fn new(output_path: Option<String>) -> (r: Result<Self, EffectError>)
        ensures
            match output_path {
                Some(p) => if p@.len() == 0 {
                    r == Err::<Self, EffectError>(EffectError::InvalidNoiseProfile)
                } else {
                    r matches Ok(n) && n.spec_output_path() == Some(p@)
                },
                None => r matches Ok(n) && n.spec_output_path() is None,
            },
    {
        match output_path {
            Some(p) => {
                if p.as_str().unicode_len() == 0 {
                    Err(EffectError::InvalidNoiseProfile)
                } else {
                    Ok(NoiseProf { output_path: Some(p) })
                }
            },
            None => Ok(NoiseProf { output_path: None }),
        }
    }

    /// Returns the configured profile output path, or `None` for SoX-ng's `-`.
    pub fn output_path(&self) -> (r: Option<&str>)
        ensures
            match r {
                Some(p) => self.spec_output_path() == Some(p@),
                None => self.spec_output_path() is None,
            },
    {
        match &self.output_path {
            Some(p) => Some(p.as_str()),
            None => None,
        }
    }
}

/// A 1-based `remix` source channel or inclusive channel range.
#[derive(Debug, Clone, Copy, PartialEq, Eq, Structural)]
pub enum RemixSource {
    /// One 1-based input channel.
    Channel(u16),
    /// Inclusive 1-based input channel range; a missing bound defaults to the
    /// first or last input channel at processing time.
    Range {
        /// Optional inclusive start channel.
        start: Option<u16>,
        /// Optional inclusive end channel.
        end: Option<u16>,
    },
}

impl RemixSource {
    /// Creates a 1-based input channel source.
    ///
    /// Returns [`EffectError::InvalidRemixRouting`] for channel `0`.
    pub fn channel(channel: u16) -> (r: Result<Self, EffectError>)
        ensures
            channel != 0 ==> r == Ok::<Self, EffectError>(RemixSource::Channel(channel)),
            channel == 0 ==> r == Err::<Self, EffectError>(EffectError::InvalidRemixRouting),
    {
        if channel == 0 {
            return Err(EffectError::InvalidRemixRouting);
        }
        Ok(RemixSource::Channel(channel))
    }

    /// Creates an inclusive 1-based input channel range. Reversed bounds are
    /// accepted, matching SoX-ng.
    ///
    /// Returns [`EffectError::InvalidRemixRouting`] when either given bound is
    /// `0` or both bounds are missing.
    pub fn range(start: Option<u16>, end: Option<u16>) -> (r: Result<Self, EffectError>)
        ensures
            (start is None && end is None) || start == Some(0u16) || end == Some(0u16) ==> r
                == Err::<Self, EffectError>(EffectError::InvalidRemixRouting),
            !((start is None && end is None) || start == Some(0u16) || end == Some(0u16)) ==> r
                == Ok::<Self, EffectError>(RemixSource::Range { start, end }),
    {
        if start.is_none() && end.is_none() {
            return Err(EffectError::InvalidRemixRouting);
        }
        match start {
            Some(0) => {
                return Err(EffectError::InvalidRemixRouting);
            },
            _ => {},
        }
        match end {
            Some(0) => {
                return Err(EffectError::InvalidRemixRouting);
            },
            _ => {},
        }
        Ok(RemixSource::Range { start, end })
    }

    /// Creates the `-` all-channel range.
    pub fn all() -> (r: Self)
        ensures
            r == (RemixSource::Range { start: None, end: None }),
    {
        RemixSource::Range { start: None, end: None }
    }
}

/// How `remix` scales sources that do not carry explicit gain modifiers.
#[derive(Debug, Clone, Copy, PartialEq, Eq, Structural)]
pub enum RemixLevelMode {
    /// SoX-ng's default: auto-scale only when an output has no explicit gains.
    SemiAutomatic,
    /// Always auto-scale sources without explicit gains.
    Automatic,
    /// Never auto-scale sources without explicit gains.
    Manual,
}

/// Anchor used when resolving a SoX-ng-style delay position.
#[derive(Debug, Clone, Copy, PartialEq, Eq, Structural)]
pub enum DelayAnchor {
    /// Position is measured from the start of the input.
    Start,
    /// Position is measured from the previously resolved delay position.
    Previous,
    /// Position is measured backward from the end of the input.
    End,
}

/// SoX-ng flanger delay-line interpolation mode.
#[derive(Debug, Clone, Copy, PartialEq, Eq, Default, Structural)]
pub enum FlangerInterpolation {
    /// Use the nearest integer swept delay offset.
    NoInterpolation,
    /// Linearly interpolate between adjacent delay-line samples.
    #[default]
    Linear,
    /// Use SoX-ng's quadratic interpolation across three delay-line samples.
    Quadratic,
}

/// SoX-ng flanger modulation waveform.
#[derive(Debug, Clone, Copy, PartialEq, Eq, Default, Structural)]
pub enum FlangerWave {
    /// Sine modulation.
    #[default]
    Sine,
    /// Triangle modulation.
    Triangle,
}

/// SoX-ng phaser delay-line interpolation mode.
#[derive(Debug, Clone, Copy, PartialEq, Eq, Default, Structural)]
pub enum PhaserInterpolation {
    /// Use SoX-ng's rounded integer modulation table offsets.
    #[default]
    NoInterpolation,
    /// Linearly interpolate between adjacent delay-line samples.
    Linear,
    /// Use SoX-ng's quadratic interpolation across three delay-line samples.
    Quadratic,
}

/// SoX-ng phaser modulation waveform.
#[derive(Debug, Clone, Copy, PartialEq, Eq, Default, Structural)]
pub enum PhaserWave {
    /// Sine modulation.
    #[default]
    Sine,
    /// Triangle modulation.
    Triangle,
}

/// SoX-ng `gain` headroom/reclaim mode.
#[derive(Debug, Clone, Copy, PartialEq, Eq, Hash, Structural)]
#[non_exhaustive]
pub enum GainHeadroom {
    /// Plain fixed gain with no headroom metadata.
    NoHeadroom,
    /// `gain -h`: reserve the fixed gain as reclaimable headroom.
    Reserve,
    /// `gain -r`: reclaim prior headroom as much as possible without clipping.
    Reclaim,
    /// `gain -rh` or `gain -hr`: reclaim prior headroom and reserve new headroom.
    ReclaimAndReserve,
}

/// SoX-ng channel-aware `gain` scan mode.
#[derive(Debug, Clone, Copy, PartialEq, Eq, Hash, Structural)]
#[non_exhaustive]
pub enum GainChannelMode {
    /// Plain fixed gain with no per-channel scan.
    NoScan,
    /// `gain -e`: scale each channel peak to the maximum channel peak.
    Equalize,
    /// `gain -B`: scale each channel RMS to the maximum channel RMS without
    /// clip protection.
    Balance,
    /// `gain -b`: balance channel RMS, then attenuate all channels if needed
    /// to keep the balanced peak within full scale.
    BalanceNoClip,
}

/// SoX-ng `rate` quality modes.
#[derive(Debug, Clone, Copy, PartialEq, Eq, Structural)]
pub enum RateQuality {
    /// Default quality, selected when no SoX-ng quality flag is present.
    Default,
    /// SoX-ng `-q` / `-Q 0` quick mode.
    Quick,
    /// SoX-ng `-l` / `-Q 1` low-quality mode.
    Low,
}

/// Saturation transfer family.
#[derive(Debug, Clone, Copy, PartialEq, Eq, Hash, Structural)]
#[non_exhaustive]
pub enum SaturationType {
    /// Hyperbolic tangent saturation using a drive multiplier.
    Tanh,
    /// Square-root saturation using a color mix.
    Sqrt,
    /// Diode-style hard threshold saturation.
    Diode,
}

} // verus!
