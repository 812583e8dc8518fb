//! Errors produced by typed effect processors.
use vstd::prelude::*;

use crate::text::{decimal, push_decimal, push_str_chars};

verus! {

/// Errors produced by typed effect processors.
#[derive(Debug, Clone, PartialEq, Eq, Structural)]
#[non_exhaustive]
pub enum EffectError {
    /// The requested frame range has `start > end`.
    InvalidTrimOrder,
    /// The requested frame range extends beyond the buffer being trimmed.
    TrimRangeOutOfBounds,
    /// The requested padding would create a buffer shape that cannot be represented.
    PadLengthOverflow,
    /// A positioned pad requested insertions that are not strictly ordered.
    PadPositionsOutOfOrder,
    /// A positioned pad requested an insertion after the input duration.
    PadPositionOutOfBounds,
    /// A repeat count was outside SoX-ng's finite supported range.
    InvalidRepeatCount,
    /// A repeat command would create a buffer shape that cannot be represented.
    RepeatLengthOverflow,
    /// A delay position was not finite or was negative.
    InvalidDelayPosition,
    /// A delay command supplied more positions than the input has channels.
    DelayTooManyPositions,
    /// A delay command would create a buffer shape that cannot be represented.
    DelayLengthOverflow,
    /// A dither command had invalid target precision.
    InvalidDither,
    /// An echo command had invalid gains, delay taps, or no delay taps.
    InvalidEcho,
    /// An echo command would create a buffer shape that cannot be represented.
    EchoLengthOverflow,
    /// An echos command had invalid gains, delay taps, or no delay taps.
    InvalidEchos,
    /// An echos command would create a buffer shape that cannot be represented.
    EchosLengthOverflow,
    /// A chorus processor had invalid gains, delay parameters, or modulation settings.
    InvalidChorus,
    /// A chorus processor would create a buffer shape that cannot be represented.
    ChorusLengthOverflow,
    /// A flanger processor had invalid gains, delay parameters, or modulation settings.
    InvalidFlanger,
    /// A flanger processor would create a delay-line shape that cannot be represented.
    FlangerLengthOverflow,
    /// A phaser processor had invalid gains, delay parameters, or modulation settings.
    InvalidPhaser,
    /// A phaser processor would create a delay-line shape that cannot be represented.
    PhaserLengthOverflow,
    /// A reverb processor had invalid command parameters.
    InvalidReverb,
    /// A reverb processor would create a delay or output shape that cannot be represented.
    ReverbLengthOverflow,
    /// A downsample factor was outside SoX-ng's supported range.
    InvalidDownsampleFactor,
    /// A downsample command would produce an unrepresentable sample rate.
    DownsampleRateTooLow,
    /// An upsample factor was outside SoX-ng's supported range.
    InvalidUpsampleFactor,
    /// An upsample command would produce an unrepresentable sample rate.
    UpsampleRateOverflow,
    /// A speed factor was not finite or not positive.
    InvalidSpeedFactor,
    /// A speed command would produce an unrepresentable sample rate.
    SpeedRateOutOfRange,
    /// A stretch command had invalid window, factor, shift, or fading settings.
    InvalidStretch,
    /// A stretch command would create an unrepresentable state or output shape.
    StretchLengthOverflow,
    /// A tempo factor was outside SoX-ng's supported range.
    InvalidTempoFactor,
    /// A tempo command had invalid tuning parameters.
    InvalidTempoTuning,
    /// A tempo command would create an unrepresentable state or output shape.
    TempoLengthOverflow,
    /// A pitch shift was outside SoX-ng's supported cents-derived factor range.
    InvalidPitchShift,
    /// A pitch command had invalid tuning parameters.
    InvalidPitchTuning,
    /// A pitch command would produce an unrepresentable sample rate.
    PitchRateOutOfRange,
    /// A bend command had invalid options, positions, or pitch shift.
    InvalidBend,
    /// A bend command would create an unrepresentable STFT state or position.
    BendLengthOverflow,
    /// A splice command had invalid positions, excess, or leeway.
    InvalidSplice,
    /// A splice command would create a buffer shape that cannot be represented.
    SpliceLengthOverflow,
    /// A compand command had invalid timing, transfer, gain, volume, or delay parameters.
    InvalidCompand,
    /// An mcompand command had invalid bands, crossover frequencies, or unsupported delays.
    InvalidMCompand,
    /// A noise profile command had invalid profile output metadata.
    InvalidNoiseProfile,
    /// A noise reduction command had invalid profile input, amount, or channel shape.
    InvalidNoiseReduction,
    /// A noise reduction command would create a buffer shape that cannot be represented.
    NoiseReductionLengthOverflow,
    /// A loudness command had invalid gain, reference level, or filter length.
    InvalidLoudness,
    /// A FIR coefficient source had invalid numeric coefficients or path metadata.
    InvalidFirCoefficients,
    /// A FIR response-fitting source had invalid knot data or path metadata.
    InvalidFirFit,
    /// A FIR command would create a buffer shape that cannot be represented.
    FirLengthOverflow,
    /// A Hilbert transform command had an invalid tap count.
    InvalidHilbert,
    /// A sinc FIR filter command had invalid frequencies or design options.
    InvalidSinc,
    /// A silence command had invalid periods, durations, thresholds, or options.
    InvalidSilence,
    /// A silence command would create a buffer shape that cannot be represented.
    SilenceLengthOverflow,
    /// A VAD processor had invalid threshold or timing settings.
    InvalidVad,
    /// A VAD command would create a buffer shape that cannot be represented.
    VadLengthOverflow,
    /// A rate command would create a buffer shape that cannot be represented.
    RateLengthOverflow,
    /// A rate command combined incompatible SoX-ng quality and override options.
    InvalidRateOptions,
    /// A biquad coefficient was not finite or had an invalid `a0` normalizer.
    InvalidBiquadCoefficients,
    /// A biquad coefficient helper received an invalid design parameter.
    InvalidBiquadDesign,
    /// A remix command used an invalid basic routing specification.
    InvalidRemixRouting,
    /// A remix command requested more output channels than Auralis can represent.
    RemixOutputChannelsOverflow,
    /// A remix command referenced an input channel that is not present.
    RemixInputChannelOutOfBounds,
    /// A centercut command received anything other than stereo input.
    CentercutRequiresStereo,
    /// A centercut output gain was not finite.
    InvalidCentercutGain,
    /// A centercut window size was outside SoX-ng's supported range.
    InvalidCentercutWindowSize,
    /// A DC shift amount was not finite or not in the supported normalized range.
    InvalidDcShift,
    /// A `gain -r` command did not have prior reclaimable headroom metadata.
    MissingGainHeadroom,
    /// A gain scan encountered a non-finite sample.
    NonFiniteGainSample {
        /// Zero-based flattened sample index in planar channel order.
        sample_index: usize,
    },
    /// A norm scan encountered a non-finite sample.
    NonFiniteNormSample {
        /// Zero-based flattened sample index in planar channel order.
        sample_index: usize,
    },
    /// A `vol` gain value was not finite.
    InvalidVolGain,
    /// A `vol` limiter gain was outside SoX-ng's supported range.
    InvalidVolLimiterGain,
    /// A `contrast` amount was not finite or outside SoX-ng's supported range.
    InvalidContrastAmount,
    /// A `softvol` value was not finite or outside SoX-ng's supported range.
    InvalidSoftVol,
    /// A `tremolo` value was not finite or outside SoX-ng's supported range.
    InvalidTremolo,
    /// An `overdrive` value was not finite or outside SoX-ng's supported range.
    InvalidOverdrive,
    /// A `saturation` value was not finite or outside SoX-ng's supported range.
    InvalidSaturation,
    /// A SoX-ng positional fade requested overlapping fade-in and fade-out regions.
    FadeRegionsOverlap,
    /// A positional fade would create a buffer shape that cannot be represented.
    FadeLengthOverflow,
    /// A stat command had an invalid scale option.
    InvalidStat,
    /// A stats command had an invalid display scale, bit depth, or window time.
    InvalidStats,
    /// A synth command had invalid lengths, frequencies, or waveform parameters.
    InvalidSynth,
    /// An earwax command received input that is not stereo 44.1 kHz audio.
    InvalidEarwaxInput,
}

/// The human-readable message of an effect error.
pub open spec fn effect_error_message(e: EffectError) -> Seq<char> {
    match e {
        EffectError::InvalidTrimOrder => "trim start frame must be less than or equal to trim end frame"@,
        EffectError::TrimRangeOutOfBounds => "trim frame range must be within the input duration"@,
        EffectError::PadLengthOverflow => "pad frame count exceeds representable audio buffer length"@,
        EffectError::PadPositionsOutOfOrder => "pad positions must be in ascending order"@,
        EffectError::PadPositionOutOfBounds => "pad position must be within the input duration"@,
        EffectError::InvalidRepeatCount => "repeat count must be in the finite SoX-ng range 0..=4294967294"@,
        EffectError::RepeatLengthOverflow => "repeat output frame count exceeds representable audio buffer length"@,
        EffectError::InvalidDelayPosition => "delay positions must be finite and non-negative"@,
        EffectError::DelayTooManyPositions => "delay cannot specify more positions than the input channel count"@,
        EffectError::DelayLengthOverflow => "delay output frame count exceeds representable audio buffer length"@,
        EffectError::InvalidDither => "dither precision must be in the implemented SoX-ng range 2..=24 bits"@,
        EffectError::InvalidEcho => "echo gains and decays must be finite, delays must be finite and non-negative, and at least one delay-decay pair is required"@,
        EffectError::EchoLengthOverflow => "echo output frame count exceeds representable audio buffer length"@,
        EffectError::InvalidEchos => "echos gains must be finite, delays must be finite and resolve to at least one frame, decays must be finite in 0..=1, and at least one delay-decay pair is required"@,
        EffectError::EchosLengthOverflow => "echos output frame count exceeds representable audio buffer length"@,
        EffectError::InvalidChorus => "chorus gains and decay must be finite in -1..=1, delay/depth must be finite and non-negative, speed must be finite and positive, and the resolved delay line must fit the output buffer"@,
        EffectError::ChorusLengthOverflow => "chorus output frame count exceeds representable audio buffer length"@,
        EffectError::InvalidFlanger => "flanger delay/depth must be finite in 0..=1000 ms, regen in -100..=100, width non-negative, speed finite and positive, phase in 0..=100, and the resolved delay line must fit the output buffer"@,
        EffectError::FlangerLengthOverflow => "flanger delay line exceeds representable audio buffer length"@,
        EffectError::InvalidPhaser => "phaser gains and regen must be finite in -1..=1, delay must be finite in 0..=1000 ms, speed finite and positive, and the resolved delay line must fit the output buffer"@,
        EffectError::PhaserLengthOverflow => "phaser delay line exceeds representable audio buffer length"@,
        EffectError::InvalidReverb => "reverb percent parameters must be finite in 0..=100, pre-delay in 0..=500 ms, and wet gain in -10..=10 dB"@,
        EffectError::ReverbLengthOverflow => "reverb delay or output shape exceeds representable audio buffer length"@,
        EffectError::InvalidDownsampleFactor => "downsample factor must be in the SoX-ng range 1..=16384"@,
        EffectError::DownsampleRateTooLow => "downsample output sample rate must be at least 1 Hz"@,
        EffectError::InvalidUpsampleFactor => "upsample factor must be in the SoX-ng range 1..=256"@,
        EffectError::UpsampleRateOverflow => "upsample output sample rate exceeds representable rate"@,
        EffectError::InvalidSpeedFactor => "speed factor must be finite and greater than zero"@,
        EffectError::SpeedRateOutOfRange => "speed output sample rate must round into the representable positive rate range"@,
        EffectError::InvalidStretch => "stretch factor/window/shift/fading must be finite, factor must be non-negative, window at least 1 ms, shift in (0, 1], and fading in 0..=0.5"@,
        EffectError::StretchLengthOverflow => "stretch state or output frame count exceeds representable audio buffer length"@,
        EffectError::InvalidTempoFactor => "tempo factor must be finite and in the SoX-ng range 0.1..=100"@,
        EffectError::InvalidTempoTuning => "tempo segment/search/overlap must be finite and in the SoX-ng ranges segment 10..=120 ms, search 0..=30 ms, and overlap 0..=30 ms"@,
        EffectError::TempoLengthOverflow => "tempo state or output frame count exceeds representable audio buffer length"@,
        EffectError::InvalidPitchShift => "pitch shift must be finite and map to a factor in the SoX-ng range 0.01..=10"@,
        EffectError::InvalidPitchTuning => "pitch segment/search/overlap must be finite and in the SoX-ng ranges segment 10..=120 ms, search 0..=30 ms, and overlap 0..=30 ms"@,
        EffectError::PitchRateOutOfRange => "pitch output sample rate must round into the representable positive rate range"@,
        EffectError::InvalidBend => "bend options must be in SoX-ng ranges -f 10..=80 and -o 4..=32, positions must be ordered, and cents must map to factor 0.01..=10"@,
        EffectError::BendLengthOverflow => "bend STFT state or resolved position exceeds representable audio buffer length"@,
        EffectError::InvalidSplice => "splice requires at least one point, finite non-negative positions, strictly increasing starts, and excess no longer than the splice position"@,
        EffectError::SpliceLengthOverflow => "splice state or output frame count exceeds representable audio buffer length"@,
        EffectError::InvalidCompand => "compand attack/decay times, transfer points, gain, initial volume, and delay must be finite SoX-ng-compatible values"@,
        EffectError::InvalidMCompand => "mcompand bands must use valid compand settings, ascending positive crossover frequencies, and zero delay"@,
        EffectError::InvalidNoiseProfile => "noiseprof profile output path and collected channel profile must be valid"@,
        EffectError::InvalidNoiseReduction => "noisered profile input, amount, and channel shape must be valid"@,
        EffectError::NoiseReductionLengthOverflow => "noisered output frame count exceeds representable audio buffer length"@,
        EffectError::InvalidLoudness => "loudness gain must be in -50..=15 dB, reference in 50..=75 dB, and n in 127..=2047"@,
        EffectError::InvalidFirCoefficients => "fir coefficients must be finite numbers and coefficient file paths must be non-empty"@,
        EffectError::InvalidFirFit => "firfit knots must be finite frequency/gain pairs with strictly increasing non-negative frequencies"@,
        EffectError::FirLengthOverflow => "fir output frame count exceeds representable audio buffer length"@,
        EffectError::InvalidHilbert => "hilbert taps must be an odd value in the SoX-ng range 3..=1073741823"@,
        EffectError::InvalidSinc => "sinc frequency and design options must be finite and in SoX-ng-compatible ranges"@,
        EffectError::InvalidSilence => "silence periods, durations, thresholds, and -l usage must match SoX-ng-compatible ranges"@,
        EffectError::SilenceLengthOverflow => "silence output frame count exceeds representable audio buffer length"@,
        EffectError::InvalidVad => "vad threshold must be finite in 0..=1 and timing settings must be representable"@,
        EffectError::VadLengthOverflow => "vad output frame count exceeds representable audio buffer length"@,
        EffectError::RateLengthOverflow => "rate output frame count exceeds representable audio buffer length"@,
        EffectError::InvalidRateOptions => "rate override options require medium or higher quality and must satisfy SoX-ng bandwidth constraints"@,
        EffectError::InvalidBiquadCoefficients => "biquad coefficients must be finite and a0 must be nonzero"@,
        EffectError::InvalidBiquadDesign => "biquad design parameters must be finite, positive, and below Nyquist where applicable"@,
        EffectError::InvalidRemixRouting => "remix output specifications must contain channel numbers, ranges, or a standalone 0"@,
        EffectError::RemixOutputChannelsOverflow => "remix output channel count exceeds representable audio buffer length"@,
        EffectError::RemixInputChannelOutOfBounds => "remix input channel is outside the input channel count"@,
        EffectError::CentercutRequiresStereo => "centercut can only process stereo input"@,
        EffectError::InvalidCentercutGain => "centercut output gain must be finite"@,
        EffectError::InvalidCentercutWindowSize => "centercut window size must be a power of two from 8 to 32768"@,
        EffectError::InvalidDcShift => "dc shift must be finite and in the range -2.0..=2.0"@,
        EffectError::MissingGainHeadroom => "gain -r requires prior gain -h headroom below full scale"@,
        EffectError::NonFiniteGainSample { sample_index } => "gain scan encountered non-finite sample at flattened sample "@ + decimal(sample_index as nat),
        EffectError::NonFiniteNormSample { sample_index } => "norm scan encountered non-finite sample at flattened sample "@ + decimal(sample_index as nat),
        EffectError::InvalidVolGain => "vol gain must be finite"@,
        EffectError::InvalidVolLimiterGain => "vol limiter gain must be finite, greater than 0, less than 1, and require absolute gain >= 1"@,
        EffectError::InvalidContrastAmount => "contrast amount must be finite and in the range 0..=100"@,
        EffectError::InvalidSoftVol => "softvol volume, double-time, and headroom must be finite and non-negative"@,
        EffectError::InvalidTremolo => "tremolo speed must be finite and non-negative, and depth must be finite and in the range 0<depth<=100"@,
        EffectError::InvalidOverdrive => "overdrive gain and color must be finite and in the range 0..=100"@,
        EffectError::InvalidSaturation => "saturation blend and offset must be finite in 0..=1, tanh drive must be finite and >= 1, and sqrt color or diode threshold must be finite in 0..=1"@,
        EffectError::FadeRegionsOverlap => "fade-out overlaps fade-in"@,
        EffectError::FadeLengthOverflow => "fade stop position exceeds representable audio buffer length"@,
        EffectError::InvalidStat => "stat scale must be finite and greater than zero"@,
        EffectError::InvalidStats => "stats scale, bit depth, and window time must be finite and in SoX-ng-compatible ranges"@,
        EffectError::InvalidSynth => "synth length, frequencies, and waveform parameters must be finite and in SoX-ng-compatible ranges"@,
        EffectError::InvalidEarwaxInput => "earwax requires stereo 44.1 kHz input"@,
    }
}

impl EffectError {
    /// Renders the error as a human-readable message.
    pub fn message(&self) -> (r: String)
        ensures
            r@ == effect_error_message(*self),
    {
        let mut s = String::new();
        match self {
            EffectError::InvalidTrimOrder => push_str_chars(&mut s, "trim start frame must be less than or equal to trim end frame"),
            EffectError::TrimRangeOutOfBounds => push_str_chars(&mut s, "trim frame range must be within the input duration"),
            EffectError::PadLengthOverflow => push_str_chars(&mut s, "pad frame count exceeds representable audio buffer length"),
            EffectError::PadPositionsOutOfOrder => push_str_chars(&mut s, "pad positions must be in ascending order"),
            EffectError::PadPositionOutOfBounds => push_str_chars(&mut s, "pad position must be within the input duration"),
            EffectError::InvalidRepeatCount => push_str_chars(&mut s, "repeat count must be in the finite SoX-ng range 0..=4294967294"),
            EffectError::RepeatLengthOverflow => push_str_chars(&mut s, "repeat output frame count exceeds representable audio buffer length"),
            EffectError::InvalidDelayPosition => push_str_chars(&mut s, "delay positions must be finite and non-negative"),
            EffectError::DelayTooManyPositions => push_str_chars(&mut s, "delay cannot specify more positions than the input channel count"),
            EffectError::DelayLengthOverflow => push_str_chars(&mut s, "delay output frame count exceeds representable audio buffer length"),
            EffectError::InvalidDither => push_str_chars(&mut s, "dither precision must be in the implemented SoX-ng range 2..=24 bits"),
            EffectError::InvalidEcho => push_str_chars(&mut s, "echo gains and decays must be finite, delays must be finite and non-negative, and at least one delay-decay pair is required"),
            EffectError::EchoLengthOverflow => push_str_chars(&mut s, "echo output frame count exceeds representable audio buffer length"),
            EffectError::InvalidEchos => push_str_chars(&mut s, "echos gains must be finite, delays must be finite and resolve to at least one frame, decays must be finite in 0..=1, and at least one delay-decay pair is required"),
            EffectError::EchosLengthOverflow => push_str_chars(&mut s, "echos output frame count exceeds representable audio buffer length"),
            EffectError::InvalidChorus => push_str_chars(&mut s, "chorus gains and decay must be finite in -1..=1, delay/depth must be finite and non-negative, speed must be finite and positive, and the resolved delay line must fit the output buffer"),
            EffectError::ChorusLengthOverflow => push_str_chars(&mut s, "chorus output frame count exceeds representable audio buffer length"),
            EffectError::InvalidFlanger => push_str_chars(&mut s, "flanger delay/depth must be finite in 0..=1000 ms, regen in -100..=100, width non-negative, speed finite and positive, phase in 0..=100, and the resolved delay line must fit the output buffer"),
            EffectError::FlangerLengthOverflow => push_str_chars(&mut s, "flanger delay line exceeds representable audio buffer length"),
            EffectError::InvalidPhaser => push_str_chars(&mut s, "phaser gains and regen must be finite in -1..=1, delay must be finite in 0..=1000 ms, speed finite and positive, and the resolved delay line must fit the output buffer"),
            EffectError::PhaserLengthOverflow => push_str_chars(&mut s, "phaser delay line exceeds representable audio buffer length"),
            EffectError::InvalidReverb => push_str_chars(&mut s, "reverb percent parameters must be finite in 0..=100, pre-delay in 0..=500 ms, and wet gain in -10..=10 dB"),
            EffectError::ReverbLengthOverflow => push_str_chars(&mut s, "reverb delay or output shape exceeds representable audio buffer length"),
            EffectError::InvalidDownsampleFactor => push_str_chars(&mut s, "downsample factor must be in the SoX-ng range 1..=16384"),
            EffectError::DownsampleRateTooLow => push_str_chars(&mut s, "downsample output sample rate must be at least 1 Hz"),
            EffectError::InvalidUpsampleFactor => push_str_chars(&mut s, "upsample factor must be in the SoX-ng range 1..=256"),
            EffectError::UpsampleRateOverflow => push_str_chars(&mut s, "upsample output sample rate exceeds representable rate"),
            EffectError::InvalidSpeedFactor => push_str_chars(&mut s, "speed factor must be finite and greater than zero"),
            EffectError::SpeedRateOutOfRange => push_str_chars(&mut s, "speed output sample rate must round into the representable positive rate range"),
            EffectError::InvalidStretch => push_str_chars(&mut s, "stretch factor/window/shift/fading must be finite, factor must be non-negative, window at least 1 ms, shift in (0, 1], and fading in 0..=0.5"),
            EffectError::StretchLengthOverflow => push_str_chars(&mut s, "stretch state or output frame count exceeds representable audio buffer length"),
            EffectError::InvalidTempoFactor => push_str_chars(&mut s, "tempo factor must be finite and in the SoX-ng range 0.1..=100"),
            EffectError::InvalidTempoTuning => push_str_chars(&mut s, "tempo segment/search/overlap must be finite and in the SoX-ng ranges segment 10..=120 ms, search 0..=30 ms, and overlap 0..=30 ms"),
            EffectError::TempoLengthOverflow => push_str_chars(&mut s, "tempo state or output frame count exceeds representable audio buffer length"),
            EffectError::InvalidPitchShift => push_str_chars(&mut s, "pitch shift must be finite and map to a factor in the SoX-ng range 0.01..=10"),
            EffectError::InvalidPitchTuning => push_str_chars(&mut s, "pitch segment/search/overlap must be finite and in the SoX-ng ranges segment 10..=120 ms, search 0..=30 ms, and overlap 0..=30 ms"),
            EffectError::PitchRateOutOfRange => push_str_chars(&mut s, "pitch output sample rate must round into the representable positive rate range"),
            EffectError::InvalidBend => push_str_chars(&mut s, "bend options must be in SoX-ng ranges -f 10..=80 and -o 4..=32, positions must be ordered, and cents must map to factor 0.01..=10"),
            EffectError::BendLengthOverflow => push_str_chars(&mut s, "bend STFT state or resolved position exceeds representable audio buffer length"),
            EffectError::InvalidSplice => push_str_chars(&mut s, "splice requires at least one point, finite non-negative positions, strictly increasing starts, and excess no longer than the splice position"),
            EffectError::SpliceLengthOverflow => push_str_chars(&mut s, "splice state or output frame count exceeds representable audio buffer length"),
            EffectError::InvalidCompand => push_str_chars(&mut s, "compand attack/decay times, transfer points, gain, initial volume, and delay must be finite SoX-ng-compatible values"),
            EffectError::InvalidMCompand => push_str_chars(&mut s, "mcompand bands must use valid compand settings, ascending positive crossover frequencies, and zero delay"),
            EffectError::InvalidNoiseProfile => push_str_chars(&mut s, "noiseprof profile output path and collected channel profile must be valid"),
            EffectError::InvalidNoiseReduction => push_str_chars(&mut s, "noisered profile input, amount, and channel shape must be valid"),
            EffectError::NoiseReductionLengthOverflow => push_str_chars(&mut s, "noisered output frame count exceeds representable audio buffer length"),
            EffectError::InvalidLoudness => push_str_chars(&mut s, "loudness gain must be in -50..=15 dB, reference in 50..=75 dB, and n in 127..=2047"),
            EffectError::InvalidFirCoefficients => push_str_chars(&mut s, "fir coefficients must be finite numbers and coefficient file paths must be non-empty"),
            EffectError::InvalidFirFit => push_str_chars(&mut s, "firfit knots must be finite frequency/gain pairs with strictly increasing non-negative frequencies"),
            EffectError::FirLengthOverflow => push_str_chars(&mut s, "fir output frame count exceeds representable audio buffer length"),
            EffectError::InvalidHilbert => push_str_chars(&mut s, "hilbert taps must be an odd value in the SoX-ng range 3..=1073741823"),
            EffectError::InvalidSinc => push_str_chars(&mut s, "sinc frequency and design options must be finite and in SoX-ng-compatible ranges"),
            EffectError::InvalidSilence => push_str_chars(&mut s, "silence periods, durations, thresholds, and -l usage must match SoX-ng-compatible ranges"),
            EffectError::SilenceLengthOverflow => push_str_chars(&mut s, "silence output frame count exceeds representable audio buffer length"),
            EffectError::InvalidVad => push_str_chars(&mut s, "vad threshold must be finite in 0..=1 and timing settings must be representable"),
            EffectError::VadLengthOverflow => push_str_chars(&mut s, "vad output frame count exceeds representable audio buffer length"),
            EffectError::RateLengthOverflow => push_str_chars(&mut s, "rate output frame count exceeds representable audio buffer length"),
            EffectError::InvalidRateOptions => push_str_chars(&mut s, "rate override options require medium or higher quality and must satisfy SoX-ng bandwidth constraints"),
            EffectError::InvalidBiquadCoefficients => push_str_chars(&mut s, "biquad coefficients must be finite and a0 must be nonzero"),
            EffectError::InvalidBiquadDesign => push_str_chars(&mut s, "biquad design parameters must be finite, positive, and below Nyquist where applicable"),
            EffectError::InvalidRemixRouting => push_str_chars(&mut s, "remix output specifications must contain channel numbers, ranges, or a standalone 0"),
            EffectError::RemixOutputChannelsOverflow => push_str_chars(&mut s, "remix output channel count exceeds representable audio buffer length"),
            EffectError::RemixInputChannelOutOfBounds => push_str_chars(&mut s, "remix input channel is outside the input channel count"),
            EffectError::CentercutRequiresStereo => push_str_chars(&mut s, "centercut can only process stereo input"),
            EffectError::InvalidCentercutGain => push_str_chars(&mut s, "centercut output gain must be finite"),
            EffectError::InvalidCentercutWindowSize => push_str_chars(&mut s, "centercut window size must be a power of two from 8 to 32768"),
            EffectError::InvalidDcShift => push_str_chars(&mut s, "dc shift must be finite and in the range -2.0..=2.0"),
            EffectError::MissingGainHeadroom => push_str_chars(&mut s, "gain -r requires prior gain -h headroom below full scale"),
            EffectError::NonFiniteGainSample { sample_index } => {
                push_str_chars(&mut s, "gain scan encountered non-finite sample at flattened sample ");
                push_decimal(&mut s, *sample_index as u64);
            },
            EffectError::NonFiniteNormSample { sample_index } => {
                push_str_chars(&mut s, "norm scan encountered non-finite sample at flattened sample ");
                push_decimal(&mut s, *sample_index as u64);
            },
            EffectError::InvalidVolGain => push_str_chars(&mut s, "vol gain must be finite"),
            EffectError::InvalidVolLimiterGain => push_str_chars(&mut s, "vol limiter gain must be finite, greater than 0, less than 1, and require absolute gain >= 1"),
            EffectError::InvalidContrastAmount => push_str_chars(&mut s, "contrast amount must be finite and in the range 0..=100"),
            EffectError::InvalidSoftVol => push_str_chars(&mut s, "softvol volume, double-time, and headroom must be finite and non-negative"),
            EffectError::InvalidTremolo => push_str_chars(&mut s, "tremolo speed must be finite and non-negative, and depth must be finite and in the range 0<depth<=100"),
            EffectError::InvalidOverdrive => push_str_chars(&mut s, "overdrive gain and color must be finite and in the range 0..=100"),
            EffectError::InvalidSaturation => push_str_chars(&mut s, "saturation blend and offset must be finite in 0..=1, tanh drive must be finite and >= 1, and sqrt color or diode threshold must be finite in 0..=1"),
            EffectError::FadeRegionsOverlap => push_str_chars(&mut s, "fade-out overlaps fade-in"),
            EffectError::FadeLengthOverflow => push_str_chars(&mut s, "fade stop position exceeds representable audio buffer length"),
            EffectError::InvalidStat => push_str_chars(&mut s, "stat scale must be finite and greater than zero"),
            EffectError::InvalidStats => push_str_chars(&mut s, "stats scale, bit depth, and window time must be finite and in SoX-ng-compatible ranges"),
            EffectError::InvalidSynth => push_str_chars(&mut s, "synth length, frequencies, and waveform parameters must be finite and in SoX-ng-compatible ranges"),
            EffectError::InvalidEarwaxInput => push_str_chars(&mut s, "earwax requires stereo 44.1 kHz input"),
        }
        proof {
            assert(s@ =~= effect_error_message(*self));
        }
        s
    }
}

} // verus!
