//! Effect name registry and SoX-ng coverage status.
//!
//! The registry maps stable effect names and aliases to Auralis typed effect
//! descriptors. It stores metadata only: the typed processors remain the
//! primary API for constructing effects.
use vstd::prelude::*;

use crate::text::{push_quoted, push_str_chars, quoted, chars_of, chars_eq, chars_lt, chars_start_with, lemma_seq_lt_total, seq_lt, seq_starts_with};

verus! {

/// Maximum number of suggestions reported for an unknown effect name.
pub const MAX_SUGGESTIONS: usize = 3;

/// Stable typed identifier for an Auralis effect; every implemented effect
/// in the registry table has one.
#[derive(Debug, Clone, Copy, PartialEq, Eq, Hash, Structural)]
#[non_exhaustive]
pub enum EffectKind {
    /// SoX-ng-style all-pass filter family.
    AllPass,
    /// SoX-ng-style resonator band-pass filter.
    Band,
    /// SoX-ng-style phase-vocoder pitch bend.
    Bend,
    /// SoX-ng-style RBJ band-pass filter.
    BandPass,
    /// SoX-ng-style RBJ band-reject filter. It has a kind but no entry in
    /// the registry table: `bandreject` is not resolved as implemented.
    BandReject,
    /// SoX-ng-style bass tone control.
    Bass,
    /// SoX-ng-style direct coefficient biquad IIR filter.
    Biquad,
    /// SoX-ng-style center-cut stereo separation.
    Centercut,
    /// SoX-ng-style explicit channel-count conversion.
    Channels,
    /// SoX-ng-style chorus modulation.
    Chorus,
    /// SoX-ng-style dynamic-range compander.
    Compand,
    /// SoX-ng-style phase contrast enhancement.
    Contrast,
    /// Constant normalized full-scale offset.
    DcShift,
    /// SoX-ng-style per-channel delay.
    Delay,
    /// SoX-ng-style decimating downsample.
    Downsample,
    /// SoX-ng-style parallel echo delay line.
    Echo,
    /// SoX-ng-style cascaded echo delay line.
    Echos,
    /// SoX-ng-style CD/DAT de-emphasis filter.
    Deemph,
    /// SoX-ng-style peaking equalizer filter.
    Equalizer,
    /// SoX-ng-style fade-in and optional positional fade-out envelope.
    Fade,
    /// SoX-ng-style finite impulse response filter.
    Fir,
    /// SoX-ng-style swept-delay flanger.
    Flanger,
    /// Constant gain in decibels.
    Gain,
    /// SoX-ng-style high-pass filter family.
    HighPass,
    /// SoX-ng-style ISO 226 loudness compensation.
    Loudness,
    /// SoX-ng-style low-pass filter family.
    LowPass,
    /// SoX-ng-style multiband dynamic-range compander.
    MCompand,
    /// SoX-ng-style noise profile analyzer.
    NoiseProf,
    /// SoX-ng-style spectral noise reducer.
    NoiseRed,
    /// Whole-buffer peak normalization.
    Norm,
    /// SoX-ng-style out-of-phase stereo extraction.
    Oops,
    /// SoX-ng-style overdrive distortion.
    Overdrive,
    /// Zero padding before and after the input.
    Pad,
    /// SoX-ng-style phaser swept delay with feedback.
    Phaser,
    /// SoX-ng-style pitch shift that preserves duration.
    Pitch,
    /// SoX-ng-style sample-rate conversion scaffold.
    Rate,
    /// SoX-ng-style stereo reverberation.
    Reverb,
    /// SoX-ng-style finite output repetition.
    Repeat,
    /// SoX-ng-style basic channel routing.
    Remix,
    /// Frame-order reversal within each channel.
    Reverse,
    /// SoX-ng-style RIAA vinyl playback equalization filter.
    Riaa,
    /// SoX-ng-style saturation distortion.
    Saturation,
    /// SoX-ng-style silence trimming.
    Silence,
    /// SoX-ng-style soft volume control.
    SoftVol,
    /// SoX-ng-style speed adjustment.
    Speed,
    /// SoX-ng-style cross-faded audio splice.
    Splice,
    /// SoX-ng-style basic time stretcher.
    Stretch,
    /// SoX-ng-style adjacent channel-pair swapping.
    Swap,
    /// SoX-ng-style tempo adjustment that preserves pitch.
    Tempo,
    /// SoX-ng-style treble tone control.
    Treble,
    /// SoX-ng-style sinusoidal tremolo modulation.
    Tremolo,
    /// End-exclusive frame range selection.
    Trim,
    /// SoX-ng-style zero-stuffing upsample.
    Upsample,
    /// SoX-ng-style voice activity leading trim.
    Vad,
    /// SoX-ng-style volume scaling.
    Vol,
}


/// Metadata for one implemented effect name.
///
/// Descriptors are small and static. They identify the typed API that should
/// be used for construction without storing parsed effect options.
#[derive(Debug, Clone, Copy, PartialEq, Eq)]
pub struct EffectDescriptor {
    kind: EffectKind,
    canonical_name: &'static str,
    aliases: &'static [&'static str],
    typed_api: &'static str,
    sox_ng_syntax: &'static str,
    summary: &'static str,
}

/// The mathematical content of an [`EffectDescriptor`].
#[verifier::ext_equal]
pub struct DescriptorView {
    pub kind: EffectKind,
    pub canonical_name: Seq<char>,
    pub aliases: Seq<Seq<char>>,
    pub typed_api: Seq<char>,
    pub sox_ng_syntax: Seq<char>,
    pub summary: Seq<char>,
}

impl View for EffectDescriptor {
    type V = DescriptorView;

    closed spec fn view(&self) -> DescriptorView {
        DescriptorView {
            kind: self.kind,
            canonical_name: self.canonical_name@,
            aliases: self.aliases@.map_values(|a: &str| a@),
            typed_api: self.typed_api@,
            sox_ng_syntax: self.sox_ng_syntax@,
            summary: self.summary@,
        }
    }
}

/// Number of implemented effects in the registry table.
pub open spec fn table_len() -> nat {
    54
}

/// The registry table, entry by entry, as values of the descriptor view.
pub open spec fn spec_table(i: int) -> DescriptorView {
    if i == 0 {
        DescriptorView {
            kind: EffectKind::AllPass,
            canonical_name: "allpass"@,
            aliases: Seq::empty(),
            typed_api: "AllPass"@,
            sox_ng_syntax: "allpass [-1|-2] frequency width"@,
            summary: "apply a phase-shifting all-pass filter"@,
        }
    } else if i == 1 {
        DescriptorView {
            kind: EffectKind::Band,
            canonical_name: "band"@,
            aliases: Seq::empty(),
            typed_api: "Band"@,
            sox_ng_syntax: "band [-n] frequency [width]"@,
            summary: "apply a resonator band-pass filter"@,
        }
    } else if i == 2 {
        DescriptorView {
            kind: EffectKind::BandPass,
            canonical_name: "bandpass"@,
            aliases: Seq::empty(),
            typed_api: "BandPass"@,
            sox_ng_syntax: "bandpass [-c] frequency width"@,
            summary: "apply an RBJ band-pass filter"@,
        }
    } else if i == 3 {
        DescriptorView {
            kind: EffectKind::Bass,
            canonical_name: "bass"@,
            aliases: Seq::empty(),
            typed_api: "Bass"@,
            sox_ng_syntax: "bass gain [frequency [width]]"@,
            summary: "apply a low-shelf bass tone control"@,
        }
    } else if i == 4 {
        DescriptorView {
            kind: EffectKind::Bend,
            canonical_name: "bend"@,
            aliases: Seq::empty(),
            typed_api: "Bend"@,
            sox_ng_syntax: "bend [-f frame-rate] [-o oversample] {start(+),cents,end(+)}"@,
            summary: "apply a phase-vocoder pitch bend while preserving duration"@,
        }
    } else if i == 5 {
        DescriptorView {
            kind: EffectKind::Biquad,
            canonical_name: "biquad"@,
            aliases: Seq::empty(),
            typed_api: "Biquad"@,
            sox_ng_syntax: "biquad b0 b1 b2 a0 a1 a2"@,
            summary: "apply a direct coefficient second-order IIR filter"@,
        }
    } else if i == 6 {
        DescriptorView {
            kind: EffectKind::Centercut,
            canonical_name: "centercut"@,
            aliases: Seq::empty(),
            typed_api: "Centercut"@,
            sox_ng_syntax: "centercut [-a gain] [-b] [-w size]"@,
            summary: "separate stereo input into left residual, right residual, and center channels"@,
        }
    } else if i == 7 {
        DescriptorView {
            kind: EffectKind::Channels,
            canonical_name: "channels"@,
            aliases: Seq::empty(),
            typed_api: "Channels"@,
            sox_ng_syntax: "channels number"@,
            summary: "convert decoded audio to an explicit channel count"@,
        }
    } else if i == 8 {
        DescriptorView {
            kind: EffectKind::Chorus,
            canonical_name: "chorus"@,
            aliases: Seq::empty(),
            typed_api: "Chorus"@,
            sox_ng_syntax: "chorus [-n|-l|-q] [-s|-t] [gain-in [gain-out [delay decay speed depth [-sine|-triangle]]...]]"@,
            summary: "apply one or more modulated chorus delay lines"@,
        }
    } else if i == 9 {
        DescriptorView {
            kind: EffectKind::Compand,
            canonical_name: "compand"@,
            aliases: Seq::empty(),
            typed_api: "Compand"@,
            sox_ng_syntax: "compand attack,decay{,attack,decay} [soft-knee-dB:]in-dB1[,out-dB1]{,in-dB2,out-dB2} [gain [initial-volume-dB [delay]]]"@,
            summary: "apply dynamic-range companding with optional look-ahead delay"@,
        }
    } else if i == 10 {
        DescriptorView {
            kind: EffectKind::Contrast,
            canonical_name: "contrast"@,
            aliases: Seq::empty(),
            typed_api: "Contrast"@,
            sox_ng_syntax: "contrast [amount]"@,
            summary: "apply phase contrast enhancement"@,
        }
    } else if i == 11 {
        DescriptorView {
            kind: EffectKind::DcShift,
            canonical_name: "dcshift"@,
            aliases: seq!["dc-shift"@, "dc_shift"@],
            typed_api: "DcShift"@,
            sox_ng_syntax: "dcshift shift [limiter-gain]"@,
            summary: "add a constant normalized full-scale offset"@,
        }
    } else if i == 12 {
        DescriptorView {
            kind: EffectKind::Deemph,
            canonical_name: "deemph"@,
            aliases: Seq::empty(),
            typed_api: "Deemph"@,
            sox_ng_syntax: "deemph"@,
            summary: "apply a CD/DAT de-emphasis filter"@,
        }
    } else if i == 13 {
        DescriptorView {
            kind: EffectKind::Delay,
            canonical_name: "delay"@,
            aliases: Seq::empty(),
            typed_api: "Delay"@,
            sox_ng_syntax: "delay {position}"@,
            summary: "delay decoded channels by independent positions"@,
        }
    } else if i == 14 {
        DescriptorView {
            kind: EffectKind::Downsample,
            canonical_name: "downsample"@,
            aliases: Seq::empty(),
            typed_api: "Downsample"@,
            sox_ng_syntax: "downsample [factor]"@,
            summary: "drop frames by a fixed integer decimation factor"@,
        }
    } else if i == 15 {
        DescriptorView {
            kind: EffectKind::Echo,
            canonical_name: "echo"@,
            aliases: Seq::empty(),
            typed_api: "Echo"@,
            sox_ng_syntax: "echo gain-in gain-out <delay decay>"@,
            summary: "add one or more parallel delayed echoes"@,
        }
    } else if i == 16 {
        DescriptorView {
            kind: EffectKind::Echos,
            canonical_name: "echos"@,
            aliases: Seq::empty(),
            typed_api: "Echos"@,
            sox_ng_syntax: "echos gain-in gain-out <delay decay>"@,
            summary: "add one or more cascaded delayed echoes"@,
        }
    } else if i == 17 {
        DescriptorView {
            kind: EffectKind::Equalizer,
            canonical_name: "equalizer"@,
            aliases: seq!["eq"@],
            typed_api: "Equalizer"@,
            sox_ng_syntax: "equalizer frequency width gain"@,
            summary: "apply an RBJ peaking equalizer filter"@,
        }
    } else if i == 18 {
        DescriptorView {
            kind: EffectKind::Fade,
            canonical_name: "fade"@,
            aliases: Seq::empty(),
            typed_api: "Fade"@,
            sox_ng_syntax: "fade [type] fade-in-length [stop-position [fade-out-length]]"@,
            summary: "apply a typed SoX-ng fade-in and fade-out envelope"@,
        }
    } else if i == 19 {
        DescriptorView {
            kind: EffectKind::Fir,
            canonical_name: "fir"@,
            aliases: Seq::empty(),
            typed_api: "Fir"@,
            sox_ng_syntax: "fir [coefs-file | coef <coef>]"@,
            summary: "apply a finite impulse response filter from coefficients"@,
        }
    } else if i == 20 {
        DescriptorView {
            kind: EffectKind::Flanger,
            canonical_name: "flanger"@,
            aliases: Seq::empty(),
            typed_api: "Flanger"@,
            sox_ng_syntax: "flanger [-n|-l|-q] [-s|-t] [delay [depth [regen [width [speed [shape [phase [interp]]]]]]]]"@,
            summary: "apply a swept-delay flanger with feedback"@,
        }
    } else if i == 21 {
        DescriptorView {
            kind: EffectKind::Gain,
            canonical_name: "gain"@,
            aliases: seq!["gain-db"@, "gain_db"@],
            typed_api: "Gain"@,
            sox_ng_syntax: "gain [options] [gain-dB]"@,
            summary: "apply gain with optional SoX-ng level management"@,
        }
    } else if i == 22 {
        DescriptorView {
            kind: EffectKind::HighPass,
            canonical_name: "highpass"@,
            aliases: Seq::empty(),
            typed_api: "HighPass"@,
            sox_ng_syntax: "highpass [-1|-2] frequency [width]"@,
            summary: "apply a high-pass filter"@,
        }
    } else if i == 23 {
        DescriptorView {
            kind: EffectKind::Loudness,
            canonical_name: "loudness"@,
            aliases: Seq::empty(),
            typed_api: "Loudness"@,
            sox_ng_syntax: "loudness [gain [reference [n]]]"@,
            summary: "apply ISO 226 equal-loudness compensation"@,
        }
    } else if i == 24 {
        DescriptorView {
            kind: EffectKind::LowPass,
            canonical_name: "lowpass"@,
            aliases: Seq::empty(),
            typed_api: "LowPass"@,
            sox_ng_syntax: "lowpass [-1|-2] frequency [width]"@,
            summary: "apply a low-pass filter"@,
        }
    } else if i == 25 {
        DescriptorView {
            kind: EffectKind::MCompand,
            canonical_name: "mcompand"@,
            aliases: Seq::empty(),
            typed_api: "MCompand"@,
            sox_ng_syntax: "mcompand quoted_compand_args {crossover_frequency quoted_compand_args}"@,
            summary: "apply dynamic-range companding independently across crossover bands"@,
        }
    } else if i == 26 {
        DescriptorView {
            kind: EffectKind::NoiseProf,
            canonical_name: "noiseprof"@,
            aliases: Seq::empty(),
            typed_api: "NoiseProf"@,
            sox_ng_syntax: "noiseprof [profile-file(-)]"@,
            summary: "collect a SoX-ng-style spectral noise profile while passing audio through"@,
        }
    } else if i == 27 {
        DescriptorView {
            kind: EffectKind::NoiseRed,
            canonical_name: "noisered"@,
            aliases: Seq::empty(),
            typed_api: "NoiseRed"@,
            sox_ng_syntax: "noisered [profile-file(-) [amount(0.5)]]"@,
            summary: "apply spectral noise reduction from a noise profile"@,
        }
    } else if i == 28 {
        DescriptorView {
            kind: EffectKind::Norm,
            canonical_name: "norm"@,
            aliases: seq!["normalize"@, "normalise"@],
            typed_api: "Norm"@,
            sox_ng_syntax: "norm [level]"@,
            summary: "normalize peak level at this point in the effect chain"@,
        }
    } else if i == 29 {
        DescriptorView {
            kind: EffectKind::Oops,
            canonical_name: "oops"@,
            aliases: Seq::empty(),
            typed_api: "Oops"@,
            sox_ng_syntax: "oops"@,
            summary: "extract out-of-phase stereo by subtracting channel 2 from channel 1"@,
        }
    } else if i == 30 {
        DescriptorView {
            kind: EffectKind::Overdrive,
            canonical_name: "overdrive"@,
            aliases: Seq::empty(),
            typed_api: "Overdrive"@,
            sox_ng_syntax: "overdrive [gain [color]]"@,
            summary: "apply stateful cubic soft-clipping overdrive"@,
        }
    } else if i == 31 {
        DescriptorView {
            kind: EffectKind::Pad,
            canonical_name: "pad"@,
            aliases: Seq::empty(),
            typed_api: "Pad"@,
            sox_ng_syntax: "pad {length[@position]}"@,
            summary: "add zero-valued frames before, after, or inside the input"@,
        }
    } else if i == 32 {
        DescriptorView {
            kind: EffectKind::Phaser,
            canonical_name: "phaser"@,
            aliases: Seq::empty(),
            typed_api: "Phaser"@,
            sox_ng_syntax: "phaser [-n|-l|-q] [-s|-t] [gain-in [gain-out [delay [regen [speed [-s|-t]]]]]]"@,
            summary: "apply a swept-delay phaser with feedback"@,
        }
    } else if i == 33 {
        DescriptorView {
            kind: EffectKind::Pitch,
            canonical_name: "pitch"@,
            aliases: Seq::empty(),
            typed_api: "Pitch"@,
            sox_ng_syntax: "pitch [-q] shift [segment [search [overlap]]]"@,
            summary: "shift pitch in cents while preserving duration"@,
        }
    } else if i == 34 {
        DescriptorView {
            kind: EffectKind::Rate,
            canonical_name: "rate"@,
            aliases: Seq::empty(),
            typed_api: "Rate"@,
            sox_ng_syntax: "rate [quality/options] frequency"@,
            summary: "convert decoded audio to an explicit sample rate with SoX-ng-style quality metadata"@,
        }
    } else if i == 35 {
        DescriptorView {
            kind: EffectKind::Remix,
            canonical_name: "remix"@,
            aliases: Seq::empty(),
            typed_api: "Remix"@,
            sox_ng_syntax: "remix out-spec..."@,
            summary: "route and mix decoded input channels into explicit output channels"@,
        }
    } else if i == 36 {
        DescriptorView {
            kind: EffectKind::Repeat,
            canonical_name: "repeat"@,
            aliases: Seq::empty(),
            typed_api: "Repeat"@,
            sox_ng_syntax: "repeat [count]"@,
            summary: "append finite copies of the input audio"@,
        }
    } else if i == 37 {
        DescriptorView {
            kind: EffectKind::Reverb,
            canonical_name: "reverb"@,
            aliases: Seq::empty(),
            typed_api: "Reverb"@,
            sox_ng_syntax: "reverb [-w] [reverberance [HF-damping [room-scale [stereo-depth [pre-delay [wet-gain]]]]]]"@,
            summary: "apply stereo reverberation with optional wet-only output"@,
        }
    } else if i == 38 {
        DescriptorView {
            kind: EffectKind::Reverse,
            canonical_name: "reverse"@,
            aliases: Seq::empty(),
            typed_api: "Reverse"@,
            sox_ng_syntax: "reverse"@,
            summary: "reverse frame order within each channel"@,
        }
    } else if i == 39 {
        DescriptorView {
            kind: EffectKind::Riaa,
            canonical_name: "riaa"@,
            aliases: Seq::empty(),
            typed_api: "Riaa"@,
            sox_ng_syntax: "riaa"@,
            summary: "apply RIAA vinyl playback equalization"@,
        }
    } else if i == 40 {
        DescriptorView {
            kind: EffectKind::Saturation,
            canonical_name: "saturation"@,
            aliases: Seq::empty(),
            typed_api: "Saturation"@,
            sox_ng_syntax: "saturation [type [blend [offset [drive|color|threshold]]]]"@,
            summary: "apply nonlinear saturation distortion"@,
        }
    } else if i == 41 {
        DescriptorView {
            kind: EffectKind::Silence,
            canonical_name: "silence"@,
            aliases: Seq::empty(),
            typed_api: "Silence"@,
            sox_ng_syntax: "silence [-l] above-periods [duration threshold] [below-periods duration threshold]"@,
            summary: "trim leading, trailing, or middle silence"@,
        }
    } else if i == 42 {
        DescriptorView {
            kind: EffectKind::SoftVol,
            canonical_name: "softvol"@,
            aliases: seq!["soft-volume"@, "soft_volume"@],
            typed_api: "SoftVol"@,
            sox_ng_syntax: "softvol [volume [double-time [headroom]]]"@,
            summary: "apply soft volume scaling that avoids clipping"@,
        }
    } else if i == 43 {
        DescriptorView {
            kind: EffectKind::Speed,
            canonical_name: "speed"@,
            aliases: Seq::empty(),
            typed_api: "Speed"@,
            sox_ng_syntax: "speed factor[c]"@,
            summary: "change pitch and tempo together by adjusting sample-rate metadata"@,
        }
    } else if i == 44 {
        DescriptorView {
            kind: EffectKind::Splice,
            canonical_name: "splice"@,
            aliases: Seq::empty(),
            typed_api: "Splice"@,
            sox_ng_syntax: "splice [-h|-t|-q] {position[,excess[,leeway]]}"@,
            summary: "remove excess audio around splice points and cross-fade the joins"@,
        }
    } else if i == 45 {
        DescriptorView {
            kind: EffectKind::Stretch,
            canonical_name: "stretch"@,
            aliases: Seq::empty(),
            typed_api: "Stretch"@,
            sox_ng_syntax: "stretch [factor [window [fade [shift [fading]]]]]"@,
            summary: "change duration with SoX-ng's basic windowed cross-fade stretcher"@,
        }
    } else if i == 46 {
        DescriptorView {
            kind: EffectKind::Swap,
            canonical_name: "swap"@,
            aliases: Seq::empty(),
            typed_api: "Swap"@,
            sox_ng_syntax: "swap"@,
            summary: "swap adjacent decoded channel pairs"@,
        }
    } else if i == 47 {
        DescriptorView {
            kind: EffectKind::Tempo,
            canonical_name: "tempo"@,
            aliases: Seq::empty(),
            typed_api: "Tempo"@,
            sox_ng_syntax: "tempo factor"@,
            summary: "change tempo while preserving pitch with the default profile"@,
        }
    } else if i == 48 {
        DescriptorView {
            kind: EffectKind::Treble,
            canonical_name: "treble"@,
            aliases: Seq::empty(),
            typed_api: "Treble"@,
            sox_ng_syntax: "treble gain [frequency [width]]"@,
            summary: "apply a high-shelf treble tone control"@,
        }
    } else if i == 49 {
        DescriptorView {
            kind: EffectKind::Tremolo,
            canonical_name: "tremolo"@,
            aliases: Seq::empty(),
            typed_api: "Tremolo"@,
            sox_ng_syntax: "tremolo speed [depth]"@,
            summary: "apply sinusoidal low-frequency amplitude modulation"@,
        }
    } else if i == 50 {
        DescriptorView {
            kind: EffectKind::Trim,
            canonical_name: "trim"@,
            aliases: Seq::empty(),
            typed_api: "Trim"@,
            sox_ng_syntax: "trim start [length]"@,
            summary: "keep an end-exclusive frame or seconds range"@,
        }
    } else if i == 51 {
        DescriptorView {
            kind: EffectKind::Upsample,
            canonical_name: "upsample"@,
            aliases: Seq::empty(),
            typed_api: "Upsample"@,
            sox_ng_syntax: "upsample [factor]"@,
            summary: "insert zero-valued frames by a fixed integer factor"@,
        }
    } else if i == 52 {
        DescriptorView {
            kind: EffectKind::Vad,
            canonical_name: "vad"@,
            aliases: Seq::empty(),
            typed_api: "Vad"@,
            sox_ng_syntax: "vad [-b time] [-N time] [-n time] [-r amount] [-f freq] [-m time] [-M time] [-h freq] [-l freq] [-H freq] [-L freq] [-T time] [-t level] [-s time] [-g time] [-p time]"@,
            summary: "trim leading non-voice audio using a SoX-ng-style VAD command profile"@,
        }
    } else {
        DescriptorView {
            kind: EffectKind::Vol,
            canonical_name: "vol"@,
            aliases: seq!["volume"@],
            typed_api: "Vol"@,
            sox_ng_syntax: "vol gain [a|p|d(a) [limitergain]]"@,
            summary: "apply volume scaling with optional limiter gain"@,
        }
    }
}

/// Descriptors for all implemented effects, in canonical-name order.
pub fn supported_effect_table() -> (r: &'static [EffectDescriptor])
    ensures
        r@.len() == table_len(),
        forall|i: int| 0 <= i < table_len() ==> (#[trigger] r@[i])@ == spec_table(i),
{
    let r: &'static [EffectDescriptor] = &[
        EffectDescriptor {
            kind: EffectKind::AllPass,
            canonical_name: "allpass",
            aliases: &[],
            typed_api: "AllPass",
            sox_ng_syntax: "allpass [-1|-2] frequency width",
            summary: "apply a phase-shifting all-pass filter",
        },
        EffectDescriptor {
            kind: EffectKind::Band,
            canonical_name: "band",
            aliases: &[],
            typed_api: "Band",
            sox_ng_syntax: "band [-n] frequency [width]",
            summary: "apply a resonator band-pass filter",
        },
        EffectDescriptor {
            kind: EffectKind::BandPass,
            canonical_name: "bandpass",
            aliases: &[],
            typed_api: "BandPass",
            sox_ng_syntax: "bandpass [-c] frequency width",
            summary: "apply an RBJ band-pass filter",
        },
        EffectDescriptor {
            kind: EffectKind::Bass,
            canonical_name: "bass",
            aliases: &[],
            typed_api: "Bass",
            sox_ng_syntax: "bass gain [frequency [width]]",
            summary: "apply a low-shelf bass tone control",
        },
        EffectDescriptor {
            kind: EffectKind::Bend,
            canonical_name: "bend",
            aliases: &[],
            typed_api: "Bend",
            sox_ng_syntax: "bend [-f frame-rate] [-o oversample] {start(+),cents,end(+)}",
            summary: "apply a phase-vocoder pitch bend while preserving duration",
        },
        EffectDescriptor {
            kind: EffectKind::Biquad,
            canonical_name: "biquad",
            aliases: &[],
            typed_api: "Biquad",
            sox_ng_syntax: "biquad b0 b1 b2 a0 a1 a2",
            summary: "apply a direct coefficient second-order IIR filter",
        },
        EffectDescriptor {
            kind: EffectKind::Centercut,
            canonical_name: "centercut",
            aliases: &[],
            typed_api: "Centercut",
            sox_ng_syntax: "centercut [-a gain] [-b] [-w size]",
            summary: "separate stereo input into left residual, right residual, and center channels",
        },
        EffectDescriptor {
            kind: EffectKind::Channels,
            canonical_name: "channels",
            aliases: &[],
            typed_api: "Channels",
            sox_ng_syntax: "channels number",
            summary: "convert decoded audio to an explicit channel count",
        },
        EffectDescriptor {
            kind: EffectKind::Chorus,
            canonical_name: "chorus",
            aliases: &[],
            typed_api: "Chorus",
            sox_ng_syntax: "chorus [-n|-l|-q] [-s|-t] [gain-in [gain-out [delay decay speed depth [-sine|-triangle]]...]]",
            summary: "apply one or more modulated chorus delay lines",
        },
        EffectDescriptor {
            kind: EffectKind::Compand,
            canonical_name: "compand",
            aliases: &[],
            typed_api: "Compand",
            sox_ng_syntax: "compand attack,decay{,attack,decay} [soft-knee-dB:]in-dB1[,out-dB1]{,in-dB2,out-dB2} [gain [initial-volume-dB [delay]]]",
            summary: "apply dynamic-range companding with optional look-ahead delay",
        },
        EffectDescriptor {
            kind: EffectKind::Contrast,
            canonical_name: "contrast",
            aliases: &[],
            typed_api: "Contrast",
            sox_ng_syntax: "contrast [amount]",
            summary: "apply phase contrast enhancement",
        },
        EffectDescriptor {
            kind: EffectKind::DcShift,
            canonical_name: "dcshift",
            aliases: &["dc-shift", "dc_shift"],
            typed_api: "DcShift",
            sox_ng_syntax: "dcshift shift [limiter-gain]",
            summary: "add a constant normalized full-scale offset",
        },
        EffectDescriptor {
            kind: EffectKind::Deemph,
            canonical_name: "deemph",
            aliases: &[],
            typed_api: "Deemph",
            sox_ng_syntax: "deemph",
            summary: "apply a CD/DAT de-emphasis filter",
        },
        EffectDescriptor {
            kind: EffectKind::Delay,
            canonical_name: "delay",
            aliases: &[],
            typed_api: "Delay",
            sox_ng_syntax: "delay {position}",
            summary: "delay decoded channels by independent positions",
        },
        EffectDescriptor {
            kind: EffectKind::Downsample,
            canonical_name: "downsample",
            aliases: &[],
            typed_api: "Downsample",
            sox_ng_syntax: "downsample [factor]",
            summary: "drop frames by a fixed integer decimation factor",
        },
        EffectDescriptor {
            kind: EffectKind::Echo,
            canonical_name: "echo",
            aliases: &[],
            typed_api: "Echo",
            sox_ng_syntax: "echo gain-in gain-out <delay decay>",
            summary: "add one or more parallel delayed echoes",
        },
        EffectDescriptor {
            kind: EffectKind::Echos,
            canonical_name: "echos",
            aliases: &[],
            typed_api: "Echos",
            sox_ng_syntax: "echos gain-in gain-out <delay decay>",
            summary: "add one or more cascaded delayed echoes",
        },
        EffectDescriptor {
            kind: EffectKind::Equalizer,
            canonical_name: "equalizer",
            aliases: &["eq"],
            typed_api: "Equalizer",
            sox_ng_syntax: "equalizer frequency width gain",
            summary: "apply an RBJ peaking equalizer filter",
        },
        EffectDescriptor {
            kind: EffectKind::Fade,
            canonical_name: "fade",
            aliases: &[],
            typed_api: "Fade",
            sox_ng_syntax: "fade [type] fade-in-length [stop-position [fade-out-length]]",
            summary: "apply a typed SoX-ng fade-in and fade-out envelope",
        },
        EffectDescriptor {
            kind: EffectKind::Fir,
            canonical_name: "fir",
            aliases: &[],
            typed_api: "Fir",
            sox_ng_syntax: "fir [coefs-file | coef <coef>]",
            summary: "apply a finite impulse response filter from coefficients",
        },
        EffectDescriptor {
            kind: EffectKind::Flanger,
            canonical_name: "flanger",
            aliases: &[],
            typed_api: "Flanger",
            sox_ng_syntax: "flanger [-n|-l|-q] [-s|-t] [delay [depth [regen [width [speed [shape [phase [interp]]]]]]]]",
            summary: "apply a swept-delay flanger with feedback",
        },
        EffectDescriptor {
            kind: EffectKind::Gain,
            canonical_name: "gain",
            aliases: &["gain-db", "gain_db"],
            typed_api: "Gain",
            sox_ng_syntax: "gain [options] [gain-dB]",
            summary: "apply gain with optional SoX-ng level management",
        },
        EffectDescriptor {
            kind: EffectKind::HighPass,
            canonical_name: "highpass",
            aliases: &[],
            typed_api: "HighPass",
            sox_ng_syntax: "highpass [-1|-2] frequency [width]",
            summary: "apply a high-pass filter",
        },
        EffectDescriptor {
            kind: EffectKind::Loudness,
            canonical_name: "loudness",
            aliases: &[],
            typed_api: "Loudness",
            sox_ng_syntax: "loudness [gain [reference [n]]]",
            summary: "apply ISO 226 equal-loudness compensation",
        },
        EffectDescriptor {
            kind: EffectKind::LowPass,
            canonical_name: "lowpass",
            aliases: &[],
            typed_api: "LowPass",
            sox_ng_syntax: "lowpass [-1|-2] frequency [width]",
            summary: "apply a low-pass filter",
        },
        EffectDescriptor {
            kind: EffectKind::MCompand,
            canonical_name: "mcompand",
            aliases: &[],
            typed_api: "MCompand",
            sox_ng_syntax: "mcompand quoted_compand_args {crossover_frequency quoted_compand_args}",
            summary: "apply dynamic-range companding independently across crossover bands",
        },
        EffectDescriptor {
            kind: EffectKind::NoiseProf,
            canonical_name: "noiseprof",
            aliases: &[],
            typed_api: "NoiseProf",
            sox_ng_syntax: "noiseprof [profile-file(-)]",
            summary: "collect a SoX-ng-style spectral noise profile while passing audio through",
        },
        EffectDescriptor {
            kind: EffectKind::NoiseRed,
            canonical_name: "noisered",
            aliases: &[],
            typed_api: "NoiseRed",
            sox_ng_syntax: "noisered [profile-file(-) [amount(0.5)]]",
            summary: "apply spectral noise reduction from a noise profile",
        },
        EffectDescriptor {
            kind: EffectKind::Norm,
            canonical_name: "norm",
            aliases: &["normalize", "normalise"],
            typed_api: "Norm",
            sox_ng_syntax: "norm [level]",
            summary: "normalize peak level at this point in the effect chain",
        },
        EffectDescriptor {
            kind: EffectKind::Oops,
            canonical_name: "oops",
            aliases: &[],
            typed_api: "Oops",
            sox_ng_syntax: "oops",
            summary: "extract out-of-phase stereo by subtracting channel 2 from channel 1",
        },
        EffectDescriptor {
            kind: EffectKind::Overdrive,
            canonical_name: "overdrive",
            aliases: &[],
            typed_api: "Overdrive",
            sox_ng_syntax: "overdrive [gain [color]]",
            summary: "apply stateful cubic soft-clipping overdrive",
        },
        EffectDescriptor {
            kind: EffectKind::Pad,
            canonical_name: "pad",
            aliases: &[],
            typed_api: "Pad",
            sox_ng_syntax: "pad {length[@position]}",
            summary: "add zero-valued frames before, after, or inside the input",
        },
        EffectDescriptor {
            kind: EffectKind::Phaser,
            canonical_name: "phaser",
            aliases: &[],
            typed_api: "Phaser",
            sox_ng_syntax: "phaser [-n|-l|-q] [-s|-t] [gain-in [gain-out [delay [regen [speed [-s|-t]]]]]]",
            summary: "apply a swept-delay phaser with feedback",
        },
        EffectDescriptor {
            kind: EffectKind::Pitch,
            canonical_name: "pitch",
            aliases: &[],
            typed_api: "Pitch",
            sox_ng_syntax: "pitch [-q] shift [segment [search [overlap]]]",
            summary: "shift pitch in cents while preserving duration",
        },
        EffectDescriptor {
            kind: EffectKind::Rate,
            canonical_name: "rate",
            aliases: &[],
            typed_api: "Rate",
            sox_ng_syntax: "rate [quality/options] frequency",
            summary: "convert decoded audio to an explicit sample rate with SoX-ng-style quality metadata",
        },
        EffectDescriptor {
            kind: EffectKind::Remix,
            canonical_name: "remix",
            aliases: &[],
            typed_api: "Remix",
            sox_ng_syntax: "remix out-spec...",
            summary: "route and mix decoded input channels into explicit output channels",
        },
        EffectDescriptor {
            kind: EffectKind::Repeat,
            canonical_name: "repeat",
            aliases: &[],
            typed_api: "Repeat",
            sox_ng_syntax: "repeat [count]",
            summary: "append finite copies of the input audio",
        },
        EffectDescriptor {
            kind: EffectKind::Reverb,
            canonical_name: "reverb",
            aliases: &[],
            typed_api: "Reverb",
            sox_ng_syntax: "reverb [-w] [reverberance [HF-damping [room-scale [stereo-depth [pre-delay [wet-gain]]]]]]",
            summary: "apply stereo reverberation with optional wet-only output",
        },
        EffectDescriptor {
            kind: EffectKind::Reverse,
            canonical_name: "reverse",
            aliases: &[],
            typed_api: "Reverse",
            sox_ng_syntax: "reverse",
            summary: "reverse frame order within each channel",
        },
        EffectDescriptor {
            kind: EffectKind::Riaa,
            canonical_name: "riaa",
            aliases: &[],
            typed_api: "Riaa",
            sox_ng_syntax: "riaa",
            summary: "apply RIAA vinyl playback equalization",
        },
        EffectDescriptor {
            kind: EffectKind::Saturation,
            canonical_name: "saturation",
            aliases: &[],
            typed_api: "Saturation",
            sox_ng_syntax: "saturation [type [blend [offset [drive|color|threshold]]]]",
            summary: "apply nonlinear saturation distortion",
        },
        EffectDescriptor {
            kind: EffectKind::Silence,
            canonical_name: "silence",
            aliases: &[],
            typed_api: "Silence",
            sox_ng_syntax: "silence [-l] above-periods [duration threshold] [below-periods duration threshold]",
            summary: "trim leading, trailing, or middle silence",
        },
        EffectDescriptor {
            kind: EffectKind::SoftVol,
            canonical_name: "softvol",
            aliases: &["soft-volume", "soft_volume"],
            typed_api: "SoftVol",
            sox_ng_syntax: "softvol [volume [double-time [headroom]]]",
            summary: "apply soft volume scaling that avoids clipping",
        },
        EffectDescriptor {
            kind: EffectKind::Speed,
            canonical_name: "speed",
            aliases: &[],
            typed_api: "Speed",
            sox_ng_syntax: "speed factor[c]",
            summary: "change pitch and tempo together by adjusting sample-rate metadata",
        },
        EffectDescriptor {
            kind: EffectKind::Splice,
            canonical_name: "splice",
            aliases: &[],
            typed_api: "Splice",
            sox_ng_syntax: "splice [-h|-t|-q] {position[,excess[,leeway]]}",
            summary: "remove excess audio around splice points and cross-fade the joins",
        },
        EffectDescriptor {
            kind: EffectKind::Stretch,
            canonical_name: "stretch",
            aliases: &[],
            typed_api: "Stretch",
            sox_ng_syntax: "stretch [factor [window [fade [shift [fading]]]]]",
            summary: "change duration with SoX-ng's basic windowed cross-fade stretcher",
        },
        EffectDescriptor {
            kind: EffectKind::Swap,
            canonical_name: "swap",
            aliases: &[],
            typed_api: "Swap",
            sox_ng_syntax: "swap",
            summary: "swap adjacent decoded channel pairs",
        },
        EffectDescriptor {
            kind: EffectKind::Tempo,
            canonical_name: "tempo",
            aliases: &[],
            typed_api: "Tempo",
            sox_ng_syntax: "tempo factor",
            summary: "change tempo while preserving pitch with the default profile",
        },
        EffectDescriptor {
            kind: EffectKind::Treble,
            canonical_name: "treble",
            aliases: &[],
            typed_api: "Treble",
            sox_ng_syntax: "treble gain [frequency [width]]",
            summary: "apply a high-shelf treble tone control",
        },
        EffectDescriptor {
            kind: EffectKind::Tremolo,
            canonical_name: "tremolo",
            aliases: &[],
            typed_api: "Tremolo",
            sox_ng_syntax: "tremolo speed [depth]",
            summary: "apply sinusoidal low-frequency amplitude modulation",
        },
        EffectDescriptor {
            kind: EffectKind::Trim,
            canonical_name: "trim",
            aliases: &[],
            typed_api: "Trim",
            sox_ng_syntax: "trim start [length]",
            summary: "keep an end-exclusive frame or seconds range",
        },
        EffectDescriptor {
            kind: EffectKind::Upsample,
            canonical_name: "upsample",
            aliases: &[],
            typed_api: "Upsample",
            sox_ng_syntax: "upsample [factor]",
            summary: "insert zero-valued frames by a fixed integer factor",
        },
        EffectDescriptor {
            kind: EffectKind::Vad,
            canonical_name: "vad",
            aliases: &[],
            typed_api: "Vad",
            sox_ng_syntax: "vad [-b time] [-N time] [-n time] [-r amount] [-f freq] [-m time] [-M time] [-h freq] [-l freq] [-H freq] [-L freq] [-T time] [-t level] [-s time] [-g time] [-p time]",
            summary: "trim leading non-voice audio using a SoX-ng-style VAD command profile",
        },
        EffectDescriptor {
            kind: EffectKind::Vol,
            canonical_name: "vol",
            aliases: &["volume"],
            typed_api: "Vol",
            sox_ng_syntax: "vol gain [a|p|d(a) [limitergain]]",
            summary: "apply volume scaling with optional limiter gain",
        },
    ];
    proof {
        assert(r@[0]@.aliases =~= spec_table(0).aliases);
        assert(r@[1]@.aliases =~= spec_table(1).aliases);
        assert(r@[2]@.aliases =~= spec_table(2).aliases);
        assert(r@[3]@.aliases =~= spec_table(3).aliases);
        assert(r@[4]@.aliases =~= spec_table(4).aliases);
        assert(r@[5]@.aliases =~= spec_table(5).aliases);
        assert(r@[6]@.aliases =~= spec_table(6).aliases);
        assert(r@[7]@.aliases =~= spec_table(7).aliases);
        assert(r@[8]@.aliases =~= spec_table(8).aliases);
        assert(r@[9]@.aliases =~= spec_table(9).aliases);
        assert(r@[10]@.aliases =~= spec_table(10).aliases);
        assert(r@[11]@.aliases =~= spec_table(11).aliases);
        assert(r@[12]@.aliases =~= spec_table(12).aliases);
        assert(r@[13]@.aliases =~= spec_table(13).aliases);
        assert(r@[14]@.aliases =~= spec_table(14).aliases);
        assert(r@[15]@.aliases =~= spec_table(15).aliases);
        assert(r@[16]@.aliases =~= spec_table(16).aliases);
        assert(r@[17]@.aliases =~= spec_table(17).aliases);
        assert(r@[18]@.aliases =~= spec_table(18).aliases);
        assert(r@[19]@.aliases =~= spec_table(19).aliases);
        assert(r@[20]@.aliases =~= spec_table(20).aliases);
        assert(r@[21]@.aliases =~= spec_table(21).aliases);
        assert(r@[22]@.aliases =~= spec_table(22).aliases);
        assert(r@[23]@.aliases =~= spec_table(23).aliases);
        assert(r@[24]@.aliases =~= spec_table(24).aliases);
        assert(r@[25]@.aliases =~= spec_table(25).aliases);
        assert(r@[26]@.aliases =~= spec_table(26).aliases);
        assert(r@[27]@.aliases =~= spec_table(27).aliases);
        assert(r@[28]@.aliases =~= spec_table(28).aliases);
        assert(r@[29]@.aliases =~= spec_table(29).aliases);
        assert(r@[30]@.aliases =~= spec_table(30).aliases);
        assert(r@[31]@.aliases =~= spec_table(31).aliases);
        assert(r@[32]@.aliases =~= spec_table(32).aliases);
        assert(r@[33]@.aliases =~= spec_table(33).aliases);
        assert(r@[34]@.aliases =~= spec_table(34).aliases);
        assert(r@[35]@.aliases =~= spec_table(35).aliases);
        assert(r@[36]@.aliases =~= spec_table(36).aliases);
        assert(r@[37]@.aliases =~= spec_table(37).aliases);
        assert(r@[38]@.aliases =~= spec_table(38).aliases);
        assert(r@[39]@.aliases =~= spec_table(39).aliases);
        assert(r@[40]@.aliases =~= spec_table(40).aliases);
        assert(r@[41]@.aliases =~= spec_table(41).aliases);
        assert(r@[42]@.aliases =~= spec_table(42).aliases);
        assert(r@[43]@.aliases =~= spec_table(43).aliases);
        assert(r@[44]@.aliases =~= spec_table(44).aliases);
        assert(r@[45]@.aliases =~= spec_table(45).aliases);
        assert(r@[46]@.aliases =~= spec_table(46).aliases);
        assert(r@[47]@.aliases =~= spec_table(47).aliases);
        assert(r@[48]@.aliases =~= spec_table(48).aliases);
        assert(r@[49]@.aliases =~= spec_table(49).aliases);
        assert(r@[50]@.aliases =~= spec_table(50).aliases);
        assert(r@[51]@.aliases =~= spec_table(51).aliases);
        assert(r@[52]@.aliases =~= spec_table(52).aliases);
        assert(r@[53]@.aliases =~= spec_table(53).aliases);
    }
    r
}

/// Number of names in the tracked SoX-ng effect surface.
pub open spec fn known_len() -> nat {
    66
}

/// The tracked SoX-ng effect names, in alphabetical order.
pub open spec fn spec_known(i: int) -> Seq<char> {
    if i == 0 {
        "allpass"@
    } else if i == 1 {
        "band"@
    } else if i == 2 {
        "bandpass"@
    } else if i == 3 {
        "bandreject"@
    } else if i == 4 {
        "bass"@
    } else if i == 5 {
        "bend"@
    } else if i == 6 {
        "biquad"@
    } else if i == 7 {
        "centercut"@
    } else if i == 8 {
        "channels"@
    } else if i == 9 {
        "chorus"@
    } else if i == 10 {
        "compand"@
    } else if i == 11 {
        "contrast"@
    } else if i == 12 {
        "dcshift"@
    } else if i == 13 {
        "deemph"@
    } else if i == 14 {
        "delay"@
    } else if i == 15 {
        "dither"@
    } else if i == 16 {
        "divide"@
    } else if i == 17 {
        "downsample"@
    } else if i == 18 {
        "earwax"@
    } else if i == 19 {
        "echo"@
    } else if i == 20 {
        "echos"@
    } else if i == 21 {
        "equalizer"@
    } else if i == 22 {
        "fade"@
    } else if i == 23 {
        "fir"@
    } else if i == 24 {
        "firfit"@
    } else if i == 25 {
        "flanger"@
    } else if i == 26 {
        "gain"@
    } else if i == 27 {
        "highpass"@
    } else if i == 28 {
        "hilbert"@
    } else if i == 29 {
        "ladspa"@
    } else if i == 30 {
        "loudness"@
    } else if i == 31 {
        "lowpass"@
    } else if i == 32 {
        "mcompand"@
    } else if i == 33 {
        "noiseprof"@
    } else if i == 34 {
        "noisered"@
    } else if i == 35 {
        "norm"@
    } else if i == 36 {
        "oops"@
    } else if i == 37 {
        "overdrive"@
    } else if i == 38 {
        "pad"@
    } else if i == 39 {
        "phaser"@
    } else if i == 40 {
        "pitch"@
    } else if i == 41 {
        "rate"@
    } else if i == 42 {
        "remix"@
    } else if i == 43 {
        "repeat"@
    } else if i == 44 {
        "reverb"@
    } else if i == 45 {
        "reverse"@
    } else if i == 46 {
        "riaa"@
    } else if i == 47 {
        "saturation"@
    } else if i == 48 {
        "silence"@
    } else if i == 49 {
        "sinc"@
    } else if i == 50 {
        "softvol"@
    } else if i == 51 {
        "spectrogram"@
    } else if i == 52 {
        "speed"@
    } else if i == 53 {
        "splice"@
    } else if i == 54 {
        "stat"@
    } else if i == 55 {
        "stats"@
    } else if i == 56 {
        "stretch"@
    } else if i == 57 {
        "swap"@
    } else if i == 58 {
        "synth"@
    } else if i == 59 {
        "tempo"@
    } else if i == 60 {
        "treble"@
    } else if i == 61 {
        "tremolo"@
    } else if i == 62 {
        "trim"@
    } else if i == 63 {
        "upsample"@
    } else if i == 64 {
        "vad"@
    } else {
        "vol"@
    }
}

/// The SoX-ng effect names tracked by Auralis, in alphabetical order.
pub fn known_effect_table() -> (r: &'static [&'static str])
    ensures
        r@.len() == known_len(),
        forall|i: int| 0 <= i < known_len() ==> (#[trigger] r@[i])@ == spec_known(i),
{
    let r: &'static [&'static str] = &[
        "allpass",
        "band",
        "bandpass",
        "bandreject",
        "bass",
        "bend",
        "biquad",
        "centercut",
        "channels",
        "chorus",
        "compand",
        "contrast",
        "dcshift",
        "deemph",
        "delay",
        "dither",
        "divide",
        "downsample",
        "earwax",
        "echo",
        "echos",
        "equalizer",
        "fade",
        "fir",
        "firfit",
        "flanger",
        "gain",
        "highpass",
        "hilbert",
        "ladspa",
        "loudness",
        "lowpass",
        "mcompand",
        "noiseprof",
        "noisered",
        "norm",
        "oops",
        "overdrive",
        "pad",
        "phaser",
        "pitch",
        "rate",
        "remix",
        "repeat",
        "reverb",
        "reverse",
        "riaa",
        "saturation",
        "silence",
        "sinc",
        "softvol",
        "spectrogram",
        "speed",
        "splice",
        "stat",
        "stats",
        "stretch",
        "swap",
        "synth",
        "tempo",
        "treble",
        "tremolo",
        "trim",
        "upsample",
        "vad",
        "vol",
    ];
    r
}


impl EffectDescriptor {
    /// Returns the typed effect kind.
    pub fn kind(self) -> (k: EffectKind)
        ensures
            k == self@.kind,
    {
        self.kind
    }

    /// Returns the stable canonical effect name.
    ///
    /// Canonical names match the SoX-ng effect name when Auralis covers the
    /// same command family.
    pub fn canonical_name(self) -> (r: &'static str)
        ensures
            r@ == self@.canonical_name,
    {
        self.canonical_name
    }

    /// Returns additional names accepted by the registry.
    pub fn aliases(self) -> (r: &'static [&'static str])
        ensures
            r@.map_values(|a: &str| a@) == self@.aliases,
    {
        self.aliases
    }

    /// Returns the public typed API entry point for this effect.
    pub fn typed_api(self) -> (r: &'static str)
        ensures
            r@ == self@.typed_api,
    {
        self.typed_api
    }

    /// Returns the covered SoX-ng command syntax family.
    pub fn sox_ng_syntax(self) -> (r: &'static str)
        ensures
            r@ == self@.sox_ng_syntax,
    {
        self.sox_ng_syntax
    }

    /// Returns a short human-readable effect summary.
    pub fn summary(self) -> (r: &'static str)
        ensures
            r@ == self@.summary,
    {
        self.summary
    }

    /// Whether `name` is this descriptor's canonical name or one of its aliases.
    pub fn matches_name(self, name: &[char]) -> (r: bool)
        ensures
            r == descriptor_matches(self@, name@),
    {
        let canonical = chars_of(self.canonical_name);
        if chars_eq(canonical.as_slice(), name) {
            return true;
        }
        let mut i: usize = 0;
        while i < self.aliases.len()
            invariant
                0 <= i <= self.aliases@.len(),
                self@.aliases == self.aliases@.map_values(|a: &str| a@),
                forall|j: int| 0 <= j < i ==> self@.aliases[j] != name@,
            decreases self.aliases@.len() - i,
        {
            let alias = chars_of(self.aliases[i]);
            if chars_eq(alias.as_slice(), name) {
                assert(self@.aliases[i as int] == name@);
                return true;
            }
            i = i + 1;
        }
        proof {
            if self@.aliases.contains(name@) {
                let j = choose|j: int| 0 <= j < self@.aliases.len() && self@.aliases[j] == name@;
                assert(self@.aliases[j] != name@);
            }
        }
        false
    }
}

/// Whether `name` is the canonical name or an alias of descriptor `d`.
pub open spec fn descriptor_matches(d: DescriptorView, name: Seq<char>) -> bool {
    d.canonical_name == name || d.aliases.contains(name)
}

/// The first table index at or after `i` whose descriptor accepts `name`.
pub open spec fn lookup_from(name: Seq<char>, i: int) -> Option<int>
    decreases table_len() - i,
{
    if i >= table_len() {
        None
    } else if descriptor_matches(spec_table(i), name) {
        Some(i)
    } else {
        lookup_from(name, i + 1)
    }
}

/// The first table index whose descriptor accepts `name`.
pub open spec fn lookup(name: Seq<char>) -> Option<int> {
    lookup_from(name, 0)
}

/// Whether `name` is in the tracked SoX-ng effect surface.
pub open spec fn is_known_name(name: Seq<char>) -> bool {
    exists|i: int| 0 <= i < known_len() && spec_known(i) == name
}

/// Levenshtein edit distance between two character sequences.
pub open spec fn lev(a: Seq<char>, b: Seq<char>) -> nat
    decreases a.len() + b.len(),
{
    if a.len() == 0 {
        b.len()
    } else if b.len() == 0 {
        a.len()
    } else {
        let deletion = lev(a.drop_last(), b) + 1;
        let insertion = lev(a, b.drop_last()) + 1;
        let substitution = lev(a.drop_last(), b.drop_last()) + if a.last() == b.last() {
            0nat
        } else {
            1nat
        };
        min_nat(min_nat(deletion, insertion), substitution)
    }
}

/// The smaller of two naturals.
pub open spec fn min_nat(x: nat, y: nat) -> nat {
    if x <= y {
        x
    } else {
        y
    }
}

/// Lemma: the edit distance never exceeds the longer length.
pub proof fn lemma_lev_bounded(a: Seq<char>, b: Seq<char>)
    ensures
        lev(a, b) <= if a.len() >= b.len() {
            a.len()
        } else {
            b.len()
        },
    decreases a.len() + b.len(),
{
    if a.len() > 0 && b.len() > 0 {
        lemma_lev_bounded(a.drop_last(), b.drop_last());
    }
}

/// Largest edit distance at which `candidate` is still suggested.
pub open spec fn suggestion_threshold(candidate: Seq<char>) -> nat {
    threshold_of_len(candidate.len())
}

/// Distance threshold for a candidate of `len` characters.
pub open spec fn threshold_of_len(len: nat) -> nat {
    if len <= 3 {
        1
    } else if len <= 8 {
        2
    } else {
        3
    }
}

/// Whether `candidate` is close enough to `query` to be suggested: within
/// the distance threshold, or either is a prefix of the other.
pub open spec fn admissible(query: Seq<char>, candidate: Seq<char>) -> bool {
    lev(query, candidate) <= suggestion_threshold(candidate) || seq_starts_with(candidate, query)
        || seq_starts_with(query, candidate)
}

/// The (candidate name, suggested canonical name) pairs of one descriptor.
pub open spec fn entry_candidates(d: DescriptorView) -> Seq<(Seq<char>, Seq<char>)> {
    seq![(d.canonical_name, d.canonical_name)] + d.aliases.map_values(
        |a: Seq<char>| (a, d.canonical_name),
    )
}

/// Candidate pairs of the first `n` table entries, in table order.
pub open spec fn candidates_upto(n: nat) -> Seq<(Seq<char>, Seq<char>)>
    decreases n,
{
    if n == 0 {
        Seq::empty()
    } else {
        candidates_upto((n - 1) as nat) + entry_candidates(spec_table(n - 1))
    }
}

/// All candidate pairs considered when suggesting names.
pub open spec fn candidates() -> Seq<(Seq<char>, Seq<char>)> {
    candidates_upto(table_len())
}

/// Lemma: `lookup_from` finds an accepting entry at or after `i`, and
/// finds one whenever one exists there.
proof fn lemma_lookup_from(name: Seq<char>, i: int, j: int)
    requires
        0 <= i,
    ensures
        lookup_from(name, i) matches Some(k) ==> i <= k < table_len() && descriptor_matches(
            spec_table(k),
            name,
        ),
        i <= j < table_len() && descriptor_matches(spec_table(j), name) ==> lookup_from(name, i)
            is Some,
    decreases table_len() - i,
{
    if i < table_len() && !descriptor_matches(spec_table(i), name) {
        lemma_lookup_from(name, i + 1, j);
    }
}

/// Lemma: no implemented effect has an empty canonical name or alias.
proof fn lemma_table_names_nonempty(i: int)
    requires
        0 <= i < table_len(),
    ensures
        spec_table(i).canonical_name.len() > 0,
        forall|k: int| 0 <= k < spec_table(i).aliases.len() ==> #[trigger] spec_table(i).aliases[k].len() > 0,
{
    reveal_strlit("allpass");
    reveal_strlit("band");
    reveal_strlit("bend");
    reveal_strlit("bandpass");
    reveal_strlit("bass");
    reveal_strlit("biquad");
    reveal_strlit("centercut");
    reveal_strlit("channels");
    reveal_strlit("chorus");
    reveal_strlit("compand");
    reveal_strlit("mcompand");
    reveal_strlit("noiseprof");
    reveal_strlit("noisered");
    reveal_strlit("contrast");
    reveal_strlit("dcshift");
    reveal_strlit("delay");
    reveal_strlit("downsample");
    reveal_strlit("echo");
    reveal_strlit("echos");
    reveal_strlit("deemph");
    reveal_strlit("equalizer");
    reveal_strlit("fade");
    reveal_strlit("fir");
    reveal_strlit("flanger");
    reveal_strlit("gain");
    reveal_strlit("highpass");
    reveal_strlit("loudness");
    reveal_strlit("lowpass");
    reveal_strlit("norm");
    reveal_strlit("oops");
    reveal_strlit("overdrive");
    reveal_strlit("pad");
    reveal_strlit("phaser");
    reveal_strlit("pitch");
    reveal_strlit("rate");
    reveal_strlit("repeat");
    reveal_strlit("reverb");
    reveal_strlit("remix");
    reveal_strlit("reverse");
    reveal_strlit("riaa");
    reveal_strlit("saturation");
    reveal_strlit("silence");
    reveal_strlit("vad");
    reveal_strlit("softvol");
    reveal_strlit("speed");
    reveal_strlit("splice");
    reveal_strlit("stretch");
    reveal_strlit("swap");
    reveal_strlit("tempo");
    reveal_strlit("treble");
    reveal_strlit("tremolo");
    reveal_strlit("trim");
    reveal_strlit("upsample");
    reveal_strlit("vol");
    reveal_strlit("dc-shift");
    reveal_strlit("dc_shift");
    reveal_strlit("eq");
    reveal_strlit("gain-db");
    reveal_strlit("gain_db");
    reveal_strlit("normalize");
    reveal_strlit("normalise");
    reveal_strlit("soft-volume");
    reveal_strlit("soft_volume");
    reveal_strlit("volume");
}

/// The table index of the canonical name `s`, told apart by its length and
/// its first three characters, or `-1` for a name that is no canonical name
/// of that shape.
pub open spec fn canonical_index(s: Seq<char>) -> int {
    if s.len() == 7 && s[0] == 'a' && s[1] == 'l' && s[2] == 'l' {
        0
    } else if s.len() == 4 && s[0] == 'b' && s[1] == 'a' && s[2] == 'n' {
        1
    } else if s.len() == 4 && s[0] == 'b' && s[1] == 'e' && s[2] == 'n' {
        4
    } else if s.len() == 8 && s[0] == 'b' && s[1] == 'a' && s[2] == 'n' {
        2
    } else if s.len() == 4 && s[0] == 'b' && s[1] == 'a' && s[2] == 's' {
        3
    } else if s.len() == 6 && s[0] == 'b' && s[1] == 'i' && s[2] == 'q' {
        5
    } else if s.len() == 9 && s[0] == 'c' && s[1] == 'e' && s[2] == 'n' {
        6
    } else if s.len() == 8 && s[0] == 'c' && s[1] == 'h' && s[2] == 'a' {
        7
    } else if s.len() == 6 && s[0] == 'c' && s[1] == 'h' && s[2] == 'o' {
        8
    } else if s.len() == 7 && s[0] == 'c' && s[1] == 'o' && s[2] == 'm' {
        9
    } else if s.len() == 8 && s[0] == 'm' && s[1] == 'c' && s[2] == 'o' {
        25
    } else if s.len() == 9 && s[0] == 'n' && s[1] == 'o' && s[2] == 'i' {
        26
    } else if s.len() == 8 && s[0] == 'n' && s[1] == 'o' && s[2] == 'i' {
        27
    } else if s.len() == 8 && s[0] == 'c' && s[1] == 'o' && s[2] == 'n' {
        10
    } else if s.len() == 7 && s[0] == 'd' && s[1] == 'c' && s[2] == 's' {
        11
    } else if s.len() == 5 && s[0] == 'd' && s[1] == 'e' && s[2] == 'l' {
        13
    } else if s.len() == 10 && s[0] == 'd' && s[1] == 'o' && s[2] == 'w' {
        14
    } else if s.len() == 4 && s[0] == 'e' && s[1] == 'c' && s[2] == 'h' {
        15
    } else if s.len() == 5 && s[0] == 'e' && s[1] == 'c' && s[2] == 'h' {
        16
    } else if s.len() == 6 && s[0] == 'd' && s[1] == 'e' && s[2] == 'e' {
        12
    } else if s.len() == 9 && s[0] == 'e' && s[1] == 'q' && s[2] == 'u' {
        17
    } else if s.len() == 4 && s[0] == 'f' && s[1] == 'a' && s[2] == 'd' {
        18
    } else if s.len() == 3 && s[0] == 'f' && s[1] == 'i' && s[2] == 'r' {
        19
    } else if s.len() == 7 && s[0] == 'f' && s[1] == 'l' && s[2] == 'a' {
        20
    } else if s.len() == 4 && s[0] == 'g' && s[1] == 'a' && s[2] == 'i' {
        21
    } else if s.len() == 8 && s[0] == 'h' && s[1] == 'i' && s[2] == 'g' {
        22
    } else if s.len() == 8 && s[0] == 'l' && s[1] == 'o' && s[2] == 'u' {
        23
    } else if s.len() == 7 && s[0] == 'l' && s[1] == 'o' && s[2] == 'w' {
        24
    } else if s.len() == 4 && s[0] == 'n' && s[1] == 'o' && s[2] == 'r' {
        28
    } else if s.len() == 4 && s[0] == 'o' && s[1] == 'o' && s[2] == 'p' {
        29
    } else if s.len() == 9 && s[0] == 'o' && s[1] == 'v' && s[2] == 'e' {
        30
    } else if s.len() == 3 && s[0] == 'p' && s[1] == 'a' && s[2] == 'd' {
        31
    } else if s.len() == 6 && s[0] == 'p' && s[1] == 'h' && s[2] == 'a' {
        32
    } else if s.len() == 5 && s[0] == 'p' && s[1] == 'i' && s[2] == 't' {
        33
    } else if s.len() == 4 && s[0] == 'r' && s[1] == 'a' && s[2] == 't' {
        34
    } else if s.len() == 6 && s[0] == 'r' && s[1] == 'e' && s[2] == 'p' {
        36
    } else if s.len() == 6 && s[0] == 'r' && s[1] == 'e' && s[2] == 'v' {
        37
    } else if s.len() == 5 && s[0] == 'r' && s[1] == 'e' && s[2] == 'm' {
        35
    } else if s.len() == 7 && s[0] == 'r' && s[1] == 'e' && s[2] == 'v' {
        38
    } else if s.len() == 4 && s[0] == 'r' && s[1] == 'i' && s[2] == 'a' {
        39
    } else if s.len() == 10 && s[0] == 's' && s[1] == 'a' && s[2] == 't' {
        40
    } else if s.len() == 7 && s[0] == 's' && s[1] == 'i' && s[2] == 'l' {
        41
    } else if s.len() == 3 && s[0] == 'v' && s[1] == 'a' && s[2] == 'd' {
        52
    } else if s.len() == 7 && s[0] == 's' && s[1] == 'o' && s[2] == 'f' {
        42
    } else if s.len() == 5 && s[0] == 's' && s[1] == 'p' && s[2] == 'e' {
        43
    } else if s.len() == 6 && s[0] == 's' && s[1] == 'p' && s[2] == 'l' {
        44
    } else if s.len() == 7 && s[0] == 's' && s[1] == 't' && s[2] == 'r' {
        45
    } else if s.len() == 4 && s[0] == 's' && s[1] == 'w' && s[2] == 'a' {
        46
    } else if s.len() == 5 && s[0] == 't' && s[1] == 'e' && s[2] == 'm' {
        47
    } else if s.len() == 6 && s[0] == 't' && s[1] == 'r' && s[2] == 'e' {
        48
    } else if s.len() == 7 && s[0] == 't' && s[1] == 'r' && s[2] == 'e' {
        49
    } else if s.len() == 4 && s[0] == 't' && s[1] == 'r' && s[2] == 'i' {
        50
    } else if s.len() == 8 && s[0] == 'u' && s[1] == 'p' && s[2] == 's' {
        51
    } else if s.len() == 3 && s[0] == 'v' && s[1] == 'o' && s[2] == 'l' {
        53
    } else {
        -1
    }
}

/// Lemma: the canonical name of entry `i` is told apart as index `i`.
#[verifier::rlimit(50)]
proof fn lemma_canonical_index(i: int)
    requires
        0 <= i < table_len(),
    ensures
        canonical_index(spec_table(i).canonical_name) == i,
{
    reveal_strlit("allpass");
    reveal_strlit("band");
    reveal_strlit("bend");
    reveal_strlit("bandpass");
    reveal_strlit("bass");
    reveal_strlit("biquad");
    reveal_strlit("centercut");
    reveal_strlit("channels");
    reveal_strlit("chorus");
    reveal_strlit("compand");
    reveal_strlit("mcompand");
    reveal_strlit("noiseprof");
    reveal_strlit("noisered");
    reveal_strlit("contrast");
    reveal_strlit("dcshift");
    reveal_strlit("delay");
    reveal_strlit("downsample");
    reveal_strlit("echo");
    reveal_strlit("echos");
    reveal_strlit("deemph");
    reveal_strlit("equalizer");
    reveal_strlit("fade");
    reveal_strlit("fir");
    reveal_strlit("flanger");
    reveal_strlit("gain");
    reveal_strlit("highpass");
    reveal_strlit("loudness");
    reveal_strlit("lowpass");
    reveal_strlit("norm");
    reveal_strlit("oops");
    reveal_strlit("overdrive");
    reveal_strlit("pad");
    reveal_strlit("phaser");
    reveal_strlit("pitch");
    reveal_strlit("rate");
    reveal_strlit("repeat");
    reveal_strlit("reverb");
    reveal_strlit("remix");
    reveal_strlit("reverse");
    reveal_strlit("riaa");
    reveal_strlit("saturation");
    reveal_strlit("silence");
    reveal_strlit("vad");
    reveal_strlit("softvol");
    reveal_strlit("speed");
    reveal_strlit("splice");
    reveal_strlit("stretch");
    reveal_strlit("swap");
    reveal_strlit("tempo");
    reveal_strlit("treble");
    reveal_strlit("tremolo");
    reveal_strlit("trim");
    reveal_strlit("upsample");
    reveal_strlit("vol");
}

/// Lemma: no alias is told apart as a canonical name.
#[verifier::rlimit(50)]
proof fn lemma_alias_index(k: int, m: int)
    requires
        0 <= k < table_len(),
        0 <= m < spec_table(k).aliases.len(),
    ensures
        canonical_index(spec_table(k).aliases[m]) == -1,
{
    reveal_strlit("dc-shift");
    reveal_strlit("dc_shift");
    reveal_strlit("eq");
    reveal_strlit("gain-db");
    reveal_strlit("gain_db");
    reveal_strlit("normalize");
    reveal_strlit("normalise");
    reveal_strlit("soft-volume");
    reveal_strlit("soft_volume");
    reveal_strlit("volume");
}

/// Lemma: the first entry accepting `name` is `i` when no earlier entry
/// accepts it.
proof fn lemma_lookup_first(name: Seq<char>, i: int, j: int)
    requires
        0 <= j <= i < table_len(),
        descriptor_matches(spec_table(i), name),
        forall|k: int| 0 <= k < i ==> !descriptor_matches(#[trigger] spec_table(k), name),
    ensures
        lookup_from(name, j) == Some(i),
    decreases i - j,
{
    if j < i {
        lemma_lookup_first(name, i, j + 1);
    }
}

/// Lemma: each canonical name comes before the next one in the table.
#[verifier::rlimit(50)]
proof fn lemma_table_adjacent(i: int)
    requires
        0 <= i < table_len() - 1,
    ensures
        seq_lt(spec_table(i).canonical_name, spec_table(i + 1).canonical_name),
{
    if i == 0 {
        assert(seq_lt("allpass"@, "band"@)) by {
            reveal_strlit("allpass");
            reveal_strlit("band");
            reveal_with_fuel(seq_lt, 2);
        }
    } else if i == 1 {
        assert(seq_lt("band"@, "bandpass"@)) by {
            reveal_strlit("band");
            reveal_strlit("bandpass");
            reveal_with_fuel(seq_lt, 6);
        }
    } else if i == 2 {
        assert(seq_lt("bandpass"@, "bass"@)) by {
            reveal_strlit("bandpass");
            reveal_strlit("bass");
            reveal_with_fuel(seq_lt, 4);
        }
    } else if i == 3 {
        assert(seq_lt("bass"@, "bend"@)) by {
            reveal_strlit("bass");
            reveal_strlit("bend");
            reveal_with_fuel(seq_lt, 3);
        }
    } else if i == 4 {
        assert(seq_lt("bend"@, "biquad"@)) by {
            reveal_strlit("bend");
            reveal_strlit("biquad");
            reveal_with_fuel(seq_lt, 3);
        }
    } else if i == 5 {
        assert(seq_lt("biquad"@, "centercut"@)) by {
            reveal_strlit("biquad");
            reveal_strlit("centercut");
            reveal_with_fuel(seq_lt, 2);
        }
    } else if i == 6 {
        assert(seq_lt("centercut"@, "channels"@)) by {
            reveal_strlit("centercut");
            reveal_strlit("channels");
            reveal_with_fuel(seq_lt, 3);
        }
    } else if i == 7 {
        assert(seq_lt("channels"@, "chorus"@)) by {
            reveal_strlit("channels");
            reveal_strlit("chorus");
            reveal_with_fuel(seq_lt, 4);
        }
    } else if i == 8 {
        assert(seq_lt("chorus"@, "compand"@)) by {
            reveal_strlit("chorus");
            reveal_strlit("compand");
            reveal_with_fuel(seq_lt, 3);
        }
    } else if i == 9 {
        assert(seq_lt("compand"@, "contrast"@)) by {
            reveal_strlit("compand");
            reveal_strlit("contrast");
            reveal_with_fuel(seq_lt, 4);
        }
    } else if i == 10 {
        assert(seq_lt("contrast"@, "dcshift"@)) by {
            reveal_strlit("contrast");
            reveal_strlit("dcshift");
            reveal_with_fuel(seq_lt, 2);
        }
    } else if i == 11 {
        assert(seq_lt("dcshift"@, "deemph"@)) by {
            reveal_strlit("dcshift");
            reveal_strlit("deemph");
            reveal_with_fuel(seq_lt, 3);
        }
    } else if i == 12 {
        assert(seq_lt("deemph"@, "delay"@)) by {
            reveal_strlit("deemph");
            reveal_strlit("delay");
            reveal_with_fuel(seq_lt, 4);
        }
    } else if i == 13 {
        assert(seq_lt("delay"@, "downsample"@)) by {
            reveal_strlit("delay");
            reveal_strlit("downsample");
            reveal_with_fuel(seq_lt, 3);
        }
    } else if i == 14 {
        assert(seq_lt("downsample"@, "echo"@)) by {
            reveal_strlit("downsample");
            reveal_strlit("echo");
            reveal_with_fuel(seq_lt, 2);
        }
    } else if i == 15 {
        assert(seq_lt("echo"@, "echos"@)) by {
            reveal_strlit("echo");
            reveal_strlit("echos");
            reveal_with_fuel(seq_lt, 6);
        }
    } else if i == 16 {
        assert(seq_lt("echos"@, "equalizer"@)) by {
            reveal_strlit("echos");
            reveal_strlit("equalizer");
            reveal_with_fuel(seq_lt, 3);
        }
    } else if i == 17 {
        assert(seq_lt("equalizer"@, "fade"@)) by {
            reveal_strlit("equalizer");
            reveal_strlit("fade");
            reveal_with_fuel(seq_lt, 2);
        }
    } else if i == 18 {
        assert(seq_lt("fade"@, "fir"@)) by {
            reveal_strlit("fade");
            reveal_strlit("fir");
            reveal_with_fuel(seq_lt, 3);
        }
    } else if i == 19 {
        assert(seq_lt("fir"@, "flanger"@)) by {
            reveal_strlit("fir");
            reveal_strlit("flanger");
            reveal_with_fuel(seq_lt, 3);
        }
    } else if i == 20 {
        assert(seq_lt("flanger"@, "gain"@)) by {
            reveal_strlit("flanger");
            reveal_strlit("gain");
            reveal_with_fuel(seq_lt, 2);
        }
    } else if i == 21 {
        assert(seq_lt("gain"@, "highpass"@)) by {
            reveal_strlit("gain");
            reveal_strlit("highpass");
            reveal_with_fuel(seq_lt, 2);
        }
    } else if i == 22 {
        assert(seq_lt("highpass"@, "loudness"@)) by {
            reveal_strlit("highpass");
            reveal_strlit("loudness");
            reveal_with_fuel(seq_lt, 2);
        }
    } else if i == 23 {
        assert(seq_lt("loudness"@, "lowpass"@)) by {
            reveal_strlit("loudness");
            reveal_strlit("lowpass");
            reveal_with_fuel(seq_lt, 4);
        }
    } else if i == 24 {
        assert(seq_lt("lowpass"@, "mcompand"@)) by {
            reveal_strlit("lowpass");
            reveal_strlit("mcompand");
            reveal_with_fuel(seq_lt, 2);
        }
    } else if i == 25 {
        assert(seq_lt("mcompand"@, "noiseprof"@)) by {
            reveal_strlit("mcompand");
            reveal_strlit("noiseprof");
            reveal_with_fuel(seq_lt, 2);
        }
    } else if i == 26 {
        assert(seq_lt("noiseprof"@, "noisered"@)) by {
            reveal_strlit("noiseprof");
            reveal_strlit("noisered");
            reveal_with_fuel(seq_lt, 7);
        }
    } else if i == 27 {
        assert(seq_lt("noisered"@, "norm"@)) by {
            reveal_strlit("noisered");
            reveal_strlit("norm");
            reveal_with_fuel(seq_lt, 4);
        }
    } else if i == 28 {
        assert(seq_lt("norm"@, "oops"@)) by {
            reveal_strlit("norm");
            reveal_strlit("oops");
            reveal_with_fuel(seq_lt, 2);
        }
    } else if i == 29 {
        assert(seq_lt("oops"@, "overdrive"@)) by {
            reveal_strlit("oops");
            reveal_strlit("overdrive");
            reveal_with_fuel(seq_lt, 3);
        }
    } else if i == 30 {
        assert(seq_lt("overdrive"@, "pad"@)) by {
            reveal_strlit("overdrive");
            reveal_strlit("pad");
            reveal_with_fuel(seq_lt, 2);
        }
    } else if i == 31 {
        assert(seq_lt("pad"@, "phaser"@)) by {
            reveal_strlit("pad");
            reveal_strlit("phaser");
            reveal_with_fuel(seq_lt, 3);
        }
    } else if i == 32 {
        assert(seq_lt("phaser"@, "pitch"@)) by {
            reveal_strlit("phaser");
            reveal_strlit("pitch");
            reveal_with_fuel(seq_lt, 3);
        }
    } else if i == 33 {
        assert(seq_lt("pitch"@, "rate"@)) by {
            reveal_strlit("pitch");
            reveal_strlit("rate");
            reveal_with_fuel(seq_lt, 2);
        }
    } else if i == 34 {
        assert(seq_lt("rate"@, "remix"@)) by {
            reveal_strlit("rate");
            reveal_strlit("remix");
            reveal_with_fuel(seq_lt, 3);
        }
    } else if i == 35 {
        assert(seq_lt("remix"@, "repeat"@)) by {
            reveal_strlit("remix");
            reveal_strlit("repeat");
            reveal_with_fuel(seq_lt, 4);
        }
    } else if i == 36 {
        assert(seq_lt("repeat"@, "reverb"@)) by {
            reveal_strlit("repeat");
            reveal_strlit("reverb");
            reveal_with_fuel(seq_lt, 4);
        }
    } else if i == 37 {
        assert(seq_lt("reverb"@, "reverse"@)) by {
            reveal_strlit("reverb");
            reveal_strlit("reverse");
            reveal_with_fuel(seq_lt, 7);
        }
    } else if i == 38 {
        assert(seq_lt("reverse"@, "riaa"@)) by {
            reveal_strlit("reverse");
            reveal_strlit("riaa");
            reveal_with_fuel(seq_lt, 3);
        }
    } else if i == 39 {
        assert(seq_lt("riaa"@, "saturation"@)) by {
            reveal_strlit("riaa");
            reveal_strlit("saturation");
            reveal_with_fuel(seq_lt, 2);
        }
    } else if i == 40 {
        assert(seq_lt("saturation"@, "silence"@)) by {
            reveal_strlit("saturation");
            reveal_strlit("silence");
            reveal_with_fuel(seq_lt, 3);
        }
    } else if i == 41 {
        assert(seq_lt("silence"@, "softvol"@)) by {
            reveal_strlit("silence");
            reveal_strlit("softvol");
            reveal_with_fuel(seq_lt, 3);
        }
    } else if i == 42 {
        assert(seq_lt("softvol"@, "speed"@)) by {
            reveal_strlit("softvol");
            reveal_strlit("speed");
            reveal_with_fuel(seq_lt, 3);
        }
    } else if i == 43 {
        assert(seq_lt("speed"@, "splice"@)) by {
            reveal_strlit("speed");
            reveal_strlit("splice");
            reveal_with_fuel(seq_lt, 4);
        }
    } else if i == 44 {
        assert(seq_lt("splice"@, "stretch"@)) by {
            reveal_strlit("splice");
            reveal_strlit("stretch");
            reveal_with_fuel(seq_lt, 3);
        }
    } else if i == 45 {
        assert(seq_lt("stretch"@, "swap"@)) by {
            reveal_strlit("stretch");
            reveal_strlit("swap");
            reveal_with_fuel(seq_lt, 3);
        }
    } else if i == 46 {
        assert(seq_lt("swap"@, "tempo"@)) by {
            reveal_strlit("swap");
            reveal_strlit("tempo");
            reveal_with_fuel(seq_lt, 2);
        }
    } else if i == 47 {
        assert(seq_lt("tempo"@, "treble"@)) by {
            reveal_strlit("tempo");
            reveal_strlit("treble");
            reveal_with_fuel(seq_lt, 3);
        }
    } else if i == 48 {
        assert(seq_lt("treble"@, "tremolo"@)) by {
            reveal_strlit("treble");
            reveal_strlit("tremolo");
            reveal_with_fuel(seq_lt, 5);
        }
    } else if i == 49 {
        assert(seq_lt("tremolo"@, "trim"@)) by {
            reveal_strlit("tremolo");
            reveal_strlit("trim");
            reveal_with_fuel(seq_lt, 4);
        }
    } else if i == 50 {
        assert(seq_lt("trim"@, "upsample"@)) by {
            reveal_strlit("trim");
            reveal_strlit("upsample");
            reveal_with_fuel(seq_lt, 2);
        }
    } else if i == 51 {
        assert(seq_lt("upsample"@, "vad"@)) by {
            reveal_strlit("upsample");
            reveal_strlit("vad");
            reveal_with_fuel(seq_lt, 2);
        }
    } else if i == 52 {
        assert(seq_lt("vad"@, "vol"@)) by {
            reveal_strlit("vad");
            reveal_strlit("vol");
            reveal_with_fuel(seq_lt, 3);
        }
    }
}

/// Law: the table lists the implemented effects in canonical-name order:
/// an earlier entry's canonical name comes before a later one's.
pub proof fn lemma_table_sorted(i: int, j: int)
    requires
        0 <= i < j < table_len(),
    ensures
        seq_lt(spec_table(i).canonical_name, spec_table(j).canonical_name),
    decreases j - i,
{
    if j == i + 1 {
        lemma_table_adjacent(i);
    } else {
        lemma_table_sorted(i, j - 1);
        lemma_table_adjacent(j - 1);
        crate::text::lemma_seq_lt_trans(
            spec_table(i).canonical_name,
            spec_table(j - 1).canonical_name,
            spec_table(j).canonical_name,
        );
    }
}

/// The table index of the entry of kind `k`, or `-1` for a kind without an
/// entry.
pub open spec fn kind_index(k: EffectKind) -> int {
    match k {
        EffectKind::AllPass => 0,
        EffectKind::Band => 1,
        EffectKind::BandPass => 2,
        EffectKind::Bass => 3,
        EffectKind::Bend => 4,
        EffectKind::Biquad => 5,
        EffectKind::Centercut => 6,
        EffectKind::Channels => 7,
        EffectKind::Chorus => 8,
        EffectKind::Compand => 9,
        EffectKind::Contrast => 10,
        EffectKind::DcShift => 11,
        EffectKind::Deemph => 12,
        EffectKind::Delay => 13,
        EffectKind::Downsample => 14,
        EffectKind::Echo => 15,
        EffectKind::Echos => 16,
        EffectKind::Equalizer => 17,
        EffectKind::Fade => 18,
        EffectKind::Fir => 19,
        EffectKind::Flanger => 20,
        EffectKind::Gain => 21,
        EffectKind::HighPass => 22,
        EffectKind::Loudness => 23,
        EffectKind::LowPass => 24,
        EffectKind::MCompand => 25,
        EffectKind::NoiseProf => 26,
        EffectKind::NoiseRed => 27,
        EffectKind::Norm => 28,
        EffectKind::Oops => 29,
        EffectKind::Overdrive => 30,
        EffectKind::Pad => 31,
        EffectKind::Phaser => 32,
        EffectKind::Pitch => 33,
        EffectKind::Rate => 34,
        EffectKind::Remix => 35,
        EffectKind::Repeat => 36,
        EffectKind::Reverb => 37,
        EffectKind::Reverse => 38,
        EffectKind::Riaa => 39,
        EffectKind::Saturation => 40,
        EffectKind::Silence => 41,
        EffectKind::SoftVol => 42,
        EffectKind::Speed => 43,
        EffectKind::Splice => 44,
        EffectKind::Stretch => 45,
        EffectKind::Swap => 46,
        EffectKind::Tempo => 47,
        EffectKind::Treble => 48,
        EffectKind::Tremolo => 49,
        EffectKind::Trim => 50,
        EffectKind::Upsample => 51,
        EffectKind::Vad => 52,
        EffectKind::Vol => 53,
        EffectKind::BandReject => -1,
    }
}

/// Law: the entries of the table have distinct kinds, and every kind but
/// `BandReject` has an entry: `kind_index` finds entry `i` from its kind,
/// and each kind with an index is the kind of that entry.
#[verifier::rlimit(50)]
pub proof fn lemma_table_kinds(i: int, k: EffectKind)
    requires
        0 <= i < table_len(),
    ensures
        kind_index(spec_table(i).kind) == i,
        k != EffectKind::BandReject ==> 0 <= kind_index(k) < table_len() && spec_table(
            kind_index(k),
        ).kind == k,
{
}

/// Lemma: no canonical name is one of the chain control tokens `:`,
/// `newfile` and `restart`.
pub proof fn lemma_canonical_not_control(d: int)
    requires
        0 <= d < table_len(),
    ensures
        spec_table(d).canonical_name != ":"@,
        spec_table(d).canonical_name != "newfile"@,
        spec_table(d).canonical_name != "restart"@,
{
    lemma_canonical_index(d);
    reveal_strlit(":");
    reveal_strlit("newfile");
    reveal_strlit("restart");
    assert(canonical_index(":"@) == -1);
    assert(canonical_index("newfile"@) == -1);
    assert(canonical_index("restart"@) == -1);
}

/// Law: the canonical name of every implemented effect resolves to that
/// effect's own descriptor.
pub proof fn lemma_canonical_name_resolves(i: int)
    requires
        0 <= i < table_len(),
    ensures
        resolution(spec_table(i).canonical_name) == Resolution::Found(i),
{
    let name = spec_table(i).canonical_name;
    lemma_canonical_index(i);
    assert forall|k: int| 0 <= k < i implies !descriptor_matches(#[trigger] spec_table(k), name) by {
        lemma_canonical_index(k);
        if spec_table(k).aliases.contains(name) {
            let m = choose|m: int| 0 <= m < spec_table(k).aliases.len() && spec_table(k).aliases[m] == name;
            lemma_alias_index(k, m);
        }
    }
    lemma_lookup_first(name, i, 0);
    lemma_table_names_nonempty(i);
}

/// Lemma: a name found in the table is found at a table index whose entry
/// accepts it.
pub proof fn lemma_found_in_table(name: Seq<char>)
    ensures
        resolution(name) matches Resolution::Found(i) ==> 0 <= i < table_len() && descriptor_matches(
            spec_table(i),
            name,
        ),
{
    lemma_lookup_from(name, 0, 0);
}

/// The table index of the entry that lists `s` as an alias, told apart by
/// its length and first character, or `-1`.
pub open spec fn alias_owner(s: Seq<char>) -> int {
    if s.len() == 8 && s[0] == 'd' {
        11
    } else if s.len() == 2 && s[0] == 'e' {
        17
    } else if s.len() == 7 && s[0] == 'g' {
        21
    } else if s.len() == 9 && s[0] == 'n' {
        28
    } else if s.len() == 11 && s[0] == 's' {
        42
    } else if s.len() == 6 && s[0] == 'v' {
        53
    } else {
        -1
    }
}

/// Lemma: every alias is told apart as the alias of its own entry.
#[verifier::rlimit(50)]
proof fn lemma_alias_owner(k: int, m: int)
    requires
        0 <= k < table_len(),
        0 <= m < spec_table(k).aliases.len(),
    ensures
        alias_owner(spec_table(k).aliases[m]) == k,
{
    reveal_strlit("dc-shift");
    reveal_strlit("dc_shift");
    reveal_strlit("eq");
    reveal_strlit("gain-db");
    reveal_strlit("gain_db");
    reveal_strlit("normalize");
    reveal_strlit("normalise");
    reveal_strlit("soft-volume");
    reveal_strlit("soft_volume");
    reveal_strlit("volume");
}

/// Law: every alias of an implemented effect resolves to the descriptor
/// that lists it; so no alias is a canonical name, and no two descriptors
/// share an alias.
pub proof fn lemma_alias_resolves_to_owner(k: int, m: int)
    requires
        0 <= k < table_len(),
        0 <= m < spec_table(k).aliases.len(),
    ensures
        resolution(spec_table(k).aliases[m]) == Resolution::Found(k),
{
    let name = spec_table(k).aliases[m];
    lemma_alias_owner(k, m);
    lemma_alias_index(k, m);
    assert forall|j: int| 0 <= j < k implies !descriptor_matches(#[trigger] spec_table(j), name) by {
        lemma_canonical_index(j);
        if spec_table(j).aliases.contains(name) {
            let n = choose|n: int| 0 <= n < spec_table(j).aliases.len() && spec_table(j).aliases[n] == name;
            lemma_alias_owner(j, n);
        }
    }
    assert(spec_table(k).aliases.contains(name));
    lemma_lookup_first(name, k, 0);
    lemma_table_names_nonempty(k);
}

/// Law: a name resolves to a descriptor that accepts it, as its canonical
/// name or as an alias.
pub proof fn lemma_resolved_descriptor_accepts(
    name: Seq<char>,
    r: Result<&'static EffectDescriptor, EffectNameError>,
)
    requires
        resolves_to(name, r),
        r is Ok,
    ensures
        descriptor_matches(r->Ok_0@, name),
{
    lemma_lookup_from(name, 0, 0);
}

/// Law: every canonical name and every alias of an implemented effect
/// resolves to an implemented effect; it is never reported as unsupported
/// or unknown.
pub proof fn lemma_accepted_names_resolve(name: Seq<char>, i: int)
    requires
        0 <= i < table_len(),
        descriptor_matches(spec_table(i), name),
    ensures
        resolution(name) is Found,
{
    lemma_lookup_from(name, 0, i);
    if name.len() == 0 {
        lemma_table_names_nonempty(i);
    }
}

/// The smallest distance from `query` to an admissible candidate in `cs`
/// that suggests `c`, if there is one.
pub open spec fn best_in(
    query: Seq<char>,
    c: Seq<char>,
    cs: Seq<(Seq<char>, Seq<char>)>,
) -> Option<nat>
    decreases cs.len(),
{
    if cs.len() == 0 {
        None
    } else {
        let rest = best_in(query, c, cs.drop_last());
        let last = cs.last();
        if last.1 == c && admissible(query, last.0) {
            let d = lev(query, last.0);
            match rest {
                Some(r) => Some(min_nat(r, d)),
                None => Some(d),
            }
        } else {
            rest
        }
    }
}

/// The ranking distance of suggestion `c` for `query`, if `c` is offered.
pub open spec fn best_distance(query: Seq<char>, c: Seq<char>) -> Option<nat> {
    best_in(query, c, candidates())
}

/// Whether suggestion `a` ranks strictly before `b`: smaller distance first,
/// then alphabetical order.
pub open spec fn ranks_before(query: Seq<char>, a: Seq<char>, b: Seq<char>) -> bool {
    let da = best_distance(query, a)->0;
    let db = best_distance(query, b)->0;
    da < db || (da == db && seq_lt(a, b))
}

/// `r` is the suggestion list for `query`: the (at most three) best-ranked
/// offered canonical names, best first.
pub open spec fn is_suggestion_list(query: Seq<char>, r: Seq<Seq<char>>) -> bool {
    &&& r.len() <= MAX_SUGGESTIONS
    &&& forall|i: int| 0 <= i < r.len() ==> (#[trigger] best_distance(query, r[i])) is Some
    &&& forall|i: int, j: int|
        0 <= i < j < r.len() ==> ranks_before(query, #[trigger] r[i], #[trigger] r[j])
    &&& forall|c: Seq<char>|
        (#[trigger] best_distance(query, c)) is Some && !r.contains(c) ==> r.len()
            == MAX_SUGGESTIONS && ranks_before(query, r[MAX_SUGGESTIONS - 1], c)
}

/// Levenshtein edit distance between two character slices.
pub fn edit_distance(left: &[char], right: &[char]) -> (d: usize)
    ensures
        d == lev(left@, right@),
{
    let n = left.len();
    let m = right.len();
    // costs[j] holds the distance between the current prefix of `left` and
    // right[..j + 1]; `first` holds the distance to the empty prefix.
    let mut costs: Vec<u128> = Vec::new();
    let mut j: usize = 0;
    while j < m
        invariant
            m == right@.len(),
            0 <= j <= m,
            costs@.len() == j,
            forall|k: int| 0 <= k < j ==> costs@[k] == lev(Seq::empty(), right@.take(k + 1)),
        decreases m - j,
    {
        costs.push((j + 1) as u128);
        j = j + 1;
    }
    let mut first: u128 = 0;
    let mut i: usize = 0;
    while i < n
        invariant
            n == left@.len(),
            m == right@.len(),
            0 <= i <= n,
            costs@.len() == m,
            first == lev(left@.take(i as int), Seq::empty()),
            forall|k: int|
                0 <= k < m ==> costs@[k] == lev(left@.take(i as int), right@.take(k + 1)),
        decreases n - i,
    {
        let ghost li = left@.take(i as int);
        let ghost li1 = left@.take(i + 1);
        proof {
            assert(li1.drop_last() =~= li);
            assert(li1.last() == left@[i as int]);
        }
        let mut diagonal: u128 = first;
        first = (i + 1) as u128;
        let mut previous: u128 = first;
        let mut k: usize = 0;
        while k < m
            invariant
                n == left@.len(),
                m == right@.len(),
                0 <= i < n,
                0 <= k <= m,
                costs@.len() == m,
                li == left@.take(i as int),
                li1 == left@.take(i + 1),
                li1.drop_last() == li,
                li1.last() == left@[i as int],
                first == lev(li1, Seq::empty()),
                diagonal == lev(li, right@.take(k as int)),
                previous == lev(li1, right@.take(k as int)),
                forall|t: int| 0 <= t < k ==> costs@[t] == lev(li1, right@.take(t + 1)),
                forall|t: int| k <= t < m ==> costs@[t] == lev(li, right@.take(t + 1)),
            decreases m - k,
        {
            let ghost rk1 = right@.take(k + 1);
            proof {
                assert(rk1.drop_last() =~= right@.take(k as int));
                assert(rk1.last() == right@[k as int]);
                lemma_lev_bounded(li, rk1);
                lemma_lev_bounded(li1, right@.take(k as int));
                lemma_lev_bounded(li, right@.take(k as int));
            }
            let above = costs[k];
            let deletion = above + 1;
            let insertion = previous + 1;
            let substitution = if left[i] == right[k] {
                diagonal
            } else {
                diagonal + 1
            };
            let mut best = deletion;
            if insertion < best {
                best = insertion;
            }
            if substitution < best {
                best = substitution;
            }
            proof {
                assert(best == lev(li1, rk1));
            }
            costs.set(k, best);
            diagonal = above;
            previous = best;
            k = k + 1;
        }
        i = i + 1;
    }
    proof {
        assert(left@.take(n as int) =~= left@);
        assert(right@.take(m as int) =~= right@);
        lemma_lev_bounded(left@, right@);
    }
    if m == 0 {
        first as usize
    } else {
        costs[m - 1] as usize
    }
}


/// The character views of a sequence of (candidate, suggestion) string pairs.
pub open spec fn pairs_view(v: Seq<(&'static str, &'static str)>) -> Seq<(Seq<char>, Seq<char>)> {
    v.map_values(|p: (&'static str, &'static str)| (p.0@, p.1@))
}

/// All (candidate name, suggested canonical name) pairs, in table order.
fn candidate_pairs() -> (r: Vec<(&'static str, &'static str)>)
    ensures
        pairs_view(r@) == candidates(),
{
    let table = supported_effect_table();
    let mut r: Vec<(&'static str, &'static str)> = Vec::new();
    let mut i: usize = 0;
    while i < table.len()
        invariant
            table@.len() == table_len(),
            forall|j: int| 0 <= j < table_len() ==> (#[trigger] table@[j])@ == spec_table(j),
            0 <= i <= table@.len(),
            pairs_view(r@) == candidates_upto(i as nat),
        decreases table@.len() - i,
    {
        let d = table[i];
        assert(d@ == spec_table(i as int));
        let ghost entry = entry_candidates(spec_table(i as int));
        r.push((d.canonical_name, d.canonical_name));
        proof {
            assert(pairs_view(r@) =~= candidates_upto(i as nat) + entry.take(1));
        }
        let mut a: usize = 0;
        while a < d.aliases.len()
            invariant
                d@ == spec_table(i as int),
                entry == entry_candidates(d@),
                0 <= a <= d.aliases@.len(),
                d@.aliases == d.aliases@.map_values(|x: &str| x@),
                pairs_view(r@) == candidates_upto(i as nat) + entry.take(a + 1),
            decreases d.aliases@.len() - a,
        {
            let ghost before = r@;
            r.push((d.aliases[a], d.canonical_name));
            proof {
                assert(pairs_view(r@) =~= pairs_view(before).push(
                    (d.aliases@[a as int]@, d.canonical_name@),
                ));
                assert(d@.aliases[a as int] == d.aliases@[a as int]@);
                assert(d@.canonical_name == d.canonical_name@);
                assert(entry[a + 1] == (d@.aliases[a as int], d@.canonical_name));
                assert(entry.take(a + 2) =~= entry.take(a + 1).push(entry[a + 1]));
                assert(pairs_view(r@) =~= candidates_upto(i as nat) + entry.take(a + 2));
            }
            a = a + 1;
        }
        proof {
            assert(entry.take(a + 1) =~= entry);
            assert(candidates_upto((i + 1) as nat) == candidates_upto(i as nat) + entry_candidates(
                spec_table(i as int),
            ));
        }
        i = i + 1;
    }
    r
}

/// The ranking table after processing candidate prefix `cs`: one entry per
/// offered suggestion, holding its best distance so far.
pub open spec fn ranked_ok(
    query: Seq<char>,
    ranked: Seq<(&'static str, usize)>,
    cs: Seq<(Seq<char>, Seq<char>)>,
) -> bool {
    &&& forall|t: int|
        0 <= t < ranked.len() ==> best_in(query, (#[trigger] ranked[t]).0@, cs) == Some(
            ranked[t].1 as nat,
        )
    &&& forall|t1: int, t2: int|
        0 <= t1 < ranked.len() && 0 <= t2 < ranked.len() && t1 != t2 ==> (#[trigger] ranked[t1]).0@
            != (#[trigger] ranked[t2]).0@
    &&& forall|c: Seq<char>|
        (#[trigger] best_in(query, c, cs)) is Some ==> exists|t: int|
            0 <= t < ranked.len() && (#[trigger] ranked[t]).0@ == c
}

/// The distance threshold for a candidate of `len` characters.
fn threshold_for(len: usize) -> (r: usize)
    ensures
        r == threshold_of_len(len as nat),
{
    if len <= 3 {
        1
    } else if len <= 8 {
        2
    } else {
        3
    }
}

/// The index of the entry suggesting `name`, if any.
fn find_ranked(ranked: &Vec<(&'static str, usize)>, name: &[char]) -> (r: Option<usize>)
    ensures
        match r {
            Some(t) => t < ranked@.len() && ranked@[t as int].0@ == name@,
            None => forall|u: int| 0 <= u < ranked@.len() ==> (#[trigger] ranked@[u]).0@ != name@,
        },
{
    let mut t: usize = 0;
    while t < ranked.len()
        invariant
            0 <= t <= ranked@.len(),
            forall|u: int| 0 <= u < t ==> (#[trigger] ranked@[u]).0@ != name@,
        decreases ranked@.len() - t,
    {
        let existing = chars_of(ranked[t].0);
        if chars_eq(existing.as_slice(), name) {
            return Some(t);
        }
        t = t + 1;
    }
    None
}

/// Lemma: extending the candidate prefix by one pair changes the best
/// distance only for the suggestion that pair names.
proof fn lemma_best_in_push(
    query: Seq<char>,
    c: Seq<char>,
    cs: Seq<(Seq<char>, Seq<char>)>,
    x: (Seq<char>, Seq<char>),
)
    ensures
        best_in(query, c, cs.push(x)) == if x.1 == c && admissible(query, x.0) {
            match best_in(query, c, cs) {
                Some(r) => Some(min_nat(r, lev(query, x.0))),
                None => Some(lev(query, x.0)),
            }
        } else {
            best_in(query, c, cs)
        },
{
    assert(cs.push(x).drop_last() =~= cs);
}

/// Records one candidate pair in the ranking table.
fn consider_suggestion(
    query: &[char],
    ranked: &mut Vec<(&'static str, usize)>,
    candidate: &'static str,
    suggestion: &'static str,
    Ghost(cs): Ghost<Seq<(Seq<char>, Seq<char>)>>,
)
    requires
        ranked_ok(query@, old(ranked)@, cs),
    ensures
        ranked_ok(query@, final(ranked)@, cs.push((candidate@, suggestion@))),
{
    let ghost x = (candidate@, suggestion@);
    let ghost cs1 = cs.push(x);
    let candidate_chars = chars_of(candidate);
    let distance = edit_distance(query, candidate_chars.as_slice());
    let limit = threshold_for(candidate_chars.len());
    let close = distance <= limit || chars_start_with(candidate_chars.as_slice(), query)
        || chars_start_with(query, candidate_chars.as_slice());
    assert(close == admissible(query@, candidate@));
    let ghost before = ranked@;
    if !close {
        assert forall|c: Seq<char>| best_in(query@, c, cs1) == best_in(query@, c, cs) by {
            lemma_best_in_push(query@, c, cs, x);
        }
        return;
    }
    let suggestion_chars = chars_of(suggestion);
    match find_ranked(ranked, suggestion_chars.as_slice()) {
        Some(t) => {
            let entry = ranked[t];
            if distance < entry.1 {
                ranked.set(t, (entry.0, distance));
            }
            proof {
                lemma_best_in_push(query@, suggestion@, cs, x);
                assert forall|u: int| 0 <= u < ranked@.len() implies best_in(
                    query@,
                    (#[trigger] ranked@[u]).0@,
                    cs1,
                ) == Some(ranked@[u].1 as nat) by {
                    lemma_best_in_push(query@, ranked@[u].0@, cs, x);
                    if u != t {
                        assert(ranked@[u] == before[u]);
                        assert(before[u].0@ != before[t as int].0@);
                    }
                }
                assert forall|t1: int, t2: int|
                    0 <= t1 < ranked@.len() && 0 <= t2 < ranked@.len() && t1 != t2 implies (
                    #[trigger] ranked@[t1]).0@ != (#[trigger] ranked@[t2]).0@ by {
                    assert(ranked@[t1].0 == before[t1].0);
                    assert(ranked@[t2].0 == before[t2].0);
                }
                assert forall|c: Seq<char>| (#[trigger] best_in(query@, c, cs1)) is Some implies exists|
                    u: int,
                | 0 <= u < ranked@.len() && (#[trigger] ranked@[u]).0@ == c by {
                    lemma_best_in_push(query@, c, cs, x);
                    if c == suggestion@ {
                        assert(ranked@[t as int].0@ == c);
                    } else {
                        assert(best_in(query@, c, cs) is Some);
                        let u = choose|u: int| 0 <= u < before.len() && (#[trigger] before[u]).0@ == c;
                        assert(ranked@[u].0 == before[u].0);
                    }
                }
            }
        },
        None => {
            ranked.push((suggestion, distance));
            proof {
                let n = before.len() as int;
                assert(ranked@[n] == (suggestion, distance));
                assert forall|u: int| 0 <= u < ranked@.len() implies best_in(
                    query@,
                    (#[trigger] ranked@[u]).0@,
                    cs1,
                ) == Some(ranked@[u].1 as nat) by {
                    lemma_best_in_push(query@, ranked@[u].0@, cs, x);
                    if u < n {
                        assert(ranked@[u] == before[u]);
                    } else {
                        if best_in(query@, suggestion@, cs) is Some {
                            let v = choose|v: int|
                                0 <= v < before.len() && (#[trigger] before[v]).0@ == suggestion@;
                            assert(before[v].0@ != suggestion_chars@);
                        }
                    }
                }
                assert forall|t1: int, t2: int|
                    0 <= t1 < ranked@.len() && 0 <= t2 < ranked@.len() && t1 != t2 implies (
                    #[trigger] ranked@[t1]).0@ != (#[trigger] ranked@[t2]).0@ by {
                    if t1 < n {
                        assert(ranked@[t1] == before[t1]);
                    }
                    if t2 < n {
                        assert(ranked@[t2] == before[t2]);
                    }
                }
                assert forall|c: Seq<char>| (#[trigger] best_in(query@, c, cs1)) is Some implies exists|
                    u: int,
                | 0 <= u < ranked@.len() && (#[trigger] ranked@[u]).0@ == c by {
                    lemma_best_in_push(query@, c, cs, x);
                    if c == suggestion@ {
                        assert(ranked@[n].0@ == c);
                    } else {
                        assert(best_in(query@, c, cs) is Some);
                        let u = choose|u: int| 0 <= u < before.len() && (#[trigger] before[u]).0@ == c;
                        assert(ranked@[u] == before[u]);
                    }
                }
            }
        },
    }
}

/// Ranks every admissible candidate by its best distance to `query`.
fn rank_candidates(query: &[char]) -> (ranked: Vec<(&'static str, usize)>)
    ensures
        ranked_ok(query@, ranked@, candidates()),
{
    let cands = candidate_pairs();
    let mut ranked: Vec<(&'static str, usize)> = Vec::new();
    let mut k: usize = 0;
    proof {
        assert(candidates().take(0) =~= Seq::<(Seq<char>, Seq<char>)>::empty());
    }
    while k < cands.len()
        invariant
            pairs_view(cands@) == candidates(),
            0 <= k <= cands@.len(),
            ranked_ok(query@, ranked@, candidates().take(k as int)),
        decreases cands@.len() - k,
    {
        let pair = cands[k];
        proof {
            assert(pairs_view(cands@)[k as int] == (pair.0@, pair.1@));
            assert(candidates().take(k + 1) =~= candidates().take(k as int).push(
                (pair.0@, pair.1@),
            ));
        }
        consider_suggestion(query, &mut ranked, pair.0, pair.1, Ghost(candidates().take(k as int)));
        k = k + 1;
    }
    proof {
        assert(candidates().take(k as int) =~= candidates());
    }
    ranked
}


/// The character views of a sequence of string slices.
pub open spec fn strs_view(v: Seq<&'static str>) -> Seq<Seq<char>> {
    v.map_values(|x: &'static str| x@)
}

/// Whether ranking-table entry `a` ranks strictly before entry `b`.
fn entry_before(a: (&'static str, usize), b: (&'static str, usize)) -> (r: bool)
    ensures
        r == (a.1 < b.1 || (a.1 == b.1 && seq_lt(a.0@, b.0@))),
{
    if a.1 != b.1 {
        return a.1 < b.1;
    }
    let left = chars_of(a.0);
    let right = chars_of(b.0);
    chars_lt(left.as_slice(), right.as_slice())
}

/// Picks the (at most three) best-ranked suggestions from a complete
/// ranking table, best first.
fn select_suggestions(query: &[char], ranked: Vec<(&'static str, usize)>) -> (r: Vec<
    &'static str,
>)
    requires
        ranked_ok(query@, ranked@, candidates()),
    ensures
        is_suggestion_list(query@, strs_view(r@)),
{
    let ghost q = query@;
    let mut pool = ranked;
    let mut result: Vec<&'static str> = Vec::new();
    while result.len() < MAX_SUGGESTIONS && pool.len() > 0
        invariant
            result@.len() <= MAX_SUGGESTIONS,
            forall|t: int|
                0 <= t < pool@.len() ==> best_distance(q, (#[trigger] pool@[t]).0@) == Some(
                    pool@[t].1 as nat,
                ),
            forall|t1: int, t2: int|
                0 <= t1 < pool@.len() && 0 <= t2 < pool@.len() && t1 != t2 ==> (
                #[trigger] pool@[t1]).0@ != (#[trigger] pool@[t2]).0@,
            forall|c: Seq<char>|
                (#[trigger] best_distance(q, c)) is Some ==> strs_view(result@).contains(c)
                    || exists|t: int| 0 <= t < pool@.len() && (#[trigger] pool@[t]).0@ == c,
            forall|i: int|
                0 <= i < result@.len() ==> (#[trigger] best_distance(q, strs_view(result@)[i]))
                    is Some,
            forall|i: int, j: int|
                0 <= i < j < result@.len() ==> ranks_before(
                    q,
                    #[trigger] strs_view(result@)[i],
                    #[trigger] strs_view(result@)[j],
                ),
            forall|i: int, t: int|
                0 <= i < result@.len() && 0 <= t < pool@.len() ==> ranks_before(
                    q,
                    #[trigger] strs_view(result@)[i],
                    (#[trigger] pool@[t]).0@,
                ),
        decreases pool@.len(),
    {
        let mut best: usize = 0;
        let mut t: usize = 1;
        while t < pool.len()
            invariant
                1 <= t <= pool@.len(),
                0 <= best < t,
                forall|u: int|
                    0 <= u < pool@.len() ==> best_distance(q, (#[trigger] pool@[u]).0@) == Some(
                        pool@[u].1 as nat,
                    ),
                forall|t1: int, t2: int|
                    0 <= t1 < pool@.len() && 0 <= t2 < pool@.len() && t1 != t2 ==> (
                    #[trigger] pool@[t1]).0@ != (#[trigger] pool@[t2]).0@,
                forall|u: int|
                    0 <= u < t && u != best ==> ranks_before(
                        q,
                        pool@[best as int].0@,
                        (#[trigger] pool@[u]).0@,
                    ),
            decreases pool@.len() - t,
        {
            if entry_before(pool[t], pool[best]) {
                proof {
                    assert forall|u: int| 0 <= u < t + 1 && u != t implies ranks_before(
                        q,
                        pool@[t as int].0@,
                        (#[trigger] pool@[u]).0@,
                    ) by {
                        if u != best {
                            lemma_ranks_before_trans(
                                q,
                                pool@[t as int].0@,
                                pool@[best as int].0@,
                                pool@[u].0@,
                            );
                        }
                    }
                }
                best = t;
            } else {
                proof {
                    lemma_seq_lt_total(pool@[t as int].0@, pool@[best as int].0@);
                }
            }
            t = t + 1;
        }
        let chosen = pool[best];
        let ghost before_pool = pool@;
        let ghost before_result = strs_view(result@);
        result.push(chosen.0);
        pool.remove(best);
        proof {
            assert(strs_view(result@) =~= before_result.push(chosen.0@));
            assert forall|t: int| 0 <= t < pool@.len() implies ((#[trigger] pool@[t]) == if t < best {
                before_pool[t]
            } else {
                before_pool[t + 1]
            }) by {}
            assert forall|c: Seq<char>| (#[trigger] best_distance(q, c)) is Some implies strs_view(
                result@,
            ).contains(c) || exists|t: int| 0 <= t < pool@.len() && (#[trigger] pool@[t]).0@ == c by {
                if !before_result.contains(c) {
                    let t0 = choose|t0: int| 0 <= t0 < before_pool.len() && (#[trigger] before_pool[t0]).0@ == c;
                    if t0 == best {
                        assert(strs_view(result@)[before_result.len() as int] == c);
                    } else if t0 < best {
                        assert(pool@[t0].0@ == c);
                    } else {
                        assert(pool@[t0 - 1].0@ == c);
                    }
                } else {
                    let i = choose|i: int| 0 <= i < before_result.len() && before_result[i] == c;
                    assert(strs_view(result@)[i] == c);
                }
            }
            assert forall|i: int, t: int|
                0 <= i < result@.len() && 0 <= t < pool@.len() implies ranks_before(
                q,
                #[trigger] strs_view(result@)[i],
                (#[trigger] pool@[t]).0@,
            ) by {
                let t0 = if t < best {
                    t
                } else {
                    t + 1
                };
                assert(pool@[t] == before_pool[t0]);
                if i < before_result.len() {
                    assert(strs_view(result@)[i] == before_result[i]);
                } else {
                    assert(t0 != best);
                }
            }
            assert forall|i: int, j: int| 0 <= i < j < result@.len() implies ranks_before(
                q,
                #[trigger] strs_view(result@)[i],
                #[trigger] strs_view(result@)[j],
            ) by {
                assert(strs_view(result@)[i] == before_result[i]);
                if j < before_result.len() {
                    assert(strs_view(result@)[j] == before_result[j]);
                }
            }
            assert forall|i: int| 0 <= i < result@.len() implies (#[trigger] best_distance(
                q,
                strs_view(result@)[i],
            )) is Some by {
                if i < before_result.len() {
                    assert(strs_view(result@)[i] == before_result[i]);
                }
            }
        }
    }
    proof {
        let rv = strs_view(result@);
        assert forall|c: Seq<char>|
            (#[trigger] best_distance(q, c)) is Some && !rv.contains(c) implies rv.len()
                == MAX_SUGGESTIONS && ranks_before(q, rv[MAX_SUGGESTIONS - 1], c) by {
            let t = choose|t: int| 0 <= t < pool@.len() && (#[trigger] pool@[t]).0@ == c;
            assert(pool@[t].0@ == c);
        }
    }
    result
}

/// Lemma: `ranks_before` is transitive.
proof fn lemma_ranks_before_trans(q: Seq<char>, a: Seq<char>, b: Seq<char>, c: Seq<char>)
    requires
        ranks_before(q, a, b),
        ranks_before(q, b, c),
    ensures
        ranks_before(q, a, c),
{
    let da = best_distance(q, a)->0;
    let db = best_distance(q, b)->0;
    let dc = best_distance(q, c)->0;
    if da == db && db == dc {
        crate::text::lemma_seq_lt_trans(a, b, c);
    }
}

/// Lemma: `ranks_before` is a strict total order on offered names.
proof fn lemma_ranks_before_order(q: Seq<char>, a: Seq<char>, b: Seq<char>)
    ensures
        !ranks_before(q, a, a),
        !(ranks_before(q, a, b) && ranks_before(q, b, a)),
        a != b ==> ranks_before(q, a, b) || ranks_before(q, b, a),
{
    crate::text::lemma_seq_lt_total(a, b);
    crate::text::lemma_seq_lt_total(b, a);
}

/// Lemma: a name ranked before an entry of a suggestion list is itself an
/// earlier entry of the list.
proof fn lemma_suggestion_prefix_closed(q: Seq<char>, r: Seq<Seq<char>>, c: Seq<char>, k: int)
    requires
        is_suggestion_list(q, r),
        0 <= k < r.len(),
        best_distance(q, c) is Some,
        ranks_before(q, c, r[k]),
    ensures
        exists|m: int| 0 <= m < k && r[m] == c,
{
    if !r.contains(c) {
        assert(r.len() == MAX_SUGGESTIONS && ranks_before(q, r[MAX_SUGGESTIONS - 1], c));
        if k < MAX_SUGGESTIONS - 1 {
            assert(ranks_before(q, r[k], r[MAX_SUGGESTIONS - 1]));
            lemma_ranks_before_trans(q, c, r[k], r[MAX_SUGGESTIONS - 1]);
        }
        lemma_ranks_before_order(q, c, r[MAX_SUGGESTIONS - 1]);
    } else {
        let m = choose|m: int| 0 <= m < r.len() && r[m] == c;
        lemma_ranks_before_order(q, c, r[k]);
        if m > k {
            assert(ranks_before(q, r[k], r[m]));
        }
        assert(m < k);
    }
}

/// Law: the suggestion list of a name is unique: any two lists that meet
/// the ranking rules for the same name are equal.
pub proof fn lemma_suggestion_list_unique(q: Seq<char>, a: Seq<Seq<char>>, b: Seq<Seq<char>>)
    requires
        is_suggestion_list(q, a),
        is_suggestion_list(q, b),
    ensures
        a == b,
{
    lemma_suggestions_agree(q, a, b, 0);
    lemma_suggestions_agree(q, b, a, 0);
    lemma_not_shorter(q, a, b);
    lemma_not_shorter(q, b, a);
    assert(a =~= b);
}

/// Lemma: two suggestion lists for the same name agree on every index
/// they share from `k` on, given they agree before `k`.
proof fn lemma_suggestions_agree(q: Seq<char>, a: Seq<Seq<char>>, b: Seq<Seq<char>>, k: int)
    requires
        is_suggestion_list(q, a),
        is_suggestion_list(q, b),
        0 <= k,
        forall|i: int| 0 <= i < k && i < a.len() && i < b.len() ==> a[i] == b[i],
    ensures
        forall|i: int| 0 <= i < a.len() && i < b.len() ==> a[i] == b[i],
    decreases MAX_SUGGESTIONS - k,
{
    if k < a.len() && k < b.len() {
        let x = a[k];
        let y = b[k];
        assert(best_distance(q, a[k]) is Some);
        assert(best_distance(q, b[k]) is Some);
        if x != y {
            lemma_ranks_before_order(q, x, y);
            if ranks_before(q, x, y) {
                lemma_suggestion_prefix_closed(q, b, x, k);
                let m = choose|m: int| 0 <= m < k && b[m] == x;
                assert(a[m] == b[m]);
                assert(ranks_before(q, a[m], a[k]));
                lemma_ranks_before_order(q, x, x);
            } else {
                lemma_suggestion_prefix_closed(q, a, y, k);
                let m = choose|m: int| 0 <= m < k && a[m] == y;
                assert(a[m] == b[m]);
                assert(ranks_before(q, b[m], b[k]));
                lemma_ranks_before_order(q, y, y);
            }
        }
        lemma_suggestions_agree(q, a, b, k + 1);
    }
}

/// Lemma: a suggestion list that agrees with another on their common
/// prefix is not shorter than it.
proof fn lemma_not_shorter(q: Seq<char>, a: Seq<Seq<char>>, b: Seq<Seq<char>>)
    requires
        is_suggestion_list(q, a),
        is_suggestion_list(q, b),
        forall|i: int| 0 <= i < a.len() && i < b.len() ==> a[i] == b[i],
    ensures
        a.len() >= b.len(),
{
    if a.len() < b.len() {
        let k = a.len() as int;
        let y = b[k];
        assert(best_distance(q, b[k]) is Some);
        if a.contains(y) {
            let m = choose|m: int| 0 <= m < a.len() && a[m] == y;
            assert(b[m] == y);
            assert(ranks_before(q, b[m], b[k]));
            lemma_ranks_before_order(q, y, y);
        } else {
            assert(a.len() == MAX_SUGGESTIONS);
        }
    }
}

/// Deterministic canonical-name suggestions for an unknown effect name.
pub fn suggest_effect_names(name: &[char]) -> (r: Vec<&'static str>)
    ensures
        is_suggestion_list(name@, strs_view(r@)),
{
    let ranked = rank_candidates(name);
    select_suggestions(name, ranked)
}


/// Errors produced by effect name resolution.
#[derive(Debug, Clone, PartialEq, Eq)]
#[non_exhaustive]
pub enum EffectNameError {
    /// The caller supplied an empty effect name.
    EmptyName,
    /// The name is a known SoX-ng effect, but Auralis has no coverage entry yet.
    UnsupportedSoxNgEffect {
        /// The unsupported SoX-ng effect name.
        name: String,
    },
    /// The name is not known to Auralis or the tracked SoX-ng surface.
    UnknownEffect {
        /// The unknown effect name.
        name: String,
        /// Suggested canonical effect names.
        suggestions: Vec<&'static str>,
    },
}

/// How a name resolves, in the order the registry checks it.
pub enum Resolution {
    /// The name is empty.
    Empty,
    /// The name is accepted by the table entry at this index.
    Found(int),
    /// The name is a tracked SoX-ng effect without coverage.
    Unsupported,
    /// The name is unknown.
    Unknown,
}

/// The resolution of `name`.
pub open spec fn resolution(name: Seq<char>) -> Resolution {
    if name.len() == 0 {
        Resolution::Empty
    } else if lookup(name) is Some {
        Resolution::Found(lookup(name)->0)
    } else if is_known_name(name) {
        Resolution::Unsupported
    } else {
        Resolution::Unknown
    }
}

/// `r` is the result of resolving `name`.
pub open spec fn resolves_to(
    name: Seq<char>,
    r: Result<&'static EffectDescriptor, EffectNameError>,
) -> bool {
    match resolution(name) {
        Resolution::Empty => r matches Err(EffectNameError::EmptyName),
        Resolution::Found(i) => r matches Ok(d) && d@ == spec_table(i),
        Resolution::Unsupported => r matches Err(EffectNameError::UnsupportedSoxNgEffect { name: n })
            && n@ == name,
        Resolution::Unknown => r matches Err(
            EffectNameError::UnknownEffect { name: n, suggestions: s },
        ) && n@ == name && is_suggestion_list(name, strs_view(s@)),
    }
}

impl EffectNameError {
    /// Returns suggested canonical effect names for unknown names.
    pub fn suggestions(&self) -> (r: &[&'static str])
        ensures
            match self {
                EffectNameError::UnknownEffect { suggestions, .. } => r@ == suggestions@,
                _ => r@.len() == 0,
            },
    {
        match self {
            EffectNameError::UnknownEffect { suggestions, .. } => suggestions.as_slice(),
            _ => &[],
        }
    }
}

/// Looks up the first table entry accepting `name`.
pub fn descriptor_for_name(name: &[char]) -> (r: Option<&'static EffectDescriptor>)
    ensures
        match lookup(name@) {
            Some(i) => r matches Some(d) && d@ == spec_table(i),
            None => r is None,
        },
{
    let table = supported_effect_table();
    let mut i: usize = 0;
    while i < table.len()
        invariant
            table@.len() == table_len(),
            forall|j: int| 0 <= j < table_len() ==> (#[trigger] table@[j])@ == spec_table(j),
            0 <= i <= table@.len(),
            lookup(name@) == lookup_from(name@, i as int),
        decreases table@.len() - i,
    {
        let d = &table[i];
        if d.matches_name(name) {
            assert(table@[i as int]@ == spec_table(i as int));
            return Some(d);
        }
        assert(table@[i as int]@ == spec_table(i as int));
        i = i + 1;
    }
    None
}

/// Whether the characters `name` are a tracked SoX-ng effect name.
pub fn is_known_chars(name: &[char]) -> (r: bool)
    ensures
        r == is_known_name(name@),
{
    let table = known_effect_table();
    let mut i: usize = 0;
    while i < table.len()
        invariant
            table@.len() == known_len(),
            forall|j: int| 0 <= j < known_len() ==> (#[trigger] table@[j])@ == spec_known(j),
            0 <= i <= table@.len(),
            forall|j: int| 0 <= j < i ==> spec_known(j) != name@,
        decreases table@.len() - i,
    {
        let known = chars_of(table[i]);
        if chars_eq(known.as_slice(), name) {
            assert(table@[i as int]@ == spec_known(i as int));
            return true;
        }
        assert(table@[i as int]@ == spec_known(i as int));
        i = i + 1;
    }
    false
}

/// Resolves the characters `name` against the registry.
pub fn resolve_chars(name: &[char]) -> (r: Result<&'static EffectDescriptor, EffectNameError>)
    ensures
        resolves_to(name@, r),
{
    if name.len() == 0 {
        return Err(EffectNameError::EmptyName);
    }
    if let Some(descriptor) = descriptor_for_name(name) {
        return Ok(descriptor);
    }
    if is_known_chars(name) {
        return Err(
            EffectNameError::UnsupportedSoxNgEffect { name: crate::text::string_from_chars(name) },
        );
    }
    Err(
        EffectNameError::UnknownEffect {
            name: crate::text::string_from_chars(name),
            suggestions: suggest_effect_names(name),
        },
    )
}

/// Registry namespace for effect name resolution.
#[derive(Debug, Clone, Copy, Default, PartialEq, Eq)]
pub struct EffectRegistry;

impl EffectRegistry {
    /// Creates a registry value. The registry is stateless.
    pub fn new() -> (r: Self)
        ensures
            r == EffectRegistry,
    {
        EffectRegistry
    }

    /// Returns descriptors for all implemented effects.
    pub fn supported_effects() -> (r: &'static [EffectDescriptor])
        ensures
            r@.len() == table_len(),
            forall|i: int| 0 <= i < table_len() ==> (#[trigger] r@[i])@ == spec_table(i),
    {
        supported_effect_table()
    }

    /// Returns the SoX-ng effect surface tracked by Auralis.
    pub fn known_sox_ng_effects() -> (r: &'static [&'static str])
        ensures
            r@.len() == known_len(),
            forall|i: int| 0 <= i < known_len() ==> (#[trigger] r@[i])@ == spec_known(i),
    {
        known_effect_table()
    }

    /// Resolves a name or alias to an implemented typed effect descriptor.
    ///
    /// Returns [`EffectNameError::EmptyName`] for an empty name,
    /// [`EffectNameError::UnsupportedSoxNgEffect`] for a known SoX-ng effect
    /// without Auralis coverage, and [`EffectNameError::UnknownEffect`] with
    /// deterministic suggestions for any other name.
    pub fn resolve(name: &str) -> (r: Result<&'static EffectDescriptor, EffectNameError>)
        ensures
            resolves_to(name@, r),
    {
        let chars = chars_of(name);
        resolve_chars(chars.as_slice())
    }

    /// Returns whether `name` is in the tracked SoX-ng effect surface.
    pub fn is_known_sox_ng_effect(name: &str) -> (r: bool)
        ensures
            r == is_known_name(name@),
    {
        let chars = chars_of(name);
        is_known_chars(chars.as_slice())
    }
}

/// Resolves a name or alias to an implemented typed effect descriptor.
///
/// Convenience wrapper around [`EffectRegistry::resolve`].
pub fn resolve_effect_name(name: &str) -> (r: Result<&'static EffectDescriptor, EffectNameError>)
    ensures
        resolves_to(name@, r),
{
    EffectRegistry::resolve(name)
}


/// Backtick-quoted items separated by `", "`.
pub open spec fn join_quoted(items: Seq<Seq<char>>) -> Seq<char>
    decreases items.len(),
{
    if items.len() == 0 {
        Seq::empty()
    } else if items.len() == 1 {
        quoted(items[0])
    } else {
        join_quoted(items.drop_last()) + ", "@ + quoted(items.last())
    }
}

/// The mathematical content of an [`EffectNameError`].
pub enum NameErrorView {
    EmptyName,
    UnsupportedSoxNgEffect { name: Seq<char> },
    UnknownEffect { name: Seq<char>, suggestions: Seq<Seq<char>> },
}

impl View for EffectNameError {
    type V = NameErrorView;

    open spec fn view(&self) -> NameErrorView {
        match self {
            EffectNameError::EmptyName => NameErrorView::EmptyName,
            EffectNameError::UnsupportedSoxNgEffect { name } => {
                NameErrorView::UnsupportedSoxNgEffect { name: name@ }
            },
            EffectNameError::UnknownEffect { name, suggestions } => {
                NameErrorView::UnknownEffect { name: name@, suggestions: strs_view(suggestions@) }
            },
        }
    }
}

/// Law: a name that fails to resolve fails with one error: any two errors
/// that resolving the same name may give have the same content.
pub proof fn lemma_name_error_unique(name: Seq<char>, a: EffectNameError, b: EffectNameError)
    requires
        resolves_to(name, Err(a)),
        resolves_to(name, Err(b)),
    ensures
        a@ == b@,
{
    match (a, b) {
        (
            EffectNameError::UnknownEffect { suggestions: sa, .. },
            EffectNameError::UnknownEffect { suggestions: sb, .. },
        ) => {
            lemma_suggestion_list_unique(name, strs_view(sa@), strs_view(sb@));
        },
        _ => {},
    }
}

/// Law: resolving a name has one outcome. Any two results that resolving
/// the same name may give (as [`resolve_effect_name`] and
/// [`EffectRegistry::resolve`] both do) agree: both succeed with the same
/// descriptor content, or both fail with the same error content.
pub proof fn lemma_resolution_unique(
    name: Seq<char>,
    a: Result<&'static EffectDescriptor, EffectNameError>,
    b: Result<&'static EffectDescriptor, EffectNameError>,
)
    requires
        resolves_to(name, a),
        resolves_to(name, b),
    ensures
        a is Ok <==> b is Ok,
        a is Ok ==> a->Ok_0@ == b->Ok_0@,
        a is Err ==> a->Err_0@ == b->Err_0@,
{
    if a is Err {
        lemma_name_error_unique(name, a->Err_0, b->Err_0);
    }
}

/// The human-readable message of a name error.
pub open spec fn name_error_message(e: NameErrorView) -> Seq<char> {
    match e {
        NameErrorView::EmptyName => "effect name cannot be empty"@,
        NameErrorView::UnsupportedSoxNgEffect { name } => "known SoX-ng effect "@ + quoted(name)
            + " is not implemented by Auralis; missing SoX-ng coverage entry for "@ + quoted(name),
        NameErrorView::UnknownEffect { name, suggestions } => if suggestions.len() == 0 {
            "unknown effect "@ + quoted(name)
        } else if suggestions.len() == 1 {
            "unknown effect "@ + quoted(name) + "; did you mean "@ + quoted(suggestions[0]) + "?"@
        } else {
            "unknown effect "@ + quoted(name) + "; did you mean one of "@ + join_quoted(
                suggestions,
            ) + "?"@
        },
    }
}

/// Appends the backtick-quoted suggestions, separated by `", "`.
fn push_suggestions(s: &mut String, suggestions: &Vec<&'static str>)
    ensures
        final(s)@ == old(s)@ + join_quoted(strs_view(suggestions@)),
{
    let ghost start = s@;
    let mut i: usize = 0;
    while i < suggestions.len()
        invariant
            0 <= i <= suggestions@.len(),
            s@ == start + join_quoted(strs_view(suggestions@).take(i as int)),
        decreases suggestions@.len() - i,
    {
        let ghost prefix = strs_view(suggestions@).take(i as int);
        let ghost prefix1 = strs_view(suggestions@).take(i + 1);
        proof {
            assert(prefix1.drop_last() =~= prefix);
            assert(prefix1.last() == suggestions@[i as int]@);
        }
        if i > 0 {
            push_str_chars(s, ", ");
        }
        push_quoted(s, suggestions[i]);
        proof {
            if i == 0 {
                assert(prefix =~= Seq::<Seq<char>>::empty());
                assert(s@ =~= start + join_quoted(prefix1));
            } else {
                assert(s@ =~= start + join_quoted(prefix1));
            }
        }
        i = i + 1;
    }
    proof {
        assert(strs_view(suggestions@).take(i as int) =~= strs_view(suggestions@));
    }
}

impl EffectNameError {
    /// Renders the error as a human-readable message.
    pub fn message(&self) -> (r: String)
        ensures
            r@ == name_error_message(self@),
    {
        let mut s = String::new();
        match self {
            EffectNameError::EmptyName => {
                push_str_chars(&mut s, "effect name cannot be empty");
            },
            EffectNameError::UnsupportedSoxNgEffect { name } => {
                push_str_chars(&mut s, "known SoX-ng effect ");
                push_quoted(&mut s, name.as_str());
                push_str_chars(
                    &mut s,
                    " is not implemented by Auralis; missing SoX-ng coverage entry for ",
                );
                push_quoted(&mut s, name.as_str());
            },
            EffectNameError::UnknownEffect { name, suggestions } => {
                push_str_chars(&mut s, "unknown effect ");
                push_quoted(&mut s, name.as_str());
                if suggestions.len() == 1 {
                    push_str_chars(&mut s, "; did you mean ");
                    push_quoted(&mut s, suggestions[0]);
                    push_str_chars(&mut s, "?");
                } else if suggestions.len() > 1 {
                    push_str_chars(&mut s, "; did you mean one of ");
                    push_suggestions(&mut s, suggestions);
                    push_str_chars(&mut s, "?");
                }
            },
        }
        proof {
            assert(s@ =~= name_error_message(self@));
        }
        s
    }
}

} // verus!
