//! The `synth` command: an optional length and a list of channel specs.
//!
//! `synth [-n] [length] [waveform [frequency] [parameter...]]...`. Each
//! channel starts with a waveform name; the token after it is its frequency
//! unless it is another waveform, and the following tokens up to the next
//! waveform are its shape parameters (at most five). A length ending in `s`
//! is a frame count; any other length is in seconds.
use vstd::prelude::*;

use crate::command::{
    args_view, float_error, CommandErrorView, CommandResult, EffectCommandParseError,
};
use crate::decimal::{is_at_least, is_float_literal_finite, lemma_bounds, literal_finite, value_at_least};
use crate::error::EffectError;
use crate::numbers::{is_float_literal, parse_unsigned};
use crate::text::{chars_contain, chars_of, is_digit, owned, str_eq, string_from_range};

verus! {

/// Maximum number of shape parameters of one channel.
pub const MAX_SYNTH_PARAMETERS: usize = 5;

/// A `synth` waveform.
#[derive(Debug, Clone, Copy, PartialEq, Eq, Structural)]
pub enum SynthWaveform {
    /// Sine wave (`sine`, `sin`).
    Sine,
    /// Square wave (`square`).
    Square,
    /// Sawtooth wave (`sawtooth`, `saw`).
    Sawtooth,
    /// Triangle wave (`triangle`, `tri`).
    Triangle,
    /// Trapezium wave (`trapezium`, `trapetz`).
    Trapezium,
    /// Exponential wave (`exp`).
    Exp,
}

/// The length of a `synth` output.
#[derive(Debug, Clone, PartialEq, Eq)]
pub enum SynthLength {
    /// A frame count (written with an `s` suffix).
    Frames(u64),
    /// A duration in seconds, as number text.
    Seconds(String),
}

/// The mathematical content of a [`SynthLength`].
pub enum SynthLengthView {
    Frames(u64),
    Seconds(Seq<char>),
}

impl View for SynthLength {
    type V = SynthLengthView;

    open spec fn view(&self) -> SynthLengthView {
        match self {
            SynthLength::Frames(n) => SynthLengthView::Frames(*n),
            SynthLength::Seconds(s) => SynthLengthView::Seconds(s@),
        }
    }
}

/// One checked `synth` channel spec.
#[derive(Debug, Clone, PartialEq, Eq)]
pub struct SynthChannelArgs {
    /// The waveform.
    pub waveform: SynthWaveform,
    /// Frequency in Hz, as number text, if given (440 Hz otherwise).
    pub frequency: Option<String>,
    /// Shape parameters in percent, as number text.
    pub parameters: Vec<String>,
}

/// The mathematical content of a [`SynthChannelArgs`].
pub struct SynthChannelView {
    pub waveform: SynthWaveform,
    pub frequency: Option<Seq<char>>,
    pub parameters: Seq<Seq<char>>,
}

impl View for SynthChannelArgs {
    type V = SynthChannelView;

    open spec fn view(&self) -> SynthChannelView {
        SynthChannelView {
            waveform: self.waveform,
            frequency: match self.frequency {
                Some(f) => Some(f@),
                None => None,
            },
            parameters: self.parameters@.map_values(|p: String| p@),
        }
    }
}

/// The checked arguments of a `synth` command.
#[derive(Debug, Clone, PartialEq, Eq)]
pub struct SynthArgs {
    /// Whether `-n` (no headroom) was given.
    pub no_headroom: bool,
    /// The output length; only kept when channels are given.
    pub length: Option<SynthLength>,
    /// The channel specs, in order.
    pub channels: Vec<SynthChannelArgs>,
}

/// The mathematical content of a [`SynthArgs`].
pub struct SynthArgsView {
    pub no_headroom: bool,
    pub length: Option<SynthLengthView>,
    pub channels: Seq<SynthChannelView>,
}

/// The views of a sequence of channel specs.
pub open spec fn channels_view(cs: Seq<SynthChannelArgs>) -> Seq<SynthChannelView> {
    cs.map_values(|c: SynthChannelArgs| c@)
}

impl View for SynthArgs {
    type V = SynthArgsView;

    open spec fn view(&self) -> SynthArgsView {
        SynthArgsView {
            no_headroom: self.no_headroom,
            length: match self.length {
                Some(l) => Some(l@),
                None => None,
            },
            channels: channels_view(self.channels@),
        }
    }
}

/// The supported waveform named by `v`, if any.
pub open spec fn waveform_of(v: Seq<char>) -> Option<SynthWaveform> {
    if v == "sine"@ || v == "sin"@ {
        Some(SynthWaveform::Sine)
    } else if v == "square"@ {
        Some(SynthWaveform::Square)
    } else if v == "sawtooth"@ || v == "saw"@ {
        Some(SynthWaveform::Sawtooth)
    } else if v == "triangle"@ || v == "tri"@ {
        Some(SynthWaveform::Triangle)
    } else if v == "trapezium"@ || v == "trapetz"@ {
        Some(SynthWaveform::Trapezium)
    } else if v == "exp"@ {
        Some(SynthWaveform::Exp)
    } else {
        None
    }
}

/// Whether `v` names a noise or pluck waveform, which is not supported.
pub open spec fn is_noise_name(v: Seq<char>) -> bool {
    v == "whitenoise"@ || v == "noise"@ || v == "tpdfnoise"@ || v == "pinknoise"@ || v
        == "brownnoise"@ || v == "pluck"@
}

/// Whether `v` names any `synth` waveform.
pub open spec fn is_waveform_name(v: Seq<char>) -> bool {
    waveform_of(v) is Some || is_noise_name(v)
}

/// Whether `v` names a channel combine mode, which is not supported.
pub open spec fn is_combine_name(v: Seq<char>) -> bool {
    v == "create"@ || v == "mix"@ || v == "amod"@ || v == "fmod"@ || v == "vdelay"@
}

/// Whether `v` starts like a length: with a digit or a `.`.
pub open spec fn starts_like_length(v: Seq<char>) -> bool {
    v.len() > 0 && (is_digit(v[0]) || v[0] == '.')
}

/// The outcome of the waveform token `v`.
pub open spec fn waveform_outcome(effect: Seq<char>, v: Seq<char>) -> Result<
    SynthWaveform,
    CommandErrorView,
> {
    match waveform_of(v) {
        Some(w) => Ok(w),
        None => if is_noise_name(v) {
            Err(CommandErrorView::UnsupportedOption { effect, option: v })
        } else {
            Err(CommandErrorView::UnexpectedArgument { effect, argument: v })
        },
    }
}

/// The outcome of the length token `v`.
pub open spec fn length_outcome(effect: Seq<char>, v: Seq<char>) -> Result<
    SynthLengthView,
    CommandErrorView,
> {
    if v.len() > 0 && v.last() == 's' && !v.drop_last().contains('.') {
        match parse_unsigned(v.drop_last(), u64::MAX as nat) {
            Ok(n) => Ok(SynthLengthView::Frames(n as u64)),
            Err(e) => Err(
                CommandErrorView::InvalidFrameCount {
                    effect,
                    argument: "length"@,
                    value: v,
                    source: e,
                },
            ),
        }
    } else {
        match float_error(effect, "length"@, v) {
            Some(e) => Err(e),
            None => Ok(SynthLengthView::Seconds(v)),
        }
    }
}

/// The index of the first token at or after `i` that is not `-n`.
pub open spec fn leading_n(args: Seq<Seq<char>>, i: int) -> int
    decreases args.len() - i,
{
    if i < 0 || i >= args.len() || args[i] != "-n"@ {
        i
    } else {
        leading_n(args, i + 1)
    }
}

/// The index of the first waveform token at or after `j`, or the end.
pub open spec fn param_end(args: Seq<Seq<char>>, j: int) -> int
    decreases args.len() - j,
{
    if j < 0 || j >= args.len() || is_waveform_name(args[j]) {
        j
    } else {
        param_end(args, j + 1)
    }
}

/// The first non-number among `vs`, reported for `argument`.
pub open spec fn first_float_error(effect: Seq<char>, argument: Seq<char>, vs: Seq<Seq<char>>) -> Option<
    CommandErrorView,
>
    decreases vs.len(),
{
    if vs.len() == 0 {
        None
    } else {
        match first_float_error(effect, argument, vs.drop_last()) {
            Some(e) => Some(e),
            None => float_error(effect, argument, vs.last()),
        }
    }
}

/// Whether a channel's values are in range: a frequency, if given, is not
/// below zero, and every parameter is finite.
pub open spec fn synth_channel_ok(frequency: Option<Seq<char>>, params: Seq<Seq<char>>) -> bool {
    &&& (frequency matches Some(f) ==> value_at_least(f, "0"@))
    &&& forall|i: int| 0 <= i < params.len() ==> literal_finite(#[trigger] params[i])
}

/// Whether every parameter (each a number) is finite.
fn parameters_finite(parameters: &Vec<String>) -> (r: bool)
    requires
        forall|i: int| 0 <= i < parameters@.len() ==> is_float_literal(#[trigger] parameters@[i]@),
    ensures
        r == (forall|i: int| 0 <= i < parameters@.len() ==> literal_finite(#[trigger] parameters@[i]@)),
{
    let mut i: usize = 0;
    while i < parameters.len()
        invariant
            i <= parameters@.len(),
            forall|j: int| 0 <= j < parameters@.len() ==> is_float_literal(#[trigger] parameters@[j]@),
            forall|j: int| 0 <= j < i ==> literal_finite(#[trigger] parameters@[j]@),
        decreases parameters@.len() - i,
    {
        if !is_float_literal_finite(parameters[i].as_str()) {
            return false;
        }
        i = i + 1;
    }
    true
}

/// The channel spec starting at the waveform token `i`, and the index
/// after it.
pub open spec fn channel_outcome(effect: Seq<char>, args: Seq<Seq<char>>, i: int) -> Result<
    (SynthChannelView, int),
    CommandErrorView,
> {
    match waveform_outcome(effect, args[i]) {
        Err(e) => Err(e),
        Ok(w) => {
            let j = i + 1;
            if j < args.len() && is_combine_name(args[j]) {
                Err(CommandErrorView::UnsupportedOption { effect, option: args[j] })
            } else {
                let has_frequency = j < args.len() && !is_waveform_name(args[j]);
                let k = if has_frequency {
                    j + 1
                } else {
                    j
                };
                let e = param_end(args, k);
                let params = args.subrange(k, e);
                if has_frequency && float_error(effect, "frequency"@, args[j]) is Some {
                    Err(float_error(effect, "frequency"@, args[j])->0)
                } else if first_float_error(effect, "parameter"@, params) is Some {
                    Err(first_float_error(effect, "parameter"@, params)->0)
                } else if params.len() > MAX_SYNTH_PARAMETERS {
                    Err(CommandErrorView::UnexpectedArgument { effect, argument: args[e - 1] })
                } else if !synth_channel_ok(
                    if has_frequency {
                        Some(args[j])
                    } else {
                        None
                    },
                    params,
                ) {
                    Err(
                        CommandErrorView::InvalidEffectConfig {
                            effect,
                            argument: "synth"@,
                            source: EffectError::InvalidSynth,
                        },
                    )
                } else {
                    Ok(
                        (
                            SynthChannelView {
                                waveform: w,
                                frequency: if has_frequency {
                                    Some(args[j])
                                } else {
                                    None
                                },
                                parameters: params,
                            },
                            e,
                        ),
                    )
                }
            }
        },
    }
}

/// The channel specs from token `i` on, or the first error.
pub open spec fn channels_from(effect: Seq<char>, args: Seq<Seq<char>>, i: int) -> Result<
    Seq<SynthChannelView>,
    CommandErrorView,
>
    decreases args.len() - i,
{
    if i < 0 || i >= args.len() {
        Ok(Seq::empty())
    } else {
        match channel_outcome(effect, args, i) {
            Err(e) => Err(e),
            Ok((c, next)) => if i < next <= args.len() {
                match channels_from(effect, args, next) {
                    Err(e) => Err(e),
                    Ok(rest) => Ok(seq![c] + rest),
                }
            } else {
                Ok(seq![c])
            },
        }
    }
}

/// The outcome of a `synth` command.
pub open spec fn synth_outcome(effect: Seq<char>, args: Seq<Seq<char>>) -> Result<
    SynthArgsView,
    CommandErrorView,
> {
    let i0 = leading_n(args, 0);
    if i0 < args.len() && args[i0].len() > 0 && args[i0][0] == '-' {
        Err(CommandErrorView::UnsupportedOption { effect, option: args[i0] })
    } else {
        let has_length = i0 < args.len() && starts_like_length(args[i0]);
        let i1 = if has_length {
            i0 + 1
        } else {
            i0
        };
        if has_length && length_outcome(effect, args[i0]) is Err {
            Err(length_outcome(effect, args[i0])->Err_0)
        } else {
            match channels_from(effect, args, i1) {
                Err(e) => Err(e),
                Ok(channels) => Ok(
                    SynthArgsView {
                        no_headroom: i0 > 0,
                        length: if has_length && channels.len() > 0 {
                            Some(length_outcome(effect, args[i0])->Ok_0)
                        } else {
                            None
                        },
                        channels,
                    },
                ),
            }
        }
    }
}

/// Whether the token equals the literal `lit`.
fn is_word(v: &str, lit: &str) -> (r: bool)
    ensures
        r == (v@ == lit@),
{
    str_eq(v, lit)
}

/// Parses a supported waveform name.
pub fn parse_waveform(effect: &'static str, value: &str) -> (r: CommandResult<SynthWaveform>)
    ensures
        match waveform_outcome(effect@, value@) {
            Ok(w) => r == Ok::<SynthWaveform, EffectCommandParseError>(w),
            Err(e) => r matches Err(x) && x@ == e,
        },
{
    if is_word(value, "sine") || is_word(value, "sin") {
        Ok(SynthWaveform::Sine)
    } else if is_word(value, "square") {
        Ok(SynthWaveform::Square)
    } else if is_word(value, "sawtooth") || is_word(value, "saw") {
        Ok(SynthWaveform::Sawtooth)
    } else if is_word(value, "triangle") || is_word(value, "tri") {
        Ok(SynthWaveform::Triangle)
    } else if is_word(value, "trapezium") || is_word(value, "trapetz") {
        Ok(SynthWaveform::Trapezium)
    } else if is_word(value, "exp") {
        Ok(SynthWaveform::Exp)
    } else if is_noise_word(value) {
        Err(EffectCommandParseError::UnsupportedOption { effect, option: owned(value) })
    } else {
        Err(EffectCommandParseError::UnexpectedArgument { effect, argument: owned(value) })
    }
}

/// Whether `value` names a noise or pluck waveform.
fn is_noise_word(value: &str) -> (r: bool)
    ensures
        r == is_noise_name(value@),
{
    is_word(value, "whitenoise") || is_word(value, "noise") || is_word(value, "tpdfnoise")
        || is_word(value, "pinknoise") || is_word(value, "brownnoise") || is_word(value, "pluck")
}

/// Whether `value` names any `synth` waveform.
pub fn is_synth_waveform(value: &str) -> (r: bool)
    ensures
        r == is_waveform_name(value@),
{
    is_word(value, "sine") || is_word(value, "sin") || is_word(value, "square") || is_word(
        value,
        "sawtooth",
    ) || is_word(value, "saw") || is_word(value, "triangle") || is_word(value, "tri") || is_word(
        value,
        "trapezium",
    ) || is_word(value, "trapetz") || is_word(value, "exp") || is_noise_word(value)
}

/// Whether `value` names a channel combine mode.
pub fn is_synth_combine_mode(value: &str) -> (r: bool)
    ensures
        r == is_combine_name(value@),
{
    is_word(value, "create") || is_word(value, "mix") || is_word(value, "amod") || is_word(
        value,
        "fmod",
    ) || is_word(value, "vdelay")
}

/// Whether `value` starts like a `synth` length.
pub fn starts_like_synth_length(value: &str) -> (r: bool)
    ensures
        r == starts_like_length(value@),
{
    let chars = chars_of(value);
    chars.len() > 0 && (('0' <= chars[0] && chars[0] <= '9') || chars[0] == '.')
}

/// Whether `value` starts with `-`.
fn starts_with_dash(value: &str) -> (r: bool)
    ensures
        r == (value@.len() > 0 && value@[0] == '-'),
{
    let chars = chars_of(value);
    chars.len() > 0 && chars[0] == '-'
}

/// Parses a `synth` length token.
pub fn parse_synth_length(effect: &'static str, value: &str) -> (r: CommandResult<SynthLength>)
    ensures
        match length_outcome(effect@, value@) {
            Ok(l) => r matches Ok(x) && x@ == l,
            Err(e) => r matches Err(x) && x@ == e,
        },
{
    let chars = chars_of(value);
    let n = chars.len();
    if n > 0 && chars[n - 1] == 's' {
        let prefix = string_from_range(chars.as_slice(), 0, n - 1);
        let prefix_chars = chars_of(prefix.as_str());
        proof {
            assert(chars@.subrange(0, n - 1) =~= chars@.drop_last());
        }
        if !chars_contain(prefix_chars.as_slice(), '.') {
            return match crate::numbers::parse_unsigned_chars(prefix_chars.as_slice(), u64::MAX) {
                Ok(frames) => {
                    proof {
                        crate::numbers::lemma_parse_unsigned_bounded(
                            prefix_chars@,
                            u64::MAX as nat,
                        );
                    }
                    Ok(SynthLength::Frames(frames))
                },
                Err(source) => Err(
                    EffectCommandParseError::InvalidFrameCount {
                        effect,
                        argument: "length",
                        value: owned(value),
                        source,
                    },
                ),
            };
        }
    }
    match crate::command::check_float(effect, "length", value) {
        Ok(()) => Ok(SynthLength::Seconds(owned(value))),
        Err(e) => Err(e),
    }
}

/// Lemma: `param_end` does not move backwards.
proof fn lemma_param_end_ge(args: Seq<Seq<char>>, j: int)
    requires
        0 <= j,
    ensures
        j <= param_end(args, j),
        j <= args.len() ==> param_end(args, j) <= args.len(),
    decreases args.len() - j,
{
    if j < args.len() && !is_waveform_name(args[j]) {
        lemma_param_end_ge(args, j + 1);
    }
}

/// Lemma: a float error found in a prefix is the first error of the whole.
pub proof fn lemma_first_error_prefix(
    effect: Seq<char>,
    argument: Seq<char>,
    vs: Seq<Seq<char>>,
    n: int,
)
    requires
        0 <= n <= vs.len(),
        first_float_error(effect, argument, vs.take(n)) is Some,
    ensures
        first_float_error(effect, argument, vs) == first_float_error(effect, argument, vs.take(n)),
    decreases vs.len() - n,
{
    if n < vs.len() {
        assert(vs.drop_last().take(n) =~= vs.take(n));
        lemma_first_error_prefix(effect, argument, vs.drop_last(), n);
    } else {
        assert(vs.take(n) =~= vs);
    }
}

/// Parses the channel spec starting at the waveform token `i`.
#[verifier::loop_isolation(false)]
fn parse_channel(effect: &'static str, args: &[&str], i: usize) -> (r: CommandResult<
    (SynthChannelArgs, usize),
>)
    requires
        i < args@.len(),
    ensures
        match channel_outcome(effect@, args_view(args@), i as int) {
            Ok((c, next)) => r matches Ok((x, m)) && x@ == c && m == next,
            Err(e) => r matches Err(x) && x@ == e,
        },
{
    let ghost av = args_view(args@);
    let waveform = match parse_waveform(effect, args[i]) {
        Ok(w) => w,
        Err(e) => {
            return Err(e);
        },
    };
    let j = i + 1;
    if j < args.len() && is_synth_combine_mode(args[j]) {
        return Err(EffectCommandParseError::UnsupportedOption { effect, option: owned(args[j]) });
    }
    let has_frequency = j < args.len() && !is_synth_waveform(args[j]);
    let k = if has_frequency {
        j + 1
    } else {
        j
    };
    proof {
        lemma_param_end_ge(av, k as int);
    }
    let mut frequency: Option<String> = None;
    if has_frequency {
        match crate::command::check_float(effect, "frequency", args[j]) {
            Ok(()) => {
                frequency = Some(owned(args[j]));
            },
            Err(e) => {
                return Err(e);
            },
        }
    }
    let mut parameters: Vec<String> = Vec::new();
    let mut m = k;
    while m < args.len() && !is_synth_waveform(args[m])
        invariant
            av == args_view(args@),
            k <= m <= args@.len(),
            param_end(av, k as int) == param_end(av, m as int),
            parameters@.map_values(|p: String| p@) == av.subrange(k as int, m as int),
            first_float_error(effect@, "parameter"@, av.subrange(k as int, m as int)) is None,
        decreases args@.len() - m,
    {
        let ghost before = parameters@;
        match crate::command::check_float(effect, "parameter", args[m]) {
            Ok(()) => {},
            Err(e) => {
                proof {
                    let e_end = param_end(av, k as int);
                    lemma_param_end_ge(av, m as int + 1);
                    let whole = av.subrange(k as int, e_end);
                    let pre = av.subrange(k as int, m + 1);
                    assert(pre.drop_last() =~= av.subrange(k as int, m as int));
                    assert(whole.take(m + 1 - k) =~= pre);
                    lemma_first_error_prefix(effect@, "parameter"@, whole, m + 1 - k);
                }
                return Err(e);
            },
        }
        parameters.push(owned(args[m]));
        proof {
            let pre = av.subrange(k as int, m + 1);
            assert(pre.drop_last() =~= av.subrange(k as int, m as int));
            assert(parameters@.map_values(|p: String| p@) =~= before.map_values(|p: String| p@).push(
                av[m as int],
            ));
            assert(pre =~= av.subrange(k as int, m as int).push(av[m as int]));
        }
        m = m + 1;
    }
    proof {
        assert(param_end(av, m as int) == m);
    }
    if parameters.len() > MAX_SYNTH_PARAMETERS {
        return Err(
            EffectCommandParseError::UnexpectedArgument { effect, argument: owned(args[m - 1]) },
        );
    }
    let ghost params = av.subrange(k as int, m as int);
    proof {
        lemma_bounds();
        crate::splice_laws::lemma_no_float_error(effect@, "parameter"@, params);
        assert forall|x: int| 0 <= x < parameters@.len() implies is_float_literal(
            #[trigger] parameters@[x]@,
        ) by {
            assert(parameters@.map_values(|p: String| p@)[x] == parameters@[x]@);
            assert(float_error(effect@, "parameter"@, params[x]) is None);
        }
    }
    let frequency_ok = match &frequency {
        Some(f) => is_at_least(f.as_str(), "0"),
        None => true,
    };
    let finite = parameters_finite(&parameters);
    proof {
        assert(parameters@.map_values(|p: String| p@) == params);
        assert(params.len() == parameters@.len());
        assert forall|x: int| 0 <= x < params.len() implies params[x] == parameters@[x]@ by {
            assert(parameters@.map_values(|p: String| p@)[x] == parameters@[x]@);
        }
        if finite {
            assert forall|x: int| 0 <= x < params.len() implies literal_finite(
                #[trigger] params[x],
            ) by {
                assert(params[x] == parameters@[x]@);
            }
        } else {
            let x = choose|x: int| 0 <= x < parameters@.len() && !literal_finite(
                #[trigger] parameters@[x]@,
            );
            assert(params[x] == parameters@[x]@);
            assert(!literal_finite(params[x]));
        }
    }
    if !(frequency_ok && finite) {
        return Err(
            EffectCommandParseError::InvalidEffectConfig {
                effect,
                argument: "synth",
                source: EffectError::InvalidSynth,
            },
        );
    }
    Ok((SynthChannelArgs { waveform, frequency, parameters }, m))
}

/// Parses `synth [-n] [length] [waveform [frequency] [parameter...]]...`.
#[verifier::loop_isolation(false)]
pub fn parse_synth(effect: &'static str, args: &[&str]) -> (r: CommandResult<SynthArgs>)
    ensures
        match synth_outcome(effect@, args_view(args@)) {
            Ok(s) => r matches Ok(x) && x@ == s,
            Err(e) => r matches Err(x) && x@ == e,
        },
{
    let ghost av = args_view(args@);
    let mut index: usize = 0;
    while index < args.len() && is_word(args[index], "-n")
        invariant
            av == args_view(args@),
            index <= args@.len(),
            leading_n(av, 0) == leading_n(av, index as int),
        decreases args@.len() - index,
    {
        index = index + 1;
    }
    proof {
        assert(leading_n(av, index as int) == index);
    }
    let no_headroom = index > 0;
    if index < args.len() && starts_with_dash(args[index]) {
        return Err(
            EffectCommandParseError::UnsupportedOption { effect, option: owned(args[index]) },
        );
    }
    let ghost i0 = index as int;
    let mut length: Option<SynthLength> = None;
    if index < args.len() && starts_like_synth_length(args[index]) {
        match parse_synth_length(effect, args[index]) {
            Ok(l) => {
                length = Some(l);
                index = index + 1;
            },
            Err(e) => {
                return Err(e);
            },
        }
    }
    let ghost start = index as int;
    let ghost goal = channels_from(effect@, av, start);
    let mut channels: Vec<SynthChannelArgs> = Vec::new();
    while index < args.len()
        invariant
            av == args_view(args@),
            start <= index <= args@.len(),
            goal == channels_from(effect@, av, start),
            match goal {
                Ok(all) => match channels_from(effect@, av, index as int) {
                    Ok(rest) => all == channels_view(channels@) + rest,
                    Err(_) => false,
                },
                Err(e) => channels_from(effect@, av, index as int) == Err::<
                    Seq<SynthChannelView>,
                    CommandErrorView,
                >(e),
            },
        decreases args@.len() - index,
    {
        let ghost before = channels@;
        match parse_channel(effect, args, index) {
            Ok((c, next)) => {
                proof {
                    lemma_param_end_ge(av, index as int + 1);
                    lemma_param_end_ge(av, index as int + 2);
                    assert(next > index);
                    assert(next <= args@.len());
                }
                channels.push(c);
                proof {
                    assert(channels_view(channels@) =~= channels_view(before).push(c@));
                    match channels_from(effect@, av, next as int) {
                        Ok(rest) => {
                            assert(channels_view(before) + (seq![c@] + rest) =~= channels_view(
                                channels@,
                            ) + rest);
                        },
                        Err(_) => {},
                    }
                }
                index = next;
            },
            Err(e) => {
                return Err(e);
            },
        }
    }
    proof {
        assert(channels_from(effect@, av, index as int) == Ok::<
            Seq<SynthChannelView>,
            CommandErrorView,
        >(Seq::empty()));
        match goal {
            Ok(all) => {
                assert(all =~= channels_view(channels@));
            },
            Err(_) => {},
        }
    }
    let kept_length = if channels.len() > 0 {
        length
    } else {
        None
    };
    Ok(SynthArgs { no_headroom, length: kept_length, channels })
}

/// The canonical token of a waveform.
pub open spec fn waveform_token(w: SynthWaveform) -> Seq<char> {
    match w {
        SynthWaveform::Sine => "sine"@,
        SynthWaveform::Square => "square"@,
        SynthWaveform::Sawtooth => "sawtooth"@,
        SynthWaveform::Triangle => "triangle"@,
        SynthWaveform::Trapezium => "trapezium"@,
        SynthWaveform::Exp => "exp"@,
    }
}

/// Renders the canonical token of a waveform.
pub fn render_waveform(w: SynthWaveform) -> (r: &'static str)
    ensures
        r@ == waveform_token(w),
{
    match w {
        SynthWaveform::Sine => "sine",
        SynthWaveform::Square => "square",
        SynthWaveform::Sawtooth => "sawtooth",
        SynthWaveform::Triangle => "triangle",
        SynthWaveform::Trapezium => "trapezium",
        SynthWaveform::Exp => "exp",
    }
}

/// Law: the canonical token of a waveform names that waveform.
pub proof fn lemma_waveform_round_trip(w: SynthWaveform)
    ensures
        waveform_of(waveform_token(w)) == Some(w),
{
    reveal_strlit("sine");
    reveal_strlit("sin");
    reveal_strlit("square");
    reveal_strlit("sawtooth");
    reveal_strlit("saw");
    reveal_strlit("triangle");
    reveal_strlit("tri");
    reveal_strlit("trapezium");
    reveal_strlit("trapetz");
    reveal_strlit("exp");
    assert("sine"@[1] == 'i' && "sin"@[1] == 'i' && "square"@[1] == 'q');
    assert("sawtooth"@[1] == 'a' && "saw"@[1] == 'a' && "triangle"@[1] == 'r' && "tri"@[1] == 'r');
    assert("trapezium"@[1] == 'r' && "trapetz"@[1] == 'r' && "exp"@[1] == 'x');
    assert("square"@.len() == 6 && "sawtooth"@.len() == 8 && "saw"@.len() == 3);
    assert("triangle"@.len() == 8 && "tri"@.len() == 3 && "trapezium"@.len() == 9);
    assert("trapetz"@.len() == 7 && "sine"@.len() == 4 && "sin"@.len() == 3);
    assert("triangle"@[2] == 'i' && "trapezium"@[2] == 'a' && "trapetz"@[2] == 'a');
}

/// Whether `b` may stand for the waveform token `a`: both name the same
/// supported waveform, and neither looks like a length, an option or a
/// combine mode.
pub open spec fn interchangeable_waveform_tokens(a: Seq<char>, b: Seq<char>) -> bool {
    &&& waveform_of(a) is Some
    &&& waveform_of(b) == waveform_of(a)
    &&& a.len() > 0 && b.len() > 0 && a[0] != '-' && b[0] != '-'
    &&& !starts_like_length(a) && !starts_like_length(b)
    &&& !is_combine_name(a) && !is_combine_name(b)
}

/// Lemma: the tokens before `param_end` are not waveform names.
proof fn lemma_param_end_no_waveform(args: Seq<Seq<char>>, j: int, x: int)
    requires
        0 <= j <= x < param_end(args, j),
    ensures
        !is_waveform_name(args[x]),
    decreases args.len() - j,
{
    if j < x {
        lemma_param_end_no_waveform(args, j + 1, x);
    }
}

/// Lemma: `param_end` depends on which tokens are waveform names only.
proof fn lemma_param_end_same(args: Seq<Seq<char>>, args2: Seq<Seq<char>>, j: int)
    requires
        args.len() == args2.len(),
        forall|x: int| 0 <= x < args.len() ==> is_waveform_name(#[trigger] args[x])
            == is_waveform_name(args2[x]),
    ensures
        param_end(args, j) == param_end(args2, j),
    decreases args.len() - j,
{
    if 0 <= j < args.len() && !is_waveform_name(args[j]) {
        lemma_param_end_same(args, args2, j + 1);
    }
}

/// Lemma: replacing a waveform token by an interchangeable one leaves
/// every channel outcome unchanged.
proof fn lemma_channels_same(effect: Seq<char>, args: Seq<Seq<char>>, k: int, b: Seq<char>, i: int)
    requires
        0 <= k < args.len(),
        interchangeable_waveform_tokens(args[k], b),
    ensures
        channels_from(effect, args.update(k, b), i) == channels_from(effect, args, i),
    decreases args.len() - i,
{
    let args2 = args.update(k, b);
    assert forall|x: int| 0 <= x < args.len() implies is_waveform_name(#[trigger] args[x])
        == is_waveform_name(args2[x]) && is_combine_name(args[x]) == is_combine_name(args2[x]) by {
        if x == k {
        }
    }
    if 0 <= i < args.len() {
        assert(waveform_outcome(effect, args2[i]) == waveform_outcome(effect, args[i]));
        let j = i + 1;
        let has_frequency = j < args.len() && !is_waveform_name(args[j]);
        let kk = if has_frequency {
            j + 1
        } else {
            j
        };
        lemma_param_end_same(args, args2, kk);
        let e = param_end(args, kk);
        lemma_param_end_ge(args, kk);
        assert forall|x: int| kk <= x < e implies #[trigger] args2[x] == args[x] by {
            lemma_param_end_no_waveform(args, kk, x);
        }
        if kk <= e && e <= args.len() {
            assert(args2.subrange(kk, e) =~= args.subrange(kk, e));
        }
        if e > kk && e <= args.len() {
            assert(args2[e - 1] == args[e - 1]);
        }
        if has_frequency {
            assert(args2[j] == args[j]);
        }
        assert(channel_outcome(effect, args2, i) == channel_outcome(effect, args, i));
        match channel_outcome(effect, args, i) {
            Ok((c, next)) => {
                if i < next <= args.len() {
                    lemma_channels_same(effect, args, k, b, next);
                }
            },
            Err(_) => {},
        }
    }
}

/// Lemma: `leading_n` is unchanged by replacing a token that is not `-n`
/// by another that is not.
proof fn lemma_leading_n_same(args: Seq<Seq<char>>, k: int, b: Seq<char>, i: int)
    requires
        0 <= k < args.len(),
        args[k] != "-n"@,
        b != "-n"@,
        0 <= i,
    ensures
        leading_n(args.update(k, b), i) == leading_n(args, i),
        leading_n(args, i) >= i,
    decreases args.len() - i,
{
    if i < args.len() && args[i] == "-n"@ {
        lemma_leading_n_same(args, k, b, i + 1);
    }
}

/// Lemma: a `synth` command parses the same after a waveform token is
/// replaced by an interchangeable one.
proof fn lemma_waveform_token_replaced(effect: Seq<char>, args: Seq<Seq<char>>, k: int, b: Seq<char>)
    requires
        0 <= k < args.len(),
        interchangeable_waveform_tokens(args[k], b),
    ensures
        synth_outcome(effect, args.update(k, b)) == synth_outcome(effect, args),
{
    let args2 = args.update(k, b);
    reveal_strlit("-n");
    assert(args[k] != "-n"@ && b != "-n"@) by {
        assert("-n"@[0] == '-');
    }
    lemma_leading_n_same(args, k, b, 0);
    let i0 = leading_n(args, 0);
    if i0 < args.len() {
        if i0 == k {
            assert(args2[i0] == b);
        } else {
            assert(args2[i0] == args[i0]);
        }
    }
    lemma_channels_same(effect, args, k, b, i0);
    lemma_channels_same(effect, args, k, b, i0 + 1);
}

/// Law: the short waveform names mean what the long ones do. In any
/// `synth` command, writing `tri` for `triangle`, `sin` for `sine`, `saw`
/// for `sawtooth` or `trapetz` for `trapezium` gives the same outcome.
pub proof fn lemma_waveform_abbreviations(effect: Seq<char>, args: Seq<Seq<char>>, k: int)
    requires
        0 <= k < args.len(),
    ensures
        args[k] == "triangle"@ ==> synth_outcome(effect, args.update(k, "tri"@))
            == synth_outcome(effect, args),
        args[k] == "sine"@ ==> synth_outcome(effect, args.update(k, "sin"@)) == synth_outcome(
            effect,
            args,
        ),
        args[k] == "sawtooth"@ ==> synth_outcome(effect, args.update(k, "saw"@))
            == synth_outcome(effect, args),
        args[k] == "trapezium"@ ==> synth_outcome(effect, args.update(k, "trapetz"@))
            == synth_outcome(effect, args),
{
    lemma_waveform_round_trip(SynthWaveform::Triangle);
    reveal_strlit("sine");
    reveal_strlit("sin");
    reveal_strlit("square");
    reveal_strlit("sawtooth");
    reveal_strlit("saw");
    reveal_strlit("triangle");
    reveal_strlit("tri");
    reveal_strlit("trapezium");
    reveal_strlit("trapetz");
    reveal_strlit("exp");
    reveal_strlit("create");
    reveal_strlit("mix");
    reveal_strlit("amod");
    reveal_strlit("fmod");
    reveal_strlit("vdelay");
    assert("sine"@[1] == 'i' && "sin"@[1] == 'i' && "square"@[1] == 'q');
    assert("sawtooth"@[1] == 'a' && "saw"@[1] == 'a' && "triangle"@[1] == 'r' && "tri"@[1] == 'r');
    assert("trapezium"@[1] == 'r' && "trapetz"@[1] == 'r' && "exp"@[1] == 'x');
    assert("square"@.len() == 6 && "sawtooth"@.len() == 8 && "saw"@.len() == 3);
    assert("triangle"@.len() == 8 && "tri"@.len() == 3 && "trapezium"@.len() == 9);
    assert("trapetz"@.len() == 7 && "sine"@.len() == 4 && "sin"@.len() == 3);
    assert("triangle"@[2] == 'i' && "trapezium"@[2] == 'a' && "trapetz"@[2] == 'a');
    assert("create"@[0] == 'c' && "mix"@[0] == 'm' && "amod"@[0] == 'a' && "fmod"@[0] == 'f'
        && "vdelay"@[0] == 'v');
    if args[k] == "triangle"@ {
        assert(waveform_of("tri"@) == Some(SynthWaveform::Triangle));
        lemma_waveform_token_replaced(effect, args, k, "tri"@);
    }
    if args[k] == "sine"@ {
        lemma_waveform_token_replaced(effect, args, k, "sin"@);
    }
    if args[k] == "sawtooth"@ {
        lemma_waveform_token_replaced(effect, args, k, "saw"@);
    }
    if args[k] == "trapezium"@ {
        lemma_waveform_token_replaced(effect, args, k, "trapetz"@);
    }
}

/// Law: each waveform word names its waveform: in any `synth` command, a
/// channel that starts at a waveform word and parses has the waveform the
/// word names (`sine`/`sin`, `square`, `sawtooth`/`saw`,
/// `triangle`/`tri`, `trapezium`/`trapetz`, `exp`).
pub proof fn lemma_waveform_words(effect: Seq<char>, args: Seq<Seq<char>>, k: int)
    requires
        0 <= k < args.len(),
    ensures
        channel_outcome(effect, args, k) matches Ok((c, _)) ==> {
            &&& (args[k] == "sine"@ || args[k] == "sin"@) ==> c.waveform == SynthWaveform::Sine
            &&& args[k] == "square"@ ==> c.waveform == SynthWaveform::Square
            &&& (args[k] == "sawtooth"@ || args[k] == "saw"@) ==> c.waveform
                == SynthWaveform::Sawtooth
            &&& (args[k] == "triangle"@ || args[k] == "tri"@) ==> c.waveform
                == SynthWaveform::Triangle
            &&& (args[k] == "trapezium"@ || args[k] == "trapetz"@) ==> c.waveform
                == SynthWaveform::Trapezium
            &&& args[k] == "exp"@ ==> c.waveform == SynthWaveform::Exp
        },
{
    reveal_strlit("sine");
    reveal_strlit("sin");
    reveal_strlit("square");
    reveal_strlit("sawtooth");
    reveal_strlit("saw");
    reveal_strlit("triangle");
    reveal_strlit("tri");
    reveal_strlit("trapezium");
    reveal_strlit("trapetz");
    reveal_strlit("exp");
    assert("sine"@[1] == 'i' && "sin"@[1] == 'i' && "square"@[1] == 'q');
    assert("sawtooth"@[1] == 'a' && "saw"@[1] == 'a' && "triangle"@[1] == 'r' && "tri"@[1] == 'r');
    assert("trapezium"@[1] == 'r' && "trapetz"@[1] == 'r' && "exp"@[1] == 'x');
    assert("square"@.len() == 6 && "sawtooth"@.len() == 8 && "saw"@.len() == 3);
    assert("triangle"@.len() == 8 && "tri"@.len() == 3 && "trapezium"@.len() == 9);
    assert("trapetz"@.len() == 7 && "sine"@.len() == 4 && "sin"@.len() == 3);
    assert("triangle"@[2] == 'i' && "trapezium"@[2] == 'a' && "trapetz"@[2] == 'a');
}

/// The canonical token of a length.
pub open spec fn length_token(l: SynthLengthView) -> Seq<char> {
    match l {
        SynthLengthView::Frames(n) => crate::text::decimal(n as nat) + seq!['s'],
        SynthLengthView::Seconds(s) => s,
    }
}

/// Renders the token of a length.
pub fn render_length(l: &SynthLength) -> (r: String)
    ensures
        r@ == length_token(l@),
{
    match l {
        SynthLength::Frames(n) => {
            let mut s = crate::text::decimal_string(*n);
            crate::text::push_char(&mut s, 's');
            s
        },
        SynthLength::Seconds(t) => t.clone(),
    }
}

} // verus!
