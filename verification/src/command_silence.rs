//! The `silence` command: periods, durations and thresholds that trim
//! silence from the start and the end of the audio.
//!
//! `silence [-l] above-periods [duration threshold] [below-periods duration
//! threshold]`. The duration and threshold after `above-periods` are only
//! read when it is not `0`. A duration is a frame count (optionally with an
//! `s` suffix) or a time in seconds (a number containing `.`, a `:`-separated
//! time, or a number with a `t` suffix). A threshold is a percentage
//! (optionally with `%`) or a level in dB (with a `d` suffix).
//!
//! This module checks the syntax of every token and the combinations the
//! command model rejects (a zero `below-periods`, and `-l` without
//! `below-periods`), and the ranges of the values, exactly on their decimal
//! value: a percentage is in `0..=100`, a level in dB is below zero, and a
//! frame count or a time in seconds is not below zero. Each reports the
//! `InvalidSilence` error. The total of a `:`-separated time is not checked
//! here.
use vstd::prelude::*;

use crate::command::{
    args_view, literal_error, option_like, CommandErrorView, CommandResult, EffectCommandParseError,
};
use crate::command_splice::{has_empty_piece, split_char};
use crate::decimal::{
    is_at_most_100, is_negative_value, is_nonnegative_value, value_at_most_100, value_negative,
    value_nonnegative,
};
use crate::error::EffectError;
use crate::numbers::{float_error_kind, is_float_literal, parse_signed, parse_unsigned};
use crate::text::{chars_contain, chars_of, owned, str_eq, string_from_range};

verus! {

/// A silence duration, as checked text.
#[derive(Debug, Clone, PartialEq, Eq)]
pub enum SilenceDurationText {
    /// A frame count, as number text without its `s` suffix.
    Frames(String),
    /// A time in seconds: number text or a `:`-separated time, without its
    /// `t` suffix.
    Seconds(String),
}

/// The mathematical content of a [`SilenceDurationText`].
pub enum DurationView {
    Frames(Seq<char>),
    Seconds(Seq<char>),
}

impl View for SilenceDurationText {
    type V = DurationView;

    open spec fn view(&self) -> DurationView {
        match self {
            SilenceDurationText::Frames(s) => DurationView::Frames(s@),
            SilenceDurationText::Seconds(s) => DurationView::Seconds(s@),
        }
    }
}

/// A silence threshold, as checked text.
#[derive(Debug, Clone, PartialEq, Eq)]
pub enum SilenceThresholdText {
    /// A percentage, as number text without its `%` suffix.
    Percent(String),
    /// A level in dB, as number text without its `d` suffix.
    Decibels(String),
}

/// The mathematical content of a [`SilenceThresholdText`].
pub enum ThresholdView {
    Percent(Seq<char>),
    Decibels(Seq<char>),
}

impl View for SilenceThresholdText {
    type V = ThresholdView;

    open spec fn view(&self) -> ThresholdView {
        match self {
            SilenceThresholdText::Percent(s) => ThresholdView::Percent(s@),
            SilenceThresholdText::Decibels(s) => ThresholdView::Decibels(s@),
        }
    }
}

/// The checked arguments of a `silence` command.
#[derive(Debug, Clone, PartialEq, Eq)]
pub struct SilenceArgs {
    /// Whether `-l` (leave silence) was given.
    pub leave_silence: bool,
    /// The number of non-silent periods to wait for at the start.
    pub above_periods: u32,
    /// The start duration and threshold, when `above_periods` is not `0`.
    pub above: Option<(SilenceDurationText, SilenceThresholdText)>,
    /// The end periods, duration and threshold, if given.
    pub below: Option<(i32, SilenceDurationText, SilenceThresholdText)>,
}

/// The mathematical content of a [`SilenceArgs`].
pub struct SilenceView {
    pub leave_silence: bool,
    pub above_periods: u32,
    pub above: Option<(DurationView, ThresholdView)>,
    pub below: Option<(i32, DurationView, ThresholdView)>,
}

impl View for SilenceArgs {
    type V = SilenceView;

    open spec fn view(&self) -> SilenceView {
        SilenceView {
            leave_silence: self.leave_silence,
            above_periods: self.above_periods,
            above: match self.above {
                Some((d, t)) => Some((d@, t@)),
                None => None,
            },
            below: match self.below {
                Some((p, d, t)) => Some((p, d@, t@)),
                None => None,
            },
        }
    }
}

/// The error every malformed silence argument reports.
pub open spec fn invalid_silence(effect: Seq<char>) -> CommandErrorView {
    CommandErrorView::InvalidEffectConfig {
        effect,
        argument: "silence"@,
        source: EffectError::InvalidSilence,
    }
}

/// The first token among `vs` that is not a floating-point literal,
/// reported for `argument`.
pub open spec fn first_literal_error(effect: Seq<char>, argument: Seq<char>, vs: Seq<Seq<char>>) -> Option<
    CommandErrorView,
>
    decreases vs.len(),
{
    if vs.len() == 0 {
        None
    } else {
        match first_literal_error(effect, argument, vs.drop_last()) {
            Some(e) => Some(e),
            None => literal_error(effect, argument, vs.last()),
        }
    }
}

/// Lemma: a literal error found in a prefix is the first error of the whole.
proof fn lemma_first_literal_error_prefix(
    effect: Seq<char>,
    argument: Seq<char>,
    vs: Seq<Seq<char>>,
    n: int,
)
    requires
        0 <= n <= vs.len(),
        first_literal_error(effect, argument, vs.take(n)) is Some,
    ensures
        first_literal_error(effect, argument, vs) == first_literal_error(effect, argument, vs.take(n)),
    decreases vs.len() - n,
{
    if n < vs.len() {
        assert(vs.drop_last().take(n) =~= vs.take(n));
        lemma_first_literal_error_prefix(effect, argument, vs.drop_last(), n);
    } else {
        assert(vs.take(n) =~= vs);
    }
}

/// The `duration` number error of a `:`-separated time `s`, if a part is
/// not a number.
pub open spec fn colon_time_error(effect: Seq<char>, s: Seq<char>) -> Option<CommandErrorView> {
    match first_literal_error(effect, "duration"@, split_char(s, ':')) {
        Some(CommandErrorView::InvalidNumber { source, .. }) => Some(
            CommandErrorView::InvalidNumber { effect, argument: "duration"@, value: s, source },
        ),
        _ => None,
    }
}

/// Whether a duration is written in seconds.
pub open spec fn is_seconds_form(v: Seq<char>) -> bool {
    v.contains(':') || (v.contains('.') && !v.contains('e') && !v.contains('E')) || (v.len() > 0
        && v.last() == 't')
}

/// The outcome of a duration token.
pub open spec fn duration_outcome(effect: Seq<char>, v: Seq<char>) -> Result<
    DurationView,
    CommandErrorView,
> {
    if v.len() == 0 {
        Err(invalid_silence(effect))
    } else if is_seconds_form(v) {
        let s = if v.last() == 't' {
            v.drop_last()
        } else {
            v
        };
        if s.contains(':') {
            let parts = split_char(s, ':');
            if parts.len() > 3 || has_empty_piece(parts) {
                Err(invalid_silence(effect))
            } else if colon_time_error(effect, s) is Some {
                Err(colon_time_error(effect, s)->0)
            } else {
                Ok(DurationView::Seconds(s))
            }
        } else {
            match literal_error(effect, "duration"@, s) {
                Some(e) => Err(e),
                None => if value_nonnegative(s) {
                    Ok(DurationView::Seconds(s))
                } else {
                    Err(invalid_silence(effect))
                },
            }
        }
    } else {
        let f = if v.last() == 's' {
            v.drop_last()
        } else {
            v
        };
        if is_float_literal(f) && value_nonnegative(f) {
            Ok(DurationView::Frames(f))
        } else {
            Err(invalid_silence(effect))
        }
    }
}

/// The outcome of a threshold token.
pub open spec fn threshold_outcome(effect: Seq<char>, v: Seq<char>) -> Result<
    ThresholdView,
    CommandErrorView,
> {
    if v.len() > 0 && v.last() == 'd' {
        if is_float_literal(v.drop_last()) {
            if value_negative(v.drop_last()) {
                Ok(ThresholdView::Decibels(v.drop_last()))
            } else {
                Err(invalid_silence(effect))
            }
        } else {
            Err(
                CommandErrorView::InvalidNumber {
                    effect,
                    argument: "threshold"@,
                    value: v,
                    source: float_error_kind(v.drop_last()),
                },
            )
        }
    } else {
        let p = if v.len() > 0 && v.last() == '%' {
            v.drop_last()
        } else {
            v
        };
        if is_float_literal(p) {
            if value_nonnegative(p) && value_at_most_100(p) {
                Ok(ThresholdView::Percent(p))
            } else {
                Err(invalid_silence(effect))
            }
        } else {
            Err(
                CommandErrorView::InvalidNumber {
                    effect,
                    argument: "threshold"@,
                    value: v,
                    source: float_error_kind(p),
                },
            )
        }
    }
}

/// The leave-silence flag and the index of the first argument after it.
pub open spec fn silence_options(effect: Seq<char>, args: Seq<Seq<char>>) -> Result<
    (bool, int),
    CommandErrorView,
> {
    if args.len() > 0 && args[0] == "-l"@ {
        Ok((true, 1))
    } else if args.len() > 0 && option_like(args[0]) {
        Err(CommandErrorView::UnsupportedOption { effect, option: args[0] })
    } else {
        Ok((false, 0))
    }
}

/// The outcome of a duration and a threshold token.
pub open spec fn pair_outcome(effect: Seq<char>, d: Seq<char>, t: Seq<char>) -> Result<
    (DurationView, ThresholdView),
    CommandErrorView,
> {
    match duration_outcome(effect, d) {
        Err(e) => Err(e),
        Ok(dv) => match threshold_outcome(effect, t) {
            Err(e) => Err(e),
            Ok(tv) => Ok((dv, tv)),
        },
    }
}

/// The outcome of the arguments after the options.
pub open spec fn silence_rest_outcome(effect: Seq<char>, rest: Seq<Seq<char>>, leave: bool) -> Result<
    SilenceView,
    CommandErrorView,
> {
    if rest.len() == 0 {
        Err(CommandErrorView::MissingArgument { effect, argument: "above-periods"@ })
    } else {
        match parse_unsigned(rest[0], u32::MAX as nat) {
            Err(e) => Err(
                CommandErrorView::InvalidFrameCount {
                    effect,
                    argument: "above-periods"@,
                    value: rest[0],
                    source: e,
                },
            ),
            Ok(periods) => {
                let offset: int = if periods == 0 {
                    1
                } else {
                    3
                };
                if periods != 0 && rest.len() < 3 {
                    Err(CommandErrorView::MissingArgument { effect, argument: "duration threshold"@ })
                } else if periods != 0 && pair_outcome(effect, rest[1], rest[2]) is Err {
                    Err(pair_outcome(effect, rest[1], rest[2])->Err_0)
                } else {
                    let above = if periods == 0 {
                        None
                    } else {
                        Some(pair_outcome(effect, rest[1], rest[2])->Ok_0)
                    };
                    if offset < rest.len() {
                        if rest.len() < offset + 3 {
                            Err(
                                CommandErrorView::MissingArgument {
                                    effect,
                                    argument: "below-periods duration threshold"@,
                                },
                            )
                        } else {
                            match parse_signed(rest[offset], 0x8000_0000, 0x7fff_ffff) {
                                Err(_) => Err(invalid_silence(effect)),
                                Ok(below_periods) => match pair_outcome(
                                    effect,
                                    rest[offset + 1],
                                    rest[offset + 2],
                                ) {
                                    Err(e) => Err(e),
                                    Ok((dv, tv)) => if offset + 3 < rest.len() {
                                        Err(
                                            CommandErrorView::UnexpectedArgument {
                                                effect,
                                                argument: rest[offset + 3],
                                            },
                                        )
                                    } else if below_periods == 0 {
                                        Err(invalid_silence(effect))
                                    } else {
                                        Ok(
                                            SilenceView {
                                                leave_silence: leave,
                                                above_periods: periods as u32,
                                                above,
                                                below: Some((below_periods as i32, dv, tv)),
                                            },
                                        )
                                    },
                                },
                            }
                        }
                    } else if leave {
                        Err(invalid_silence(effect))
                    } else {
                        Ok(
                            SilenceView {
                                leave_silence: leave,
                                above_periods: periods as u32,
                                above,
                                below: None,
                            },
                        )
                    }
                }
            },
        }
    }
}

/// The outcome of a `silence` command.
pub open spec fn silence_outcome(effect: Seq<char>, args: Seq<Seq<char>>) -> Result<
    SilenceView,
    CommandErrorView,
> {
    match silence_options(effect, args) {
        Err(e) => Err(e),
        Ok((leave, k)) => silence_rest_outcome(effect, args.skip(k), leave),
    }
}

/// The `:`-split parts of `s`, checked as numbers; the error names `s`.
fn check_colon_time(effect: &'static str, s: &String) -> (r: CommandResult<()>)
    ensures
        match colon_time_error(effect@, s@) {
            Some(e) => r matches Err(x) && x@ == e,
            None => r is Ok,
        },
{
    let chars = chars_of(s.as_str());
    let parts = crate::command_splice::split_parts(chars.as_slice(), ':');
    let ghost pv = crate::chain::strings_view(parts@);
    let mut i: usize = 0;
    while i < parts.len()
        invariant
            pv == crate::chain::strings_view(parts@),
            pv == split_char(s@, ':'),
            0 <= i <= parts@.len(),
            first_literal_error(effect@, "duration"@, pv.take(i as int)) is None,
        decreases parts@.len() - i,
    {
        proof {
            assert(pv.take(i + 1).drop_last() =~= pv.take(i as int));
        }
        if !crate::numbers::is_float_text(parts[i].as_str()) {
            proof {
                lemma_first_literal_error_prefix(effect@, "duration"@, pv, i + 1);
            }
            return Err(
                EffectCommandParseError::InvalidNumber {
                    effect,
                    argument: "duration",
                    value: s.clone(),
                    source: crate::numbers::float_error_of(parts[i].as_str()),
                },
            );
        }
        i = i + 1;
    }
    proof {
        assert(pv.take(i as int) =~= pv);
    }
    Ok(())
}

/// Whether `chars` contains `a` or `b`.
fn contains_either(chars: &[char], a: char, b: char) -> (r: bool)
    ensures
        r == (chars@.contains(a) || chars@.contains(b)),
{
    chars_contain(chars, a) || chars_contain(chars, b)
}

/// Parses a silence duration token.
pub fn parse_duration(effect: &'static str, value: &str) -> (r: CommandResult<SilenceDurationText>)
    ensures
        match duration_outcome(effect@, value@) {
            Ok(d) => r matches Ok(x) && x@ == d,
            Err(e) => r matches Err(x) && x@ == e,
        },
{
    let invalid = EffectCommandParseError::InvalidEffectConfig {
        effect,
        argument: "silence",
        source: EffectError::InvalidSilence,
    };
    let chars = chars_of(value);
    let n = chars.len();
    if n == 0 {
        return Err(invalid);
    }
    let seconds_form = chars_contain(chars.as_slice(), ':') || (chars_contain(chars.as_slice(), '.')
        && !contains_either(chars.as_slice(), 'e', 'E')) || chars[n - 1] == 't';
    if seconds_form {
        let end = if chars[n - 1] == 't' {
            n - 1
        } else {
            n
        };
        let s = string_from_range(chars.as_slice(), 0, end);
        proof {
            if chars@.last() == 't' {
                assert(chars@.subrange(0, n - 1) =~= chars@.drop_last());
            } else {
                assert(chars@.subrange(0, n as int) =~= chars@);
            }
        }
        let s_chars = chars_of(s.as_str());
        if chars_contain(s_chars.as_slice(), ':') {
            let parts = crate::command_splice::split_parts(s_chars.as_slice(), ':');
            if parts.len() > 3 || crate::command_splice::any_empty_part(&parts) {
                return Err(invalid);
            }
            return match check_colon_time(effect, &s) {
                Ok(()) => Ok(SilenceDurationText::Seconds(s)),
                Err(e) => Err(e),
            };
        }
        match crate::command::check_literal(effect, "duration", s.as_str()) {
            Ok(()) => if is_nonnegative_value(s.as_str()) {
                Ok(SilenceDurationText::Seconds(s))
            } else {
                Err(invalid)
            },
            Err(e) => Err(e),
        }
    } else {
        let end = if chars[n - 1] == 's' {
            n - 1
        } else {
            n
        };
        let f = string_from_range(chars.as_slice(), 0, end);
        proof {
            if chars@.last() == 's' {
                assert(chars@.subrange(0, n - 1) =~= chars@.drop_last());
            } else {
                assert(chars@.subrange(0, n as int) =~= chars@);
            }
        }
        if crate::numbers::is_float_text(f.as_str()) && is_nonnegative_value(f.as_str()) {
            Ok(SilenceDurationText::Frames(f))
        } else {
            Err(invalid)
        }
    }
}

/// Parses a silence threshold token.
pub fn parse_threshold(effect: &'static str, value: &str) -> (r: CommandResult<
    SilenceThresholdText,
>)
    ensures
        match threshold_outcome(effect@, value@) {
            Ok(t) => r matches Ok(x) && x@ == t,
            Err(e) => r matches Err(x) && x@ == e,
        },
{
    let chars = chars_of(value);
    let n = chars.len();
    let decibels = n > 0 && chars[n - 1] == 'd';
    let stripped = n > 0 && (chars[n - 1] == 'd' || chars[n - 1] == '%');
    let end = if stripped {
        n - 1
    } else {
        n
    };
    let number = string_from_range(chars.as_slice(), 0, end);
    proof {
        if stripped {
            assert(chars@.subrange(0, n - 1) =~= chars@.drop_last());
        } else {
            assert(chars@.subrange(0, n as int) =~= chars@);
        }
    }
    if !crate::numbers::is_float_text(number.as_str()) {
        return Err(
            EffectCommandParseError::InvalidNumber {
                effect,
                argument: "threshold",
                value: owned(value),
                source: crate::numbers::float_error_of(number.as_str()),
            },
        );
    }
    let invalid = EffectCommandParseError::InvalidEffectConfig {
        effect,
        argument: "silence",
        source: EffectError::InvalidSilence,
    };
    if decibels {
        if is_negative_value(number.as_str()) {
            Ok(SilenceThresholdText::Decibels(number))
        } else {
            Err(invalid)
        }
    } else if is_nonnegative_value(number.as_str()) && is_at_most_100(number.as_str()) {
        Ok(SilenceThresholdText::Percent(number))
    } else {
        Err(invalid)
    }
}

/// Parses `above-periods`.
pub fn parse_above_periods(effect: &'static str, value: &str) -> (r: CommandResult<u32>)
    ensures
        match parse_unsigned(value@, u32::MAX as nat) {
            Ok(v) => r == Ok::<u32, EffectCommandParseError>(v as u32),
            Err(e) => r matches Err(x) && x@ == (CommandErrorView::InvalidFrameCount {
                effect: effect@,
                argument: "above-periods"@,
                value: value@,
                source: e,
            }),
        },
{
    crate::command::parse_u32_arg(effect, "above-periods", value)
}

/// Parses `below-periods`, a signed count (negative to restart).
pub fn parse_below_periods(effect: &'static str, value: &str) -> (r: CommandResult<i32>)
    ensures
        match parse_signed(value@, 0x8000_0000, 0x7fff_ffff) {
            Ok(v) => r == Ok::<i32, EffectCommandParseError>(v as i32),
            Err(_) => r matches Err(x) && x@ == invalid_silence(effect@),
        },
{
    match crate::numbers::parse_i32_text(value) {
        Ok(v) => Ok(v),
        Err(_) => Err(
            EffectCommandParseError::InvalidEffectConfig {
                effect,
                argument: "silence",
                source: EffectError::InvalidSilence,
            },
        ),
    }
}

/// Parses a duration and a threshold token.
fn parse_pair(effect: &'static str, d: &str, t: &str) -> (r: CommandResult<
    (SilenceDurationText, SilenceThresholdText),
>)
    ensures
        match pair_outcome(effect@, d@, t@) {
            Ok((dv, tv)) => r matches Ok((x, y)) && x@ == dv && y@ == tv,
            Err(e) => r matches Err(x) && x@ == e,
        },
{
    let duration = match parse_duration(effect, d) {
        Ok(x) => x,
        Err(e) => {
            return Err(e);
        },
    };
    match parse_threshold(effect, t) {
        Ok(y) => Ok((duration, y)),
        Err(e) => Err(e),
    }
}

/// Parses `silence [-l] above-periods [duration threshold] [below-periods
/// duration threshold]`.
pub fn parse_silence(effect: &'static str, args: &[&str]) -> (r: CommandResult<SilenceArgs>)
    ensures
        match silence_outcome(effect@, args_view(args@)) {
            Ok(s) => r matches Ok(x) && x@ == s,
            Err(e) => r matches Err(x) && x@ == e,
        },
{
    let ghost av = args_view(args@);
    let (leave_silence, k) = if args.len() > 0 && str_eq(args[0], "-l") {
        (true, 1usize)
    } else if args.len() > 0 && crate::command::is_option_like(args[0]) {
        return Err(EffectCommandParseError::UnsupportedOption { effect, option: owned(args[0]) });
    } else {
        (false, 0usize)
    };
    let rest = vstd::slice::slice_subrange(args, k, args.len());
    proof {
        assert(args_view(rest@) =~= av.skip(k as int));
    }
    if rest.len() == 0 {
        return Err(EffectCommandParseError::MissingArgument { effect, argument: "above-periods" });
    }
    let above_periods = match parse_above_periods(effect, rest[0]) {
        Ok(p) => p,
        Err(e) => {
            return Err(e);
        },
    };
    proof {
        crate::numbers::lemma_parse_unsigned_bounded(rest@[0]@, u32::MAX as nat);
    }
    let mut offset: usize = 1;
    let above = if above_periods == 0 {
        None
    } else {
        if rest.len() < 3 {
            return Err(
                EffectCommandParseError::MissingArgument { effect, argument: "duration threshold" },
            );
        }
        offset = 3;
        match parse_pair(effect, rest[1], rest[2]) {
            Ok(p) => Some(p),
            Err(e) => {
                return Err(e);
            },
        }
    };
    let below = if offset < rest.len() {
        if rest.len() < offset + 3 {
            return Err(
                EffectCommandParseError::MissingArgument {
                    effect,
                    argument: "below-periods duration threshold",
                },
            );
        }
        let periods = match parse_below_periods(effect, rest[offset]) {
            Ok(p) => p,
            Err(e) => {
                return Err(e);
            },
        };
        proof {
            crate::numbers::lemma_parse_signed_bounded(rest@[offset as int]@, 0x8000_0000, 0x7fff_ffff);
        }
        let (d, t) = match parse_pair(effect, rest[offset + 1], rest[offset + 2]) {
            Ok(p) => p,
            Err(e) => {
                return Err(e);
            },
        };
        if offset + 3 < rest.len() {
            return Err(
                EffectCommandParseError::UnexpectedArgument {
                    effect,
                    argument: owned(rest[offset + 3]),
                },
            );
        }
        if periods == 0 {
            return Err(
                EffectCommandParseError::InvalidEffectConfig {
                    effect,
                    argument: "silence",
                    source: EffectError::InvalidSilence,
                },
            );
        }
        Some((periods, d, t))
    } else {
        if leave_silence {
            return Err(
                EffectCommandParseError::InvalidEffectConfig {
                    effect,
                    argument: "silence",
                    source: EffectError::InvalidSilence,
                },
            );
        }
        None
    };
    Ok(SilenceArgs { leave_silence, above_periods, above, below })
}

} // verus!
