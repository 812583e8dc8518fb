//! The `stat` and `stats` commands: flags and option/value pairs that
//! configure the audio statistics reports.
//!
//! `stat [-s scale] [-rms] [-v] [-j]` and
//! `stats [-b bits | -x bits | -s scale] [-w window-time] [-j]`. Options
//! may repeat; a later one overrides an earlier one. A `stat` scale must
//! be above zero, and `stats` bits a whole number in `2..=32`.
use vstd::prelude::*;

use crate::command::{
    args_view, float_error, option_like, CommandErrorView, CommandResult, EffectCommandParseError,
};
use crate::decimal::{is_positive_value, is_whole_2_to_32, value_positive, value_whole_2_to_32};
use crate::error::EffectError;
use crate::numbers::is_float_literal;
use crate::chain::strings_view;
use crate::decimal::{decimal_text, render_decimal};
use crate::text::{owned, str_eq};

verus! {

/// The checked options of a `stat` command.
#[derive(Debug, Clone, PartialEq, Eq)]
pub struct StatArgs {
    /// The input scale, as number text, if given (`-s`).
    pub scale: Option<String>,
    /// Whether to scale to RMS (`-rms`).
    pub rms: bool,
    /// Whether to report the volume adjustment only (`-v`).
    pub volume_only: bool,
    /// Whether to report as JSON (`-j`).
    pub json: bool,
}

/// The mathematical content of a [`StatArgs`].
pub struct StatView {
    pub scale: Option<Seq<char>>,
    pub rms: bool,
    pub volume_only: bool,
    pub json: bool,
}

impl View for StatArgs {
    type V = StatView;

    open spec fn view(&self) -> StatView {
        StatView {
            scale: match self.scale {
                Some(s) => Some(s@),
                None => None,
            },
            rms: self.rms,
            volume_only: self.volume_only,
            json: self.json,
        }
    }
}

/// The `stat` options from token `i` on, starting from `state`.
pub open spec fn stat_from(effect: Seq<char>, args: Seq<Seq<char>>, i: int, state: StatView) -> Result<
    StatView,
    CommandErrorView,
>
    decreases args.len() - i,
{
    if i < 0 || i >= args.len() {
        Ok(state)
    } else if args[i] == "-s"@ {
        if i + 1 >= args.len() {
            Err(CommandErrorView::MissingArgument { effect, argument: "scale"@ })
        } else if float_error(effect, "scale"@, args[i + 1]) is Some {
            Err(float_error(effect, "scale"@, args[i + 1])->0)
        } else if !value_positive(args[i + 1]) {
            Err(
                CommandErrorView::InvalidEffectConfig {
                    effect,
                    argument: "scale"@,
                    source: EffectError::InvalidStat,
                },
            )
        } else {
            stat_from(effect, args, i + 2, StatView { scale: Some(args[i + 1]), ..state })
        }
    } else if args[i] == "-rms"@ {
        stat_from(effect, args, i + 1, StatView { rms: true, ..state })
    } else if args[i] == "-v"@ {
        stat_from(effect, args, i + 1, StatView { volume_only: true, ..state })
    } else if args[i] == "-j"@ {
        stat_from(effect, args, i + 1, StatView { json: true, ..state })
    } else if option_like(args[i]) {
        Err(CommandErrorView::UnsupportedOption { effect, option: args[i] })
    } else {
        Err(CommandErrorView::UnexpectedArgument { effect, argument: args[i] })
    }
}

/// The outcome of a `stat` command.
pub open spec fn stat_outcome(effect: Seq<char>, args: Seq<Seq<char>>) -> Result<
    StatView,
    CommandErrorView,
> {
    stat_from(
        effect,
        args,
        0,
        StatView { scale: None, rms: false, volume_only: false, json: false },
    )
}

/// Parses `stat [-s scale] [-rms] [-v] [-j]`.
#[verifier::loop_isolation(false)]
pub fn parse_stat(effect: &'static str, args: &[&str]) -> (r: CommandResult<StatArgs>)
    ensures
        match stat_outcome(effect@, args_view(args@)) {
            Ok(s) => r matches Ok(x) && x@ == s,
            Err(e) => r matches Err(x) && x@ == e,
        },
{
    let ghost av = args_view(args@);
    let mut stat = StatArgs { scale: None, rms: false, volume_only: false, json: false };
    let mut index: usize = 0;
    while index < args.len()
        invariant
            index <= args@.len(),
            stat_outcome(effect@, av) == stat_from(effect@, av, index as int, stat@),
        decreases args@.len() - index,
    {
        let arg = args[index];
        if str_eq(arg, "-s") {
            if index + 1 >= args.len() {
                return Err(EffectCommandParseError::MissingArgument { effect, argument: "scale" });
            }
            match crate::command::check_float(effect, "scale", args[index + 1]) {
                Ok(()) => {},
                Err(e) => {
                    return Err(e);
                },
            }
            if !is_positive_value(args[index + 1]) {
                return Err(
                    EffectCommandParseError::InvalidEffectConfig {
                        effect,
                        argument: "scale",
                        source: EffectError::InvalidStat,
                    },
                );
            }
            stat.scale = Some(owned(args[index + 1]));
            index = index + 2;
        } else if str_eq(arg, "-rms") {
            stat.rms = true;
            index = index + 1;
        } else if str_eq(arg, "-v") {
            stat.volume_only = true;
            index = index + 1;
        } else if str_eq(arg, "-j") {
            stat.json = true;
            index = index + 1;
        } else if crate::command::is_option_like(arg) {
            return Err(EffectCommandParseError::UnsupportedOption { effect, option: owned(arg) });
        } else {
            return Err(EffectCommandParseError::UnexpectedArgument { effect, argument: owned(arg) });
        }
    }
    Ok(stat)
}

/// How `stats` scales the values it displays.
#[derive(Debug, Clone, PartialEq, Eq)]
pub enum StatsDisplay {
    /// The default floating-point display.
    Default,
    /// Floating-point display scaled by a number, as number text (`-s`).
    Scale(String),
    /// Signed integer display of the given bit depth, as number text (`-b`).
    SignedBits(String),
    /// Hexadecimal display of the given bit depth, as number text (`-x`).
    HexBits(String),
}

/// The mathematical content of a [`StatsDisplay`].
pub enum StatsDisplayView {
    Default,
    Scale(Seq<char>),
    SignedBits(Seq<char>),
    HexBits(Seq<char>),
}

impl View for StatsDisplay {
    type V = StatsDisplayView;

    open spec fn view(&self) -> StatsDisplayView {
        match self {
            StatsDisplay::Default => StatsDisplayView::Default,
            StatsDisplay::Scale(s) => StatsDisplayView::Scale(s@),
            StatsDisplay::SignedBits(s) => StatsDisplayView::SignedBits(s@),
            StatsDisplay::HexBits(s) => StatsDisplayView::HexBits(s@),
        }
    }
}

/// The checked options of a `stats` command.
#[derive(Debug, Clone, PartialEq, Eq)]
pub struct StatsArgs {
    /// How values are displayed.
    pub display: StatsDisplay,
    /// The window time in seconds, as number text, if given (`-w`).
    pub window_time: Option<String>,
    /// Whether to report as JSON (`-j`).
    pub json: bool,
}

/// The mathematical content of a [`StatsArgs`].
pub struct StatsView {
    pub display: StatsDisplayView,
    pub window_time: Option<Seq<char>>,
    pub json: bool,
}

impl View for StatsArgs {
    type V = StatsView;

    open spec fn view(&self) -> StatsView {
        StatsView {
            display: self.display@,
            window_time: match self.window_time {
                Some(s) => Some(s@),
                None => None,
            },
            json: self.json,
        }
    }
}

/// The error of the value after an option at `i`, named `argument`, if any.
pub open spec fn option_value_error(
    effect: Seq<char>,
    args: Seq<Seq<char>>,
    i: int,
    argument: Seq<char>,
) -> Option<CommandErrorView> {
    if i + 1 >= args.len() {
        Some(CommandErrorView::MissingArgument { effect, argument })
    } else {
        float_error(effect, argument, args[i + 1])
    }
}

/// The error for bits that are not a whole number in `2..=32`.
pub open spec fn bits_error(effect: Seq<char>) -> CommandErrorView {
    CommandErrorView::InvalidEffectConfig {
        effect,
        argument: "bits"@,
        source: EffectError::InvalidStats,
    }
}

/// Checks that `value` (a number) is a whole number of bits in `2..=32`.
fn check_bits(effect: &'static str, value: &String) -> (r: CommandResult<()>)
    requires
        is_float_literal(value@),
    ensures
        value_whole_2_to_32(value@) ==> r is Ok,
        !value_whole_2_to_32(value@) ==> (r matches Err(x) && x@ == bits_error(effect@)),
{
    if is_whole_2_to_32(value.as_str()) {
        Ok(())
    } else {
        Err(
            EffectCommandParseError::InvalidEffectConfig {
                effect,
                argument: "bits",
                source: EffectError::InvalidStats,
            },
        )
    }
}

/// The `stats` options from token `i` on, starting from `state`.
pub open spec fn stats_from(effect: Seq<char>, args: Seq<Seq<char>>, i: int, state: StatsView) -> Result<
    StatsView,
    CommandErrorView,
>
    decreases args.len() - i,
{
    if i < 0 || i >= args.len() {
        Ok(state)
    } else if args[i] == "-b"@ {
        match option_value_error(effect, args, i, "bits"@) {
            Some(e) => Err(e),
            None => if !value_whole_2_to_32(args[i + 1]) {
                Err(bits_error(effect))
            } else {
                stats_from(
                effect,
                args,
                i + 2,
                    StatsView { display: StatsDisplayView::SignedBits(args[i + 1]), ..state },
                )
            },
        }
    } else if args[i] == "-x"@ {
        match option_value_error(effect, args, i, "bits"@) {
            Some(e) => Err(e),
            None => if !value_whole_2_to_32(args[i + 1]) {
                Err(bits_error(effect))
            } else {
                stats_from(
                effect,
                args,
                i + 2,
                    StatsView { display: StatsDisplayView::HexBits(args[i + 1]), ..state },
                )
            },
        }
    } else if args[i] == "-s"@ {
        match option_value_error(effect, args, i, "scale"@) {
            Some(e) => Err(e),
            None => stats_from(
                effect,
                args,
                i + 2,
                StatsView { display: StatsDisplayView::Scale(args[i + 1]), ..state },
            ),
        }
    } else if args[i] == "-w"@ {
        match option_value_error(effect, args, i, "window-time"@) {
            Some(e) => Err(e),
            None => stats_from(
                effect,
                args,
                i + 2,
                StatsView { window_time: Some(args[i + 1]), ..state },
            ),
        }
    } else if args[i] == "-j"@ {
        stats_from(effect, args, i + 1, StatsView { json: true, ..state })
    } else if option_like(args[i]) {
        Err(CommandErrorView::UnsupportedOption { effect, option: args[i] })
    } else {
        Err(CommandErrorView::UnexpectedArgument { effect, argument: args[i] })
    }
}

/// The outcome of a `stats` command.
pub open spec fn stats_outcome(effect: Seq<char>, args: Seq<Seq<char>>) -> Result<
    StatsView,
    CommandErrorView,
> {
    stats_from(
        effect,
        args,
        0,
        StatsView { display: StatsDisplayView::Default, window_time: None, json: false },
    )
}

/// Checks the value after the option at `index`, named `argument`, and
/// returns it.
pub fn parse_bits_option(effect: &'static str, args: &[&str], index: usize, argument: &'static str) -> (r:
    CommandResult<String>)
    ensures
        match option_value_error(effect@, args_view(args@), index as int, argument@) {
            Some(e) => r matches Err(x) && x@ == e,
            None => r matches Ok(s) && s@ == args@[index + 1]@,
        },
{
    if index >= args.len() || index + 1 >= args.len() {
        return Err(EffectCommandParseError::MissingArgument { effect, argument });
    }
    match crate::command::check_float(effect, argument, args[index + 1]) {
        Ok(()) => Ok(owned(args[index + 1])),
        Err(e) => Err(e),
    }
}

/// Parses `stats [-b bits | -x bits | -s scale] [-w window-time] [-j]`.
#[verifier::loop_isolation(false)]
pub fn parse_stats(effect: &'static str, args: &[&str]) -> (r: CommandResult<StatsArgs>)
    ensures
        match stats_outcome(effect@, args_view(args@)) {
            Ok(s) => r matches Ok(x) && x@ == s,
            Err(e) => r matches Err(x) && x@ == e,
        },
{
    let ghost av = args_view(args@);
    let mut stats = StatsArgs { display: StatsDisplay::Default, window_time: None, json: false };
    let mut index: usize = 0;
    while index < args.len()
        invariant
            index <= args@.len(),
            stats_outcome(effect@, av) == stats_from(effect@, av, index as int, stats@),
        decreases args@.len() - index,
    {
        let arg = args[index];
        if str_eq(arg, "-b") {
            match parse_bits_option(effect, args, index, "bits") {
                Ok(v) => {
                    match check_bits(effect, &v) {
                        Ok(()) => {},
                        Err(e) => {
                            return Err(e);
                        },
                    }
                    stats.display = StatsDisplay::SignedBits(v);
                },
                Err(e) => {
                    return Err(e);
                },
            }
            index = index + 2;
        } else if str_eq(arg, "-x") {
            match parse_bits_option(effect, args, index, "bits") {
                Ok(v) => {
                    match check_bits(effect, &v) {
                        Ok(()) => {},
                        Err(e) => {
                            return Err(e);
                        },
                    }
                    stats.display = StatsDisplay::HexBits(v);
                },
                Err(e) => {
                    return Err(e);
                },
            }
            index = index + 2;
        } else if str_eq(arg, "-s") {
            match parse_bits_option(effect, args, index, "scale") {
                Ok(v) => {
                    stats.display = StatsDisplay::Scale(v);
                },
                Err(e) => {
                    return Err(e);
                },
            }
            index = index + 2;
        } else if str_eq(arg, "-w") {
            match parse_bits_option(effect, args, index, "window-time") {
                Ok(v) => {
                    stats.window_time = Some(v);
                },
                Err(e) => {
                    return Err(e);
                },
            }
            index = index + 2;
        } else if str_eq(arg, "-j") {
            stats.json = true;
            index = index + 1;
        } else if crate::command::is_option_like(arg) {
            return Err(EffectCommandParseError::UnsupportedOption { effect, option: owned(arg) });
        } else {
            return Err(EffectCommandParseError::UnexpectedArgument { effect, argument: owned(arg) });
        }
    }
    Ok(stats)
}

/// The `-s scale` tokens of `stat` and `stats`: none when the scale is 1.
pub open spec fn scale_tokens(scale: Seq<char>) -> Seq<Seq<char>> {
    if decimal_text(scale) == "1"@ {
        Seq::empty()
    } else {
        seq!["-s"@, decimal_text(scale)]
    }
}

/// The flag token `flag` when `on`.
pub open spec fn flag_tokens(on: bool, flag: Seq<char>) -> Seq<Seq<char>> {
    if on {
        seq![flag]
    } else {
        Seq::empty()
    }
}

/// The tokens of `render_stat`.
pub open spec fn stat_tokens(v: StatView) -> Seq<Seq<char>> {
    seq!["stat"@] + match v.scale {
        Some(s) => scale_tokens(s),
        None => Seq::empty(),
    } + flag_tokens(v.rms, "-rms"@) + flag_tokens(v.volume_only, "-v"@) + flag_tokens(
        v.json,
        "-j"@,
    )
}

/// Appends the `-s scale` tokens unless the scale is 1.
fn push_scale(tokens: &mut Vec<String>, scale: &str)
    ensures
        strings_view(final(tokens)@) == strings_view(old(tokens)@) + scale_tokens(scale@),
{
    let ghost start = strings_view(tokens@);
    let t = render_decimal(scale);
    if !str_eq(t.as_str(), "1") {
        tokens.push(owned("-s"));
        tokens.push(t);
    }
    assert(strings_view(tokens@) =~= start + scale_tokens(scale@));
}

/// Appends `flag` when `on`.
fn push_flag(tokens: &mut Vec<String>, on: bool, flag: &str)
    ensures
        strings_view(final(tokens)@) == strings_view(old(tokens)@) + flag_tokens(on, flag@),
{
    let ghost start = strings_view(tokens@);
    if on {
        tokens.push(owned(flag));
    }
    assert(strings_view(tokens@) =~= start + flag_tokens(on, flag@));
}

/// Renders the `stat` tokens of `a`: `-s scale` unless the scale is 1
/// (written as plain decimal text), then `-rms`, `-v` and `-j` where set.
pub fn render_stat(a: &StatArgs) -> (r: Vec<String>)
    ensures
        strings_view(r@) == stat_tokens(a@),
{
    let mut tokens: Vec<String> = Vec::new();
    tokens.push(owned("stat"));
    let ghost t0 = strings_view(tokens@);
    match &a.scale {
        Some(s) => push_scale(&mut tokens, s.as_str()),
        None => {},
    }
    let ghost t1 = strings_view(tokens@);
    assert(t1 =~= t0 + match a@.scale {
        Some(s) => scale_tokens(s),
        None => Seq::empty(),
    });
    push_flag(&mut tokens, a.rms, "-rms");
    push_flag(&mut tokens, a.volume_only, "-v");
    push_flag(&mut tokens, a.json, "-j");
    assert(strings_view(tokens@) =~= stat_tokens(a@));
    tokens
}

/// The display tokens of `stats`.
pub open spec fn display_tokens(d: StatsDisplayView) -> Seq<Seq<char>> {
    match d {
        StatsDisplayView::Default => Seq::empty(),
        StatsDisplayView::Scale(s) => scale_tokens(s),
        StatsDisplayView::SignedBits(b) => seq!["-b"@, decimal_text(b)],
        StatsDisplayView::HexBits(b) => seq!["-x"@, decimal_text(b)],
    }
}

/// The `-w time` tokens of `stats`: none when the time is 0.05 seconds.
pub open spec fn window_tokens(w: Option<Seq<char>>) -> Seq<Seq<char>> {
    match w {
        Some(t) => if decimal_text(t) == "0.05"@ {
            Seq::empty()
        } else {
            seq!["-w"@, decimal_text(t)]
        },
        None => Seq::empty(),
    }
}

/// The tokens of `render_stats`.
pub open spec fn stats_tokens(v: StatsView) -> Seq<Seq<char>> {
    seq!["stats"@] + display_tokens(v.display) + window_tokens(v.window_time) + flag_tokens(
        v.json,
        "-j"@,
    )
}

/// Renders the `stats` tokens of `a`: the display option (`-s scale`
/// unless the scale is 1, `-b bits` or `-x bits`), `-w time` unless the
/// time is 0.05 seconds, and `-j` where set; values as plain decimal text.
pub fn render_stats(a: &StatsArgs) -> (r: Vec<String>)
    ensures
        strings_view(r@) == stats_tokens(a@),
{
    let mut tokens: Vec<String> = Vec::new();
    tokens.push(owned("stats"));
    let ghost t0 = strings_view(tokens@);
    match &a.display {
        StatsDisplay::Default => {},
        StatsDisplay::Scale(s) => push_scale(&mut tokens, s.as_str()),
        StatsDisplay::SignedBits(b) => {
            tokens.push(owned("-b"));
            tokens.push(render_decimal(b.as_str()));
        },
        StatsDisplay::HexBits(b) => {
            tokens.push(owned("-x"));
            tokens.push(render_decimal(b.as_str()));
        },
    }
    let ghost t1 = strings_view(tokens@);
    assert(t1 =~= t0 + display_tokens(a@.display));
    match &a.window_time {
        Some(w) => {
            let t = render_decimal(w.as_str());
            if !str_eq(t.as_str(), "0.05") {
                tokens.push(owned("-w"));
                tokens.push(t);
            }
        },
        None => {},
    }
    let ghost t2 = strings_view(tokens@);
    assert(t2 =~= t1 + window_tokens(a@.window_time));
    push_flag(&mut tokens, a.json, "-j");
    assert(strings_view(tokens@) =~= stats_tokens(a@));
    tokens
}

} // verus!
