//! Argument grammar of the individual effect commands.
//!
//! Each parser decides which token fills which argument slot, which options
//! are accepted, and which tokens are rejected, and it checks the syntax of
//! numeric tokens. Integer arguments are parsed here; the values of
//! floating-point arguments are handed on as their checked text, and their
//! ranges are checked on the exact decimal value of that text.
use vstd::prelude::*;

use crate::command::{
    arg_at, args_view, check_float, check_opt_float, count_outcome, extra_error, float_error,
    is_option_like, opt_float_error, opt_text, option_like, owned_arg, parse_u32_arg,
    reject_extra_arguments, reject_extra_from, stray_argument,
    CommandErrorView, CommandResult, EffectCommandParseError,
};
use crate::effects::{Riaa, Swap, Upsample, DEFAULT_UPSAMPLE_FACTOR, MAX_UPSAMPLE_FACTOR};
use crate::decimal::{
    decimal_text, render_decimal, is_above, is_at_least, is_value_less, is_within, lemma_bounds, literal_finite, value_above,
    value_at_least, value_less, value_within,
};
use crate::chain::strings_view;
use crate::error::EffectError;
use crate::numbers::is_float_literal;
use crate::registry::EffectKind;
use crate::command_saturation::{parse_saturation, saturation_outcome};
use crate::command_silence::{parse_silence, silence_outcome};
use crate::command_splice::{parse_splice, splice_outcome};
use crate::command_tempo::{parse_tempo, tempo_outcome};
use crate::command_treble::{parse_treble, treble_outcome};
use crate::command_trim::{parse_trim, trim_outcome};
use crate::command_vad::{parse_vad, vad_outcome};
use crate::command_vol::{parse_vol, vol_outcome};
use crate::text::{chars_end_with, chars_of, owned, seq_ends_with, string_from_range};

verus! {

/// The outcome of an effect that takes no arguments.
pub open spec fn no_argument_outcome(effect: Seq<char>, args: Seq<Seq<char>>) -> Option<
    CommandErrorView,
> {
    if args.len() == 0 {
        None
    } else {
        Some(stray_argument(effect, args[0]))
    }
}

/// Accepts only an empty argument list.
pub fn parse_no_arguments(effect: &'static str, args: &[&str]) -> (r: CommandResult<()>)
    ensures
        match no_argument_outcome(effect@, args_view(args@)) {
            None => r is Ok,
            Some(e) => r matches Err(x) && x@ == e,
        },
{
    reject_extra_arguments(effect, args)
}

/// The error of an outcome, if it is one.
pub open spec fn err_of<T>(r: Result<T, CommandErrorView>) -> Option<CommandErrorView> {
    match r {
        Ok(_) => None,
        Err(e) => Some(e),
    }
}

/// The first argument error of a command of kind `kind`, if any.
///
/// Kinds not listed here take arguments whose meaning is decided by their
/// typed floating-point constructors; their argument lists are accepted as
/// given.
#[verifier::opaque]
pub open spec fn args_outcome(kind: EffectKind, effect: Seq<char>, args: Seq<Seq<char>>) -> Option<
    CommandErrorView,
> {
    match kind {
        EffectKind::Reverse | EffectKind::Riaa | EffectKind::Deemph | EffectKind::Oops
        | EffectKind::Swap => no_argument_outcome(effect, args),
        EffectKind::Upsample => err_of(upsample_outcome(effect, args)),
        EffectKind::Speed => err_of(speed_outcome(effect, args)),
        EffectKind::SoftVol => err_of(softvol_outcome(effect, args)),
        EffectKind::Stretch => err_of(stretch_outcome(effect, args)),
        EffectKind::Tremolo => err_of(tremolo_outcome(effect, args)),
        EffectKind::Trim => err_of(trim_outcome(effect, args)),
        EffectKind::Vad => err_of(vad_outcome(effect, args)),
        EffectKind::Vol => err_of(vol_outcome(effect, args)),
        EffectKind::Tempo => err_of(tempo_outcome(effect, args)),
        EffectKind::Saturation => err_of(saturation_outcome(effect, args)),
        EffectKind::Silence => err_of(silence_outcome(effect, args)),
        EffectKind::Splice => err_of(splice_outcome(effect, args)),
        EffectKind::Treble => err_of(treble_outcome(effect, args)),
        _ => None,
    }
}

/// Checks the arguments of a command of kind `kind`.
pub fn check_command_args(kind: EffectKind, effect: &'static str, args: &[&str]) -> (r:
    CommandResult<()>)
    ensures
        match args_outcome(kind, effect@, args_view(args@)) {
            None => r is Ok,
            Some(e) => r matches Err(x) && x@ == e,
        },
{
    reveal(args_outcome);
    match kind {
        EffectKind::Reverse | EffectKind::Riaa | EffectKind::Deemph | EffectKind::Oops
        | EffectKind::Swap => parse_no_arguments(effect, args),
        EffectKind::Upsample => unit_of(parse_upsample(effect, args)),
        EffectKind::Speed => unit_of(parse_speed(effect, args)),
        EffectKind::SoftVol => unit_of(parse_softvol(effect, args)),
        EffectKind::Stretch => unit_of(parse_stretch(effect, args)),
        EffectKind::Tremolo => unit_of(parse_tremolo(effect, args)),
        EffectKind::Trim => unit_of(parse_trim(effect, args)),
        EffectKind::Vad => unit_of(parse_vad(effect, args)),
        EffectKind::Vol => unit_of(parse_vol(effect, args)),
        EffectKind::Tempo => unit_of(parse_tempo(effect, args)),
        EffectKind::Saturation => unit_of(parse_saturation(effect, args)),
        EffectKind::Silence => unit_of(parse_silence(effect, args)),
        EffectKind::Splice => unit_of(parse_splice(effect, args)),
        EffectKind::Treble => unit_of(parse_treble(effect, args)),
        _ => Ok(()),
    }
}

/// Drops the value of a parse result, keeping its error.
fn unit_of<T>(r: CommandResult<T>) -> (u: CommandResult<()>)
    ensures
        r is Ok ==> u is Ok,
        r is Err ==> (u is Err && u->Err_0 == r->Err_0),
{
    match r {
        Ok(_) => Ok(()),
        Err(e) => Err(e),
    }
}

/// Parses `riaa`, which takes no arguments.
pub fn parse_riaa(effect: &'static str, args: &[&str]) -> (r: CommandResult<Riaa>)
    ensures
        match no_argument_outcome(effect@, args_view(args@)) {
            None => r == Ok::<Riaa, EffectCommandParseError>(Riaa),
            Some(e) => r matches Err(x) && x@ == e,
        },
{
    match reject_extra_arguments(effect, args) {
        Ok(()) => Ok(Riaa::new()),
        Err(e) => Err(e),
    }
}

/// Parses `swap`, which takes no arguments.
pub fn parse_swap(effect: &'static str, args: &[&str]) -> (r: CommandResult<Swap>)
    ensures
        match no_argument_outcome(effect@, args_view(args@)) {
            None => r == Ok::<Swap, EffectCommandParseError>(Swap),
            Some(e) => r matches Err(x) && x@ == e,
        },
{
    match reject_extra_arguments(effect, args) {
        Ok(()) => Ok(Swap::new()),
        Err(e) => Err(e),
    }
}

/// The outcome of `upsample [factor]`.
pub open spec fn upsample_outcome(effect: Seq<char>, args: Seq<Seq<char>>) -> Result<
    nat,
    CommandErrorView,
> {
    let factor = if args.len() == 0 {
        Ok(DEFAULT_UPSAMPLE_FACTOR as nat)
    } else if option_like(args[0]) {
        Err(CommandErrorView::UnsupportedOption { effect, option: args[0] })
    } else {
        count_outcome(effect, "factor"@, args[0], u32::MAX as nat)
    };
    match factor {
        Err(e) => Err(e),
        Ok(f) => match extra_error(effect, args, 1) {
            Some(e) => Err(e),
            None => if 1 <= f <= MAX_UPSAMPLE_FACTOR {
                Ok(f)
            } else {
                Err(
                    CommandErrorView::InvalidEffectConfig {
                        effect,
                        argument: "factor"@,
                        source: EffectError::InvalidUpsampleFactor,
                    },
                )
            },
        },
    }
}

/// Parses `upsample [factor]`.
pub fn parse_upsample(effect: &'static str, args: &[&str]) -> (r: CommandResult<Upsample>)
    ensures
        match upsample_outcome(effect@, args_view(args@)) {
            Ok(f) => r matches Ok(u) && u.factor == f,
            Err(e) => r matches Err(x) && x@ == e,
        },
{
    let factor = if args.len() == 0 {
        DEFAULT_UPSAMPLE_FACTOR
    } else if is_option_like(args[0]) {
        return Err(
            EffectCommandParseError::UnsupportedOption { effect, option: owned(args[0]) },
        );
    } else {
        match parse_u32_arg(effect, "factor", args[0]) {
            Ok(f) => {
                proof {
                    crate::numbers::lemma_parse_unsigned_bounded(args[0]@, u32::MAX as nat);
                }
                f
            },
            Err(e) => {
                return Err(e);
            },
        }
    };
    match reject_extra_from(effect, args, 1) {
        Ok(()) => {},
        Err(e) => {
            return Err(e);
        },
    }
    match Upsample::new(factor) {
        Ok(u) => Ok(u),
        Err(source) => Err(
            EffectCommandParseError::InvalidEffectConfig { effect, argument: "factor", source },
        ),
    }
}

/// The checked arguments of `speed factor[c]`.
#[derive(Debug, Clone, PartialEq, Eq)]
pub struct SpeedArgs {
    /// The factor's number text, without a trailing `c`.
    pub factor: String,
    /// Whether the factor was given in cents (a trailing `c`).
    pub cents: bool,
}

/// The outcome of `speed factor[c]`: the number text and the cents flag.
pub open spec fn speed_outcome(effect: Seq<char>, args: Seq<Seq<char>>) -> Result<
    (Seq<char>, bool),
    CommandErrorView,
> {
    if args.len() == 0 {
        Err(CommandErrorView::MissingArgument { effect, argument: "factor"@ })
    } else {
        match extra_error(effect, args, 1) {
            Some(e) => Err(e),
            None => {
                let v = args[0];
                let cents = seq_ends_with(v, "c"@);
                let number = if cents {
                    v.drop_last()
                } else {
                    v
                };
                match float_error(effect, "factor"@, number) {
                    Some(e) => Err(e),
                    None => if speed_factor_ok(number, cents) {
                        Ok((number, cents))
                    } else {
                        Err(
                            CommandErrorView::InvalidEffectConfig {
                                effect,
                                argument: "factor"@,
                                source: EffectError::InvalidSpeedFactor,
                            },
                        )
                    },
                }
            },
        }
    }
}

/// Whether a `speed` factor is finite and above zero; a change in cents
/// must be finite.
pub open spec fn speed_factor_ok(number: Seq<char>, cents: bool) -> bool {
    if cents {
        literal_finite(number)
    } else {
        value_above(number, "0"@)
    }
}

/// Parses `speed factor[c]`.
pub fn parse_speed(effect: &'static str, args: &[&str]) -> (r: CommandResult<SpeedArgs>)
    ensures
        match speed_outcome(effect@, args_view(args@)) {
            Ok((number, cents)) => r matches Ok(a) && a.factor@ == number && a.cents == cents,
            Err(e) => r matches Err(x) && x@ == e,
        },
{
    if args.len() == 0 {
        return Err(EffectCommandParseError::MissingArgument { effect, argument: "factor" });
    }
    match reject_extra_from(effect, args, 1) {
        Ok(()) => {},
        Err(e) => {
            return Err(e);
        },
    }
    let v = chars_of(args[0]);
    let c = chars_of("c");
    let cents = chars_end_with(v.as_slice(), c.as_slice());
    proof {
        reveal_strlit("c");
    }
    let number = if cents {
        string_from_range(v.as_slice(), 0, v.len() - 1)
    } else {
        string_from_range(v.as_slice(), 0, v.len())
    };
    proof {
        if cents {
            assert(v@.subrange(0, v@.len() - 1) =~= v@.drop_last());
        } else {
            assert(v@.subrange(0, v@.len() as int) =~= v@);
        }
    }
    match check_float(effect, "factor", number.as_str()) {
        Ok(()) => {},
        Err(e) => {
            return Err(e);
        },
    }
    proof {
        lemma_bounds();
    }
    let ok = if cents {
        crate::decimal::is_float_literal_finite(number.as_str())
    } else {
        is_above(number.as_str(), "0")
    };
    if !ok {
        return Err(
            EffectCommandParseError::InvalidEffectConfig {
                effect,
                argument: "factor",
                source: EffectError::InvalidSpeedFactor,
            },
        );
    }
    Ok(SpeedArgs { factor: number, cents })
}

/// The checked arguments of `tremolo speed [depth]`.
#[derive(Debug, Clone, PartialEq, Eq)]
pub struct TremoloArgs {
    /// Modulation speed in Hz, as number text.
    pub speed: String,
    /// Modulation depth in percent, as number text, if given.
    pub depth: Option<String>,
}

/// The outcome of `tremolo speed [depth]`: the speed and optional depth texts.
pub open spec fn tremolo_outcome(effect: Seq<char>, args: Seq<Seq<char>>) -> Result<
    (Seq<char>, Option<Seq<char>>),
    CommandErrorView,
> {
    if args.len() == 0 {
        Err(CommandErrorView::MissingArgument { effect, argument: "speed"@ })
    } else if float_error(effect, "speed"@, args[0]) is Some {
        Err(float_error(effect, "speed"@, args[0])->0)
    } else if opt_float_error(effect, "depth"@, arg_at(args, 1)) is Some {
        Err(opt_float_error(effect, "depth"@, arg_at(args, 1))->0)
    } else if extra_error(effect, args, 2) is Some {
        Err(extra_error(effect, args, 2)->0)
    } else if !tremolo_config_ok(args[0], arg_at(args, 1)) {
        Err(
            CommandErrorView::InvalidEffectConfig {
                effect,
                argument: "tremolo"@,
                source: EffectError::InvalidTremolo,
            },
        )
    } else {
        Ok((args[0], arg_at(args, 1)))
    }
}

/// Whether a `tremolo` speed is not below zero and a depth, if given, is in
/// `0 < depth <= 100`.
#[verifier::opaque]
pub open spec fn tremolo_config_ok(speed: Seq<char>, depth: Option<Seq<char>>) -> bool {
    value_at_least(speed, "0"@) && match depth {
        Some(d) => value_above(d, "0"@) && !value_less("100"@, d),
        None => true,
    }
}

/// Parses `tremolo speed [depth]`.
pub fn parse_tremolo(effect: &'static str, args: &[&str]) -> (r: CommandResult<TremoloArgs>)
    ensures
        match tremolo_outcome(effect@, args_view(args@)) {
            Ok((speed, depth)) => r matches Ok(a) && a.speed@ == speed && opt_text(a.depth) == depth,
            Err(e) => r matches Err(x) && x@ == e,
        },
{
    if args.len() == 0 {
        return Err(EffectCommandParseError::MissingArgument { effect, argument: "speed" });
    }
    match check_float(effect, "speed", args[0]) {
        Ok(()) => {},
        Err(e) => {
            return Err(e);
        },
    }
    match check_opt_float(effect, "depth", args, 1) {
        Ok(()) => {},
        Err(e) => {
            return Err(e);
        },
    }
    match reject_extra_from(effect, args, 2) {
        Ok(()) => {},
        Err(e) => {
            return Err(e);
        },
    }
    proof {
        lemma_bounds();
        reveal(tremolo_config_ok);
    }
    let depth_ok = if args.len() > 1 {
        is_above(args[1], "0") && !is_value_less("100", args[1])
    } else {
        true
    };
    if !(is_at_least(args[0], "0") && depth_ok) {
        return Err(
            EffectCommandParseError::InvalidEffectConfig {
                effect,
                argument: "tremolo",
                source: EffectError::InvalidTremolo,
            },
        );
    }
    Ok(TremoloArgs { speed: owned(args[0]), depth: owned_arg(args, 1) })
}

/// The checked arguments of `softvol [volume [double-time [headroom]]]`.
#[derive(Debug, Clone, PartialEq, Eq)]
pub struct SoftVolArgs {
    /// Volume, as number text, if given.
    pub volume: Option<String>,
    /// Double time in seconds, as number text, if given.
    pub double_time: Option<String>,
    /// Headroom in dB, as number text, if given.
    pub headroom: Option<String>,
}

/// The outcome of `softvol [volume [double-time [headroom]]]`.
pub open spec fn softvol_outcome(effect: Seq<char>, args: Seq<Seq<char>>) -> Result<
    (Option<Seq<char>>, Option<Seq<char>>, Option<Seq<char>>),
    CommandErrorView,
> {
    if opt_float_error(effect, "volume"@, arg_at(args, 0)) is Some {
        Err(opt_float_error(effect, "volume"@, arg_at(args, 0))->0)
    } else if opt_float_error(effect, "double-time"@, arg_at(args, 1)) is Some {
        Err(opt_float_error(effect, "double-time"@, arg_at(args, 1))->0)
    } else if opt_float_error(effect, "headroom"@, arg_at(args, 2)) is Some {
        Err(opt_float_error(effect, "headroom"@, arg_at(args, 2))->0)
    } else if extra_error(effect, args, 3) is Some {
        Err(extra_error(effect, args, 3)->0)
    } else if !(opt_at_least_zero(arg_at(args, 0)) && opt_at_least_zero(arg_at(args, 1))
        && opt_at_least_zero(arg_at(args, 2))) {
        Err(
            CommandErrorView::InvalidEffectConfig {
                effect,
                argument: "softvol"@,
                source: EffectError::InvalidSoftVol,
            },
        )
    } else {
        Ok((arg_at(args, 0), arg_at(args, 1), arg_at(args, 2)))
    }
}

/// Whether an optional value is absent or not below zero.
#[verifier::opaque]
pub open spec fn opt_at_least_zero(v: Option<Seq<char>>) -> bool {
    match v {
        Some(t) => value_at_least(t, "0"@),
        None => true,
    }
}

/// Whether the optional argument `i` (a number) is absent or not below zero.
fn check_opt_at_least_zero(args: &[&str], i: usize) -> (r: bool)
    requires
        i < args@.len() ==> is_float_literal(args@[i as int]@),
    ensures
        r == opt_at_least_zero(arg_at(args_view(args@), i as int)),
{
    proof {
        lemma_bounds();
        reveal(opt_at_least_zero);
    }
    if i < args.len() {
        is_at_least(args[i], "0")
    } else {
        true
    }
}

/// Parses `softvol [volume [double-time [headroom]]]`.
pub fn parse_softvol(effect: &'static str, args: &[&str]) -> (r: CommandResult<SoftVolArgs>)
    ensures
        match softvol_outcome(effect@, args_view(args@)) {
            Ok((v, d, h)) => r matches Ok(a) && opt_text(a.volume) == v && opt_text(a.double_time)
                == d && opt_text(a.headroom) == h,
            Err(e) => r matches Err(x) && x@ == e,
        },
{
    match check_opt_float(effect, "volume", args, 0) {
        Ok(()) => {},
        Err(e) => {
            return Err(e);
        },
    }
    match check_opt_float(effect, "double-time", args, 1) {
        Ok(()) => {},
        Err(e) => {
            return Err(e);
        },
    }
    match check_opt_float(effect, "headroom", args, 2) {
        Ok(()) => {},
        Err(e) => {
            return Err(e);
        },
    }
    match reject_extra_from(effect, args, 3) {
        Ok(()) => {},
        Err(e) => {
            return Err(e);
        },
    }
    if !(check_opt_at_least_zero(args, 0) && check_opt_at_least_zero(args, 1)
        && check_opt_at_least_zero(args, 2)) {
        return Err(
            EffectCommandParseError::InvalidEffectConfig {
                effect,
                argument: "softvol",
                source: EffectError::InvalidSoftVol,
            },
        );
    }
    Ok(
        SoftVolArgs {
            volume: owned_arg(args, 0),
            double_time: owned_arg(args, 1),
            headroom: owned_arg(args, 2),
        },
    )
}

/// Cross-fade shape of the `stretch` effect.
#[derive(Debug, Clone, Copy, PartialEq, Eq, Structural)]
pub enum StretchFade {
    /// Linear cross-fade (`l`).
    Linear,
    /// Square-root cross-fade (`s`).
    Sqrt,
    /// Half-cosine cross-fade (`h`).
    HalfCosine,
    /// Quarter-cosine cross-fade (`q`).
    QuarterCosine,
}

/// The fade named by an optional `stretch` fade argument.
pub open spec fn stretch_fade_of(value: Option<Seq<char>>) -> Option<StretchFade> {
    match value {
        None => Some(StretchFade::Linear),
        Some(v) => if v == "l"@ || v == "L"@ || v == "linear"@ || v == "Linear"@ {
            Some(StretchFade::Linear)
        } else if v == "s"@ || v == "S"@ || v == "sqrt"@ || v == "Sqrt"@ {
            Some(StretchFade::Sqrt)
        } else if v == "h"@ || v == "H"@ || v == "half"@ || v == "Half"@ {
            Some(StretchFade::HalfCosine)
        } else if v == "q"@ || v == "Q"@ || v == "quarter"@ || v == "Quarter"@ {
            Some(StretchFade::QuarterCosine)
        } else {
            None
        },
    }
}

/// Whether the token equals the literal `lit`.
fn is_word(v: &str, lit: &str) -> (r: bool)
    ensures
        r == (v@ == lit@),
{
    crate::text::str_eq(v, lit)
}

/// Parses an optional `stretch` fade argument.
pub fn parse_fade(effect: &'static str, value: Option<&str>) -> (r: CommandResult<StretchFade>)
    ensures
        match stretch_fade_of(match value {
            Some(v) => Some(v@),
            None => None,
        }) {
            Some(f) => r == Ok::<StretchFade, EffectCommandParseError>(f),
            None => r matches Err(x) && x@ == (CommandErrorView::InvalidOptionCombination {
                effect: effect@,
                options: "fade must be l, s, h, or q"@,
            }),
        },
{
    match value {
        None => Ok(StretchFade::Linear),
        Some(v) => {
            if is_word(v, "l") || is_word(v, "L") || is_word(v, "linear") || is_word(v, "Linear") {
                Ok(StretchFade::Linear)
            } else if is_word(v, "s") || is_word(v, "S") || is_word(v, "sqrt") || is_word(
                v,
                "Sqrt",
            ) {
                Ok(StretchFade::Sqrt)
            } else if is_word(v, "h") || is_word(v, "H") || is_word(v, "half") || is_word(
                v,
                "Half",
            ) {
                Ok(StretchFade::HalfCosine)
            } else if is_word(v, "q") || is_word(v, "Q") || is_word(v, "quarter") || is_word(
                v,
                "Quarter",
            ) {
                Ok(StretchFade::QuarterCosine)
            } else {
                Err(
                    EffectCommandParseError::InvalidOptionCombination {
                        effect,
                        options: "fade must be l, s, h, or q",
                    },
                )
            }
        },
    }
}

/// The canonical `stretch` token of a fade shape.
pub open spec fn fade_token(fade: StretchFade) -> Seq<char> {
    match fade {
        StretchFade::Linear => "l"@,
        StretchFade::Sqrt => "s"@,
        StretchFade::HalfCosine => "h"@,
        StretchFade::QuarterCosine => "q"@,
    }
}

/// The `stretch` token for a fade shape.
pub fn render_fade(fade: StretchFade) -> (r: &'static str)
    ensures
        r@ == fade_token(fade),
{
    match fade {
        StretchFade::Linear => "l",
        StretchFade::Sqrt => "s",
        StretchFade::HalfCosine => "h",
        StretchFade::QuarterCosine => "q",
    }
}

/// Law: the rendered fade token parses back to the same fade.
pub proof fn lemma_fade_round_trip(fade: StretchFade)
    ensures
        stretch_fade_of(Some(fade_token(fade))) == Some(fade),
{
    reveal_strlit("l");
    reveal_strlit("L");
    reveal_strlit("linear");
    reveal_strlit("Linear");
    reveal_strlit("s");
    reveal_strlit("S");
    reveal_strlit("sqrt");
    reveal_strlit("Sqrt");
    reveal_strlit("h");
    reveal_strlit("H");
    reveal_strlit("half");
    reveal_strlit("Half");
    reveal_strlit("q");
    reveal_strlit("Q");
    reveal_strlit("quarter");
    reveal_strlit("Quarter");
    assert("l"@[0] == 'l' && "L"@[0] == 'L' && "linear"@[0] == 'l' && "Linear"@[0] == 'L');
    assert("s"@[0] == 's' && "S"@[0] == 'S' && "sqrt"@[0] == 's' && "Sqrt"@[0] == 'S');
    assert("h"@[0] == 'h' && "H"@[0] == 'H' && "half"@[0] == 'h' && "Half"@[0] == 'H');
    assert("q"@[0] == 'q');
}

/// The checked arguments of `stretch [factor [window [fade [shift [fading]]]]]`.
#[derive(Debug, Clone, PartialEq, Eq)]
pub struct StretchArgs {
    /// Stretch factor, as number text, if given.
    pub factor: Option<String>,
    /// Window in milliseconds, as number text, if given.
    pub window: Option<String>,
    /// Cross-fade shape.
    pub fade: StretchFade,
    /// Shift ratio, as number text, if given.
    pub shift: Option<String>,
    /// Fading ratio, as number text, if given.
    pub fading: Option<String>,
}

/// The outcome of `stretch [factor [window [fade [shift [fading]]]]]`.
pub open spec fn stretch_outcome(effect: Seq<char>, args: Seq<Seq<char>>) -> Result<
    StretchFade,
    CommandErrorView,
> {
    if extra_error(effect, args, 5) is Some {
        Err(extra_error(effect, args, 5)->0)
    } else if opt_float_error(effect, "factor"@, arg_at(args, 0)) is Some {
        Err(opt_float_error(effect, "factor"@, arg_at(args, 0))->0)
    } else if opt_float_error(effect, "window"@, arg_at(args, 1)) is Some {
        Err(opt_float_error(effect, "window"@, arg_at(args, 1))->0)
    } else if stretch_fade_of(arg_at(args, 2)) is None {
        Err(
            CommandErrorView::InvalidOptionCombination {
                effect,
                options: "fade must be l, s, h, or q"@,
            },
        )
    } else if opt_float_error(effect, "shift"@, arg_at(args, 3)) is Some {
        Err(opt_float_error(effect, "shift"@, arg_at(args, 3))->0)
    } else if opt_float_error(effect, "fading"@, arg_at(args, 4)) is Some {
        Err(opt_float_error(effect, "fading"@, arg_at(args, 4))->0)
    } else if !stretch_config_ok(arg_at(args, 0), arg_at(args, 1), arg_at(args, 3), arg_at(args, 4)) {
        Err(
            CommandErrorView::InvalidEffectConfig {
                effect,
                argument: "stretch"@,
                source: EffectError::InvalidStretch,
            },
        )
    } else {
        Ok(stretch_fade_of(arg_at(args, 2))->0)
    }
}

/// Whether the given `stretch` values are in range: the factor not below
/// zero, the window at least 1 ms, the shift in `0 < shift <= 1` and the
/// fading in `0..=0.5`. (The defaults of the values not given are in
/// range.)
pub open spec fn stretch_config_ok(
    factor: Option<Seq<char>>,
    window: Option<Seq<char>>,
    shift: Option<Seq<char>>,
    fading: Option<Seq<char>>,
) -> bool {
    &&& (factor matches Some(f) ==> value_at_least(f, "0"@))
    &&& (window matches Some(w) ==> value_at_least(w, "1"@))
    &&& (shift matches Some(x) ==> value_above(x, "0"@) && !value_less("1"@, x))
    &&& (fading matches Some(x) ==> value_within(x, "0"@, "0.5"@))
}

/// Parses `stretch [factor [window [fade [shift [fading]]]]]`.
pub fn parse_stretch(effect: &'static str, args: &[&str]) -> (r: CommandResult<StretchArgs>)
    ensures
        match stretch_outcome(effect@, args_view(args@)) {
            Ok(fade) => r matches Ok(a) && a.fade == fade && opt_text(a.factor) == arg_at(
                args_view(args@),
                0,
            ) && opt_text(a.window) == arg_at(args_view(args@), 1) && opt_text(a.shift) == arg_at(
                args_view(args@),
                3,
            ) && opt_text(a.fading) == arg_at(args_view(args@), 4),
            Err(e) => r matches Err(x) && x@ == e,
        },
{
    match reject_extra_from(effect, args, 5) {
        Ok(()) => {},
        Err(e) => {
            return Err(e);
        },
    }
    match check_opt_float(effect, "factor", args, 0) {
        Ok(()) => {},
        Err(e) => {
            return Err(e);
        },
    }
    match check_opt_float(effect, "window", args, 1) {
        Ok(()) => {},
        Err(e) => {
            return Err(e);
        },
    }
    let fade_arg = if args.len() > 2 {
        Some(args[2])
    } else {
        None
    };
    let fade = match parse_fade(effect, fade_arg) {
        Ok(f) => f,
        Err(e) => {
            return Err(e);
        },
    };
    match check_opt_float(effect, "shift", args, 3) {
        Ok(()) => {},
        Err(e) => {
            return Err(e);
        },
    }
    match check_opt_float(effect, "fading", args, 4) {
        Ok(()) => {},
        Err(e) => {
            return Err(e);
        },
    }
    proof {
        lemma_bounds();
    }
    let factor_ok = args.len() <= 0 || is_at_least(args[0], "0");
    let window_ok = args.len() <= 1 || is_at_least(args[1], "1");
    let shift_ok = args.len() <= 3 || (is_above(args[3], "0") && !is_value_less("1", args[3]));
    let fading_ok = args.len() <= 4 || is_within(args[4], "0", "0.5");
    if !(factor_ok && window_ok && shift_ok && fading_ok) {
        return Err(
            EffectCommandParseError::InvalidEffectConfig {
                effect,
                argument: "stretch",
                source: EffectError::InvalidStretch,
            },
        );
    }
    Ok(
        StretchArgs {
            factor: owned_arg(args, 0),
            window: owned_arg(args, 1),
            fade,
            shift: owned_arg(args, 3),
            fading: owned_arg(args, 4),
        },
    )
}

/// The text of an optional value, or `default` when none was given.
pub open spec fn decimal_or(value: Option<Seq<char>>, default: Seq<char>) -> Seq<char> {
    match value {
        Some(v) => decimal_text(v),
        None => default,
    }
}

/// The shift `stretch` takes when none is given: 1 for a factor of at most
/// 1 (or none), 0.8 above.
pub open spec fn default_shift(factor: Option<Seq<char>>) -> Seq<char> {
    match factor {
        Some(f) => if is_float_literal(f) && literal_finite(f) && value_less("1"@, f) {
            "0.8"@
        } else {
            "1"@
        },
        None => "1"@,
    }
}

/// The `stretch` tokens of arguments with a fading: the factor (default
/// 1), the window (default 20), the fade, the shift (default as
/// [`default_shift`]) and the fading.
pub open spec fn stretch_tokens(
    factor: Option<Seq<char>>,
    window: Option<Seq<char>>,
    fade: StretchFade,
    shift: Option<Seq<char>>,
    fading: Seq<char>,
) -> Seq<Seq<char>> {
    seq![
        "stretch"@,
        decimal_or(factor, "1"@),
        decimal_or(window, "20"@),
        fade_token(fade),
        decimal_or(shift, default_shift(factor)),
        decimal_text(fading),
    ]
}

/// Renders an optional value, or `default` when none was given.
pub fn render_or(value: &Option<String>, default: &str) -> (r: String)
    ensures
        r@ == decimal_or(opt_text(*value), default@),
{
    match value {
        Some(v) => render_decimal(v.as_str()),
        None => owned(default),
    }
}

/// Renders the `stretch` tokens of `a`, each value as plain decimal text
/// with the defaults filled in, when a fading was given. Without one the
/// result is `None`: the default fading is computed in floating point from
/// the factor and the shift.
pub fn render_stretch(a: &StretchArgs) -> (r: Option<Vec<String>>)
    ensures
        match opt_text(a.fading) {
            Some(fading) => r matches Some(v) && strings_view(v@) == stretch_tokens(
                opt_text(a.factor),
                opt_text(a.window),
                a.fade,
                opt_text(a.shift),
                fading,
            ),
            None => r is None,
        },
{
    let fading = match &a.fading {
        Some(f) => f,
        None => {
            return None;
        },
    };
    let shift = match &a.shift {
        Some(x) => render_decimal(x.as_str()),
        None => {
            let above_one = match &a.factor {
                Some(f) => {
                    if crate::numbers::is_float_text(f.as_str()) && crate::decimal::is_float_literal_finite(
                        f.as_str(),
                    ) {
                        proof {
                            lemma_bounds();
                        }
                        is_value_less("1", f.as_str())
                    } else {
                        false
                    }
                },
                None => false,
            };
            if above_one {
                owned("0.8")
            } else {
                owned("1")
            }
        },
    };
    let mut tokens: Vec<String> = Vec::new();
    tokens.push(owned("stretch"));
    tokens.push(render_or(&a.factor, "1"));
    tokens.push(render_or(&a.window, "20"));
    tokens.push(owned(render_fade(a.fade)));
    tokens.push(shift);
    tokens.push(render_decimal(fading.as_str()));
    proof {
        assert(strings_view(tokens@) =~= stretch_tokens(
            opt_text(a.factor),
            opt_text(a.window),
            a.fade,
            opt_text(a.shift),
            fading@,
        ));
    }
    Some(tokens)
}

/// The text of an optional argument, or `default` when it was not given.
pub open spec fn or_default(v: Option<Seq<char>>, default: Seq<char>) -> Seq<char> {
    match v {
        Some(t) => t,
        None => default,
    }
}

/// The owned text of an optional argument, or of `default`.
pub fn text_or(v: &Option<String>, default: &str) -> (r: String)
    ensures
        r@ == or_default(opt_text(*v), default@),
{
    match v {
        Some(t) => t.clone(),
        None => owned(default),
    }
}

/// The factor token `render_speed` writes: a ratio as plain decimal text;
/// a change in cents as its number text with the `c` suffix.
pub open spec fn speed_token(factor: Seq<char>, cents: bool) -> Seq<char> {
    if cents {
        factor.push('c')
    } else {
        crate::decimal::decimal_text(factor)
    }
}

/// Law: the token rendered from a parsed `speed` factor parses back to the
/// factor as rendered, in the same unit, which renders to the same token.
pub proof fn lemma_speed_round_trip(effect: Seq<char>, args: Seq<Seq<char>>)
    requires
        speed_outcome(effect, args) is Ok,
    ensures
        ({
            let (f, cents) = speed_outcome(effect, args)->Ok_0;
            let tok = speed_token(f, cents);
            let n = if cents {
                f
            } else {
                decimal_text(f)
            };
            &&& speed_outcome(effect, seq![tok]) == Ok::<(Seq<char>, bool), CommandErrorView>(
                (n, cents),
            )
            &&& speed_token(n, cents) == tok
        }),
{
    let (f, cents) = speed_outcome(effect, args)->Ok_0;
    let tok = speed_token(f, cents);
    reveal_strlit("c");
    lemma_bounds();
    if cents {
        assert(tok.drop_last() =~= f);
        assert(seq_ends_with(tok, "c"@)) by {
            assert(tok.subrange(tok.len() - 1, tok.len() as int) =~= "c"@);
        }
    } else {
        crate::decimal::lemma_decimal_text_value(f);
        crate::decimal::lemma_same_value_less(f, decimal_text(f), "0"@);
        if is_float_literal(f) && literal_finite(f) && (crate::decimal::value_zero(f) || -64
            <= crate::decimal::point(f) <= 64) {
            let sig = crate::decimal::significant(f);
            crate::decimal::lemma_significant_digits(f);
            crate::decimal::lemma_significant_no_leading_zero(f);
            crate::decimal::lemma_plain_idempotent(
                crate::decimal::literal_negative(f),
                sig,
                crate::decimal::point(f),
            );
            assert(tok.last() != 'c');
        } else {
            assert(!seq_ends_with(args[0], "c"@));
            assert(tok == args[0]);
        }
        assert(!seq_ends_with(tok, "c"@)) by {
            if seq_ends_with(tok, "c"@) {
                assert(tok.subrange(tok.len() - 1, tok.len() as int)[0] == tok.last());
            }
        }
    }
}

/// Renders the `speed` tokens of `a`.
pub fn render_speed(a: &SpeedArgs) -> (r: Vec<String>)
    ensures
        crate::chain::strings_view(r@) == seq!["speed"@, speed_token(a.factor@, a.cents)],
{
    let mut tokens: Vec<String> = Vec::new();
    tokens.push(owned("speed"));
    let t = if a.cents {
        let mut t = a.factor.clone();
        crate::text::push_char(&mut t, 'c');
        t
    } else {
        crate::decimal::render_decimal(a.factor.as_str())
    };
    tokens.push(t);
    proof {
        assert(crate::chain::strings_view(tokens@) =~= seq!["speed"@, speed_token(a.factor@, a.cents)]);
    }
    tokens
}

/// Renders the `upsample` tokens of `u`.
pub fn render_upsample(u: Upsample) -> (r: Vec<String>)
    ensures
        crate::chain::strings_view(r@) == seq!["upsample"@, crate::text::decimal(u.factor as nat)],
{
    let mut tokens: Vec<String> = Vec::new();
    tokens.push(owned("upsample"));
    tokens.push(crate::text::decimal_string(u.factor as u64));
    proof {
        assert(crate::chain::strings_view(tokens@) =~= seq![
            "upsample"@,
            crate::text::decimal(u.factor as nat),
        ]);
    }
    tokens
}

/// Renders the `tremolo` tokens of `a`, values as plain decimal text, with
/// the default depth of 40 percent when none was given.
pub fn render_tremolo(a: &TremoloArgs) -> (r: Vec<String>)
    ensures
        crate::chain::strings_view(r@) == seq![
            "tremolo"@,
            decimal_text(a.speed@),
            decimal_or(opt_text(a.depth), "40"@),
        ],
{
    let mut tokens: Vec<String> = Vec::new();
    tokens.push(owned("tremolo"));
    tokens.push(render_decimal(a.speed.as_str()));
    tokens.push(render_or(&a.depth, "40"));
    proof {
        assert(crate::chain::strings_view(tokens@) =~= seq![
            "tremolo"@,
            decimal_text(a.speed@),
            decimal_or(opt_text(a.depth), "40"@),
        ]);
    }
    tokens
}

/// Renders the `softvol` tokens of `a`, values as plain decimal text, with
/// the defaults volume 1, double time 0 and headroom 0 where none was given.
pub fn render_softvol(a: &SoftVolArgs) -> (r: Vec<String>)
    ensures
        crate::chain::strings_view(r@) == seq![
            "softvol"@,
            decimal_or(opt_text(a.volume), "1"@),
            decimal_or(opt_text(a.double_time), "0"@),
            decimal_or(opt_text(a.headroom), "0"@),
        ],
{
    let mut tokens: Vec<String> = Vec::new();
    tokens.push(owned("softvol"));
    tokens.push(render_or(&a.volume, "1"));
    tokens.push(render_or(&a.double_time, "0"));
    tokens.push(render_or(&a.headroom, "0"));
    proof {
        assert(crate::chain::strings_view(tokens@) =~= seq![
            "softvol"@,
            decimal_or(opt_text(a.volume), "1"@),
            decimal_or(opt_text(a.double_time), "0"@),
            decimal_or(opt_text(a.headroom), "0"@),
        ]);
    }
    tokens
}


/// Law: the tokens rendered from an `upsample` command's factor parse back
/// to the same factor.
pub proof fn lemma_upsample_round_trip(effect: Seq<char>, args: Seq<Seq<char>>)
    requires
        upsample_outcome(effect, args) is Ok,
    ensures
        upsample_outcome(effect, seq![crate::text::decimal(upsample_outcome(effect, args)->Ok_0)])
            == upsample_outcome(effect, args),
{
    let f = upsample_outcome(effect, args)->Ok_0;
    crate::numbers::lemma_parse_decimal(f, u32::MAX as nat);
    crate::numbers::lemma_decimal_digits(f);
    assert(crate::text::is_digit(crate::text::decimal(f)[0]));
}

/// Law: the tokens rendered from the arguments a `tremolo` command parsed
/// to parse back to the values as rendered, which render to the same
/// tokens.
pub proof fn lemma_tremolo_round_trip(effect: Seq<char>, args: Seq<Seq<char>>)
    requires
        tremolo_outcome(effect, args) is Ok,
    ensures
        ({
            let (speed, depth) = tremolo_outcome(effect, args)->Ok_0;
            let toks = seq![decimal_text(speed), decimal_or(depth, "40"@)];
            &&& tremolo_outcome(effect, toks) == Ok::<
                (Seq<char>, Option<Seq<char>>),
                CommandErrorView,
            >((toks[0], Some(toks[1])))
            &&& decimal_text(toks[0]) == toks[0]
            &&& decimal_or(Some(toks[1]), "40"@) == toks[1]
        }),
{
    crate::numbers::lemma_default_literals();
    crate::decimal::lemma_plain_constants();
    reveal_strlit("40");
    reveal_strlit("0");
    reveal_strlit("100");
    lemma_bounds();
    crate::decimal::lemma_whole_bound("40"@);
    crate::decimal::lemma_whole_bound("100"@);
    crate::decimal::lemma_zero_bound("0"@);
    reveal(tremolo_config_ok);
    let (speed, depth) = tremolo_outcome(effect, args)->Ok_0;
    crate::decimal::lemma_decimal_text_value(speed);
    crate::decimal::lemma_same_value_less(speed, decimal_text(speed), "0"@);
    match depth {
        Some(d) => {
            crate::decimal::lemma_decimal_text_value(d);
            crate::decimal::lemma_same_value_less(d, decimal_text(d), "0"@);
            crate::decimal::lemma_same_value_less(d, decimal_text(d), "100"@);
        },
        None => {
            assert(value_above("40"@, "0"@));
            assert(!value_less("100"@, "40"@));
        },
    }
}

/// Law: the tokens rendered from the arguments a `softvol` command parsed
/// to parse back to every value as rendered, which render to the same
/// tokens.
pub proof fn lemma_softvol_round_trip(effect: Seq<char>, args: Seq<Seq<char>>)
    requires
        softvol_outcome(effect, args) is Ok,
    ensures
        ({
            let (v, d, h) = softvol_outcome(effect, args)->Ok_0;
            let toks = seq![decimal_or(v, "1"@), decimal_or(d, "0"@), decimal_or(h, "0"@)];
            &&& softvol_outcome(effect, toks) == Ok::<
                (Option<Seq<char>>, Option<Seq<char>>, Option<Seq<char>>),
                CommandErrorView,
            >((Some(toks[0]), Some(toks[1]), Some(toks[2])))
            &&& decimal_or(Some(toks[0]), "1"@) == toks[0]
            &&& decimal_or(Some(toks[1]), "0"@) == toks[1]
            &&& decimal_or(Some(toks[2]), "0"@) == toks[2]
        }),
{
    crate::numbers::lemma_default_literals();
    crate::decimal::lemma_plain_constants();
    reveal_strlit("1");
    reveal_strlit("0");
    crate::decimal::lemma_whole_bound("1"@);
    crate::decimal::lemma_zero_bound("0"@);
    reveal(opt_at_least_zero);
    assert(value_at_least("1"@, "0"@));
    assert(value_at_least("0"@, "0"@));
    let (v, d, h) = softvol_outcome(effect, args)->Ok_0;
    lemma_decimal_or_at_least_zero(v, "1"@);
    lemma_decimal_or_at_least_zero(d, "0"@);
    lemma_decimal_or_at_least_zero(h, "0"@);
}

/// Lemma: the rendered text of a value not below zero (or of a default
/// that is) is a number not below zero that renders alike.
proof fn lemma_decimal_or_at_least_zero(v: Option<Seq<char>>, default: Seq<char>)
    requires
        opt_at_least_zero(v),
        v matches Some(t) ==> is_float_literal(t),
        is_float_literal(default) && !option_like(default) && value_at_least(default, "0"@),
        decimal_text(default) == default,
    ensures
        is_float_literal(decimal_or(v, default)),
        !option_like(decimal_or(v, default)),
        value_at_least(decimal_or(v, default), "0"@),
        decimal_or(Some(decimal_or(v, default)), default) == decimal_or(v, default),
{
    reveal(opt_at_least_zero);
    match v {
        Some(t) => {
            crate::decimal::lemma_decimal_text_value(t);
            crate::decimal::lemma_same_value_less(t, decimal_text(t), "0"@);
        },
        None => {},
    }
}

} // verus!
