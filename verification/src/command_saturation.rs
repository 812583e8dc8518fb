//! The `saturation` command: a transfer type and up to three values.
//!
//! `saturation [type [blend [offset [parameter]]]]`, where the type is
//! `tanh`, `sqrt` or `diode` and the parameter is the type's drive, color
//! or threshold. With no arguments the default `tanh` saturation is used.
//! Blend and offset must be in `0..=1`, a `tanh` drive at least 1, and a
//! `sqrt` color or `diode` threshold in `0..=1`.
use vstd::prelude::*;

use crate::command::{
    arg_at, args_view, extra_error, opt_float_error, opt_text, option_like, CommandErrorView,
    CommandResult, EffectCommandParseError,
};
use crate::decimal::{
    is_at_least, is_within, lemma_bounds, literal_finite, value_at_least, value_less, value_within,
};
use crate::numbers::is_float_literal;
use crate::effects::SaturationType;
use crate::error::EffectError;
use crate::text::{owned, str_eq};

verus! {

/// The checked arguments of a `saturation` command.
#[derive(Debug, Clone, PartialEq, Eq)]
pub struct SaturationArgs {
    /// The transfer type.
    pub saturation_type: SaturationType,
    /// The blend, as number text, if given.
    pub blend: Option<String>,
    /// The offset, as number text, if given.
    pub offset: Option<String>,
    /// The type's parameter, as number text, if given.
    pub parameter: Option<String>,
}

/// The saturation type named by `v`, if any.
pub open spec fn saturation_type_of(v: Seq<char>) -> Option<SaturationType> {
    if v == "tanh"@ {
        Some(SaturationType::Tanh)
    } else if v == "sqrt"@ {
        Some(SaturationType::Sqrt)
    } else if v == "diode"@ {
        Some(SaturationType::Diode)
    } else {
        None
    }
}

/// The name of a type's parameter, as parse errors report it.
pub open spec fn parameter_of(t: SaturationType) -> Seq<char> {
    match t {
        SaturationType::Tanh => "drive"@,
        SaturationType::Sqrt => "color"@,
        SaturationType::Diode => "threshold"@,
    }
}

/// The outcome of `saturation [type [blend [offset [parameter]]]]`: the
/// type and the optional blend, offset and parameter texts.
pub open spec fn saturation_outcome(effect: Seq<char>, args: Seq<Seq<char>>) -> Result<
    (SaturationType, Option<Seq<char>>, Option<Seq<char>>, Option<Seq<char>>),
    CommandErrorView,
> {
    if args.len() == 0 {
        Ok((SaturationType::Tanh, None, None, None))
    } else if option_like(args[0]) {
        Err(CommandErrorView::UnsupportedOption { effect, option: args[0] })
    } else {
        match saturation_type_of(args[0]) {
            None => Err(CommandErrorView::UnexpectedArgument { effect, argument: args[0] }),
            Some(t) => if opt_float_error(effect, "blend"@, arg_at(args, 1)) is Some {
                Err(opt_float_error(effect, "blend"@, arg_at(args, 1))->0)
            } else if opt_float_error(effect, "offset"@, arg_at(args, 2)) is Some {
                Err(opt_float_error(effect, "offset"@, arg_at(args, 2))->0)
            } else if opt_float_error(effect, parameter_of(t), arg_at(args, 3)) is Some {
                Err(opt_float_error(effect, parameter_of(t), arg_at(args, 3))->0)
            } else if extra_error(effect, args, 4) is Some {
                Err(extra_error(effect, args, 4)->0)
            } else if !saturation_config_ok(t, arg_at(args, 1), arg_at(args, 2), arg_at(args, 3)) {
                Err(
                    CommandErrorView::InvalidEffectConfig {
                        effect,
                        argument: "saturation"@,
                        source: EffectError::InvalidSaturation,
                    },
                )
            } else {
                Ok((t, arg_at(args, 1), arg_at(args, 2), arg_at(args, 3)))
            },
        }
    }
}

/// Whether the given saturation values are in range: blend and offset in
/// `0..=1`, a `tanh` drive at least 1, and a `sqrt` color or `diode`
/// threshold in `0..=1`. (The defaults of the values not given are in
/// range.)
#[verifier::opaque]
pub open spec fn saturation_config_ok(
    t: SaturationType,
    blend: Option<Seq<char>>,
    offset: Option<Seq<char>>,
    parameter: Option<Seq<char>>,
) -> bool {
    &&& (blend matches Some(b) ==> value_within(b, "0"@, "1"@))
    &&& (offset matches Some(o) ==> value_within(o, "0"@, "1"@))
    &&& (parameter matches Some(p) ==> if t == SaturationType::Tanh {
        value_at_least(p, "1"@)
    } else {
        value_within(p, "0"@, "1"@)
    })
}

/// Parses a saturation type name.
pub fn parse_saturation_type(effect: &'static str, value: &str) -> (r: CommandResult<
    SaturationType,
>)
    ensures
        match saturation_type_of(value@) {
            Some(t) => r == Ok::<SaturationType, EffectCommandParseError>(t),
            None => r matches Err(x) && x@ == (CommandErrorView::UnexpectedArgument {
                effect: effect@,
                argument: value@,
            }),
        },
{
    if str_eq(value, "tanh") {
        Ok(SaturationType::Tanh)
    } else if str_eq(value, "sqrt") {
        Ok(SaturationType::Sqrt)
    } else if str_eq(value, "diode") {
        Ok(SaturationType::Diode)
    } else {
        Err(EffectCommandParseError::UnexpectedArgument { effect, argument: owned(value) })
    }
}

/// The name of a type's parameter.
pub fn parameter_name(t: SaturationType) -> (r: &'static str)
    ensures
        r@ == parameter_of(t),
{
    match t {
        SaturationType::Tanh => "drive",
        SaturationType::Sqrt => "color",
        SaturationType::Diode => "threshold",
    }
}

/// The canonical token of a saturation type.
pub open spec fn saturation_type_token(t: SaturationType) -> Seq<char> {
    match t {
        SaturationType::Tanh => "tanh"@,
        SaturationType::Sqrt => "sqrt"@,
        SaturationType::Diode => "diode"@,
    }
}

/// Renders the canonical token of a saturation type.
pub fn render_saturation_type(t: SaturationType) -> (r: &'static str)
    ensures
        r@ == saturation_type_token(t),
{
    match t {
        SaturationType::Tanh => "tanh",
        SaturationType::Sqrt => "sqrt",
        SaturationType::Diode => "diode",
    }
}

/// Law: the canonical token of a saturation type names that type.
pub proof fn lemma_saturation_type_round_trip(t: SaturationType)
    ensures
        saturation_type_of(saturation_type_token(t)) == Some(t),
{
    reveal_strlit("tanh");
    reveal_strlit("sqrt");
    reveal_strlit("diode");
    assert("tanh"@[0] == 't' && "sqrt"@[0] == 's' && "diode"@[0] == 'd');
}

/// Parses `saturation [type [blend [offset [parameter]]]]`.
pub fn parse_saturation(effect: &'static str, args: &[&str]) -> (r: CommandResult<
    SaturationArgs,
>)
    ensures
        match saturation_outcome(effect@, args_view(args@)) {
            Ok((t, blend, offset, parameter)) => r matches Ok(x) && x.saturation_type == t
                && opt_text(x.blend) == blend && opt_text(x.offset) == offset && opt_text(
                x.parameter,
            ) == parameter,
            Err(e) => r matches Err(x) && x@ == e,
        },
{
    if args.len() == 0 {
        return Ok(
            SaturationArgs {
                saturation_type: SaturationType::Tanh,
                blend: None,
                offset: None,
                parameter: None,
            },
        );
    }
    if crate::command::is_option_like(args[0]) {
        return Err(EffectCommandParseError::UnsupportedOption { effect, option: owned(args[0]) });
    }
    let t = match parse_saturation_type(effect, args[0]) {
        Ok(t) => t,
        Err(e) => {
            return Err(e);
        },
    };
    match crate::command::check_opt_float(effect, "blend", args, 1) {
        Ok(()) => {},
        Err(e) => {
            return Err(e);
        },
    }
    match crate::command::check_opt_float(effect, "offset", args, 2) {
        Ok(()) => {},
        Err(e) => {
            return Err(e);
        },
    }
    match crate::command::check_opt_float(effect, parameter_name(t), args, 3) {
        Ok(()) => {},
        Err(e) => {
            return Err(e);
        },
    }
    match crate::command::reject_extra_from(effect, args, 4) {
        Ok(()) => {},
        Err(e) => {
            return Err(e);
        },
    }
    proof {
        lemma_bounds();
        reveal(saturation_config_ok);
    }
    let blend_ok = args.len() <= 1 || is_within(args[1], "0", "1");
    let offset_ok = args.len() <= 2 || is_within(args[2], "0", "1");
    let parameter_ok = args.len() <= 3 || match t {
        SaturationType::Tanh => is_at_least(args[3], "1"),
        _ => is_within(args[3], "0", "1"),
    };
    if !(blend_ok && offset_ok && parameter_ok) {
        return Err(
            EffectCommandParseError::InvalidEffectConfig {
                effect,
                argument: "saturation",
                source: EffectError::InvalidSaturation,
            },
        );
    }
    Ok(
        SaturationArgs {
            saturation_type: t,
            blend: crate::command::owned_arg(args, 1),
            offset: crate::command::owned_arg(args, 2),
            parameter: crate::command::owned_arg(args, 3),
        },
    )
}

/// The text of the default parameter of a saturation type.
pub open spec fn default_parameter_text(t: SaturationType) -> Seq<char> {
    match t {
        SaturationType::Tanh => "1"@,
        SaturationType::Sqrt | SaturationType::Diode => "0.5"@,
    }
}

/// The default parameter of a saturation type, as number text.
pub fn default_parameter(t: SaturationType) -> (r: &'static str)
    ensures
        r@ == default_parameter_text(t),
{
    match t {
        SaturationType::Tanh => "1",
        SaturationType::Sqrt | SaturationType::Diode => "0.5",
    }
}

/// Renders the `saturation` tokens of `a`: the type, then the blend,
/// offset and parameter as plain decimal text, with the defaults 1, 0 and
/// the type's default parameter where none was given.
pub fn render_saturation(a: &SaturationArgs) -> (r: Vec<String>)
    ensures
        crate::chain::strings_view(r@) == seq!["saturation"@] + saturation_tokens(
            a.saturation_type,
            opt_text(a.blend),
            opt_text(a.offset),
            opt_text(a.parameter),
        ),
{
    let mut tokens: Vec<String> = Vec::new();
    tokens.push(owned("saturation"));
    tokens.push(owned(render_saturation_type(a.saturation_type)));
    tokens.push(crate::commands::render_or(&a.blend, "1"));
    tokens.push(crate::commands::render_or(&a.offset, "0"));
    tokens.push(crate::commands::render_or(&a.parameter, default_parameter(a.saturation_type)));
    proof {
        assert(crate::chain::strings_view(tokens@) =~= seq!["saturation"@] + saturation_tokens(
            a.saturation_type,
            opt_text(a.blend),
            opt_text(a.offset),
            opt_text(a.parameter),
        ));
    }
    tokens
}


/// The tokens `render_saturation` writes after the name: the type, then the
/// blend, offset and parameter, each given or defaulted.
pub open spec fn saturation_tokens(
    t: SaturationType,
    blend: Option<Seq<char>>,
    offset: Option<Seq<char>>,
    parameter: Option<Seq<char>>,
) -> Seq<Seq<char>> {
    seq![
        saturation_type_token(t),
        crate::commands::decimal_or(blend, "1"@),
        crate::commands::decimal_or(offset, "0"@),
        crate::commands::decimal_or(parameter, default_parameter_text(t)),
    ]
}

/// Law: the tokens rendered from the arguments a `saturation` command
/// parsed to parse back to the same type with every value given as
/// rendered, so they render the same tokens again.
pub proof fn lemma_saturation_round_trip(effect: Seq<char>, args: Seq<Seq<char>>)
    requires
        saturation_outcome(effect, args) is Ok,
    ensures
        ({
            let (t, b, o, p) = saturation_outcome(effect, args)->Ok_0;
            let toks = saturation_tokens(t, b, o, p);
            &&& saturation_outcome(effect, toks) == Ok::<
                (SaturationType, Option<Seq<char>>, Option<Seq<char>>, Option<Seq<char>>),
                CommandErrorView,
            >((t, Some(toks[1]), Some(toks[2]), Some(toks[3])))
            &&& saturation_tokens(t, Some(toks[1]), Some(toks[2]), Some(toks[3])) == toks
        }),
{
    let (t, b, o, p) = saturation_outcome(effect, args)->Ok_0;
    let toks = saturation_tokens(t, b, o, p);
    crate::numbers::lemma_default_literals();
    lemma_saturation_type_round_trip(t);
    reveal_strlit("tanh");
    reveal_strlit("sqrt");
    reveal_strlit("diode");
    reveal_strlit("1");
    reveal_strlit("0");
    reveal_strlit("0.5");
    assert(!option_like(toks[0]));
    assert(!option_like("1"@) && !option_like("0"@) && !option_like("0.5"@));
    assert(toks.len() == 4);
    reveal(saturation_config_ok);
    crate::decimal::lemma_whole_bound("1"@);
    crate::decimal::lemma_zero_bound("0"@);
    crate::decimal::lemma_tenths_bound("0.5"@);
    crate::decimal::lemma_value_less_irreflexive("1"@);
    crate::decimal::lemma_value_less_irreflexive("0"@);
    assert(value_within("1"@, "0"@, "1"@));
    assert(value_within("0"@, "0"@, "1"@));
    assert(value_at_least("1"@, "1"@));
    assert(value_within("0.5"@, "0"@, "1"@)) by {
        assert(crate::decimal::point("0.5"@) < crate::decimal::point("1"@));
    }
    crate::decimal::lemma_plain_constants();
    lemma_decimal_or_values(b, "1"@);
    lemma_decimal_or_values(o, "0"@);
    lemma_decimal_or_values(p, default_parameter_text(t));
}

/// Lemma: the rendered text of a value (or of a default) is a number that
/// compares with 0 and 1 as the value does, and renders alike.
proof fn lemma_decimal_or_values(v: Option<Seq<char>>, default: Seq<char>)
    requires
        v matches Some(x) ==> is_float_literal(x) && literal_finite(x),
        is_float_literal(default) && !option_like(default),
        crate::decimal::decimal_text(default) == default,
    ensures
        is_float_literal(crate::commands::decimal_or(v, default)),
        !option_like(crate::commands::decimal_or(v, default)),
        crate::commands::decimal_or(Some(crate::commands::decimal_or(v, default)), default)
            == crate::commands::decimal_or(v, default),
        v matches Some(x) ==> {
            let n = crate::commands::decimal_or(v, default);
            &&& literal_finite(n)
            &&& value_less(n, "0"@) == value_less(x, "0"@)
            &&& value_less("1"@, n) == value_less("1"@, x)
            &&& value_less(n, "1"@) == value_less(x, "1"@)
        },
{
    match v {
        Some(x) => {
            crate::decimal::lemma_decimal_text_value(x);
            crate::decimal::lemma_same_value_less(x, crate::decimal::decimal_text(x), "0"@);
            crate::decimal::lemma_same_value_less(x, crate::decimal::decimal_text(x), "1"@);
        },
        None => {},
    }
}

} // verus!
