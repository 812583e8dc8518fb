//! The `vol` command: a gain with an optional type and limiter gain.
//!
//! `vol gain [type] [limiter-gain]`. The type (`amplitude`/`a`, `power`/`p`,
//! `dB`/`db`/`d`) may also be written as a suffix of the gain itself. The
//! gain must be finite; a limiter gain must be in `0 < limiter < 1` and
//! needs a gain whose magnitude is at least 1.
use vstd::prelude::*;

use crate::command::{
    arg_at, args_view, extra_error, float_error, opt_float_error, opt_text, option_like,
    CommandErrorView,
    CommandResult, EffectCommandParseError,
};
use crate::decimal::{
    is_above, is_magnitude_at_least_one, is_value_less, lemma_bounds, literal_finite,
    magnitude_at_least_one, value_above, value_less,
};
use crate::error::EffectError;
use crate::numbers::{float_literal_end, is_float_literal, lemma_float_literal_end};
use crate::text::{chars_end_with, chars_of, owned, str_eq, string_from_range, seq_ends_with};

verus! {

/// How a `vol` gain is expressed.
#[derive(Debug, Clone, Copy, PartialEq, Eq, Structural)]
pub enum VolGainType {
    /// An amplitude ratio.
    Amplitude,
    /// A power ratio.
    Power,
    /// A gain in decibels.
    Decibels,
}

/// The gain type named by a separate type token.
pub open spec fn gain_type_of(v: Seq<char>) -> Option<VolGainType> {
    if v == "a"@ || v == "amplitude"@ {
        Some(VolGainType::Amplitude)
    } else if v == "p"@ || v == "power"@ {
        Some(VolGainType::Power)
    } else if v == "d"@ || v == "dB"@ || v == "db"@ {
        Some(VolGainType::Decibels)
    } else {
        None
    }
}

/// The gain text and type of a gain written with a non-empty type suffix.
///
/// Suffixes are tried in the order `amplitude`, `power`, `dB`, `db`, `a`,
/// `p`, `d`.
pub open spec fn split_suffix(v: Seq<char>) -> Option<(Seq<char>, VolGainType)> {
    if seq_ends_with(v, "amplitude"@) && v.len() > 9 {
        Some((v.take(v.len() - 9), VolGainType::Amplitude))
    } else if seq_ends_with(v, "power"@) && v.len() > 5 {
        Some((v.take(v.len() - 5), VolGainType::Power))
    } else if seq_ends_with(v, "dB"@) && v.len() > 2 {
        Some((v.take(v.len() - 2), VolGainType::Decibels))
    } else if seq_ends_with(v, "db"@) && v.len() > 2 {
        Some((v.take(v.len() - 2), VolGainType::Decibels))
    } else if seq_ends_with(v, "a"@) && v.len() > 1 {
        Some((v.take(v.len() - 1), VolGainType::Amplitude))
    } else if seq_ends_with(v, "p"@) && v.len() > 1 {
        Some((v.take(v.len() - 1), VolGainType::Power))
    } else if seq_ends_with(v, "d"@) && v.len() > 1 {
        Some((v.take(v.len() - 1), VolGainType::Decibels))
    } else {
        None
    }
}

/// The checked arguments of a `vol` command.
#[derive(Debug, Clone, PartialEq, Eq)]
pub struct VolArgs {
    /// The gain, as number text.
    pub gain: String,
    /// How the gain is expressed.
    pub gain_type: VolGainType,
    /// The limiter gain, as number text, if given.
    pub limiter_gain: Option<String>,
}

/// The gain text, its type and the index of the first token after them.
pub open spec fn gain_and_type(effect: Seq<char>, args: Seq<Seq<char>>) -> Result<
    (Seq<char>, VolGainType, int),
    CommandErrorView,
> {
    let gain = args[0];
    match split_suffix(gain) {
        Some((text, t)) => match float_error(effect, "gain"@, text) {
            Some(e) => Err(e),
            None => Ok((text, t, 1)),
        },
        None => match float_error(effect, "gain"@, gain) {
            Some(e) => Err(e),
            None => if args.len() > 1 && gain_type_of(args[1]) is Some {
                Ok((gain, gain_type_of(args[1])->0, 2))
            } else if args.len() > 1 && float_error(effect, "limiter-gain"@, args[1]) is Some {
                Err(CommandErrorView::UnexpectedArgument { effect, argument: args[1] })
            } else {
                Ok((gain, VolGainType::Amplitude, 1))
            },
        },
    }
}

/// The error of a `vol` configuration out of range, if any: the gain must
/// be finite, and a limiter gain must be in `0 < limiter < 1` with a gain
/// whose magnitude is at least 1.
#[verifier::opaque]
pub open spec fn vol_config_error(
    effect: Seq<char>,
    gain: Seq<char>,
    limiter: Option<Seq<char>>,
) -> Option<CommandErrorView> {
    if !literal_finite(gain) {
        Some(
            CommandErrorView::InvalidEffectConfig {
                effect,
                argument: "gain"@,
                source: EffectError::InvalidVolGain,
            },
        )
    } else {
        match limiter {
            Some(l) => if value_above(l, "0"@) && value_less(l, "1"@) && magnitude_at_least_one(
                gain,
            ) {
                None
            } else {
                Some(
                    CommandErrorView::InvalidEffectConfig {
                        effect,
                        argument: "limiter-gain"@,
                        source: EffectError::InvalidVolLimiterGain,
                    },
                )
            },
            None => None,
        }
    }
}

/// The outcome of `vol gain [type] [limiter-gain]`.
pub open spec fn vol_outcome(effect: Seq<char>, args: Seq<Seq<char>>) -> Result<
    (Seq<char>, VolGainType, Option<Seq<char>>),
    CommandErrorView,
> {
    if args.len() == 0 {
        Err(CommandErrorView::MissingArgument { effect, argument: "gain"@ })
    } else {
        match gain_and_type(effect, args) {
            Err(e) => Err(e),
            Ok((gain, t, rest)) => if opt_float_error(effect, "limiter-gain"@, arg_at(args, rest))
                is Some {
                Err(opt_float_error(effect, "limiter-gain"@, arg_at(args, rest))->0)
            } else if extra_error(effect, args, rest + 1) is Some {
                Err(extra_error(effect, args, rest + 1)->0)
            } else if vol_config_error(effect, gain, arg_at(args, rest)) is Some {
                Err(vol_config_error(effect, gain, arg_at(args, rest))->0)
            } else {
                Ok((gain, t, arg_at(args, rest)))
            },
        }
    }
}

/// Whether the token equals the literal `lit`.
fn is_word(v: &str, lit: &str) -> (r: bool)
    ensures
        r == (v@ == lit@),
{
    str_eq(v, lit)
}

/// Parses a separate gain type token.
pub fn parse_gain_type(value: &str) -> (r: Option<VolGainType>)
    ensures
        r == gain_type_of(value@),
{
    if is_word(value, "a") || is_word(value, "amplitude") {
        Some(VolGainType::Amplitude)
    } else if is_word(value, "p") || is_word(value, "power") {
        Some(VolGainType::Power)
    } else if is_word(value, "d") || is_word(value, "dB") || is_word(value, "db") {
        Some(VolGainType::Decibels)
    } else {
        None
    }
}

/// Whether `chars` ends with `suffix` and has something before it.
fn has_suffix(chars: &[char], suffix: &str) -> (r: bool)
    ensures
        r == (seq_ends_with(chars@, suffix@) && chars@.len() > suffix@.len()),
{
    let s = chars_of(suffix);
    chars_end_with(chars, s.as_slice()) && chars.len() > s.len()
}

/// Splits a gain written with a type suffix into its number text and type.
pub fn split_suffix_type(value: &str) -> (r: Option<(String, VolGainType)>)
    ensures
        match split_suffix(value@) {
            None => r is None,
            Some((text, t)) => r matches Some((x, u)) && x@ == text && u == t,
        },
{
    let chars = chars_of(value);
    let n = chars.len();
    proof {
        reveal_strlit("amplitude");
        reveal_strlit("power");
        reveal_strlit("dB");
        reveal_strlit("db");
        reveal_strlit("a");
        reveal_strlit("p");
        reveal_strlit("d");
    }
    let (cut, t) = if has_suffix(chars.as_slice(), "amplitude") {
        (9, VolGainType::Amplitude)
    } else if has_suffix(chars.as_slice(), "power") {
        (5, VolGainType::Power)
    } else if has_suffix(chars.as_slice(), "dB") {
        (2, VolGainType::Decibels)
    } else if has_suffix(chars.as_slice(), "db") {
        (2, VolGainType::Decibels)
    } else if has_suffix(chars.as_slice(), "a") {
        (1, VolGainType::Amplitude)
    } else if has_suffix(chars.as_slice(), "p") {
        (1, VolGainType::Power)
    } else if has_suffix(chars.as_slice(), "d") {
        (1, VolGainType::Decibels)
    } else {
        return None;
    };
    let text = string_from_range(chars.as_slice(), 0, n - cut);
    proof {
        assert(chars@.subrange(0, n - cut) =~= chars@.take(n - cut));
    }
    Some((text, t))
}

/// Parses `vol gain [type] [limiter-gain]`.
pub fn parse_vol(effect: &'static str, args: &[&str]) -> (r: CommandResult<VolArgs>)
    ensures
        match vol_outcome(effect@, args_view(args@)) {
            Ok((gain, t, limiter)) => r matches Ok(x) && x.gain@ == gain && x.gain_type == t
                && opt_text(x.limiter_gain) == limiter,
            Err(e) => r matches Err(x) && x@ == e,
        },
{
    if args.len() == 0 {
        return Err(EffectCommandParseError::MissingArgument { effect, argument: "gain" });
    }
    let (gain, gain_type, rest) = match split_suffix_type(args[0]) {
        Some((text, t)) => {
            match crate::command::check_float(effect, "gain", text.as_str()) {
                Ok(()) => {},
                Err(e) => {
                    return Err(e);
                },
            }
            (text, t, 1usize)
        },
        None => {
            match crate::command::check_float(effect, "gain", args[0]) {
                Ok(()) => {},
                Err(e) => {
                    return Err(e);
                },
            }
            if args.len() > 1 {
                match parse_gain_type(args[1]) {
                    Some(t) => (owned(args[0]), t, 2usize),
                    None => {
                        if crate::command::check_float(effect, "limiter-gain", args[1]).is_err() {
                            return Err(
                                EffectCommandParseError::UnexpectedArgument {
                                    effect,
                                    argument: owned(args[1]),
                                },
                            );
                        }
                        (owned(args[0]), VolGainType::Amplitude, 1usize)
                    },
                }
            } else {
                (owned(args[0]), VolGainType::Amplitude, 1usize)
            }
        },
    };
    match crate::command::check_opt_float(effect, "limiter-gain", args, rest) {
        Ok(()) => {},
        Err(e) => {
            return Err(e);
        },
    }
    match crate::command::reject_extra_from(effect, args, rest + 1) {
        Ok(()) => {},
        Err(e) => {
            return Err(e);
        },
    }
    let limiter_gain = crate::command::owned_arg(args, rest);
    proof {
        lemma_bounds();
        reveal(vol_config_error);
    }
    if !crate::decimal::is_float_literal_finite(gain.as_str()) {
        return Err(
            EffectCommandParseError::InvalidEffectConfig {
                effect,
                argument: "gain",
                source: EffectError::InvalidVolGain,
            },
        );
    }
    match &limiter_gain {
        Some(l) => {
            if !(is_above(l.as_str(), "0") && is_value_less(l.as_str(), "1")
                && is_magnitude_at_least_one(gain.as_str())) {
                return Err(
                    EffectCommandParseError::InvalidEffectConfig {
                        effect,
                        argument: "limiter-gain",
                        source: EffectError::InvalidVolLimiterGain,
                    },
                );
            }
        },
        None => {},
    }
    Ok(VolArgs { gain, gain_type, limiter_gain })
}

/// The canonical type token of a gain type (none for amplitude).
pub open spec fn gain_type_token(t: VolGainType) -> Option<Seq<char>> {
    match t {
        VolGainType::Amplitude => None,
        VolGainType::Power => Some("power"@),
        VolGainType::Decibels => Some("dB"@),
    }
}

/// Renders the `vol` tokens: the name, the gain, its type unless it is an
/// amplitude, and the limiter gain if any, values as plain decimal text.
pub fn render_vol(args: &VolArgs) -> (r: Vec<String>)
    ensures
        crate::chain::strings_view(r@) == seq!["vol"@] + vol_tokens(
            args.gain@,
            args.gain_type,
            opt_text(args.limiter_gain),
        ),
{
    let mut tokens: Vec<String> = Vec::new();
    tokens.push(owned("vol"));
    tokens.push(crate::decimal::render_decimal(args.gain.as_str()));
    match args.gain_type {
        VolGainType::Amplitude => {},
        VolGainType::Power => tokens.push(owned("power")),
        VolGainType::Decibels => tokens.push(owned("dB")),
    }
    match &args.limiter_gain {
        Some(l) => tokens.push(crate::decimal::render_decimal(l.as_str())),
        None => {},
    }
    proof {
        let v = crate::chain::strings_view(tokens@);
        assert(v =~= seq!["vol"@] + vol_tokens(
            args.gain@,
            args.gain_type,
            opt_text(args.limiter_gain),
        ));
    }
    tokens
}


/// A floating-point literal carries no type suffix and is no type word.
proof fn lemma_literal_has_no_type(v: Seq<char>)
    requires
        is_float_literal(v),
    ensures
        split_suffix(v) is None,
        gain_type_of(v) is None,
{
    lemma_float_literal_end(v);
    reveal_strlit("amplitude");
    reveal_strlit("power");
    reveal_strlit("dB");
    reveal_strlit("db");
    reveal_strlit("a");
    reveal_strlit("p");
    reveal_strlit("d");
    let c = v.last();
    assert forall|w: Seq<char>| w.len() > 0 && seq_ends_with(v, w) implies c == w.last() by {
        assert(v.subrange(v.len() - w.len(), v.len() as int)[w.len() - 1] == v[v.len() - 1]);
    }
    assert(!float_literal_end("amplitude"@.last()) && !float_literal_end("power"@.last())
        && !float_literal_end("dB"@.last()) && !float_literal_end("db"@.last())
        && !float_literal_end("a"@.last()) && !float_literal_end("p"@.last())
        && !float_literal_end("d"@.last()));
}

/// The tokens `render_vol` writes after the name.
pub open spec fn vol_tokens(gain: Seq<char>, t: VolGainType, limiter: Option<Seq<char>>) -> Seq<
    Seq<char>,
> {
    seq![crate::decimal::decimal_text(gain)] + match gain_type_token(t) {
        Some(w) => seq![w],
        None => Seq::empty(),
    } + match limiter {
        Some(l) => seq![crate::decimal::decimal_text(l)],
        None => Seq::empty(),
    }
}

/// Lemma: a separate type word names the type that `gain_and_type` reads
/// after a plain number gain.
proof fn lemma_type_word_after_gain(effect: Seq<char>, g: Seq<char>, w: Seq<char>, rest: Seq<Seq<char>>)
    requires
        is_float_literal(g),
        gain_type_of(w) is Some,
    ensures
        gain_and_type(effect, seq![g, w] + rest) == match float_error(effect, "gain"@, g) {
            Some(e) => Err(e),
            None => Ok::<(Seq<char>, VolGainType, int), CommandErrorView>(
                (g, gain_type_of(w)->0, 2),
            ),
        },
{
    lemma_literal_has_no_type(g);
    let args = seq![g, w] + rest;
    assert(args[0] == g && args[1] == w);
}

/// Lemma: two type words that name the same type give the same `vol`
/// outcome after a plain number gain, whatever follows.
proof fn lemma_same_type_words(
    effect: Seq<char>,
    g: Seq<char>,
    w1: Seq<char>,
    w2: Seq<char>,
    rest: Seq<Seq<char>>,
)
    requires
        is_float_literal(g),
        gain_type_of(w1) is Some,
        gain_type_of(w1) == gain_type_of(w2),
    ensures
        vol_outcome(effect, seq![g, w1] + rest) == vol_outcome(effect, seq![g, w2] + rest),
{
    lemma_type_word_after_gain(effect, g, w1, rest);
    lemma_type_word_after_gain(effect, g, w2, rest);
    let a1 = seq![g, w1] + rest;
    let a2 = seq![g, w2] + rest;
    assert(a1.len() == a2.len());
    assert forall|k: int| 2 <= k < a1.len() implies a1[k] == a2[k] by {
        assert(a1[k] == rest[k - 2] && a2[k] == rest[k - 2]);
    }
    assert(arg_at(a1, 2) == arg_at(a2, 2));
    assert(extra_error(effect, a1, 3) == extra_error(effect, a2, 3));
}

/// Lemma: a text ending with `lit` ends with `lit`'s last character.
proof fn lemma_ends_with_last(x: Seq<char>, lit: Seq<char>)
    requires
        lit.len() > 0,
        seq_ends_with(x, lit),
    ensures
        x.len() > 0 && x.last() == lit.last(),
{
    assert(x.subrange(x.len() - lit.len(), x.len() as int)[lit.len() - 1] == x.last());
}

/// Lemma: `g + lit` ends with `lit`, and cutting `lit` off gives `g`.
proof fn lemma_concat_ends(g: Seq<char>, lit: Seq<char>)
    ensures
        seq_ends_with(g + lit, lit),
        (g + lit).take((g + lit).len() - lit.len()) == g,
{
    assert((g + lit).subrange((g + lit).len() - lit.len(), (g + lit).len() as int) =~= lit);
    assert((g + lit).take((g + lit).len() - lit.len()) =~= g);
}

/// Lemma: a gain written with a type suffix parses as the gain followed by
/// a type word naming the suffix's type, whatever follows.
proof fn lemma_suffix_matches_word(
    effect: Seq<char>,
    g: Seq<char>,
    sfx: Seq<char>,
    w: Seq<char>,
    rest: Seq<Seq<char>>,
)
    requires
        is_float_literal(g),
        gain_type_of(w) is Some,
        split_suffix(g + sfx) == Some((g, gain_type_of(w)->0)),
    ensures
        vol_outcome(effect, seq![g + sfx] + rest) == vol_outcome(effect, seq![g, w] + rest),
{
    lemma_type_word_after_gain(effect, g, w, rest);
    let a1 = seq![g + sfx] + rest;
    let a2 = seq![g, w] + rest;
    assert(a1[0] == g + sfx);
    assert forall|k: int| 1 <= k < a1.len() implies a1[k] == a2[k + 1] by {
        assert(a1[k] == rest[k - 1] && a2[k + 1] == rest[k - 1]);
    }
    assert(arg_at(a1, 1) == arg_at(a2, 2));
    assert(extra_error(effect, a1, 2) == extra_error(effect, a2, 3));
}

/// The literals of the type words and suffixes.
proof fn lemma_type_literals()
    ensures
        "amplitude"@ =~= seq!['a', 'm', 'p', 'l', 'i', 't', 'u', 'd', 'e'],
        "power"@ =~= seq!['p', 'o', 'w', 'e', 'r'],
        "dB"@ =~= seq!['d', 'B'],
        "db"@ =~= seq!['d', 'b'],
        "a"@ =~= seq!['a'],
        "p"@ =~= seq!['p'],
        "d"@ =~= seq!['d'],
        gain_type_of("a"@) == Some(VolGainType::Amplitude),
        gain_type_of("amplitude"@) == Some(VolGainType::Amplitude),
        gain_type_of("p"@) == Some(VolGainType::Power),
        gain_type_of("power"@) == Some(VolGainType::Power),
        gain_type_of("d"@) == Some(VolGainType::Decibels),
        gain_type_of("dB"@) == Some(VolGainType::Decibels),
        gain_type_of("db"@) == Some(VolGainType::Decibels),
{
    reveal_strlit("amplitude");
    reveal_strlit("power");
    reveal_strlit("dB");
    reveal_strlit("db");
    reveal_strlit("a");
    reveal_strlit("p");
    reveal_strlit("d");
    assert("p"@[0] != "a"@[0] && "p"@.len() != "amplitude"@.len());
    assert("d"@[0] != "a"@[0] && "d"@.len() != "amplitude"@.len());
    assert("d"@[0] != "p"@[0] && "d"@.len() != "power"@.len());
    assert("dB"@.len() != "a"@.len() && "dB"@.len() != "p"@.len() && "dB"@.len() != "power"@.len()
        && "dB"@.len() != "amplitude"@.len());
    assert("db"@.len() != "a"@.len() && "db"@.len() != "p"@.len() && "db"@.len() != "power"@.len()
        && "db"@.len() != "amplitude"@.len());
    assert("power"@.len() != "a"@.len() && "power"@.len() != "amplitude"@.len());
}

/// Lemma: the suffix that `split_suffix` finds on a number followed by a
/// type suffix is that suffix.
proof fn lemma_split_typed_number(g: Seq<char>, sfx: Seq<char>)
    requires
        is_float_literal(g),
        sfx == "amplitude"@ || sfx == "power"@ || sfx == "dB"@ || sfx == "db"@ || sfx == "a"@
            || sfx == "p"@ || sfx == "d"@,
    ensures
        split_suffix(g + sfx) == Some((g, gain_type_of(sfx)->0)),
{
    lemma_type_literals();
    crate::numbers::lemma_float_literal_end(g);
    let c = g.last();
    assert(c != 'e' && c != 'd' && c != 'a' && c != 'p' && c != 'r' && c != 'B' && c != 'b');
    let x = g + sfx;
    lemma_concat_ends(g, sfx);
    assert(x.len() > sfx.len());
    let lits = seq!["amplitude"@, "power"@, "dB"@, "db"@, "a"@, "p"@, "d"@];
    assert forall|k: int| 0 <= k < 7 && seq_ends_with(x, #[trigger] lits[k]) && lits[k] != sfx
        implies false by {
        lemma_ends_with_last(x, lits[k]);
        if sfx.len() == 1 {
            assert(x.last() == sfx[0]);
        } else {
            assert(x.last() == sfx.last());
            if lits[k].len() > 1 && sfx.len() > 1 {
                assert(x[x.len() - 2] == sfx[sfx.len() - 2]);
                assert(x.subrange(x.len() - lits[k].len(), x.len() as int)[lits[k].len() - 2]
                    == x[x.len() - 2]);
            }
        }
        if lits[k].len() > sfx.len() {
            assert(x.subrange(x.len() - lits[k].len(), x.len() as int)[lits[k].len() - sfx.len() - 1]
                == x[x.len() - sfx.len() - 1]);
            assert(x[x.len() - sfx.len() - 1] == c);
        }
    }
    assert(lits[0] == "amplitude"@ && lits[1] == "power"@ && lits[2] == "dB"@ && lits[3] == "db"@);
    assert(lits[4] == "a"@ && lits[5] == "p"@ && lits[6] == "d"@);
}

/// Law: `p` and `power` name the same gain type, as separate words or as
/// suffixes: after any number gain, with anything following, `vol g p`,
/// `vol g power`, `vol gp` and `vol gpower` parse alike.
pub proof fn lemma_power_type_forms(effect: Seq<char>, g: Seq<char>, rest: Seq<Seq<char>>)
    requires
        is_float_literal(g),
    ensures
        vol_outcome(effect, seq![g, "p"@] + rest) == vol_outcome(effect, seq![g, "power"@] + rest),
        vol_outcome(effect, seq![g + "p"@] + rest) == vol_outcome(effect, seq![g, "power"@] + rest),
        vol_outcome(effect, seq![g + "power"@] + rest) == vol_outcome(
            effect,
            seq![g, "power"@] + rest,
        ),
{
    lemma_type_literals();
    lemma_same_type_words(effect, g, "p"@, "power"@, rest);
    lemma_split_typed_number(g, "p"@);
    lemma_split_typed_number(g, "power"@);
    lemma_suffix_matches_word(effect, g, "p"@, "power"@, rest);
    lemma_suffix_matches_word(effect, g, "power"@, "power"@, rest);
}

/// Law: `d`, `dB` and `db` name the same gain type, as separate words or
/// as suffixes: after any number gain, with anything following, they all
/// parse as `vol g dB`.
pub proof fn lemma_decibel_type_forms(effect: Seq<char>, g: Seq<char>, rest: Seq<Seq<char>>)
    requires
        is_float_literal(g),
    ensures
        vol_outcome(effect, seq![g, "d"@] + rest) == vol_outcome(effect, seq![g, "dB"@] + rest),
        vol_outcome(effect, seq![g, "db"@] + rest) == vol_outcome(effect, seq![g, "dB"@] + rest),
        vol_outcome(effect, seq![g + "d"@] + rest) == vol_outcome(effect, seq![g, "dB"@] + rest),
        vol_outcome(effect, seq![g + "dB"@] + rest) == vol_outcome(effect, seq![g, "dB"@] + rest),
        vol_outcome(effect, seq![g + "db"@] + rest) == vol_outcome(effect, seq![g, "dB"@] + rest),
{
    lemma_type_literals();
    lemma_same_type_words(effect, g, "d"@, "dB"@, rest);
    lemma_same_type_words(effect, g, "db"@, "dB"@, rest);
    lemma_split_typed_number(g, "d"@);
    lemma_split_typed_number(g, "dB"@);
    lemma_split_typed_number(g, "db"@);
    lemma_suffix_matches_word(effect, g, "d"@, "dB"@, rest);
    lemma_suffix_matches_word(effect, g, "dB"@, "dB"@, rest);
    lemma_suffix_matches_word(effect, g, "db"@, "dB"@, rest);
}

/// Law: `a` and `amplitude` name the amplitude type, which is also the
/// type of a gain without one: after any number gain, `vol g a`,
/// `vol g amplitude`, `vol ga` and `vol gamplitude` parse alike, and, when
/// nothing or a number follows, as `vol g` does.
pub proof fn lemma_amplitude_type_forms(effect: Seq<char>, g: Seq<char>, rest: Seq<Seq<char>>)
    requires
        is_float_literal(g),
    ensures
        vol_outcome(effect, seq![g, "a"@] + rest) == vol_outcome(
            effect,
            seq![g, "amplitude"@] + rest,
        ),
        vol_outcome(effect, seq![g + "a"@] + rest) == vol_outcome(
            effect,
            seq![g, "amplitude"@] + rest,
        ),
        vol_outcome(effect, seq![g + "amplitude"@] + rest) == vol_outcome(
            effect,
            seq![g, "amplitude"@] + rest,
        ),
        (rest.len() == 0 || (is_float_literal(rest[0]) && !option_like(rest[0])))
            ==> vol_outcome(effect, seq![g, "a"@] + rest) == vol_outcome(effect, seq![g] + rest),
{
    lemma_type_literals();
    lemma_same_type_words(effect, g, "a"@, "amplitude"@, rest);
    lemma_split_typed_number(g, "a"@);
    lemma_split_typed_number(g, "amplitude"@);
    lemma_suffix_matches_word(effect, g, "a"@, "amplitude"@, rest);
    lemma_suffix_matches_word(effect, g, "amplitude"@, "amplitude"@, rest);
    if rest.len() == 0 || (is_float_literal(rest[0]) && !option_like(rest[0])) {
        lemma_type_word_after_gain(effect, g, "a"@, rest);
        lemma_literal_has_no_type(g);
        let a1 = seq![g, "a"@] + rest;
        let a2 = seq![g] + rest;
        assert(a2[0] == g);
        if rest.len() > 0 {
            assert(a2[1] == rest[0]);
            lemma_literal_has_no_type(rest[0]);
        }
        assert forall|k: int| 1 <= k < a2.len() implies a2[k] == a1[k + 1] by {
            assert(a2[k] == rest[k - 1] && a1[k + 1] == rest[k - 1]);
        }
        assert(arg_at(a2, 1) == arg_at(a1, 2));
        assert(extra_error(effect, a2, 2) == extra_error(effect, a1, 3));
    }
}

/// Law: the type words mean their types: after any number gain, with
/// anything following, `power` gives a power gain, `dB` a gain in
/// decibels and `amplitude` an amplitude ratio.
pub proof fn lemma_type_words_mean_their_types(effect: Seq<char>, g: Seq<char>, rest: Seq<Seq<char>>)
    requires
        is_float_literal(g),
    ensures
        vol_outcome(effect, seq![g, "power"@] + rest) matches Ok((_, t, _)) ==> t
            == VolGainType::Power,
        vol_outcome(effect, seq![g, "dB"@] + rest) matches Ok((_, t, _)) ==> t
            == VolGainType::Decibels,
        vol_outcome(effect, seq![g, "amplitude"@] + rest) matches Ok((_, t, _)) ==> t
            == VolGainType::Amplitude,
{
    lemma_type_literals();
    lemma_type_word_after_gain(effect, g, "power"@, rest);
    lemma_type_word_after_gain(effect, g, "dB"@, rest);
    lemma_type_word_after_gain(effect, g, "amplitude"@, rest);
}

/// Law: the tokens rendered from the arguments a `vol` command parsed to
/// parse back to the same type and the values as rendered, which render to
/// the same tokens.
pub proof fn lemma_vol_round_trip(effect: Seq<char>, args: Seq<Seq<char>>)
    requires
        vol_outcome(effect, args) is Ok,
    ensures
        ({
            let (g, t, l) = vol_outcome(effect, args)->Ok_0;
            let ng = crate::decimal::decimal_text(g);
            let nl = crate::command_tempo::opt_decimal(l);
            &&& vol_outcome(effect, vol_tokens(g, t, l)) == Ok::<
                (Seq<char>, VolGainType, Option<Seq<char>>),
                CommandErrorView,
            >((ng, t, nl))
            &&& vol_tokens(ng, t, nl) == vol_tokens(g, t, l)
        }),
{
    let (g, t, l) = vol_outcome(effect, args)->Ok_0;
    let ng = crate::decimal::decimal_text(g);
    let nl = crate::command_tempo::opt_decimal(l);
    reveal(vol_config_error);
    assert(float_error(effect, "gain"@, g) is None);
    assert(is_float_literal(g));
    crate::decimal::lemma_decimal_text_value(g);
    lemma_literal_has_no_type(ng);
    if l is Some {
        let lv = l->0;
        assert(float_error(effect, "limiter-gain"@, lv) is None);
        crate::decimal::lemma_decimal_text_value(lv);
        crate::decimal::lemma_same_value_less(lv, crate::decimal::decimal_text(lv), "0"@);
        crate::decimal::lemma_same_value_less(lv, crate::decimal::decimal_text(lv), "1"@);
        lemma_literal_has_no_type(crate::decimal::decimal_text(lv));
    }
    reveal_strlit("amplitude");
    reveal_strlit("power");
    reveal_strlit("dB");
    reveal_strlit("db");
    reveal_strlit("a");
    reveal_strlit("p");
    reveal_strlit("d");
    let t2 = vol_tokens(g, t, l);
    assert(t2[0] == ng);
    match t {
        VolGainType::Amplitude => {
            if l is Some {
                assert(t2[1] == crate::decimal::decimal_text(l->0));
            }
        },
        VolGainType::Power => {
            assert(t2[1] == "power"@);
            assert(gain_type_of("power"@) == Some(VolGainType::Power));
        },
        VolGainType::Decibels => {
            assert(t2[1] == "dB"@);
            assert(gain_type_of("dB"@) == Some(VolGainType::Decibels));
        },
    }
    assert(vol_tokens(ng, t, nl) =~= t2);
}

} // verus!
