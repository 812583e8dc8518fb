//! The `treble` command: a gain, then an optional frequency and shelf width.
//!
//! `treble gain [frequency[k] [width]]`. A frequency with a `k` suffix is in
//! kHz. A width is a number followed by its unit: `q` (Q factor), `o`
//! (octaves) or `s` (shelf slope). The gain must be finite, the frequency
//! and the width above zero, and a slope at most 1.
use vstd::prelude::*;

use crate::chain::strings_view;
use crate::command::{
    args_view, extra_error, float_error, CommandErrorView, CommandResult, EffectCommandParseError,
};
use crate::decimal::{
    decimal_text, is_above, is_float_literal_finite, is_value_less, kilo_text, kilo_window,
    lemma_bounds, lemma_decimal_text_value, lemma_plain_idempotent, lemma_same_value_less,
    lemma_significant_digits, literal_finite, literal_negative, plain_decimal, point,
    render_decimal, render_kilo, significant, trim_zeros, value_above, value_less, value_zero,
    zeros,
};
use crate::error::EffectError;
use crate::numbers::is_float_literal;
use crate::text::{chars_of, owned, string_from_range};

verus! {

/// The unit of a shelf width.
#[derive(Debug, Clone, Copy, PartialEq, Eq, Structural)]
pub enum WidthUnit {
    /// A Q factor (`q`).
    Q,
    /// A band width in octaves (`o`).
    Octaves,
    /// A shelf slope (`s`).
    Slope,
}

/// The checked arguments of a `treble` command.
#[derive(Debug, Clone, PartialEq, Eq)]
pub struct TrebleArgs {
    /// The gain in dB, as number text.
    pub gain: String,
    /// The frequency, as number text without its `k` suffix, if given.
    pub frequency: Option<String>,
    /// Whether the frequency was given in kHz (a `k` suffix).
    pub frequency_kilo: bool,
    /// The width, as number text without its unit, and its unit, if given.
    pub width: Option<(String, WidthUnit)>,
}

/// The mathematical content of a [`TrebleArgs`].
pub struct TrebleView {
    pub gain: Seq<char>,
    pub frequency: Option<Seq<char>>,
    pub frequency_kilo: bool,
    pub width: Option<(Seq<char>, WidthUnit)>,
}

impl View for TrebleArgs {
    type V = TrebleView;

    open spec fn view(&self) -> TrebleView {
        TrebleView {
            gain: self.gain@,
            frequency: match self.frequency {
                Some(f) => Some(f@),
                None => None,
            },
            frequency_kilo: self.frequency_kilo,
            width: match self.width {
                Some((w, u)) => Some((w@, u)),
                None => None,
            },
        }
    }
}

/// The unit a width suffix names, if any.
pub open spec fn width_unit_of(c: char) -> Option<WidthUnit> {
    if c == 'q' {
        Some(WidthUnit::Q)
    } else if c == 'o' {
        Some(WidthUnit::Octaves)
    } else if c == 's' {
        Some(WidthUnit::Slope)
    } else {
        None
    }
}

/// The outcome of a frequency token: its number text and whether it is in
/// kHz.
pub open spec fn frequency_outcome(effect: Seq<char>, v: Seq<char>) -> Result<
    (Seq<char>, bool),
    CommandErrorView,
> {
    let kilo = v.len() > 0 && v.last() == 'k';
    let number = if kilo {
        v.drop_last()
    } else {
        v
    };
    match float_error(effect, "frequency"@, number) {
        Some(e) => Err(e),
        None => Ok((number, kilo)),
    }
}

/// The error of a width that is not a number with a unit.
pub open spec fn width_error(effect: Seq<char>) -> CommandErrorView {
    CommandErrorView::InvalidEffectConfig {
        effect,
        argument: "width"@,
        source: EffectError::InvalidBiquadDesign,
    }
}

/// The outcome of a width token: its number text and unit.
pub open spec fn width_outcome(effect: Seq<char>, v: Seq<char>) -> Result<
    (Seq<char>, WidthUnit),
    CommandErrorView,
> {
    if v.len() > 0 && width_unit_of(v.last()) is Some && is_float_literal(v.drop_last()) {
        Ok((v.drop_last(), width_unit_of(v.last())->0))
    } else {
        Err(width_error(effect))
    }
}

/// Whether the design is valid: the gain finite, the frequency above zero,
/// the width above zero and a slope at most 1.
pub open spec fn treble_design_ok(
    gain: Seq<char>,
    frequency: Option<Seq<char>>,
    width: Option<(Seq<char>, WidthUnit)>,
) -> bool {
    &&& literal_finite(gain)
    &&& (frequency matches Some(f) ==> value_above(f, "0"@))
    &&& (width matches Some((w, u)) ==> value_above(w, "0"@) && (u == WidthUnit::Slope
        ==> !value_less("1"@, w)))
}

/// The outcome of `treble gain [frequency[k] [width]]`.
pub open spec fn treble_outcome(effect: Seq<char>, args: Seq<Seq<char>>) -> Result<
    TrebleView,
    CommandErrorView,
> {
    if args.len() == 0 {
        Err(CommandErrorView::MissingArgument { effect, argument: "gain"@ })
    } else if float_error(effect, "gain"@, args[0]) is Some {
        Err(float_error(effect, "gain"@, args[0])->0)
    } else if args.len() > 1 && frequency_outcome(effect, args[1]) is Err {
        Err(frequency_outcome(effect, args[1])->Err_0)
    } else if args.len() > 2 && width_outcome(effect, args[2]) is Err {
        Err(width_outcome(effect, args[2])->Err_0)
    } else if extra_error(effect, args, 3) is Some {
        Err(extra_error(effect, args, 3)->0)
    } else {
        let frequency = if args.len() > 1 {
            Some(frequency_outcome(effect, args[1])->Ok_0.0)
        } else {
            None
        };
        let kilo = args.len() > 1 && frequency_outcome(effect, args[1])->Ok_0.1;
        let width = if args.len() > 2 {
            Some(width_outcome(effect, args[2])->Ok_0)
        } else {
            None
        };
        if !treble_design_ok(args[0], frequency, width) {
            Err(
                CommandErrorView::InvalidEffectConfig {
                    effect,
                    argument: "filter-design"@,
                    source: EffectError::InvalidBiquadDesign,
                },
            )
        } else {
            Ok(TrebleView { gain: args[0], frequency, frequency_kilo: kilo, width })
        }
    }
}

/// Parses a frequency token.
pub(crate) fn parse_frequency(effect: &'static str, value: &str) -> (r: CommandResult<(String, bool)>)
    ensures
        match frequency_outcome(effect@, value@) {
            Ok((n, k)) => r matches Ok((x, kx)) && x@ == n && kx == k,
            Err(e) => r matches Err(x) && x@ == e,
        },
{
    let chars = chars_of(value);
    let n = chars.len();
    let kilo = n > 0 && chars[n - 1] == 'k';
    let end = if kilo {
        n - 1
    } else {
        n
    };
    let number = string_from_range(chars.as_slice(), 0, end);
    proof {
        if kilo {
            assert(chars@.subrange(0, n - 1) =~= chars@.drop_last());
        } else {
            assert(chars@.subrange(0, n as int) =~= chars@);
        }
    }
    match crate::command::check_float(effect, "frequency", number.as_str()) {
        Ok(()) => Ok((number, kilo)),
        Err(e) => Err(e),
    }
}

/// Parses a width token.
fn parse_width(effect: &'static str, value: &str) -> (r: CommandResult<(String, WidthUnit)>)
    ensures
        match width_outcome(effect@, value@) {
            Ok((n, u)) => r matches Ok((x, ux)) && x@ == n && ux == u,
            Err(e) => r matches Err(x) && x@ == e,
        },
{
    let chars = chars_of(value);
    let n = chars.len();
    let invalid = EffectCommandParseError::InvalidEffectConfig {
        effect,
        argument: "width",
        source: EffectError::InvalidBiquadDesign,
    };
    if n == 0 {
        return Err(invalid);
    }
    let unit = if chars[n - 1] == 'q' {
        WidthUnit::Q
    } else if chars[n - 1] == 'o' {
        WidthUnit::Octaves
    } else if chars[n - 1] == 's' {
        WidthUnit::Slope
    } else {
        return Err(invalid);
    };
    let number = string_from_range(chars.as_slice(), 0, n - 1);
    proof {
        assert(chars@.subrange(0, n - 1) =~= chars@.drop_last());
    }
    if crate::numbers::is_float_text(number.as_str()) {
        Ok((number, unit))
    } else {
        Err(invalid)
    }
}

/// Parses `treble gain [frequency[k] [width]]`.
pub fn parse_treble(effect: &'static str, args: &[&str]) -> (r: CommandResult<TrebleArgs>)
    ensures
        match treble_outcome(effect@, args_view(args@)) {
            Ok(t) => r matches Ok(x) && x@ == t,
            Err(e) => r matches Err(x) && x@ == e,
        },
{
    if args.len() == 0 {
        return Err(EffectCommandParseError::MissingArgument { effect, argument: "gain" });
    }
    match crate::command::check_float(effect, "gain", args[0]) {
        Ok(()) => {},
        Err(e) => {
            return Err(e);
        },
    }
    let (frequency, frequency_kilo) = if args.len() > 1 {
        match parse_frequency(effect, args[1]) {
            Ok((n, k)) => (Some(n), k),
            Err(e) => {
                return Err(e);
            },
        }
    } else {
        (None, false)
    };
    let width = if args.len() > 2 {
        match parse_width(effect, args[2]) {
            Ok(w) => Some(w),
            Err(e) => {
                return Err(e);
            },
        }
    } else {
        None
    };
    match crate::command::reject_extra_from(effect, args, 3) {
        Ok(()) => {},
        Err(e) => {
            return Err(e);
        },
    }
    proof {
        lemma_bounds();
    }
    let frequency_ok = match &frequency {
        Some(f) => is_above(f.as_str(), "0"),
        None => true,
    };
    let width_ok = match &width {
        Some((w, u)) => is_above(w.as_str(), "0") && (*u != WidthUnit::Slope || !is_value_less(
            "1",
            w.as_str(),
        )),
        None => true,
    };
    if !(is_float_literal_finite(args[0]) && frequency_ok && width_ok) {
        return Err(
            EffectCommandParseError::InvalidEffectConfig {
                effect,
                argument: "filter-design",
                source: EffectError::InvalidBiquadDesign,
            },
        );
    }
    Ok(TrebleArgs { gain: owned(args[0]), frequency, frequency_kilo, width })
}

/// The suffix of a width unit.
pub open spec fn width_suffix(u: WidthUnit) -> char {
    match u {
        WidthUnit::Q => 'q',
        WidthUnit::Octaves => 'o',
        WidthUnit::Slope => 's',
    }
}

/// The frequency token `render_treble` writes: the value in Hz (3000 when
/// none was given).
pub open spec fn frequency_token(frequency: Option<Seq<char>>, kilo: bool) -> Seq<char> {
    match frequency {
        Some(f) => if kilo {
            kilo_text(f)
        } else {
            decimal_text(f)
        },
        None => "3000"@,
    }
}

/// The width token `render_treble` writes (`0.5s` when none was given).
pub open spec fn width_token(width: Option<(Seq<char>, WidthUnit)>) -> Seq<char> {
    match width {
        Some((w, u)) => decimal_text(w).push(width_suffix(u)),
        None => "0.5s"@,
    }
}

/// The tokens `render_treble` writes for `t`.
pub open spec fn treble_tokens(t: TrebleView) -> Seq<Seq<char>> {
    seq![
        "treble"@,
        decimal_text(t.gain),
        frequency_token(t.frequency, t.frequency_kilo),
        width_token(t.width),
    ]
}

/// Renders the `treble` tokens of `a`: the gain, the frequency in Hz and
/// the width, each value as plain decimal text, with the defaults 3000 Hz
/// and slope 0.5 where none was given.
pub fn render_treble(a: &TrebleArgs) -> (r: Vec<String>)
    ensures
        strings_view(r@) == treble_tokens(a@),
{
    let mut tokens: Vec<String> = Vec::new();
    tokens.push(owned("treble"));
    tokens.push(render_decimal(a.gain.as_str()));
    let f = match &a.frequency {
        Some(f) => if a.frequency_kilo {
            render_kilo(f.as_str())
        } else {
            render_decimal(f.as_str())
        },
        None => owned("3000"),
    };
    tokens.push(f);
    let w = match &a.width {
        Some((w, u)) => {
            let mut t = render_decimal(w.as_str());
            let c = match u {
                WidthUnit::Q => 'q',
                WidthUnit::Octaves => 'o',
                WidthUnit::Slope => 's',
            };
            crate::text::push_char(&mut t, c);
            t
        },
        None => owned("0.5s"),
    };
    tokens.push(w);
    proof {
        assert(strings_view(tokens@) =~= seq![
            "treble"@,
            decimal_text(a.gain@),
            frequency_token(a@.frequency, a.frequency_kilo),
            width_token(a@.width),
        ]);
    }
    tokens
}

/// The arguments a rendered `treble` command parses back to: every value
/// as the plain decimal text it was rendered as, and the defaults spelled
/// out.
pub open spec fn normalized_treble(t: TrebleView) -> TrebleView {
    let f = frequency_token(t.frequency, t.frequency_kilo);
    let kilo = f.len() > 0 && f.last() == 'k';
    TrebleView {
        gain: decimal_text(t.gain),
        frequency: Some(
            if kilo {
                f.drop_last()
            } else {
                f
            },
        ),
        frequency_kilo: kilo,
        width: Some(
            match t.width {
                Some((w, u)) => (decimal_text(w), u),
                None => ("0.5"@, WidthUnit::Slope),
            },
        ),
    }
}

/// Lemma: the default values are plain decimal text.
proof fn lemma_treble_defaults()
    ensures
        "3000"@ == plain_decimal(false, seq!['3'], 4),
        "0.5"@ == plain_decimal(false, seq!['5'], 0),
        trim_zeros(seq!['3']) == seq!['3'],
        trim_zeros(seq!['5']) == seq!['5'],
{
    reveal_strlit("3000");
    reveal_strlit("0.5");
    assert(trim_zeros(seq!['3']) == seq!['3']);
    assert(trim_zeros(seq!['5']) == seq!['5']);
    assert(zeros(3) =~= seq!['0', '0', '0']);
    assert(zeros(0) =~= Seq::<char>::empty());
    assert("3000"@ =~= plain_decimal(false, seq!['3'], 4));
    assert("0.5"@ =~= plain_decimal(false, seq!['5'], 0));
}

/// Lemma: a number that is above zero stays above zero in its plain
/// decimal text, and compares with 1 alike.
proof fn lemma_decimal_text_compares(v: Seq<char>)
    requires
        is_float_literal(v),
        literal_finite(v),
    ensures
        is_float_literal(decimal_text(v)),
        literal_finite(decimal_text(v)),
        float_error_free(decimal_text(v)),
        decimal_text(decimal_text(v)) == decimal_text(v),
        value_above(decimal_text(v), "0"@) == value_above(v, "0"@),
        value_less("1"@, decimal_text(v)) == value_less("1"@, v),
{
    lemma_decimal_text_value(v);
    lemma_same_value_less(v, decimal_text(v), "0"@);
    lemma_same_value_less(v, decimal_text(v), "1"@);
}

/// Whether a literal passes the number check (no option look-alike).
pub open spec fn float_error_free(v: Seq<char>) -> bool {
    is_float_literal(v) && !crate::command::option_like(v)
}

/// Lemma: the frequency token of a parsed frequency parses back to the
/// normalized frequency, which is above zero and renders alike.
proof fn lemma_frequency_token(effect: Seq<char>, token: Seq<char>)
    requires
        frequency_outcome(effect, token) is Ok,
        value_above(frequency_outcome(effect, token)->Ok_0.0, "0"@),
    ensures
        ({
            let (f, k) = frequency_outcome(effect, token)->Ok_0;
            let tok = frequency_token(Some(f), k);
            let kilo = tok.len() > 0 && tok.last() == 'k';
            let n = if kilo {
                tok.drop_last()
            } else {
                tok
            };
            &&& frequency_outcome(effect, tok) == Ok::<(Seq<char>, bool), CommandErrorView>((n, kilo))
            &&& value_above(n, "0"@)
            &&& frequency_token(Some(n), kilo) == tok
        }),
{
    let (f, k) = frequency_outcome(effect, token)->Ok_0;
    let tok = frequency_token(Some(f), k);
    reveal_strlit("0");
    crate::decimal::lemma_zero_bound("0"@);
    let kilo = tok.len() > 0 && tok.last() == 'k';
    let n = if kilo {
        tok.drop_last()
    } else {
        tok
    };
    if k {
        if is_float_literal(f) && literal_finite(f) && kilo_window(f) {
            let sig = significant(f);
            lemma_significant_digits(f);
            crate::decimal::lemma_significant_no_leading_zero(f);
            crate::decimal::lemma_trimmed_zeros(sig);
            lemma_plain_idempotent(literal_negative(f), sig, point(f) + 3);
            assert(value_zero(f) == (trim_zeros(sig).len() == 0)) by {
                if sig.len() > 0 && trim_zeros(sig).len() == 0 {
                    assert(sig[0] == '0');
                }
            }
            assert(!(tok.last() == 'k'));
            assert(!kilo);
            assert(n == tok);
            assert(value_above(n, "0"@));
            assert(frequency_outcome(effect, tok) == Ok::<(Seq<char>, bool), CommandErrorView>((n, kilo)));
            assert(frequency_token(Some(n), kilo) == tok);
        } else {
            assert(tok == f.push('k'));
            assert(tok.drop_last() =~= f);
            assert(kilo);
            assert(frequency_outcome(effect, tok) == Ok::<(Seq<char>, bool), CommandErrorView>((n, kilo)));
        }
    } else {
        assert(!(token.len() > 0 && token.last() == 'k'));
        assert(f == token);
        lemma_decimal_text_compares(f);
        if is_float_literal(f) && literal_finite(f) && (value_zero(f) || -64 <= point(f) <= 64) {
            let sig = significant(f);
            lemma_significant_digits(f);
            crate::decimal::lemma_significant_no_leading_zero(f);
            lemma_plain_idempotent(literal_negative(f), sig, point(f));
        }
    }
}

/// Law: the tokens rendered from a parsed `treble` command parse back, and
/// what they parse to renders to the same tokens.
pub proof fn lemma_treble_round_trip(effect: Seq<char>, args: Seq<Seq<char>>)
    requires
        treble_outcome(effect, args) is Ok,
    ensures
        ({
            let t = treble_outcome(effect, args)->Ok_0;
            &&& treble_outcome(effect, treble_tokens(t).drop_first())
                == Ok::<TrebleView, CommandErrorView>(normalized_treble(t))
            &&& treble_tokens(normalized_treble(t)) == treble_tokens(t)
        }),
{
    let t = treble_outcome(effect, args)->Ok_0;
    let toks = treble_tokens(t).drop_first();
    let nt = normalized_treble(t);
    assert(toks.len() == 3);
    lemma_bounds();
    lemma_treble_defaults();
    lemma_plain_idempotent(false, seq!['3'], 4);
    lemma_plain_idempotent(false, seq!['5'], 0);
    reveal_strlit("0");
    crate::decimal::lemma_zero_bound("0"@);
    lemma_decimal_text_compares(t.gain);
    assert(toks[0] == decimal_text(t.gain));
    assert(float_error(effect, "gain"@, toks[0]) is None);
    assert(literal_finite(nt.gain));
    match t.frequency {
        Some(f) => {
            lemma_frequency_token(effect, args[1]);
        },
        None => {
            assert(toks[1] == "3000"@);
            assert(toks[1].last() == '0');
            assert(value_above("3000"@, "0"@));
        },
    }
    assert(frequency_outcome(effect, toks[1]) == Ok::<(Seq<char>, bool), CommandErrorView>(
        (nt.frequency->0, nt.frequency_kilo),
    ));
    assert(value_above(nt.frequency->0, "0"@));
    assert(frequency_token(nt.frequency, nt.frequency_kilo) == toks[1]);
    match t.width {
        Some((w, u)) => {
            lemma_decimal_text_compares(w);
            assert(toks[2] == decimal_text(w).push(width_suffix(u)));
            assert(toks[2].drop_last() =~= decimal_text(w));
            assert(width_unit_of(toks[2].last()) == Some(u));
        },
        None => {
            assert(toks[2] == "0.5s"@);
            reveal_strlit("0.5s");
            assert(toks[2].drop_last() =~= "0.5"@);
            assert(toks[2].last() == 's');
            assert(value_above("0.5"@, "0"@));
            reveal_strlit("1");
            crate::decimal::lemma_whole_bound("1"@);
            crate::decimal::lemma_tenths_bound("0.5"@);
            assert(!value_less("1"@, "0.5"@));
            assert(width_token(nt.width) =~= toks[2]);
        },
    }
    assert(width_outcome(effect, toks[2]) == Ok::<(Seq<char>, WidthUnit), CommandErrorView>(
        nt.width->0,
    ));
    assert(width_token(nt.width) == toks[2]);
    assert(extra_error(effect, toks, 3) is None);
    assert(treble_design_ok(toks[0], nt.frequency, nt.width));
    assert(treble_tokens(nt) =~= treble_tokens(t));
}

} // verus!
