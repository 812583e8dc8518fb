//! The `tempo` command: tuning flags, a factor and optional timings.
//!
//! `tempo [-q] [-m|-s|-l] factor [segment [search [overlap]]]`. Flags come
//! first, in any order; a later profile flag overrides an earlier one.
//! The factor must be in `0.1..=100`, the segment in `10..=120` ms, and
//! the search and overlap in `0..=30` ms.
use vstd::prelude::*;

use crate::command::{
    arg_at, args_view, extra_error, float_error, opt_float_error, opt_text, option_like,
    CommandErrorView, CommandResult, EffectCommandParseError,
};
use crate::decimal::{
    bounded_point, decimal_text, is_within, lemma_bounds, literal_finite, render_decimal,
    value_within,
};
use crate::error::EffectError;
use crate::numbers::is_float_literal;
use crate::text::{owned, str_eq};

verus! {

/// The WSOLA tuning profile of `tempo`.
#[derive(Debug, Clone, Copy, PartialEq, Eq, Structural)]
pub enum TempoProfile {
    /// The default tuning.
    Default,
    /// Tuning for music (`-m`).
    Music,
    /// Tuning for speech (`-s`).
    Speech,
    /// Linear tuning (`-l`).
    Linear,
}

/// The checked arguments of a `tempo` command.
#[derive(Debug, Clone, PartialEq, Eq)]
pub struct TempoArgs {
    /// Whether `-q` (quick search) was given.
    pub quick_search: bool,
    /// The tuning profile.
    pub profile: TempoProfile,
    /// The tempo factor, as number text.
    pub factor: String,
    /// Segment length in milliseconds, as number text, if given.
    pub segment: Option<String>,
    /// Search length in milliseconds, as number text, if given.
    pub search: Option<String>,
    /// Overlap length in milliseconds, as number text, if given.
    pub overlap: Option<String>,
}

/// The state after the flags from token `i` on: the quick-search flag, the
/// profile and the index of the first token that is not a flag.
pub open spec fn tempo_flags(
    effect: Seq<char>,
    args: Seq<Seq<char>>,
    i: int,
    quick: bool,
    profile: TempoProfile,
) -> Result<(bool, TempoProfile, int), CommandErrorView>
    decreases args.len() - i,
{
    if i < 0 || i >= args.len() {
        Ok((quick, profile, i))
    } else if args[i] == "-q"@ {
        tempo_flags(effect, args, i + 1, true, profile)
    } else if args[i] == "-m"@ {
        tempo_flags(effect, args, i + 1, quick, TempoProfile::Music)
    } else if args[i] == "-s"@ {
        tempo_flags(effect, args, i + 1, quick, TempoProfile::Speech)
    } else if args[i] == "-l"@ {
        tempo_flags(effect, args, i + 1, quick, TempoProfile::Linear)
    } else if option_like(args[i]) {
        Err(CommandErrorView::UnsupportedOption { effect, option: args[i] })
    } else {
        Ok((quick, profile, i))
    }
}

/// The outcome of the arguments after the flags.
pub open spec fn tempo_rest_outcome(effect: Seq<char>, rest: Seq<Seq<char>>) -> Result<
    (Seq<char>, Option<Seq<char>>, Option<Seq<char>>, Option<Seq<char>>),
    CommandErrorView,
> {
    if rest.len() == 0 {
        Err(CommandErrorView::MissingArgument { effect, argument: "factor"@ })
    } else if option_like(rest[0]) {
        Err(CommandErrorView::UnsupportedOption { effect, option: rest[0] })
    } else if extra_error(effect, rest, 4) is Some {
        Err(extra_error(effect, rest, 4)->0)
    } else if opt_float_error(effect, "segment"@, arg_at(rest, 1)) is Some {
        Err(opt_float_error(effect, "segment"@, arg_at(rest, 1))->0)
    } else if opt_float_error(effect, "search"@, arg_at(rest, 2)) is Some {
        Err(opt_float_error(effect, "search"@, arg_at(rest, 2))->0)
    } else if opt_float_error(effect, "overlap"@, arg_at(rest, 3)) is Some {
        Err(opt_float_error(effect, "overlap"@, arg_at(rest, 3))->0)
    } else if float_error(effect, "factor"@, rest[0]) is Some {
        Err(float_error(effect, "factor"@, rest[0])->0)
    } else {
        Ok((rest[0], arg_at(rest, 1), arg_at(rest, 2), arg_at(rest, 3)))
    }
}

/// The outcome of a `tempo` command.
pub open spec fn tempo_outcome(effect: Seq<char>, args: Seq<Seq<char>>) -> Result<
    (bool, TempoProfile, Seq<char>, Option<Seq<char>>, Option<Seq<char>>, Option<Seq<char>>),
    CommandErrorView,
> {
    match tempo_flags(effect, args, 0, false, TempoProfile::Default) {
        Err(e) => Err(e),
        Ok((quick, profile, i)) => match tempo_rest_outcome(effect, args.skip(i)) {
            Err(e) => Err(e),
            Ok((factor, segment, search, overlap)) => match tempo_config_error(
                effect,
                factor,
                segment,
                search,
                overlap,
            ) {
                Some(e) => Err(e),
                None => Ok((quick, profile, factor, segment, search, overlap)),
            },
        },
    }
}

/// Whether an optional timing is absent or within `lo..=hi`.
pub open spec fn timing_ok(v: Option<Seq<char>>, lo: Seq<char>, hi: Seq<char>) -> bool {
    match v {
        Some(t) => value_within(t, lo, hi),
        None => true,
    }
}

/// The error of a tempo configuration out of range, if any: the factor
/// must be in `0.1..=100`, the segment in `10..=120` ms, and the search and
/// overlap in `0..=30` ms.
#[verifier::opaque]
pub open spec fn tempo_config_error(
    effect: Seq<char>,
    factor: Seq<char>,
    segment: Option<Seq<char>>,
    search: Option<Seq<char>>,
    overlap: Option<Seq<char>>,
) -> Option<CommandErrorView> {
    if !value_within(factor, "0.1"@, "100"@) {
        Some(
            CommandErrorView::InvalidEffectConfig {
                effect,
                argument: "tempo"@,
                source: EffectError::InvalidTempoFactor,
            },
        )
    } else if !(timing_ok(segment, "10"@, "120"@) && timing_ok(search, "0"@, "30"@) && timing_ok(
        overlap,
        "0"@,
        "30"@,
    )) {
        Some(
            CommandErrorView::InvalidEffectConfig {
                effect,
                argument: "tempo"@,
                source: EffectError::InvalidTempoTuning,
            },
        )
    } else {
        None
    }
}

/// Whether an optional timing (a number) is absent or within `lo..=hi`.
fn check_timing(v: &Option<String>, lo: &str, hi: &str) -> (r: bool)
    requires
        match v {
            Some(t) => is_float_literal(t@),
            None => true,
        },
        is_float_literal(lo@) && literal_finite(lo@) && bounded_point(lo@),
        is_float_literal(hi@) && literal_finite(hi@) && bounded_point(hi@),
    ensures
        r == timing_ok(opt_text(*v), lo@, hi@),
{
    match v {
        Some(t) => is_within(t.as_str(), lo, hi),
        None => true,
    }
}

/// Whether the token equals the literal `lit`.
fn is_word(v: &str, lit: &str) -> (r: bool)
    ensures
        r == (v@ == lit@),
{
    str_eq(v, lit)
}

/// Parses the leading flags; returns the flags and the index after them.
#[verifier::loop_isolation(false)]
fn parse_tempo_flags(effect: &'static str, args: &[&str]) -> (r: CommandResult<
    (bool, TempoProfile, usize),
>)
    ensures
        match tempo_flags(effect@, args_view(args@), 0, false, TempoProfile::Default) {
            Ok((q, p, i)) => r matches Ok((q2, p2, i2)) && q2 == q && p2 == p && i2 == i,
            Err(e) => r matches Err(x) && x@ == e,
        },
        r matches Ok((_, _, i)) ==> i <= args@.len(),
{
    let ghost av = args_view(args@);
    let mut quick = false;
    let mut profile = TempoProfile::Default;
    let mut index: usize = 0;
    while index < args.len()
        invariant
            index <= args@.len(),
            tempo_flags(effect@, av, 0, false, TempoProfile::Default) == tempo_flags(
                effect@,
                av,
                index as int,
                quick,
                profile,
            ),
        decreases args@.len() - index,
    {
        let option = args[index];
        if is_word(option, "-q") {
            quick = true;
        } else if is_word(option, "-m") {
            profile = TempoProfile::Music;
        } else if is_word(option, "-s") {
            profile = TempoProfile::Speech;
        } else if is_word(option, "-l") {
            profile = TempoProfile::Linear;
        } else if crate::command::is_option_like(option) {
            return Err(EffectCommandParseError::UnsupportedOption { effect, option: owned(option) });
        } else {
            break;
        }
        index = index + 1;
    }
    Ok((quick, profile, index))
}

/// Parses `tempo [-q] [-m|-s|-l] factor [segment [search [overlap]]]`.
pub fn parse_tempo(effect: &'static str, args: &[&str]) -> (r: CommandResult<TempoArgs>)
    ensures
        match tempo_outcome(effect@, args_view(args@)) {
            Ok((q, p, factor, segment, search, overlap)) => r matches Ok(x) && x.quick_search == q
                && x.profile == p && x.factor@ == factor && opt_text(x.segment) == segment
                && opt_text(x.search) == search && opt_text(x.overlap) == overlap,
            Err(e) => r matches Err(x) && x@ == e,
        },
{
    let (quick_search, profile, index) = match parse_tempo_flags(effect, args) {
        Ok(t) => t,
        Err(e) => {
            return Err(e);
        },
    };
    let rest = vstd::slice::slice_subrange(args, index, args.len());
    proof {
        assert(args_view(rest@) =~= args_view(args@).skip(index as int));
    }
    if rest.len() == 0 {
        return Err(EffectCommandParseError::MissingArgument { effect, argument: "factor" });
    }
    if crate::command::is_option_like(rest[0]) {
        return Err(EffectCommandParseError::UnsupportedOption { effect, option: owned(rest[0]) });
    }
    match crate::command::reject_extra_from(effect, rest, 4) {
        Ok(()) => {},
        Err(e) => {
            return Err(e);
        },
    }
    match crate::command::check_opt_float(effect, "segment", rest, 1) {
        Ok(()) => {},
        Err(e) => {
            return Err(e);
        },
    }
    match crate::command::check_opt_float(effect, "search", rest, 2) {
        Ok(()) => {},
        Err(e) => {
            return Err(e);
        },
    }
    match crate::command::check_opt_float(effect, "overlap", rest, 3) {
        Ok(()) => {},
        Err(e) => {
            return Err(e);
        },
    }
    match crate::command::check_float(effect, "factor", rest[0]) {
        Ok(()) => {},
        Err(e) => {
            return Err(e);
        },
    }
    let segment = crate::command::owned_arg(rest, 1);
    let search = crate::command::owned_arg(rest, 2);
    let overlap = crate::command::owned_arg(rest, 3);
    proof {
        lemma_bounds();
        reveal(tempo_config_error);
    }
    if !is_within(rest[0], "0.1", "100") {
        return Err(
            EffectCommandParseError::InvalidEffectConfig {
                effect,
                argument: "tempo",
                source: EffectError::InvalidTempoFactor,
            },
        );
    }
    if !(check_timing(&segment, "10", "120") && check_timing(&search, "0", "30") && check_timing(
        &overlap,
        "0",
        "30",
    )) {
        return Err(
            EffectCommandParseError::InvalidEffectConfig {
                effect,
                argument: "tempo",
                source: EffectError::InvalidTempoTuning,
            },
        );
    }
    Ok(TempoArgs { quick_search, profile, factor: owned(rest[0]), segment, search, overlap })
}

/// The flag token of a profile (none for the default profile).
pub open spec fn profile_token(p: TempoProfile) -> Option<Seq<char>> {
    match p {
        TempoProfile::Default => None,
        TempoProfile::Music => Some("-m"@),
        TempoProfile::Speech => Some("-s"@),
        TempoProfile::Linear => Some("-l"@),
    }
}

/// The flag of a profile, if it has one.
pub fn profile_option(p: TempoProfile) -> (r: Option<&'static str>)
    ensures
        match profile_token(p) {
            Some(t) => r matches Some(s) && s@ == t,
            None => r is None,
        },
{
    match p {
        TempoProfile::Default => None,
        TempoProfile::Music => Some("-m"),
        TempoProfile::Speech => Some("-s"),
        TempoProfile::Linear => Some("-l"),
    }
}

/// The tokens of an optional value: the value, or nothing.
pub open spec fn opt_tokens(v: Option<Seq<char>>) -> Seq<Seq<char>> {
    match v {
        Some(t) => seq![t],
        None => Seq::empty(),
    }
}

/// The plain decimal text of an optional value.
pub open spec fn opt_decimal(v: Option<Seq<char>>) -> Option<Seq<char>> {
    match v {
        Some(t) => Some(decimal_text(t)),
        None => None,
    }
}

/// The canonical `tempo` tokens of checked arguments: the flags, the
/// factor, then the timings given, values as plain decimal text.
pub open spec fn tempo_tokens(
    quick: bool,
    profile: TempoProfile,
    factor: Seq<char>,
    segment: Option<Seq<char>>,
    search: Option<Seq<char>>,
    overlap: Option<Seq<char>>,
) -> Seq<Seq<char>> {
    seq!["tempo"@] + (if quick {
        seq!["-q"@]
    } else {
        Seq::empty()
    }) + opt_tokens(profile_token(profile)) + seq![decimal_text(factor)] + opt_tokens(
        opt_decimal(segment),
    ) + opt_tokens(opt_decimal(search)) + opt_tokens(opt_decimal(overlap))
}

/// Appends an optional value to `tokens`.
fn push_opt(tokens: &mut Vec<String>, v: &Option<String>)
    ensures
        crate::chain::strings_view(final(tokens)@) == crate::chain::strings_view(old(tokens)@)
            + opt_tokens(opt_text(*v)),
{
    match v {
        Some(t) => {
            let ghost before = tokens@;
            tokens.push(t.clone());
            proof {
                assert(crate::chain::strings_view(tokens@) =~= crate::chain::strings_view(before)
                    + seq![t@]);
            }
        },
        None => {
            proof {
                assert(crate::chain::strings_view(tokens@) =~= crate::chain::strings_view(tokens@)
                    + Seq::<Seq<char>>::empty());
            }
        },
    }
}

/// Appends the plain decimal text of an optional value to `tokens`.
fn push_opt_decimal(tokens: &mut Vec<String>, v: &Option<String>)
    ensures
        crate::chain::strings_view(final(tokens)@) == crate::chain::strings_view(old(tokens)@)
            + opt_tokens(opt_decimal(opt_text(*v))),
{
    let r = match v {
        Some(t) => Some(render_decimal(t.as_str())),
        None => None,
    };
    push_opt(tokens, &r);
}

/// Renders the `tempo` tokens of checked arguments, values as plain
/// decimal text. A later timing is only given with the earlier ones, so the
/// timings render in the positions given.
pub fn render_tempo(a: &TempoArgs) -> (r: Vec<String>)
    ensures
        crate::chain::strings_view(r@) == tempo_tokens(
            a.quick_search,
            a.profile,
            a.factor@,
            opt_text(a.segment),
            opt_text(a.search),
            opt_text(a.overlap),
        ),
{
    let mut tokens: Vec<String> = Vec::new();
    tokens.push(owned("tempo"));
    if a.quick_search {
        tokens.push(owned("-q"));
    }
    let p = match profile_option(a.profile) {
        Some(f) => Some(owned(f)),
        None => None,
    };
    push_opt(&mut tokens, &p);
    let f = Some(a.factor.clone());
    push_opt_decimal(&mut tokens, &f);
    push_opt_decimal(&mut tokens, &a.segment);
    push_opt_decimal(&mut tokens, &a.search);
    push_opt_decimal(&mut tokens, &a.overlap);
    proof {
        assert(crate::chain::strings_view(tokens@) =~= tempo_tokens(
            a.quick_search,
            a.profile,
            a.factor@,
            opt_text(a.segment),
            opt_text(a.search),
            opt_text(a.overlap),
        ));
    }
    tokens
}


/// Lemma: the plain decimal text of an optional timing in range is a
/// timing in range that is its own plain decimal text.
proof fn lemma_opt_decimal_timing(v: Option<Seq<char>>, lo: Seq<char>, hi: Seq<char>)
    requires
        timing_ok(v, lo, hi),
        v matches Some(t) ==> is_float_literal(t),
    ensures
        timing_ok(opt_decimal(v), lo, hi),
        opt_decimal(v) matches Some(t) ==> is_float_literal(t) && !option_like(t),
        opt_decimal(opt_decimal(v)) == opt_decimal(v),
{
    match v {
        Some(t) => {
            crate::decimal::lemma_decimal_text_value(t);
            crate::decimal::lemma_same_value_less(t, decimal_text(t), lo);
            crate::decimal::lemma_same_value_less(t, decimal_text(t), hi);
        },
        None => {},
    }
}

/// Lemma: the rendered values after the flags parse back to themselves,
/// in range.
#[verifier::rlimit(30)]
proof fn lemma_tempo_tail(
    effect: Seq<char>,
    f: Seq<char>,
    s1: Option<Seq<char>>,
    s2: Option<Seq<char>>,
    s3: Option<Seq<char>>,
)
    requires
        tempo_rest_outcome(effect, seq![f] + opt_tokens(s1) + opt_tokens(s2) + opt_tokens(s3))
            == Ok::<
            (Seq<char>, Option<Seq<char>>, Option<Seq<char>>, Option<Seq<char>>),
            CommandErrorView,
        >((f, s1, s2, s3)),
        tempo_config_error(effect, f, s1, s2, s3) is None,
    ensures
        ({
            let nf = decimal_text(f);
            let tail = seq![nf] + opt_tokens(opt_decimal(s1)) + opt_tokens(opt_decimal(s2))
                + opt_tokens(opt_decimal(s3));
            &&& !option_like(nf)
            &&& decimal_text(nf) == nf
            &&& opt_decimal(opt_decimal(s1)) == opt_decimal(s1)
            &&& opt_decimal(opt_decimal(s2)) == opt_decimal(s2)
            &&& opt_decimal(opt_decimal(s3)) == opt_decimal(s3)
            &&& tempo_rest_outcome(effect, tail) == Ok::<
                (Seq<char>, Option<Seq<char>>, Option<Seq<char>>, Option<Seq<char>>),
                CommandErrorView,
            >((nf, opt_decimal(s1), opt_decimal(s2), opt_decimal(s3)))
            &&& tempo_config_error(effect, nf, opt_decimal(s1), opt_decimal(s2), opt_decimal(s3))
                is None
        }),
{
    reveal(tempo_config_error);
    let rest = seq![f] + opt_tokens(s1) + opt_tokens(s2) + opt_tokens(s3);
    assert(rest[0] == f);
    assert(arg_at(rest, 1) == s1 && arg_at(rest, 2) == s2 && arg_at(rest, 3) == s3);
    crate::decimal::lemma_decimal_text_value(f);
    crate::decimal::lemma_same_value_less(f, decimal_text(f), "0.1"@);
    crate::decimal::lemma_same_value_less(f, decimal_text(f), "100"@);
    lemma_opt_decimal_timing(s1, "10"@, "120"@);
    lemma_opt_decimal_timing(s2, "0"@, "30"@);
    lemma_opt_decimal_timing(s3, "0"@, "30"@);
    let nf = decimal_text(f);
    let tail = seq![nf] + opt_tokens(opt_decimal(s1)) + opt_tokens(opt_decimal(s2)) + opt_tokens(
        opt_decimal(s3),
    );
    assert(tail.len() == rest.len());
    assert(tail[0] == nf);
    assert(arg_at(tail, 1) == opt_decimal(s1) && arg_at(tail, 2) == opt_decimal(s2) && arg_at(
        tail,
        3,
    ) == opt_decimal(s3));
}

/// Law: the tokens rendered from the arguments a `tempo` command parsed to
/// parse back to the same flags and the values as rendered, which render to
/// the same tokens.
pub proof fn lemma_tempo_round_trip(effect: Seq<char>, args: Seq<Seq<char>>)
    requires
        tempo_outcome(effect, args) is Ok,
    ensures
        ({
            let (q, p, f, s1, s2, s3) = tempo_outcome(effect, args)->Ok_0;
            let (nf, n1, n2, n3) = (
                decimal_text(f),
                opt_decimal(s1),
                opt_decimal(s2),
                opt_decimal(s3),
            );
            &&& tempo_outcome(effect, tempo_tokens(q, p, f, s1, s2, s3).drop_first()) == Ok::<
                (bool, TempoProfile, Seq<char>, Option<Seq<char>>, Option<Seq<char>>, Option<Seq<char>>),
                CommandErrorView,
            >((q, p, nf, n1, n2, n3))
            &&& tempo_tokens(q, p, nf, n1, n2, n3) == tempo_tokens(q, p, f, s1, s2, s3)
        }),
{
    let (q, p, f, s1, s2, s3) = tempo_outcome(effect, args)->Ok_0;
    let i = tempo_flags(effect, args, 0, false, TempoProfile::Default)->Ok_0.2;
    let rest = args.skip(i);
    assert(rest.len() <= 4) by {
        if rest.len() > 4 {
            assert(extra_error(effect, rest, 4) is Some);
        }
    }
    assert(rest =~= seq![f] + opt_tokens(s1) + opt_tokens(s2) + opt_tokens(s3));
    assert(tempo_rest_outcome(effect, rest) == Ok::<
        (Seq<char>, Option<Seq<char>>, Option<Seq<char>>, Option<Seq<char>>),
        CommandErrorView,
    >((f, s1, s2, s3)));
    lemma_tempo_tail(effect, f, s1, s2, s3);
    let nf = decimal_text(f);
    let tail = seq![nf] + opt_tokens(opt_decimal(s1)) + opt_tokens(opt_decimal(s2)) + opt_tokens(
        opt_decimal(s3),
    );
    let pre = (if q {
        seq!["-q"@]
    } else {
        Seq::<Seq<char>>::empty()
    }) + opt_tokens(profile_token(p));
    let t = tempo_tokens(q, p, f, s1, s2, s3).drop_first();
    assert(t =~= pre + tail);
    reveal_strlit("-q");
    reveal_strlit("-m");
    reveal_strlit("-s");
    reveal_strlit("-l");
    assert(!option_like(nf));
    assert(nf != "-q"@ && nf != "-m"@ && nf != "-s"@ && nf != "-l"@) by {
        assert(option_like("-q"@) && option_like("-m"@) && option_like("-s"@) && option_like(
            "-l"@,
        ));
    }
    let k = pre.len() as int;
    assert(t[k] == nf);
    assert(tempo_flags(effect, t, k, q, p) == Ok::<(bool, TempoProfile, int), CommandErrorView>(
        (q, p, k),
    ));
    assert("-m"@[1] != "-q"@[1] && "-s"@[1] != "-q"@[1] && "-l"@[1] != "-q"@[1]);
    assert("-s"@[1] != "-m"@[1] && "-l"@[1] != "-m"@[1] && "-l"@[1] != "-s"@[1]);
    let qi: int = if q {
        1
    } else {
        0
    };
    if q {
        assert(t[0] == "-q"@);
        assert(tempo_flags(effect, t, 0, false, TempoProfile::Default) == tempo_flags(
            effect,
            t,
            1,
            true,
            TempoProfile::Default,
        ));
    }
    if profile_token(p) is Some {
        assert(t[qi] == profile_token(p)->0);
        assert(tempo_flags(effect, t, qi, q, TempoProfile::Default) == tempo_flags(
            effect,
            t,
            qi + 1,
            q,
            p,
        ));
    }
    assert(tempo_flags(effect, t, 0, false, TempoProfile::Default) == tempo_flags(
        effect,
        t,
        k,
        q,
        p,
    ));
    assert(t.skip(k) =~= tail);
    assert(tempo_tokens(q, p, nf, opt_decimal(s1), opt_decimal(s2), opt_decimal(s3))
        =~= tempo_tokens(q, p, f, s1, s2, s3));
}

} // verus!
