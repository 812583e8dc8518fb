//! The `trim` command: a list of cut positions in frames.
//!
//! `trim position...` takes one or more positions. A position is a frame
//! count with an optional anchor (`=` absolute, `+` relative to the previous
//! position, `-` before the end) and an optional `s` or `f` unit suffix. A
//! single `start..end` argument is shorthand for `start =end`, with an empty
//! start meaning `0` and an empty end meaning the end of the input.
use vstd::prelude::*;

use crate::chain::strings_view;
use crate::command::{args_view, CommandErrorView, CommandResult, EffectCommandParseError};
use crate::numbers::{lemma_decimal_digits, lemma_parse_decimal, parse_unsigned};
use crate::text::is_digit;
use crate::text::{chars_of, decimal, owned, push_char, push_decimal, string_from_range};

verus! {

/// A `trim` cut position.
#[derive(Debug, Clone, Copy, PartialEq, Eq, Structural)]
pub enum TrimPosition {
    /// A frame offset from the start of the input.
    Absolute(u64),
    /// A frame count after the previous position.
    Relative(u64),
    /// A frame count before the end of the input.
    BeforeEnd(u64),
    /// The end of the input.
    End,
}

/// The index of the first `..` in `v` at or after `i`, or `v.len()`.
pub open spec fn dots_from(v: Seq<char>, i: int) -> int
    decreases v.len() - i,
{
    if i < 0 || i + 1 >= v.len() {
        v.len() as int
    } else if v[i] == '.' && v[i + 1] == '.' {
        i
    } else {
        dots_from(v, i + 1)
    }
}

/// The two positions a `start..end` argument stands for, if it is one.
pub open spec fn expand_range(v: Seq<char>) -> Option<(Seq<char>, Seq<char>)> {
    let d = dots_from(v, 0);
    if d >= v.len() {
        None
    } else {
        let start = v.take(d);
        let end = v.skip(d + 2);
        Some(
            (
                if start.len() == 0 {
                    "0"@
                } else {
                    start
                },
                if end.len() == 0 {
                    "-0"@
                } else {
                    seq!['='] + end
                },
            ),
        )
    }
}

/// The position tokens of a `trim` argument list, after range expansion.
pub open spec fn trim_tokens(args: Seq<Seq<char>>) -> Seq<Seq<char>> {
    if args.len() == 1 && expand_range(args[0]) is Some {
        let (a, b) = expand_range(args[0])->0;
        seq![a, b]
    } else {
        args
    }
}

/// Whether `c` anchors a position.
pub open spec fn is_anchor(c: char) -> bool {
    c == '=' || c == '+' || c == '-'
}

/// The anchor of a position token (`+` when none is written).
pub open spec fn anchor_of(v: Seq<char>) -> char {
    if v.len() > 0 && is_anchor(v[0]) {
        v[0]
    } else {
        '+'
    }
}

/// The frame text of a position token: without its anchor and unit suffix.
pub open spec fn frame_text(v: Seq<char>) -> Seq<char> {
    let body = if v.len() > 0 && is_anchor(v[0]) {
        v.drop_first()
    } else {
        v
    };
    if body.len() > 0 && (body.last() == 's' || body.last() == 'f') {
        body.drop_last()
    } else {
        body
    }
}

/// The outcome of the position token `v` at position `index`.
pub open spec fn position_outcome(effect: Seq<char>, index: int, v: Seq<char>) -> Result<
    TrimPosition,
    CommandErrorView,
> {
    match parse_unsigned(frame_text(v), u64::MAX as nat) {
        Err(e) => Err(
            CommandErrorView::InvalidFrameCount {
                effect,
                argument: "position"@,
                value: v,
                source: e,
            },
        ),
        Ok(f) => Ok(
            if anchor_of(v) == '=' {
                TrimPosition::Absolute(f as u64)
            } else if anchor_of(v) == '-' {
                if f == 0 {
                    TrimPosition::End
                } else {
                    TrimPosition::BeforeEnd(f as u64)
                }
            } else if index == 0 {
                TrimPosition::Absolute(f as u64)
            } else {
                TrimPosition::Relative(f as u64)
            },
        ),
    }
}

/// The positions of the first `n` tokens, or the first token error.
pub open spec fn positions_upto(effect: Seq<char>, tokens: Seq<Seq<char>>, n: int) -> Result<
    Seq<TrimPosition>,
    CommandErrorView,
>
    decreases n,
{
    if n <= 0 {
        Ok(Seq::empty())
    } else {
        match positions_upto(effect, tokens, n - 1) {
            Err(e) => Err(e),
            Ok(ps) => match position_outcome(effect, n - 1, tokens[n - 1]) {
                Err(e) => Err(e),
                Ok(p) => Ok(ps.push(p)),
            },
        }
    }
}

/// The outcome of `trim position...`.
pub open spec fn trim_outcome(effect: Seq<char>, args: Seq<Seq<char>>) -> Result<
    Seq<TrimPosition>,
    CommandErrorView,
> {
    if args.len() == 0 {
        Err(CommandErrorView::MissingArgument { effect, argument: "position"@ })
    } else {
        positions_upto(effect, trim_tokens(args), trim_tokens(args).len() as int)
    }
}

/// The canonical token of `position` at position `index`.
pub open spec fn position_text(index: int, position: TrimPosition) -> Seq<char> {
    match position {
        TrimPosition::Absolute(f) => if index == 0 {
            decimal(f as nat)
        } else {
            seq!['='] + decimal(f as nat)
        },
        TrimPosition::Relative(f) => decimal(f as nat),
        TrimPosition::BeforeEnd(f) => seq!['-'] + decimal(f as nat),
        TrimPosition::End => "-0"@,
    }
}

/// The canonical position tokens of `positions`.
pub open spec fn positions_text(positions: Seq<TrimPosition>) -> Seq<Seq<char>> {
    Seq::new(positions.len(), |i: int| position_text(i, positions[i]))
}

/// Lemma: `dots_from` finds a `..` inside `v`, or reports `v.len()`.
proof fn lemma_dots_from(v: Seq<char>, i: int)
    requires
        0 <= i,
    ensures
        dots_from(v, i) == v.len() || (i <= dots_from(v, i) && dots_from(v, i) + 1 < v.len()
            && v[dots_from(v, i)] == '.' && v[dots_from(v, i) + 1] == '.'),
    decreases v.len() - i,
{
    if i + 1 < v.len() && !(v[i] == '.' && v[i + 1] == '.') {
        lemma_dots_from(v, i + 1);
    }
}

/// The index of the first `..` in `chars`, or its length.
fn find_range_dots(chars: &[char]) -> (r: usize)
    ensures
        r as int == dots_from(chars@, 0),
        r < chars@.len() ==> r + 1 < chars@.len(),
        r <= chars@.len(),
{
    proof {
        lemma_dots_from(chars@, 0);
    }
    let mut i: usize = 0;
    while i < chars.len()
        invariant
            0 <= i <= chars@.len(),
            dots_from(chars@, 0) == dots_from(chars@, i as int),
        decreases chars@.len() - i,
    {
        if i + 1 < chars.len() && chars[i] == '.' && chars[i + 1] == '.' {
            return i;
        }
        i = i + 1;
    }
    chars.len()
}

/// Expands a `start..end` argument into its two position tokens.
pub fn expand_range_arg(value: &str) -> (r: Option<Vec<String>>)
    ensures
        match expand_range(value@) {
            None => r is None,
            Some((a, b)) => r matches Some(v) && strings_view(v@) == seq![a, b],
        },
{
    let chars = chars_of(value);
    let d = find_range_dots(chars.as_slice());
    if d >= chars.len() {
        return None;
    }
    proof {
        reveal_strlit("0");
        reveal_strlit("-0");
    }
    let start = if d == 0 {
        owned("0")
    } else {
        string_from_range(chars.as_slice(), 0, d)
    };
    let end = if d + 2 == chars.len() {
        owned("-0")
    } else {
        let mut e = String::new();
        push_char(&mut e, '=');
        let rest = string_from_range(chars.as_slice(), d + 2, chars.len());
        crate::text::push_str_chars(&mut e, rest.as_str());
        e
    };
    proof {
        assert(chars@.take(d as int) =~= chars@.subrange(0, d as int));
        assert(chars@.skip(d + 2) =~= chars@.subrange(d + 2, chars@.len() as int));
        if d + 2 != chars@.len() {
            assert(seq!['='] + chars@.skip(d + 2) =~= end@);
        }
    }
    let mut v: Vec<String> = Vec::new();
    v.push(start);
    v.push(end);
    proof {
        assert(strings_view(v@) =~= seq![v@[0]@, v@[1]@]);
    }
    Some(v)
}

/// Parses the position token `value` at position `index`.
pub fn parse_trim_position(effect: &'static str, index: usize, value: &str) -> (r: CommandResult<
    TrimPosition,
>)
    ensures
        match position_outcome(effect@, index as int, value@) {
            Ok(p) => r == Ok::<TrimPosition, EffectCommandParseError>(p),
            Err(e) => r matches Err(x) && x@ == e,
        },
{
    let chars = chars_of(value);
    let anchored = chars.len() > 0 && (chars[0] == '=' || chars[0] == '+' || chars[0] == '-');
    let anchor = if anchored {
        chars[0]
    } else {
        '+'
    };
    let from: usize = if anchored {
        1
    } else {
        0
    };
    let mut to: usize = chars.len();
    if to > from && (chars[to - 1] == 's' || chars[to - 1] == 'f') {
        to = to - 1;
    }
    proof {
        let body = if anchored {
            chars@.drop_first()
        } else {
            chars@
        };
        assert(body =~= chars@.subrange(from as int, chars@.len() as int));
        if body.len() > 0 && (body.last() == 's' || body.last() == 'f') {
            assert(body.drop_last() =~= chars@.subrange(from as int, to as int));
        } else {
            assert(body =~= chars@.subrange(from as int, to as int));
        }
        assert(frame_text(value@) =~= chars@.subrange(from as int, to as int));
    }
    let mut text: Vec<char> = Vec::new();
    let mut k = from;
    while k < to
        invariant
            from <= k <= to <= chars@.len(),
            text@ == chars@.subrange(from as int, k as int),
        decreases to - k,
    {
        text.push(chars[k]);
        proof {
            assert(chars@.subrange(from as int, k + 1) =~= chars@.subrange(from as int, k as int).push(
                chars@[k as int],
            ));
        }
        k = k + 1;
    }
    match crate::numbers::parse_unsigned_chars(text.as_slice(), u64::MAX) {
        Err(source) => Err(
            EffectCommandParseError::InvalidFrameCount {
                effect,
                argument: "position",
                value: owned(value),
                source,
            },
        ),
        Ok(f) => {
            proof {
                crate::numbers::lemma_parse_unsigned_bounded(text@, u64::MAX as nat);
            }
            if anchor == '=' {
                Ok(TrimPosition::Absolute(f))
            } else if anchor == '-' {
                if f == 0 {
                    Ok(TrimPosition::End)
                } else {
                    Ok(TrimPosition::BeforeEnd(f))
                }
            } else if index == 0 {
                Ok(TrimPosition::Absolute(f))
            } else {
                Ok(TrimPosition::Relative(f))
            }
        },
    }
}

/// Parses `trim position...`.
pub fn parse_trim(effect: &'static str, args: &[&str]) -> (r: CommandResult<Vec<TrimPosition>>)
    ensures
        match trim_outcome(effect@, args_view(args@)) {
            Ok(ps) => r matches Ok(v) && v@ == ps,
            Err(e) => r matches Err(x) && x@ == e,
        },
{
    if args.len() == 0 {
        return Err(EffectCommandParseError::MissingArgument { effect, argument: "position" });
    }
    let ghost av = args_view(args@);
    let mut tokens: Vec<String> = Vec::new();
    let expanded = if args.len() == 1 {
        expand_range_arg(args[0])
    } else {
        None
    };
    match expanded {
        Some(v) => {
            tokens = v;
        },
        None => {
            let mut k: usize = 0;
            while k < args.len()
                invariant
                    0 <= k <= args@.len(),
                    av == args_view(args@),
                    strings_view(tokens@) == av.take(k as int),
                decreases args@.len() - k,
            {
                let ghost before = tokens@;
                tokens.push(owned(args[k]));
                proof {
                    assert(strings_view(tokens@) =~= strings_view(before).push(args@[k as int]@));
                    assert(av.take(k + 1) =~= av.take(k as int).push(av[k as int]));
                }
                k = k + 1;
            }
            proof {
                assert(av.take(k as int) =~= av);
            }
        },
    }
    let ghost tv = strings_view(tokens@);
    proof {
        assert(tv == trim_tokens(av));
    }
    let mut positions: Vec<TrimPosition> = Vec::new();
    let mut i: usize = 0;
    while i < tokens.len()
        invariant
            0 <= i <= tokens@.len(),
            tv == strings_view(tokens@),
            tv == trim_tokens(av),
            av == args_view(args@),
            args@.len() > 0,
            positions_upto(effect@, tv, i as int) == Ok::<
                Seq<TrimPosition>,
                CommandErrorView,
            >(positions@),
        decreases tokens@.len() - i,
    {
        match parse_trim_position(effect, i, tokens[i].as_str()) {
            Ok(p) => {
                positions.push(p);
            },
            Err(e) => {
                proof {
                    assert(tv[i as int] == tokens@[i as int]@);
                    assert(positions_upto(effect@, tv, i + 1) == Err::<
                        Seq<TrimPosition>,
                        CommandErrorView,
                    >(e@));
                    lemma_positions_error_persists(effect@, tv, i as int + 1, tv.len() as int);
                }
                return Err(e);
            },
        }
        proof {
            assert(tv[i as int] == tokens@[i as int]@);
        }
        i = i + 1;
    }
    Ok(positions)
}

/// Lemma: once a prefix of the tokens fails, every longer prefix fails the
/// same way.
proof fn lemma_positions_error_persists(effect: Seq<char>, tokens: Seq<Seq<char>>, n: int, m: int)
    requires
        1 <= n <= m,
        positions_upto(effect, tokens, n) is Err,
    ensures
        positions_upto(effect, tokens, m) == positions_upto(effect, tokens, n),
    decreases m - n,
{
    if n < m {
        lemma_positions_error_persists(effect, tokens, n, m - 1);
    }
}

/// Renders the canonical token of `position` at position `index`.
pub fn render_trim_position(index: usize, position: TrimPosition) -> (r: String)
    ensures
        r@ == position_text(index as int, position),
{
    let mut s = String::new();
    match position {
        TrimPosition::Absolute(f) => {
            if index > 0 {
                push_char(&mut s, '=');
            }
            push_decimal(&mut s, f);
        },
        TrimPosition::Relative(f) => {
            push_decimal(&mut s, f);
        },
        TrimPosition::BeforeEnd(f) => {
            push_char(&mut s, '-');
            push_decimal(&mut s, f);
        },
        TrimPosition::End => {
            push_char(&mut s, '-');
            push_char(&mut s, '0');
            proof {
                reveal_strlit("-0");
            }
        },
    }
    proof {
        assert(s@ =~= position_text(index as int, position));
    }
    s
}

/// Renders the canonical `trim` tokens of `positions`.
pub fn render_trim(positions: &[TrimPosition]) -> (r: Vec<String>)
    ensures
        strings_view(r@) == seq!["trim"@] + positions_text(positions@),
{
    let mut tokens: Vec<String> = Vec::new();
    tokens.push(owned("trim"));
    let mut i: usize = 0;
    while i < positions.len()
        invariant
            0 <= i <= positions@.len(),
            strings_view(tokens@) == seq!["trim"@] + positions_text(positions@).take(i as int),
        decreases positions@.len() - i,
    {
        let ghost before = tokens@;
        tokens.push(render_trim_position(i, positions[i]));
        proof {
            assert(strings_view(tokens@) =~= strings_view(before).push(
                position_text(i as int, positions@[i as int]),
            ));
            assert(positions_text(positions@).take(i + 1) =~= positions_text(positions@).take(
                i as int,
            ).push(position_text(i as int, positions@[i as int])));
        }
        i = i + 1;
    }
    proof {
        assert(positions_text(positions@).take(i as int) =~= positions_text(positions@));
    }
    tokens
}

/// Lemma: a successful prefix parse has one position per token, each the
/// outcome of its own token.
proof fn lemma_positions_ok(effect: Seq<char>, tokens: Seq<Seq<char>>, n: int)
    requires
        0 <= n,
        positions_upto(effect, tokens, n) is Ok,
    ensures
        positions_upto(effect, tokens, n)->Ok_0.len() == n,
        forall|i: int|
            0 <= i < n ==> position_outcome(effect, i, tokens[i]) == Ok::<
                TrimPosition,
                CommandErrorView,
            >(#[trigger] positions_upto(effect, tokens, n)->Ok_0[i]),
    decreases n,
{
    if n > 0 {
        lemma_positions_ok(effect, tokens, n - 1);
    }
}

/// Lemma: no `..` is found in a sequence without `.`.
proof fn lemma_no_dots(v: Seq<char>, i: int)
    requires
        0 <= i,
        forall|k: int| 0 <= k < v.len() ==> v[k] != '.',
    ensures
        dots_from(v, i) == v.len(),
    decreases v.len() - i,
{
    if i + 1 < v.len() {
        lemma_no_dots(v, i + 1);
    }
}

/// Lemma: the canonical token of a position that parsing produced at
/// position `index` parses back to it.
proof fn lemma_position_text_round_trip(effect: Seq<char>, index: int, v: Seq<char>)
    requires
        0 <= index,
        position_outcome(effect, index, v) is Ok,
    ensures
        position_outcome(effect, index, position_text(index, position_outcome(effect, index, v)->Ok_0))
            == position_outcome(effect, index, v),
        forall|k: int|
            0 <= k < position_text(index, position_outcome(effect, index, v)->Ok_0).len() ==> #[trigger] position_text(
                index,
                position_outcome(effect, index, v)->Ok_0,
            )[k] != '.',
{
    let p = position_outcome(effect, index, v)->Ok_0;
    let t = position_text(index, p);
    crate::numbers::lemma_parse_unsigned_bounded(frame_text(v), u64::MAX as nat);
    match p {
        TrimPosition::Absolute(f) => {
            lemma_decimal_digits(f as nat);
            lemma_parse_decimal(f as nat, u64::MAX as nat);
            let d = decimal(f as nat);
            if index == 0 {
                assert(is_digit(d[0]) && is_digit(d.last()));
                assert(anchor_of(t) == '+');
                assert(frame_text(t) == d);
                assert forall|k: int| 0 <= k < t.len() implies #[trigger] t[k] != '.' by {
                    assert(is_digit(d[k]));
                }
            } else {
                assert((seq!['='] + d).drop_first() =~= d);
                assert(is_digit(d.last()));
                assert(t.last() == d.last());
                assert(frame_text(t) == d);
                assert forall|k: int| 0 <= k < t.len() implies #[trigger] t[k] != '.' by {
                    if k > 0 {
                        assert(t[k] == d[k - 1]);
                    }
                }
            }
        },
        TrimPosition::Relative(f) => {
            lemma_decimal_digits(f as nat);
            lemma_parse_decimal(f as nat, u64::MAX as nat);
            let d = decimal(f as nat);
            assert(is_digit(d[0]) && is_digit(d.last()));
            assert(frame_text(t) == d);
            assert forall|k: int| 0 <= k < t.len() implies #[trigger] t[k] != '.' by {
                assert(is_digit(d[k]));
            }
        },
        TrimPosition::BeforeEnd(f) => {
            lemma_decimal_digits(f as nat);
            lemma_parse_decimal(f as nat, u64::MAX as nat);
            let d = decimal(f as nat);
            assert((seq!['-'] + d).drop_first() =~= d);
            assert(t[0] == '-');
            assert(anchor_of(t) == '-');
            assert(f != 0);
            assert(is_digit(d.last()));
            assert(t.last() == d.last());
            assert(frame_text(t) == d);
            assert forall|k: int| 0 <= k < t.len() implies #[trigger] t[k] != '.' by {
                if k > 0 {
                    assert(t[k] == d[k - 1]);
                }
            }
        },
        TrimPosition::End => {
            reveal_strlit("-0");
            lemma_parse_decimal(0, u64::MAX as nat);
            assert(decimal(0) =~= seq!['0']);
            assert(t.drop_first() =~= seq!['0']);
            assert(frame_text(t) == decimal(0));
        },
    }
}

/// Lemma: canonical tokens of positions that each parse back parse back as
/// a whole.
proof fn lemma_texts_parse(effect: Seq<char>, ps: Seq<TrimPosition>, n: int)
    requires
        0 <= n <= ps.len(),
        forall|i: int|
            0 <= i < ps.len() ==> position_outcome(effect, i, #[trigger] position_text(i, ps[i]))
                == Ok::<TrimPosition, CommandErrorView>(ps[i]),
    ensures
        positions_upto(effect, positions_text(ps), n) == Ok::<
            Seq<TrimPosition>,
            CommandErrorView,
        >(ps.take(n)),
    decreases n,
{
    if n > 0 {
        lemma_texts_parse(effect, ps, n - 1);
        let texts = positions_text(ps);
        assert(texts[n - 1] == position_text(n - 1, ps[n - 1]));
        assert(position_outcome(effect, n - 1, texts[n - 1]) == Ok::<
            TrimPosition,
            CommandErrorView,
        >(ps[n - 1]));
        assert(ps.take(n - 1).push(ps[n - 1]) =~= ps.take(n));
        assert(positions_upto(effect, texts, n - 1) == Ok::<
            Seq<TrimPosition>,
            CommandErrorView,
        >(ps.take(n - 1)));
        assert(positions_upto(effect, texts, n) == Ok::<
            Seq<TrimPosition>,
            CommandErrorView,
        >(ps.take(n - 1).push(ps[n - 1])));
    } else {
        assert(ps.take(0) =~= Seq::<TrimPosition>::empty());
    }
}

/// Law: the canonical tokens of a parsed `trim` command parse back to the
/// same positions.
pub proof fn lemma_trim_round_trip(effect: Seq<char>, args: Seq<Seq<char>>)
    requires
        trim_outcome(effect, args) is Ok,
    ensures
        trim_outcome(effect, positions_text(trim_outcome(effect, args)->Ok_0)) == trim_outcome(
            effect,
            args,
        ),
{
    let tokens = trim_tokens(args);
    let ps = trim_outcome(effect, args)->Ok_0;
    let n = tokens.len() as int;
    lemma_positions_ok(effect, tokens, n);
    assert(n >= 1);
    assert forall|i: int| 0 <= i < ps.len() implies position_outcome(
        effect,
        i,
        #[trigger] position_text(i, ps[i]),
    ) == Ok::<TrimPosition, CommandErrorView>(ps[i]) by {
        lemma_position_text_round_trip(effect, i, tokens[i]);
    }
    let texts = positions_text(ps);
    lemma_texts_parse(effect, ps, ps.len() as int);
    assert(ps.take(ps.len() as int) =~= ps);
    if texts.len() == 1 {
        lemma_position_text_round_trip(effect, 0, tokens[0]);
        assert(texts[0] == position_text(0, ps[0]));
        lemma_no_dots(texts[0], 0);
    }
    assert(trim_tokens(texts) == texts);
}

} // verus!
