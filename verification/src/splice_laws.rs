//! Laws relating parsing and rendering of `splice` commands.
use vstd::prelude::*;

use crate::command::{float_error, option_like, CommandErrorView};
use crate::command_splice::{
    amount_outcome, amount_token, fade_flag, has_empty_piece, lemma_first_of, point_outcome,
    point_token, points_upto, position_text, splice_fade_outcome, splice_outcome, split_char,
    SpliceFade, SplicePointView,
};
use crate::command_synth::first_float_error;
use crate::numbers::{
    first_of, float_char, lemma_decimal_digits,
    lemma_float_literal_chars, lemma_float_literal_end, lemma_parse_decimal,
    lemma_parse_unsigned_bounded, parse_unsigned,
};
use crate::text::{decimal, is_digit};

verus! {

/// Splitting text without the separator gives the text itself.
pub proof fn lemma_split_without_separator(v: Seq<char>, c: char)
    requires
        !v.contains(c),
    ensures
        split_char(v, c) == seq![v],
{
    lemma_first_of(v, c, c);
    if first_of(v, c, c) < v.len() {
        assert(v[first_of(v, c, c)] == c);
    }
}

/// Splitting `a`, the separator and `b`, where `a` has no separator, gives
/// `a` and then the pieces of `b`.
pub proof fn lemma_split_joined(a: Seq<char>, c: char, b: Seq<char>)
    requires
        !a.contains(c),
    ensures
        split_char(a + seq![c] + b, c) == seq![a] + split_char(b, c),
{
    let v = a + seq![c] + b;
    lemma_first_of(v, c, c);
    let i = first_of(v, c, c);
    if i < a.len() {
        assert(v[i] == a[i]);
    }
    assert(i >= a.len());
    if i > a.len() {
        assert(v[a.len() as int] == c);
    }
    assert(v.take(i) =~= a);
    assert(v.skip(i + 1) =~= b);
}

/// The first piece of a split is a prefix of the text.
pub proof fn lemma_split_first(v: Seq<char>, c: char)
    ensures
        split_char(v, c).len() >= 1,
        split_char(v, c)[0].len() <= v.len(),
        forall|k: int| 0 <= k < split_char(v, c)[0].len() ==> #[trigger] split_char(v, c)[0][k] == v[k],
{
    lemma_first_of(v, c, c);
}

/// The last piece of a split is a suffix of the text.
pub proof fn lemma_split_last(v: Seq<char>, c: char)
    ensures
        split_char(v, c).len() >= 1,
        split_char(v, c).last().len() <= v.len(),
        forall|k: int|
            0 <= k < split_char(v, c).last().len() ==> #[trigger] split_char(v, c).last()[k]
                == v[v.len() - split_char(v, c).last().len() + k],
    decreases v.len(),
{
    lemma_first_of(v, c, c);
    let i = first_of(v, c, c);
    if i < v.len() {
        let w = v.skip(i + 1);
        lemma_split_last(w, c);
        let parts = split_char(v, c);
        assert(parts.last() == split_char(w, c).last());
    }
}

/// Every character of the text is the separator or a character of some
/// piece, so a property of every piece's characters holds of the text's
/// other characters.
pub proof fn lemma_split_chars(v: Seq<char>, c: char, p: spec_fn(char) -> bool)
    requires
        forall|j: int, k: int|
            0 <= j < split_char(v, c).len() && 0 <= k < split_char(v, c)[j].len() ==> p(
                #[trigger] split_char(v, c)[j][k],
            ),
    ensures
        forall|i: int| 0 <= i < v.len() ==> v[i] == c || p(#[trigger] v[i]),
    decreases v.len(),
{
    lemma_first_of(v, c, c);
    let i = first_of(v, c, c);
    let parts = split_char(v, c);
    if i < v.len() {
        let w = v.skip(i + 1);
        assert forall|j: int, k: int|
            0 <= j < split_char(w, c).len() && 0 <= k < split_char(w, c)[j].len() implies p(
            #[trigger] split_char(w, c)[j][k],
        ) by {
            assert(parts[j + 1] == split_char(w, c)[j]);
        }
        lemma_split_chars(w, c, p);
        assert forall|x: int| 0 <= x < v.len() implies v[x] == c || p(#[trigger] v[x]) by {
            if x < i {
                assert(parts[0][x] == v[x]);
            } else if x > i {
                assert(w[x - i - 1] == v[x]);
            }
        }
    } else {
        assert forall|x: int| 0 <= x < v.len() implies v[x] == c || p(#[trigger] v[x]) by {
            assert(parts[0][x] == v[x]);
        }
    }
}


/// When no value is in error, each value is a number.
pub proof fn lemma_no_float_error(effect: Seq<char>, argument: Seq<char>, vs: Seq<Seq<char>>)
    requires
        first_float_error(effect, argument, vs) is None,
    ensures
        forall|j: int| 0 <= j < vs.len() ==> float_error(effect, argument, #[trigger] vs[j]) is None,
    decreases vs.len(),
{
    if vs.len() > 0 {
        lemma_no_float_error(effect, argument, vs.drop_last());
        assert forall|j: int| 0 <= j < vs.len() implies float_error(
            effect,
            argument,
            #[trigger] vs[j],
        ) is None by {
            if j < vs.len() - 1 {
                assert(vs.drop_last()[j] == vs[j]);
            }
        }
    }
}

/// Whether `t` can stand as a rendered amount: it is not empty, holds no
/// comma, does not start with `=`, and a leading `-` is followed by a digit
/// or `.`.
pub open spec fn token_ok(t: Seq<char>) -> bool {
    &&& t.len() > 0
    &&& !t.contains(',')
    &&& t[0] != '='
    &&& (t[0] == '-' ==> t.len() >= 2 && (is_digit(t[1]) || t[1] == '.'))
}

/// The rendered token of an amount parsed from `v` parses back to that
/// amount, and can stand as a rendered amount.
pub proof fn lemma_amount_round_trip(effect: Seq<char>, v: Seq<char>)
    requires
        amount_outcome(effect, v) is Ok,
    ensures
        amount_outcome(effect, amount_token(amount_outcome(effect, v)->Ok_0)) == amount_outcome(
            effect,
            v,
        ),
        token_ok(amount_token(amount_outcome(effect, v)->Ok_0)),
{
    let a = amount_outcome(effect, v)->Ok_0;
    let t = amount_token(a);
    if v.last() == 's' {
        let n = parse_unsigned(v.drop_last(), u64::MAX as nat)->Ok_0;
        lemma_parse_unsigned_bounded(v.drop_last(), u64::MAX as nat);
        lemma_parse_decimal(n, u64::MAX as nat);
        lemma_decimal_digits(n);
        assert(t == decimal(n).push('s'));
        assert(t.drop_last() =~= decimal(n));
        assert forall|i: int| 0 <= i < t.len() implies t[i] != ',' by {
            if i < t.len() - 1 {
                assert(t[i] == decimal(n)[i]);
            }
        }
        assert(t[0] == decimal(n)[0]);
    } else {
        let secs = if v.last() == 't' {
            v.drop_last()
        } else {
            v
        };
        assert(t == secs);
        if secs.contains(':') {
            let parts = split_char(secs, ':');
            lemma_no_float_error(effect, "position"@, parts);
            assert forall|j: int, k: int|
                0 <= j < parts.len() && 0 <= k < parts[j].len() implies float_char(
                #[trigger] parts[j][k],
            ) by {
                assert(float_error(effect, "position"@, parts[j]) is None);
                lemma_float_literal_chars(parts[j]);
            }
            lemma_split_chars(secs, ':', |c: char| float_char(c));
            lemma_split_last(secs, ':');
            lemma_split_first(secs, ':');
            let last = parts.last();
            assert(float_error(effect, "position"@, parts[parts.len() - 1]) is None);
            assert(last.len() > 0) by {
                if last.len() == 0 {
                    assert(parts[parts.len() - 1].len() == 0);
                }
            }
            lemma_float_literal_end(last);
            assert(last[last.len() - 1] == secs[secs.len() - 1]);
            let first = parts[0];
            assert(float_error(effect, "position"@, first) is None);
            assert(first.len() > 0) by {
                if first.len() == 0 {
                    assert(parts[0].len() == 0);
                }
            }
            lemma_float_literal_chars(first);
            assert(first[0] == secs[0]);
            if first.len() >= 2 {
                assert(first[1] == secs[1]);
            }
            assert forall|i: int| 0 <= i < t.len() implies t[i] != ',' by {
                assert(secs[i] == ':' || float_char(secs[i]));
            }
        } else {
            assert(float_error(effect, "position"@, secs) is None);
            lemma_float_literal_end(secs);
            lemma_float_literal_chars(secs);
            assert forall|i: int| 0 <= i < t.len() implies t[i] != ',' by {
                assert(float_char(secs[i]));
            }
        }
    }
}


/// The rendered token of a point parsed from `v` parses back to that point,
/// and does not look like an option.
pub proof fn lemma_point_round_trip(effect: Seq<char>, v: Seq<char>)
    requires
        point_outcome(effect, v) is Ok,
    ensures
        point_outcome(effect, point_token(point_outcome(effect, v)->Ok_0)) == point_outcome(
            effect,
            v,
        ),
        !option_like(point_token(point_outcome(effect, v)->Ok_0)),
{
    let p = point_outcome(effect, v)->Ok_0;
    let parts = split_char(v, ',');
    let t = point_token(p);
    assert(parts[0].len() > 0) by {
        if parts[0].len() == 0 {
            assert(has_empty_piece(parts));
        }
    }
    lemma_amount_round_trip(effect, position_text(parts[0]));
    let t0 = amount_token(p.position);
    if parts.len() > 1 {
        lemma_amount_round_trip(effect, parts[1]);
    }
    if parts.len() > 2 {
        lemma_amount_round_trip(effect, parts[2]);
    }
    let pieces = if parts.len() == 1 {
        seq![t0]
    } else if parts.len() == 2 {
        seq![t0, amount_token(p.excess->0)]
    } else {
        seq![t0, amount_token(p.excess->0), amount_token(p.leeway->0)]
    };
    if parts.len() == 1 {
        assert(t == t0);
        lemma_split_without_separator(t0, ',');
    } else if parts.len() == 2 {
        let t1 = amount_token(p.excess->0);
        assert(t =~= t0 + seq![','] + t1);
        lemma_split_joined(t0, ',', t1);
        lemma_split_without_separator(t1, ',');
    } else {
        let t1 = amount_token(p.excess->0);
        let t2 = amount_token(p.leeway->0);
        assert(t =~= t0 + seq![','] + (t1 + seq![','] + t2));
        lemma_split_joined(t0, ',', t1 + seq![','] + t2);
        lemma_split_joined(t1, ',', t2);
        lemma_split_without_separator(t2, ',');
    }
    assert(split_char(t, ',') =~= pieces);
    assert(!has_empty_piece(pieces));
    assert(position_text(t0) == t0);
    assert(t[0] == t0[0]);
    if t0[0] == '-' {
        assert(t[1] == t0[1]);
    }
}

/// The points of the first `n` tokens, when all parse: one per token, as
/// the token parses.
pub proof fn lemma_points_upto_ok(effect: Seq<char>, tokens: Seq<Seq<char>>, n: int)
    requires
        0 <= n,
        points_upto(effect, tokens, n) is Ok,
    ensures
        points_upto(effect, tokens, n)->Ok_0.len() == n,
        forall|j: int|
            0 <= j < n ==> point_outcome(effect, #[trigger] tokens[j]) == Ok::<
                SplicePointView,
                CommandErrorView,
            >(points_upto(effect, tokens, n)->Ok_0[j]),
    decreases n,
{
    if n > 0 {
        lemma_points_upto_ok(effect, tokens, n - 1);
    }
}

/// Tokens that each parse to the point at their index give those points.
pub proof fn lemma_points_upto_parse(
    effect: Seq<char>,
    tokens: Seq<Seq<char>>,
    ps: Seq<SplicePointView>,
    n: int,
)
    requires
        0 <= n <= ps.len(),
        forall|j: int|
            0 <= j < ps.len() ==> point_outcome(effect, #[trigger] tokens[j]) == Ok::<
                SplicePointView,
                CommandErrorView,
            >(ps[j]),
    ensures
        points_upto(effect, tokens, n) == Ok::<Seq<SplicePointView>, CommandErrorView>(
            ps.take(n),
        ),
    decreases n,
{
    if n > 0 {
        lemma_points_upto_parse(effect, tokens, ps, n - 1);
        assert(point_outcome(effect, tokens[n - 1]) == Ok::<SplicePointView, CommandErrorView>(
            ps[n - 1],
        ));
        assert(ps.take(n - 1).push(ps[n - 1]) =~= ps.take(n));
    } else {
        assert(ps.take(0) =~= Seq::<SplicePointView>::empty());
    }
}

/// Law: the tokens rendered from the fade and points a `splice` command
/// parsed to parse back to the same fade and points.
pub proof fn lemma_splice_round_trip(effect: Seq<char>, args: Seq<Seq<char>>)
    requires
        splice_outcome(effect, args) is Ok,
    ensures
        ({
            let (fade, ps) = splice_outcome(effect, args)->Ok_0;
            splice_outcome(
                effect,
                fade_flag(fade) + ps.map_values(|p: SplicePointView| point_token(p)),
            ) == splice_outcome(effect, args)
        }),
{
    let (fade, ps) = splice_outcome(effect, args)->Ok_0;
    let k = splice_fade_outcome(effect, args)->Ok_0.1;
    let rest = args.skip(k);
    let n = rest.len() as int;
    lemma_points_upto_ok(effect, rest, n);
    let toks = ps.map_values(|p: SplicePointView| point_token(p));
    assert forall|j: int| 0 <= j < ps.len() implies point_outcome(effect, #[trigger] toks[j])
        == Ok::<SplicePointView, CommandErrorView>(ps[j]) by {
        assert(point_outcome(effect, rest[j]) == Ok::<SplicePointView, CommandErrorView>(ps[j]));
        lemma_point_round_trip(effect, rest[j]);
    }
    lemma_points_upto_parse(effect, toks, ps, n);
    assert(ps.take(n) =~= ps);
    lemma_point_round_trip(effect, rest[0]);
    assert(toks[0] == point_token(ps[0]));
    reveal_strlit("-h");
    reveal_strlit("-t");
    reveal_strlit("-q");
    assert(option_like("-h"@) && option_like("-t"@) && option_like("-q"@));
    let a = fade_flag(fade) + toks;
    let k2 = fade_flag(fade).len() as int;
    assert(a.skip(k2) =~= toks);
    assert(splice_fade_outcome(effect, a) == Ok::<(SpliceFade, int), CommandErrorView>(
        (fade, k2),
    ));
}

} // verus!
