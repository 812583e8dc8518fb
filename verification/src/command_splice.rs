//! The `splice` command: an optional fade flag and splice points.
//!
//! `splice [-h|-t|-q] position[,excess[,leeway]]...`. Each amount is a
//! frame count with an `s` suffix, or a time in seconds: a number or up to
//! three `:`-separated numbers, optionally followed by `t`. A position may
//! start with `=`.
use vstd::prelude::*;

use crate::chain::strings_view;
use crate::command::{
    args_view, float_error, option_like, CommandErrorView, CommandResult, EffectCommandParseError,
};
use crate::command_synth::first_float_error;
use crate::error::EffectError;
use crate::numbers::{first_of, first_of_exec, parse_unsigned};
use crate::text::{chars_of, decimal, owned, push_char, push_decimal, push_str_chars, str_eq, string_from_range};

verus! {

/// The cross-fade shape of a splice.
#[derive(Debug, Clone, Copy, PartialEq, Eq, Structural)]
pub enum SpliceFade {
    /// Half-sine fade (`-h`, the default).
    HalfSine,
    /// Triangular fade (`-t`).
    Triangular,
    /// Quarter-sine fade (`-q`).
    QuarterSine,
}

/// An amount of a splice point.
#[derive(Debug, Clone, PartialEq, Eq)]
pub enum SpliceAmount {
    /// A frame count.
    Frames(u64),
    /// A time in seconds: number text, or up to three `:`-separated numbers.
    Seconds(String),
}

/// The mathematical content of a [`SpliceAmount`].
pub enum SpliceAmountView {
    Frames(u64),
    Seconds(Seq<char>),
}

impl View for SpliceAmount {
    type V = SpliceAmountView;

    open spec fn view(&self) -> SpliceAmountView {
        match self {
            SpliceAmount::Frames(n) => SpliceAmountView::Frames(*n),
            SpliceAmount::Seconds(s) => SpliceAmountView::Seconds(s@),
        }
    }
}

/// A splice point: a position with optional excess and leeway.
#[derive(Debug, Clone, PartialEq, Eq)]
pub struct SplicePoint {
    /// The splice position.
    pub position: SpliceAmount,
    /// The excess around the position, if given.
    pub excess: Option<SpliceAmount>,
    /// The leeway for the search, if given.
    pub leeway: Option<SpliceAmount>,
}

/// The mathematical content of a [`SplicePoint`].
pub struct SplicePointView {
    pub position: SpliceAmountView,
    pub excess: Option<SpliceAmountView>,
    pub leeway: Option<SpliceAmountView>,
}

/// The view of an optional amount.
pub open spec fn opt_amount_view(a: Option<SpliceAmount>) -> Option<SpliceAmountView> {
    match a {
        Some(x) => Some(x@),
        None => None,
    }
}

impl View for SplicePoint {
    type V = SplicePointView;

    open spec fn view(&self) -> SplicePointView {
        SplicePointView {
            position: self.position@,
            excess: opt_amount_view(self.excess),
            leeway: opt_amount_view(self.leeway),
        }
    }
}

/// The checked arguments of a `splice` command.
#[derive(Debug, Clone, PartialEq, Eq)]
pub struct SpliceArgs {
    /// The fade shape.
    pub fade: SpliceFade,
    /// The splice points, in order.
    pub points: Vec<SplicePoint>,
}

/// The views of a sequence of splice points.
pub open spec fn points_view(ps: Seq<SplicePoint>) -> Seq<SplicePointView> {
    ps.map_values(|p: SplicePoint| p@)
}

/// The pieces of `v` between occurrences of `c`.
pub open spec fn split_char(v: Seq<char>, c: char) -> Seq<Seq<char>>
    decreases v.len(),
{
    let i = first_of(v, c, c);
    if i < 0 || i >= v.len() {
        seq![v]
    } else {
        seq![v.take(i)] + split_char(v.skip(i + 1), c)
    }
}

/// Whether some piece is empty.
pub open spec fn has_empty_piece(parts: Seq<Seq<char>>) -> bool {
    exists|i: int| 0 <= i < parts.len() && #[trigger] parts[i].len() == 0
}

/// The error every malformed splice amount reports.
pub open spec fn invalid_splice(effect: Seq<char>) -> CommandErrorView {
    CommandErrorView::InvalidEffectConfig {
        effect,
        argument: "splice"@,
        source: EffectError::InvalidSplice,
    }
}

/// The outcome of a splice amount.
pub open spec fn amount_outcome(effect: Seq<char>, v: Seq<char>) -> Result<
    SpliceAmountView,
    CommandErrorView,
> {
    if v.len() == 0 {
        Err(invalid_splice(effect))
    } else if v.last() == 's' {
        match parse_unsigned(v.drop_last(), u64::MAX as nat) {
            Ok(n) => Ok(SpliceAmountView::Frames(n as u64)),
            Err(_) => Err(invalid_splice(effect)),
        }
    } else {
        let secs = if v.last() == 't' {
            v.drop_last()
        } else {
            v
        };
        if secs.contains(':') {
            let parts = split_char(secs, ':');
            if parts.len() > 3 || has_empty_piece(parts) {
                Err(invalid_splice(effect))
            } else {
                match first_float_error(effect, "position"@, parts) {
                    Some(e) => Err(e),
                    None => Ok(SpliceAmountView::Seconds(secs)),
                }
            }
        } else {
            match float_error(effect, "position"@, secs) {
                Some(e) => Err(e),
                None => Ok(SpliceAmountView::Seconds(secs)),
            }
        }
    }
}

/// A position token without its leading `=`, if any.
pub open spec fn position_text(v: Seq<char>) -> Seq<char> {
    if v.len() > 0 && v[0] == '=' {
        v.drop_first()
    } else {
        v
    }
}

/// The outcome of a splice point token.
pub open spec fn point_outcome(effect: Seq<char>, v: Seq<char>) -> Result<
    SplicePointView,
    CommandErrorView,
> {
    let parts = split_char(v, ',');
    if parts.len() > 3 || has_empty_piece(parts) {
        Err(invalid_splice(effect))
    } else {
        match amount_outcome(effect, position_text(parts[0])) {
            Err(e) => Err(e),
            Ok(position) => if parts.len() > 1 && amount_outcome(effect, parts[1]) is Err {
                Err(amount_outcome(effect, parts[1])->Err_0)
            } else if parts.len() > 2 && amount_outcome(effect, parts[2]) is Err {
                Err(amount_outcome(effect, parts[2])->Err_0)
            } else {
                Ok(
                    SplicePointView {
                        position,
                        excess: if parts.len() > 1 {
                            Some(amount_outcome(effect, parts[1])->Ok_0)
                        } else {
                            None
                        },
                        leeway: if parts.len() > 2 {
                            Some(amount_outcome(effect, parts[2])->Ok_0)
                        } else {
                            None
                        },
                    },
                )
            },
        }
    }
}

/// The points of the first `n` tokens, or the first error.
pub open spec fn points_upto(effect: Seq<char>, tokens: Seq<Seq<char>>, n: int) -> Result<
    Seq<SplicePointView>,
    CommandErrorView,
>
    decreases n,
{
    if n <= 0 {
        Ok(Seq::empty())
    } else {
        match points_upto(effect, tokens, n - 1) {
            Err(e) => Err(e),
            Ok(ps) => match point_outcome(effect, tokens[n - 1]) {
                Err(e) => Err(e),
                Ok(p) => Ok(ps.push(p)),
            },
        }
    }
}

/// The fade flag of the first token and the index of the first point.
pub open spec fn splice_fade_outcome(effect: Seq<char>, args: Seq<Seq<char>>) -> Result<
    (SpliceFade, int),
    CommandErrorView,
> {
    if args.len() == 0 {
        Ok((SpliceFade::HalfSine, 0))
    } else if args[0] == "-h"@ {
        Ok((SpliceFade::HalfSine, 1))
    } else if args[0] == "-t"@ {
        Ok((SpliceFade::Triangular, 1))
    } else if args[0] == "-q"@ {
        Ok((SpliceFade::QuarterSine, 1))
    } else if option_like(args[0]) {
        Err(CommandErrorView::UnsupportedOption { effect, option: args[0] })
    } else {
        Ok((SpliceFade::HalfSine, 0))
    }
}

/// The outcome of a `splice` command.
pub open spec fn splice_outcome(effect: Seq<char>, args: Seq<Seq<char>>) -> Result<
    (SpliceFade, Seq<SplicePointView>),
    CommandErrorView,
> {
    match splice_fade_outcome(effect, args) {
        Err(e) => Err(e),
        Ok((fade, k)) => {
            let rest = args.skip(k);
            if rest.len() == 0 {
                Err(
                    CommandErrorView::MissingArgument {
                        effect,
                        argument: "position[,excess[,leeway]]"@,
                    },
                )
            } else {
                match points_upto(effect, rest, rest.len() as int) {
                    Err(e) => Err(e),
                    Ok(points) => Ok((fade, points)),
                }
            }
        },
    }
}

/// Lemma: `first_of` finds the first `a` or `b`, or reports the length.
pub proof fn lemma_first_of(s: Seq<char>, a: char, b: char)
    ensures
        0 <= first_of(s, a, b) <= s.len(),
        forall|j: int| 0 <= j < first_of(s, a, b) ==> #[trigger] s[j] != a && s[j] != b,
        first_of(s, a, b) < s.len() ==> (s[first_of(s, a, b)] == a || s[first_of(s, a, b)] == b),
    decreases s.len(),
{
    if s.len() > 0 && s[0] != a && s[0] != b {
        lemma_first_of(s.drop_first(), a, b);
        assert forall|j: int| 0 <= j < first_of(s, a, b) implies #[trigger] s[j] != a && s[j]
            != b by {
            if j > 0 {
                assert(s[j] == s.drop_first()[j - 1]);
            }
        }
    }
}

/// Splits `chars` at every `c`.
pub fn split_parts(chars: &[char], c: char) -> (r: Vec<String>)
    ensures
        strings_view(r@) == split_char(chars@, c),
{
    let mut parts: Vec<String> = Vec::new();
    let mut start: usize = 0;
    proof {
        assert(chars@.skip(0) =~= chars@);
        assert(strings_view(parts@) + split_char(chars@, c) =~= split_char(chars@, c));
    }
    loop
        invariant
            start <= chars@.len(),
            split_char(chars@, c) == strings_view(parts@) + split_char(chars@.skip(start as int), c),
        decreases chars@.len() - start,
    {
        let ghost s = chars@.skip(start as int);
        let i = first_of_exec(chars, start, c, c);
        proof {
            lemma_first_of(s, c, c);
        }
        let piece = string_from_range(chars, start, i);
        let ghost before = parts@;
        parts.push(piece);
        proof {
            assert(s.take(i - start) =~= chars@.subrange(start as int, i as int));
            assert(strings_view(parts@) =~= strings_view(before).push(piece@));
        }
        if i >= chars.len() {
            proof {
                assert(split_char(s, c) == seq![s]);
                assert(s =~= chars@.subrange(start as int, i as int));
                assert(strings_view(before) + seq![piece@] =~= strings_view(parts@));
            }
            return parts;
        }
        proof {
            assert(s.skip(i - start + 1) =~= chars@.skip(i + 1));
            assert(strings_view(before) + (seq![piece@] + split_char(chars@.skip(i + 1), c))
                =~= strings_view(parts@) + split_char(chars@.skip(i + 1), c));
        }
        start = i + 1;
    }
}

/// Whether some part is empty.
pub fn any_empty_part(parts: &Vec<String>) -> (r: bool)
    ensures
        r == has_empty_piece(strings_view(parts@)),
{
    let ghost pv = strings_view(parts@);
    let mut i: usize = 0;
    while i < parts.len()
        invariant
            pv == strings_view(parts@),
            0 <= i <= parts@.len(),
            forall|j: int| 0 <= j < i ==> #[trigger] pv[j].len() != 0,
        decreases parts@.len() - i,
    {
        if parts[i].unicode_len() == 0 {
            proof {
                assert(pv[i as int].len() == 0);
            }
            return true;
        }
        i = i + 1;
    }
    false
}

/// Parses a splice amount.
pub fn parse_amount(effect: &'static str, value: &str) -> (r: CommandResult<SpliceAmount>)
    ensures
        match amount_outcome(effect@, value@) {
            Ok(a) => r matches Ok(x) && x@ == a,
            Err(e) => r matches Err(x) && x@ == e,
        },
{
    let chars = chars_of(value);
    let n = chars.len();
    if n == 0 {
        return Err(
            EffectCommandParseError::InvalidEffectConfig {
                effect,
                argument: "splice",
                source: EffectError::InvalidSplice,
            },
        );
    }
    if chars[n - 1] == 's' {
        let frames = string_from_range(chars.as_slice(), 0, n - 1);
        proof {
            assert(chars@.subrange(0, n - 1) =~= chars@.drop_last());
        }
        return match crate::numbers::parse_u64_text(frames.as_str()) {
            Ok(f) => {
                proof {
                    crate::numbers::lemma_parse_unsigned_bounded(frames@, u64::MAX as nat);
                }
                Ok(SpliceAmount::Frames(f))
            },
            Err(_) => Err(
                EffectCommandParseError::InvalidEffectConfig {
                    effect,
                    argument: "splice",
                    source: EffectError::InvalidSplice,
                },
            ),
        };
    }
    let end = if chars[n - 1] == 't' {
        n - 1
    } else {
        n
    };
    let secs = string_from_range(chars.as_slice(), 0, end);
    let secs_chars = chars_of(secs.as_str());
    proof {
        if chars@.last() == 't' {
            assert(chars@.subrange(0, n - 1) =~= chars@.drop_last());
        } else {
            assert(chars@.subrange(0, n as int) =~= chars@);
        }
    }
    if crate::text::chars_contain(secs_chars.as_slice(), ':') {
        let parts = split_parts(secs_chars.as_slice(), ':');
        if parts.len() > 3 || any_empty_part(&parts) {
            return Err(
                EffectCommandParseError::InvalidEffectConfig {
                    effect,
                    argument: "splice",
                    source: EffectError::InvalidSplice,
                },
            );
        }
        match first_part_error(effect, &parts) {
            Some(e) => Err(e),
            None => Ok(SpliceAmount::Seconds(secs)),
        }
    } else {
        match crate::command::check_float(effect, "position", secs.as_str()) {
            Ok(()) => Ok(SpliceAmount::Seconds(secs)),
            Err(e) => Err(e),
        }
    }
}

/// The first part that is not a number, reported as a `position`.
fn first_part_error(effect: &'static str, parts: &Vec<String>) -> (r: Option<
    EffectCommandParseError,
>)
    ensures
        match first_float_error(effect@, "position"@, strings_view(parts@)) {
            Some(e) => r matches Some(x) && x@ == e,
            None => r is None,
        },
{
    let ghost pv = strings_view(parts@);
    let mut i: usize = 0;
    while i < parts.len()
        invariant
            pv == strings_view(parts@),
            0 <= i <= parts@.len(),
            first_float_error(effect@, "position"@, pv.take(i as int)) is None,
        decreases parts@.len() - i,
    {
        proof {
            assert(pv.take(i + 1).drop_last() =~= pv.take(i as int));
        }
        match crate::command::check_float(effect, "position", parts[i].as_str()) {
            Ok(()) => {},
            Err(e) => {
                proof {
                    crate::command_synth::lemma_first_error_prefix(
                        effect@,
                        "position"@,
                        pv,
                        i + 1,
                    );
                }
                return Some(e);
            },
        }
        i = i + 1;
    }
    proof {
        assert(pv.take(i as int) =~= pv);
    }
    None
}

/// Parses a splice point token.
pub fn parse_point(effect: &'static str, value: &str) -> (r: CommandResult<SplicePoint>)
    ensures
        match point_outcome(effect@, value@) {
            Ok(p) => r matches Ok(x) && x@ == p,
            Err(e) => r matches Err(x) && x@ == e,
        },
{
    let chars = chars_of(value);
    let parts = split_parts(chars.as_slice(), ',');
    proof {
        assert(split_char(value@, ',').len() >= 1);
    }
    if parts.len() > 3 || any_empty_part(&parts) {
        return Err(
            EffectCommandParseError::InvalidEffectConfig {
                effect,
                argument: "splice",
                source: EffectError::InvalidSplice,
            },
        );
    }
    let position = match parse_position(effect, parts[0].as_str()) {
        Ok(p) => p,
        Err(e) => {
            return Err(e);
        },
    };
    let excess = if parts.len() > 1 {
        match parse_amount(effect, parts[1].as_str()) {
            Ok(a) => Some(a),
            Err(e) => {
                return Err(e);
            },
        }
    } else {
        None
    };
    let leeway = if parts.len() > 2 {
        match parse_amount(effect, parts[2].as_str()) {
            Ok(a) => Some(a),
            Err(e) => {
                return Err(e);
            },
        }
    } else {
        None
    };
    Ok(SplicePoint { position, excess, leeway })
}

/// Parses a splice position: an amount, optionally preceded by `=`.
pub fn parse_position(effect: &'static str, value: &str) -> (r: CommandResult<SpliceAmount>)
    ensures
        match amount_outcome(effect@, position_text(value@)) {
            Ok(a) => r matches Ok(x) && x@ == a,
            Err(e) => r matches Err(x) && x@ == e,
        },
{
    let chars = chars_of(value);
    if chars.len() > 0 && chars[0] == '=' {
        let rest = string_from_range(chars.as_slice(), 1, chars.len());
        proof {
            assert(chars@.subrange(1, chars@.len() as int) =~= chars@.drop_first());
        }
        parse_amount(effect, rest.as_str())
    } else {
        parse_amount(effect, value)
    }
}

/// Parses `splice [-h|-t|-q] position[,excess[,leeway]]...`.
pub fn parse_splice(effect: &'static str, args: &[&str]) -> (r: CommandResult<SpliceArgs>)
    ensures
        match splice_outcome(effect@, args_view(args@)) {
            Ok((fade, points)) => r matches Ok(x) && x.fade == fade && points_view(x.points@)
                == points,
            Err(e) => r matches Err(x) && x@ == e,
        },
{
    let ghost av = args_view(args@);
    let (fade, k) = if args.len() == 0 {
        (SpliceFade::HalfSine, 0usize)
    } else if str_eq(args[0], "-h") {
        (SpliceFade::HalfSine, 1usize)
    } else if str_eq(args[0], "-t") {
        (SpliceFade::Triangular, 1usize)
    } else if str_eq(args[0], "-q") {
        (SpliceFade::QuarterSine, 1usize)
    } else if crate::command::is_option_like(args[0]) {
        return Err(EffectCommandParseError::UnsupportedOption { effect, option: owned(args[0]) });
    } else {
        (SpliceFade::HalfSine, 0usize)
    };
    let rest = vstd::slice::slice_subrange(args, k, args.len());
    let ghost rv = args_view(rest@);
    proof {
        assert(rv =~= av.skip(k as int));
    }
    if rest.len() == 0 {
        return Err(
            EffectCommandParseError::MissingArgument { effect, argument: "position[,excess[,leeway]]" },
        );
    }
    let mut points: Vec<SplicePoint> = Vec::new();
    let mut i: usize = 0;
    proof {
        assert(points_view(points@) =~= Seq::<SplicePointView>::empty());
    }
    while i < rest.len()
        invariant
            0 <= i <= rest@.len(),
            rv == args_view(rest@),
            av == args_view(args@),
            splice_fade_outcome(effect@, av) == Ok::<(SpliceFade, int), CommandErrorView>(
                (fade, k as int),
            ),
            rv == av.skip(k as int),
            rv.len() > 0,
            points_upto(effect@, rv, i as int) == Ok::<Seq<SplicePointView>, CommandErrorView>(
                points_view(points@),
            ),
        decreases rest@.len() - i,
    {
        let ghost before = points@;
        match parse_point(effect, rest[i]) {
            Ok(p) => {
                points.push(p);
                proof {
                    assert(points_view(points@) =~= points_view(before).push(p@));
                }
            },
            Err(e) => {
                proof {
                    lemma_points_error_persists(effect@, rv, i + 1, rv.len() as int);
                }
                return Err(e);
            },
        }
        i = i + 1;
    }
    Ok(SpliceArgs { fade, points })
}

/// Lemma: once a prefix of the tokens fails, every longer prefix fails the
/// same way.
proof fn lemma_points_error_persists(effect: Seq<char>, tokens: Seq<Seq<char>>, n: int, m: int)
    requires
        1 <= n <= m,
        points_upto(effect, tokens, n) is Err,
    ensures
        points_upto(effect, tokens, m) == points_upto(effect, tokens, n),
    decreases m - n,
{
    if n < m {
        lemma_points_error_persists(effect, tokens, n, m - 1);
    }
}

/// The canonical token of an amount.
pub open spec fn amount_token(a: SpliceAmountView) -> Seq<char> {
    match a {
        SpliceAmountView::Frames(n) => decimal(n as nat).push('s'),
        SpliceAmountView::Seconds(s) => s,
    }
}

/// Renders the token of an amount.
pub fn render_amount(a: &SpliceAmount) -> (r: String)
    ensures
        r@ == amount_token(a@),
{
    match a {
        SpliceAmount::Frames(n) => {
            let mut s = String::new();
            push_decimal(&mut s, *n);
            push_char(&mut s, 's');
            proof {
                assert(Seq::<char>::empty() + decimal(*n as nat) =~= decimal(*n as nat));
            }
            s
        },
        SpliceAmount::Seconds(t) => t.clone(),
    }
}

/// The canonical token of a point: its position, then its excess and its
/// leeway, comma-separated; a leeway is only written after an excess.
pub open spec fn point_token(p: SplicePointView) -> Seq<char> {
    amount_token(p.position) + match p.excess {
        Some(e) => seq![','] + amount_token(e) + match p.leeway {
            Some(l) => seq![','] + amount_token(l),
            None => Seq::empty(),
        },
        None => Seq::empty(),
    }
}

/// Renders the token of a point.
pub fn render_point(p: &SplicePoint) -> (r: String)
    ensures
        r@ == point_token(p@),
{
    let mut s = render_amount(&p.position);
    match &p.excess {
        Some(e) => {
            push_char(&mut s, ',');
            let et = render_amount(e);
            push_str_chars(&mut s, et.as_str());
            match &p.leeway {
                Some(l) => {
                    push_char(&mut s, ',');
                    let lt = render_amount(l);
                    push_str_chars(&mut s, lt.as_str());
                },
                None => {},
            }
        },
        None => {},
    }
    proof {
        assert(s@ =~= point_token(p@));
    }
    s
}

/// The flag of a fade shape (none for the default half-sine fade).
pub open spec fn fade_flag(f: SpliceFade) -> Seq<Seq<char>> {
    match f {
        SpliceFade::HalfSine => Seq::empty(),
        SpliceFade::Triangular => seq!["-t"@],
        SpliceFade::QuarterSine => seq!["-q"@],
    }
}

/// Renders the `splice` tokens of checked arguments: the name, the fade
/// flag unless the fade is half-sine, then one token per point.
pub fn render_splice(a: &SpliceArgs) -> (r: Vec<String>)
    ensures
        strings_view(r@) == seq!["splice"@] + fade_flag(a.fade) + points_view(a.points@).map_values(
            |p: SplicePointView| point_token(p),
        ),
{
    let mut tokens: Vec<String> = Vec::new();
    tokens.push(owned("splice"));
    match a.fade {
        SpliceFade::HalfSine => {},
        SpliceFade::Triangular => tokens.push(owned("-t")),
        SpliceFade::QuarterSine => tokens.push(owned("-q")),
    }
    let ghost head = strings_view(tokens@);
    proof {
        assert(head =~= seq!["splice"@] + fade_flag(a.fade));
    }
    let ghost pts = points_view(a.points@).map_values(|p: SplicePointView| point_token(p));
    let mut i: usize = 0;
    while i < a.points.len()
        invariant
            0 <= i <= a.points@.len(),
            pts == points_view(a.points@).map_values(|p: SplicePointView| point_token(p)),
            strings_view(tokens@) == head + pts.take(i as int),
        decreases a.points@.len() - i,
    {
        let ghost before = tokens@;
        tokens.push(render_point(&a.points[i]));
        proof {
            assert(pts[i as int] == point_token(a.points@[i as int]@));
            assert(strings_view(tokens@) =~= strings_view(before).push(pts[i as int]));
            assert(pts.take(i + 1) =~= pts.take(i as int).push(pts[i as int]));
        }
        i = i + 1;
    }
    proof {
        assert(pts.take(i as int) =~= pts);
    }
    tokens
}

} // verus!
