//! The `sinc` command: a windowed-sinc FIR filter.
//!
//! `sinc [options] band`, where the band is `-freq` (low-pass) or `freq`
//! (high-pass), each frequency optionally in kHz with a `k` suffix. The
//! options are `-r` (round the tap count), `-d` (delete at Nyquist, low-pass
//! only), `-a att` (stop-band attenuation in dB), `-b beta` (Kaiser beta),
//! `-t width` (transition width) and `-n taps`; the valued options may also
//! be written with the value attached (`-n11`). The phase options `-M`,
//! `-I` and `-L` are not supported, and a band range such as `1000-4000` is
//! refused. A later option overrides an earlier one.
//!
//! The ranges checked are those of SoX: attenuation 40 to 180 dB, beta 0 to
//! 256, taps 11 to 32767, and a transition width and band frequency above
//! zero. Beta and attenuation are exclusive.
use vstd::prelude::*;

use crate::chain::strings_view;
use crate::command::{
    args_view, count_outcome, float_error, CommandErrorView, CommandResult, EffectCommandParseError,
};
use crate::command_treble::{frequency_outcome, parse_frequency};
use crate::decimal::{
    bounded_point, decimal_text, is_above, is_float_literal_finite, is_value_less, is_within,
    kilo_text, lemma_bounds, lemma_whole_bound, literal_finite, render_decimal, render_kilo,
    value_above, value_less, value_within,
};
use crate::error::EffectError;
use crate::numbers::is_float_literal;
use crate::text::{chars_contain, chars_of, decimal, is_digit, owned, str_eq, string_from_range};

verus! {

/// The band of a `sinc` command.
#[derive(Debug, Clone, PartialEq, Eq)]
pub enum SincBandArgs {
    /// Pass frequencies below `frequency` (written `-freq`).
    LowPass {
        /// The cut-off, as number text without its `k` suffix.
        frequency: String,
        /// Whether the cut-off was given in kHz.
        kilo: bool,
        /// Whether the response is deleted at the Nyquist frequency (`-d`).
        delete_at_nyquist: bool,
    },
    /// Pass frequencies above `frequency` (written `freq`).
    HighPass {
        /// The cut-off, as number text without its `k` suffix.
        frequency: String,
        /// Whether the cut-off was given in kHz.
        kilo: bool,
    },
}

/// The mathematical content of a [`SincBandArgs`].
pub enum SincBandView {
    LowPass { frequency: Seq<char>, kilo: bool, delete_at_nyquist: bool },
    HighPass { frequency: Seq<char>, kilo: bool },
}

impl View for SincBandArgs {
    type V = SincBandView;

    open spec fn view(&self) -> SincBandView {
        match self {
            SincBandArgs::LowPass { frequency, kilo, delete_at_nyquist } => SincBandView::LowPass {
                frequency: frequency@,
                kilo: *kilo,
                delete_at_nyquist: *delete_at_nyquist,
            },
            SincBandArgs::HighPass { frequency, kilo } => SincBandView::HighPass {
                frequency: frequency@,
                kilo: *kilo,
            },
        }
    }
}

/// The checked arguments of a `sinc` command.
#[derive(Debug, Clone, PartialEq, Eq)]
pub struct SincArgs {
    /// The pass band.
    pub band: SincBandArgs,
    /// The stop-band attenuation in dB, as number text, if given.
    pub attenuation: Option<String>,
    /// The Kaiser window beta, as number text, if given.
    pub beta: Option<String>,
    /// The transition width as number text and whether it is in kHz, if given.
    pub transition: Option<(String, bool)>,
    /// The tap count, if given.
    pub taps: Option<u32>,
    /// Whether the tap count is rounded (`-r`).
    pub round_taps: bool,
}

/// The mathematical content of a [`SincArgs`].
pub struct SincView {
    pub band: SincBandView,
    pub attenuation: Option<Seq<char>>,
    pub beta: Option<Seq<char>>,
    pub transition: Option<(Seq<char>, bool)>,
    pub taps: Option<u32>,
    pub round_taps: bool,
}

/// The view of an optional owned string.
pub open spec fn text_of(o: Option<String>) -> Option<Seq<char>> {
    match o {
        Some(s) => Some(s@),
        None => None,
    }
}

/// The view of an optional owned frequency.
pub open spec fn frequency_of(o: Option<(String, bool)>) -> Option<(Seq<char>, bool)> {
    match o {
        Some((s, k)) => Some((s@, k)),
        None => None,
    }
}

impl View for SincArgs {
    type V = SincView;

    open spec fn view(&self) -> SincView {
        SincView {
            band: self.band@,
            attenuation: text_of(self.attenuation),
            beta: text_of(self.beta),
            transition: frequency_of(self.transition),
            taps: self.taps,
            round_taps: self.round_taps,
        }
    }
}

/// A band as read, before `-d` is applied.
pub struct BandRead {
    pub low_pass: bool,
    pub frequency: Seq<char>,
    pub kilo: bool,
}

/// What the option scan has read so far.
pub struct SincScan {
    pub round_taps: bool,
    pub delete_at_nyquist: bool,
    pub attenuation: Option<Seq<char>>,
    pub beta: Option<Seq<char>>,
    pub transition: Option<(Seq<char>, bool)>,
    pub taps: Option<u32>,
    pub band: Option<BandRead>,
}

/// The scan state before any token.
pub open spec fn scan_start() -> SincScan {
    SincScan {
        round_taps: false,
        delete_at_nyquist: false,
        attenuation: None,
        beta: None,
        transition: None,
        taps: None,
        band: None,
    }
}

/// The outcome of a band token.
pub open spec fn band_outcome(effect: Seq<char>, a: Seq<char>) -> Result<BandRead, CommandErrorView> {
    if a.len() > 0 && a[0] == '-' {
        let low = a.subrange(1, a.len() as int);
        if low.len() == 0 || !(is_digit(low[0]) || low[0] == '.') {
            Err(CommandErrorView::UnsupportedOption { effect, option: a })
        } else {
            match frequency_outcome(effect, low) {
                Ok((f, k)) => Ok(BandRead { low_pass: true, frequency: f, kilo: k }),
                Err(e) => Err(e),
            }
        }
    } else if a.contains('-') {
        Err(
            CommandErrorView::InvalidEffectConfig {
                effect,
                argument: "frequency-range"@,
                source: EffectError::InvalidSinc,
            },
        )
    } else {
        match frequency_outcome(effect, a) {
            Ok((f, k)) => Ok(BandRead { low_pass: false, frequency: f, kilo: k }),
            Err(e) => Err(e),
        }
    }
}

/// Which valued option a token names: `a`, `b`, `t` or `n`, if any.
pub open spec fn valued_option(a: Seq<char>) -> Option<char> {
    if a.len() >= 2 && a[0] == '-' && (a[1] == 'a' || a[1] == 'b' || a[1] == 't' || a[1] == 'n') {
        Some(a[1])
    } else {
        None
    }
}

/// The argument name of a valued option.
pub open spec fn option_argument(o: char) -> Seq<char> {
    if o == 'a' {
        "attenuation"@
    } else if o == 'b' {
        "beta"@
    } else if o == 't' {
        "transition-width"@
    } else {
        "taps"@
    }
}

/// The scan state after option `o` took the value `v`.
pub open spec fn take_value(effect: Seq<char>, o: char, v: Seq<char>, st: SincScan) -> Result<
    SincScan,
    CommandErrorView,
> {
    if o == 'a' || o == 'b' {
        match float_error(effect, option_argument(o), v) {
            Some(e) => Err(e),
            None => if o == 'a' {
                Ok(SincScan { attenuation: Some(v), ..st })
            } else {
                Ok(SincScan { beta: Some(v), ..st })
            },
        }
    } else if o == 't' {
        match frequency_outcome(effect, v) {
            Ok(f) => Ok(SincScan { transition: Some(f), ..st }),
            Err(e) => Err(e),
        }
    } else {
        match count_outcome(effect, "taps"@, v, u32::MAX as nat) {
            Ok(n) => Ok(SincScan { taps: Some(n as u32), ..st }),
            Err(e) => Err(e),
        }
    }
}

/// One step of the scan at token `i`: the next index and state.
pub open spec fn sinc_step(effect: Seq<char>, args: Seq<Seq<char>>, i: int, st: SincScan) -> Result<
    (int, SincScan),
    CommandErrorView,
> {
    let a = args[i];
    if a == "-r"@ {
        Ok((i + 1, SincScan { round_taps: true, ..st }))
    } else if a == "-d"@ {
        Ok((i + 1, SincScan { delete_at_nyquist: true, ..st }))
    } else if a == "-M"@ || a == "-I"@ || a == "-L"@ {
        Err(CommandErrorView::UnsupportedOption { effect, option: a })
    } else if valued_option(a) is Some && a.len() == 2 {
        let o = valued_option(a)->0;
        if i + 1 < args.len() {
            match take_value(effect, o, args[i + 1], st) {
                Ok(s) => Ok((i + 2, s)),
                Err(e) => Err(e),
            }
        } else {
            Err(CommandErrorView::MissingArgument { effect, argument: option_argument(o) })
        }
    } else if valued_option(a) is Some {
        match take_value(effect, valued_option(a)->0, a.subrange(2, a.len() as int), st) {
            Ok(s) => Ok((i + 1, s)),
            Err(e) => Err(e),
        }
    } else if st.band is None {
        match band_outcome(effect, a) {
            Ok(b) => Ok((i + 1, SincScan { band: Some(b), ..st })),
            Err(e) => Err(e),
        }
    } else {
        Err(CommandErrorView::UnexpectedArgument { effect, argument: a })
    }
}

/// The scan of the tokens from `i` on.
pub open spec fn sinc_scan(effect: Seq<char>, args: Seq<Seq<char>>, i: int, st: SincScan) -> Result<
    SincScan,
    CommandErrorView,
>
    decreases args.len() - i,
{
    if i < 0 || i >= args.len() {
        Ok(st)
    } else {
        match sinc_step(effect, args, i, st) {
            Err(e) => Err(e),
            Ok((j, s)) => if i < j <= args.len() {
                sinc_scan(effect, args, j, s)
            } else {
                Ok(s)
            },
        }
    }
}

/// Whether the options are in range: attenuation 40 to 180, beta 0 to 256,
/// transition width above zero and taps 11 to 32767.
pub open spec fn sinc_options_ok(st: SincScan) -> bool {
    &&& (st.attenuation matches Some(a) ==> value_within(a, "40"@, "180"@))
    &&& (st.beta matches Some(b) ==> value_within(b, "0"@, "256"@))
    &&& (st.transition matches Some((t, _)) ==> value_above(t, "0"@))
    &&& (st.taps matches Some(n) ==> 11 <= n <= 32767)
}

/// The error of an out-of-range design.
pub open spec fn sinc_error(effect: Seq<char>, argument: Seq<char>) -> CommandErrorView {
    CommandErrorView::InvalidEffectConfig { effect, argument, source: EffectError::InvalidSinc }
}

/// The outcome of `sinc [options] band`.
pub open spec fn sinc_outcome(effect: Seq<char>, args: Seq<Seq<char>>) -> Result<
    SincView,
    CommandErrorView,
> {
    match sinc_scan(effect, args, 0, scan_start()) {
        Err(e) => Err(e),
        Ok(st) => match st.band {
            None => Err(CommandErrorView::MissingArgument { effect, argument: "frequency-range"@ }),
            Some(b) => if st.delete_at_nyquist && !b.low_pass {
                Err(CommandErrorView::UnsupportedOption { effect, option: "-d"@ })
            } else if st.beta is Some && st.attenuation is Some {
                Err(sinc_error(effect, "attenuation"@))
            } else if !sinc_options_ok(st) {
                Err(sinc_error(effect, "options"@))
            } else if !value_above(b.frequency, "0"@) {
                Err(sinc_error(effect, "frequency-range"@))
            } else {
                Ok(
                    SincView {
                        band: if b.low_pass {
                            SincBandView::LowPass {
                                frequency: b.frequency,
                                kilo: b.kilo,
                                delete_at_nyquist: st.delete_at_nyquist,
                            }
                        } else {
                            SincBandView::HighPass { frequency: b.frequency, kilo: b.kilo }
                        },
                        attenuation: st.attenuation,
                        beta: st.beta,
                        transition: st.transition,
                        taps: st.taps,
                        round_taps: st.round_taps,
                    },
                )
            },
        },
    }
}

/// A frequency as `render_sinc` writes it, in Hz.
pub open spec fn hz_text(f: Seq<char>, kilo: bool) -> Seq<char> {
    if kilo {
        kilo_text(f)
    } else {
        decimal_text(f)
    }
}

/// Whether an attenuation is the default 120 dB.
pub open spec fn default_attenuation(a: Seq<char>) -> bool {
    is_float_literal(a) && literal_finite(a) && !value_less(a, "120"@) && !value_less("120"@, a)
}

/// The window tokens: `-b beta`, or `-a att` unless it is the default.
pub open spec fn window_tokens(v: SincView) -> Seq<Seq<char>> {
    match v.beta {
        Some(b) => seq!["-b"@, decimal_text(b)],
        None => match v.attenuation {
            Some(a) => if default_attenuation(a) {
                Seq::empty()
            } else {
                seq!["-a"@, decimal_text(a)]
            },
            None => Seq::empty(),
        },
    }
}

/// The `-t width` tokens, when a transition width was given.
pub open spec fn transition_tokens(v: SincView) -> Seq<Seq<char>> {
    match v.transition {
        Some((t, k)) => seq!["-t"@, hz_text(t, k)],
        None => Seq::empty(),
    }
}

/// The `-n taps` tokens, when a tap count was given.
pub open spec fn taps_tokens(v: SincView) -> Seq<Seq<char>> {
    match v.taps {
        Some(n) => seq!["-n"@, decimal(n as nat)],
        None => Seq::empty(),
    }
}

/// The `-r` token, when the tap count is rounded.
pub open spec fn round_tokens(v: SincView) -> Seq<Seq<char>> {
    if v.round_taps {
        seq!["-r"@]
    } else {
        Seq::empty()
    }
}

/// The band tokens: `-freq` and `-d` for a low-pass, `freq` for a
/// high-pass.
pub open spec fn band_tokens(b: SincBandView) -> Seq<Seq<char>> {
    match b {
        SincBandView::LowPass { frequency, kilo, delete_at_nyquist } => {
            seq![seq!['-'] + hz_text(frequency, kilo)] + if delete_at_nyquist {
                seq!["-d"@]
            } else {
                Seq::empty()
            }
        },
        SincBandView::HighPass { frequency, kilo } => seq![hz_text(frequency, kilo)],
    }
}

/// The tokens of `render_sinc`: the window, `-t`, `-n` and `-r` options
/// in that order, then the band.
pub open spec fn sinc_tokens(v: SincView) -> Seq<Seq<char>> {
    seq!["sinc"@] + window_tokens(v) + transition_tokens(v) + taps_tokens(v) + round_tokens(v)
        + band_tokens(v.band)
}

/// Whether every number text the scan holds is a floating-point literal.
pub open spec fn scan_literals(st: SincScan) -> bool {
    &&& (st.attenuation matches Some(a) ==> is_float_literal(a))
    &&& (st.beta matches Some(b) ==> is_float_literal(b))
    &&& (st.transition matches Some((t, _)) ==> is_float_literal(t))
    &&& (st.band matches Some(b) ==> is_float_literal(b.frequency))
}

/// The scan state as the parser holds it.
struct ScanState {
    round_taps: bool,
    delete_at_nyquist: bool,
    attenuation: Option<String>,
    beta: Option<String>,
    transition: Option<(String, bool)>,
    taps: Option<u32>,
    band: Option<(bool, String, bool)>,
}

impl View for ScanState {
    type V = SincScan;

    closed spec fn view(&self) -> SincScan {
        SincScan {
            round_taps: self.round_taps,
            delete_at_nyquist: self.delete_at_nyquist,
            attenuation: text_of(self.attenuation),
            beta: text_of(self.beta),
            transition: frequency_of(self.transition),
            taps: self.taps,
            band: match self.band {
                Some((l, f, k)) => Some(BandRead { low_pass: l, frequency: f@, kilo: k }),
                None => None,
            },
        }
    }
}

/// Lemma: a frequency that parses is a literal.
proof fn lemma_frequency_literal(effect: Seq<char>, v: Seq<char>)
    requires
        frequency_outcome(effect, v) is Ok,
    ensures
        is_float_literal(frequency_outcome(effect, v)->Ok_0.0),
{
}

/// Parses a band token.
fn parse_band(effect: &'static str, a: &str) -> (r: CommandResult<(bool, String, bool)>)
    ensures
        match band_outcome(effect@, a@) {
            Ok(b) => r matches Ok((l, f, k)) && l == b.low_pass && f@ == b.frequency && k == b.kilo
                && is_float_literal(f@),
            Err(e) => r matches Err(x) && x@ == e,
        },
{
    let chars = chars_of(a);
    let n = chars.len();
    if n > 0 && chars[0] == '-' {
        if n == 1 || !(('0' <= chars[1] && chars[1] <= '9') || chars[1] == '.') {
            return Err(EffectCommandParseError::UnsupportedOption { effect, option: owned(a) });
        }
        let low = string_from_range(chars.as_slice(), 1, n);
        match parse_frequency(effect, low.as_str()) {
            Ok((f, k)) => {
                proof {
                    lemma_frequency_literal(effect@, low@);
                }
                Ok((true, f, k))
            },
            Err(e) => Err(e),
        }
    } else if chars_contain(chars.as_slice(), '-') {
        Err(
            EffectCommandParseError::InvalidEffectConfig {
                effect,
                argument: "frequency-range",
                source: EffectError::InvalidSinc,
            },
        )
    } else {
        match parse_frequency(effect, a) {
            Ok((f, k)) => {
                proof {
                    lemma_frequency_literal(effect@, a@);
                }
                Ok((false, f, k))
            },
            Err(e) => Err(e),
        }
    }
}

/// Records the value `v` of option `o`.
fn take_value_exec(effect: &'static str, o: char, v: &str, st: ScanState) -> (r: CommandResult<
    ScanState,
>)
    requires
        o == 'a' || o == 'b' || o == 't' || o == 'n',
        scan_literals(st@),
    ensures
        match take_value(effect@, o, v@, st@) {
            Ok(s) => r matches Ok(x) && x@ == s && scan_literals(x@),
            Err(e) => r matches Err(x) && x@ == e,
        },
{
    let mut s = st;
    if o == 'a' || o == 'b' {
        let argument = if o == 'a' {
            "attenuation"
        } else {
            "beta"
        };
        match crate::command::check_float(effect, argument, v) {
            Ok(()) => {},
            Err(e) => {
                return Err(e);
            },
        }
        if o == 'a' {
            s.attenuation = Some(owned(v));
        } else {
            s.beta = Some(owned(v));
        }
        Ok(s)
    } else if o == 't' {
        match parse_frequency(effect, v) {
            Ok(f) => {
                proof {
                    lemma_frequency_literal(effect@, v@);
                }
                s.transition = Some(f);
                Ok(s)
            },
            Err(e) => Err(e),
        }
    } else {
        match crate::command::parse_u32_arg(effect, "taps", v) {
            Ok(n) => {
                s.taps = Some(n);
                Ok(s)
            },
            Err(e) => Err(e),
        }
    }
}

/// The valued option a token names, if any.
fn valued_option_exec(chars: &[char]) -> (r: Option<char>)
    ensures
        r == valued_option(chars@),
{
    if chars.len() >= 2 && chars[0] == '-' && (chars[1] == 'a' || chars[1] == 'b' || chars[1] == 't'
        || chars[1] == 'n') {
        Some(chars[1])
    } else {
        None
    }
}

/// One step of the scan at token `i`.
fn sinc_step_exec(effect: &'static str, args: &[&str], i: usize, st: ScanState) -> (r: CommandResult<
    (usize, ScanState),
>)
    requires
        i < args.len(),
        scan_literals(st@),
    ensures
        match sinc_step(effect@, args_view(args@), i as int, st@) {
            Ok((j, s)) => r matches Ok((jx, sx)) && jx == j && sx@ == s && i < jx <= args.len()
                && scan_literals(sx@),
            Err(e) => r matches Err(x) && x@ == e,
        },
{
    let a = args[i];
    proof {
        assert(args_view(args@)[i as int] == a@);
    }
    let mut s = st;
    if str_eq(a, "-r") {
        s.round_taps = true;
        return Ok((i + 1, s));
    }
    if str_eq(a, "-d") {
        s.delete_at_nyquist = true;
        return Ok((i + 1, s));
    }
    if str_eq(a, "-M") || str_eq(a, "-I") || str_eq(a, "-L") {
        return Err(EffectCommandParseError::UnsupportedOption { effect, option: owned(a) });
    }
    let chars = chars_of(a);
    let n = chars.len();
    match valued_option_exec(chars.as_slice()) {
        Some(o) => {
            if n == 2 {
                if i + 1 < args.len() {
                    proof {
                        assert(args_view(args@)[i + 1] == args@[i + 1]@);
                    }
                    match take_value_exec(effect, o, args[i + 1], s) {
                        Ok(x) => Ok((i + 2, x)),
                        Err(e) => Err(e),
                    }
                } else {
                    let argument = if o == 'a' {
                        "attenuation"
                    } else if o == 'b' {
                        "beta"
                    } else if o == 't' {
                        "transition-width"
                    } else {
                        "taps"
                    };
                    Err(EffectCommandParseError::MissingArgument { effect, argument })
                }
            } else {
                let value = string_from_range(chars.as_slice(), 2, n);
                match take_value_exec(effect, o, value.as_str(), s) {
                    Ok(x) => Ok((i + 1, x)),
                    Err(e) => Err(e),
                }
            }
        },
        None => {
            if s.band.is_none() {
                match parse_band(effect, a) {
                    Ok(b) => {
                        s.band = Some(b);
                        Ok((i + 1, s))
                    },
                    Err(e) => Err(e),
                }
            } else {
                Err(EffectCommandParseError::UnexpectedArgument { effect, argument: owned(a) })
            }
        },
    }
}

/// Lemma: the range ends of `sinc` are finite literals with a bounded point.
proof fn lemma_sinc_bounds()
    ensures
        is_float_literal("180"@) && literal_finite("180"@) && bounded_point("180"@),
        is_float_literal("256"@) && literal_finite("256"@) && bounded_point("256"@),
{
    reveal_strlit("180");
    reveal_strlit("256");
    lemma_whole_bound("180"@);
    lemma_whole_bound("256"@);
}

/// Parses `sinc [options] band`.
pub fn parse_sinc(effect: &'static str, args: &[&str]) -> (r: CommandResult<SincArgs>)
    ensures
        match sinc_outcome(effect@, args_view(args@)) {
            Ok(s) => r matches Ok(x) && x@ == s,
            Err(e) => r matches Err(x) && x@ == e,
        },
{
    let ghost av = args_view(args@);
    let mut st = ScanState {
        round_taps: false,
        delete_at_nyquist: false,
        attenuation: None,
        beta: None,
        transition: None,
        taps: None,
        band: None,
    };
    let mut i: usize = 0;
    while i < args.len()
        invariant
            0 <= i <= args.len(),
            av == args_view(args@),
            scan_literals(st@),
            sinc_scan(effect@, av, 0, scan_start()) == sinc_scan(effect@, av, i as int, st@),
        decreases args.len() - i,
    {
        let ghost before = st@;
        match sinc_step_exec(effect, args, i, st) {
            Ok((j, x)) => {
                i = j;
                st = x;
            },
            Err(e) => {
                return Err(e);
            },
        }
    }
    let ghost fin = st@;
    assert(sinc_scan(effect@, av, 0, scan_start()) == Ok::<SincScan, CommandErrorView>(fin));
    let (low, frequency, kilo) = match st.band {
        Some(b) => b,
        None => {
            return Err(
                EffectCommandParseError::MissingArgument { effect, argument: "frequency-range" },
            );
        },
    };
    if st.delete_at_nyquist && !low {
        return Err(EffectCommandParseError::UnsupportedOption { effect, option: owned("-d") });
    }
    if st.beta.is_some() && st.attenuation.is_some() {
        return Err(
            EffectCommandParseError::InvalidEffectConfig {
                effect,
                argument: "attenuation",
                source: EffectError::InvalidSinc,
            },
        );
    }
    proof {
        lemma_bounds();
        lemma_sinc_bounds();
    }
    let attenuation_ok = match &st.attenuation {
        Some(a) => is_within(a.as_str(), "40", "180"),
        None => true,
    };
    let beta_ok = match &st.beta {
        Some(b) => is_within(b.as_str(), "0", "256"),
        None => true,
    };
    let transition_ok = match &st.transition {
        Some((t, _)) => is_above(t.as_str(), "0"),
        None => true,
    };
    let taps_ok = match st.taps {
        Some(n) => 11 <= n && n <= 32767,
        None => true,
    };
    if !(attenuation_ok && beta_ok && transition_ok && taps_ok) {
        return Err(
            EffectCommandParseError::InvalidEffectConfig {
                effect,
                argument: "options",
                source: EffectError::InvalidSinc,
            },
        );
    }
    if !is_above(frequency.as_str(), "0") {
        return Err(
            EffectCommandParseError::InvalidEffectConfig {
                effect,
                argument: "frequency-range",
                source: EffectError::InvalidSinc,
            },
        );
    }
    let band = if low {
        SincBandArgs::LowPass { frequency, kilo, delete_at_nyquist: st.delete_at_nyquist }
    } else {
        SincBandArgs::HighPass { frequency, kilo }
    };
    Ok(
        SincArgs {
            band,
            attenuation: st.attenuation,
            beta: st.beta,
            transition: st.transition,
            taps: st.taps,
            round_taps: st.round_taps,
        },
    )
}

/// Renders a frequency in Hz.
fn render_hz(f: &str, kilo: bool) -> (r: String)
    ensures
        r@ == hz_text(f@, kilo),
{
    if kilo {
        render_kilo(f)
    } else {
        render_decimal(f)
    }
}

/// Whether `a` is the default attenuation of 120 dB.
fn is_default_attenuation(a: &str) -> (r: bool)
    ensures
        r == default_attenuation(a@),
{
    if !crate::numbers::is_float_text(a) || !is_float_literal_finite(a) {
        return false;
    }
    proof {
        lemma_bounds();
    }
    !is_value_less(a, "120") && !is_value_less("120", a)
}

/// Appends the band tokens.
fn push_band(tokens: &mut Vec<String>, band: &SincBandArgs)
    ensures
        strings_view(final(tokens)@) == strings_view(old(tokens)@) + band_tokens(band@),
{
    let ghost start = strings_view(tokens@);
    match band {
        SincBandArgs::LowPass { frequency, kilo, delete_at_nyquist } => {
            let mut f = owned("-");
            proof {
                reveal_strlit("-");
                assert(f@ =~= seq!['-']);
            }
            let hz = render_hz(frequency.as_str(), *kilo);
            crate::text::push_str_chars(&mut f, hz.as_str());
            assert(f@ =~= seq!['-'] + hz_text(frequency@, *kilo));
            tokens.push(f);
            let ghost mid = strings_view(tokens@);
            assert(mid =~= start + seq![seq!['-'] + hz_text(frequency@, *kilo)]);
            if *delete_at_nyquist {
                tokens.push(owned("-d"));
            }
            assert(strings_view(tokens@) =~= start + band_tokens(band@));
        },
        SincBandArgs::HighPass { frequency, kilo } => {
            tokens.push(render_hz(frequency.as_str(), *kilo));
            assert(strings_view(tokens@) =~= start + band_tokens(band@));
        },
    }
}

/// Renders the `sinc` tokens of `a`: `-b beta`, or `-a att` when it is
/// not the default 120 dB; then `-t width`, `-n taps` and `-r` where set;
/// then the band, `-freq` (followed by `-d` when set) for a low-pass and
/// `freq` for a high-pass. Values are written as plain decimal text, and
/// frequencies in Hz.
pub fn render_sinc(a: &SincArgs) -> (r: Vec<String>)
    ensures
        strings_view(r@) == sinc_tokens(a@),
{
    let mut tokens: Vec<String> = Vec::new();
    tokens.push(owned("sinc"));
    let ghost t0 = strings_view(tokens@);
    match &a.beta {
        Some(b) => {
            tokens.push(owned("-b"));
            tokens.push(render_decimal(b.as_str()));
        },
        None => match &a.attenuation {
            Some(x) => {
                if !is_default_attenuation(x.as_str()) {
                    tokens.push(owned("-a"));
                    tokens.push(render_decimal(x.as_str()));
                }
            },
            None => {},
        },
    }
    let ghost t1 = strings_view(tokens@);
    assert(t1 =~= t0 + window_tokens(a@));
    match &a.transition {
        Some((t, k)) => {
            tokens.push(owned("-t"));
            tokens.push(render_hz(t.as_str(), *k));
        },
        None => {},
    }
    let ghost t2 = strings_view(tokens@);
    assert(t2 =~= t1 + transition_tokens(a@));
    match a.taps {
        Some(n) => {
            tokens.push(owned("-n"));
            tokens.push(crate::text::decimal_string(n as u64));
        },
        None => {},
    }
    let ghost t3 = strings_view(tokens@);
    assert(t3 =~= t2 + taps_tokens(a@));
    if a.round_taps {
        tokens.push(owned("-r"));
    }
    let ghost t4 = strings_view(tokens@);
    assert(t4 =~= t3 + round_tokens(a@));
    push_band(&mut tokens, &a.band);
    proof {
        assert(strings_view(tokens@) =~= sinc_tokens(a@));
    }
    tokens
}

} // verus!
