//! The `vad` command: option/value pairs of the voice activity detector.
//!
//! `vad [-option value]...` takes any number of option/value pairs. Every
//! value is a number; the frequency options also accept a `k` or `K` suffix
//! that multiplies the value by 1000. A later pair overrides an earlier one
//! for the same option. The trigger level in effect (the last `-t`) must
//! be in `0..=1`.
use vstd::prelude::*;

use crate::command::{
    args_view, float_error, option_like, CommandErrorView, CommandResult, EffectCommandParseError,
};
use crate::chain::strings_view;
use crate::decimal::{
    is_within, kilo_text, kilo_window, lemma_bounds, literal_finite, render_kilo, value_within,
};
use crate::error::EffectError;
use crate::numbers::{is_float_literal, lemma_float_literal_end};
use crate::text::{chars_of, owned, str_eq, string_from_range};

verus! {

/// An option of the `vad` command.
#[derive(Debug, Clone, Copy, PartialEq, Eq, Structural)]
pub enum VadOption {
    /// `-b`: boot time.
    BootTime,
    /// `-N`: noise time constant, rising.
    NoiseTcUp,
    /// `-n`: noise time constant, falling.
    NoiseTcDown,
    /// `-r`: noise reduction amount.
    NoiseReductionAmount,
    /// `-f`: measurement frequency.
    MeasureFrequency,
    /// `-m`: measurement duration.
    MeasureDuration,
    /// `-M`: measurement time constant.
    MeasureTc,
    /// `-h`: high-pass filter frequency.
    HighPassFrequency,
    /// `-l`: low-pass filter frequency.
    LowPassFrequency,
    /// `-H`: high-pass lifter frequency.
    HighPassLifterFrequency,
    /// `-L`: low-pass lifter frequency.
    LowPassLifterFrequency,
    /// `-T`: trigger time constant.
    TriggerTime,
    /// `-t`: trigger level.
    TriggerLevel,
    /// `-s`: search time.
    SearchTime,
    /// `-g`: allowed gap time.
    GapTime,
    /// `-p`: pre-trigger time.
    PreTriggerTime,
}

/// The option named by the token `v`, if any.
pub open spec fn vad_option_of(v: Seq<char>) -> Option<VadOption> {
    if v == "-b"@ {
        Some(VadOption::BootTime)
    } else if v == "-N"@ {
        Some(VadOption::NoiseTcUp)
    } else if v == "-n"@ {
        Some(VadOption::NoiseTcDown)
    } else if v == "-r"@ {
        Some(VadOption::NoiseReductionAmount)
    } else if v == "-f"@ {
        Some(VadOption::MeasureFrequency)
    } else if v == "-m"@ {
        Some(VadOption::MeasureDuration)
    } else if v == "-M"@ {
        Some(VadOption::MeasureTc)
    } else if v == "-h"@ {
        Some(VadOption::HighPassFrequency)
    } else if v == "-l"@ {
        Some(VadOption::LowPassFrequency)
    } else if v == "-H"@ {
        Some(VadOption::HighPassLifterFrequency)
    } else if v == "-L"@ {
        Some(VadOption::LowPassLifterFrequency)
    } else if v == "-T"@ {
        Some(VadOption::TriggerTime)
    } else if v == "-t"@ {
        Some(VadOption::TriggerLevel)
    } else if v == "-s"@ {
        Some(VadOption::SearchTime)
    } else if v == "-g"@ {
        Some(VadOption::GapTime)
    } else if v == "-p"@ {
        Some(VadOption::PreTriggerTime)
    } else {
        None
    }
}

/// The argument name of an option, as parse errors report it.
pub open spec fn vad_argument(o: VadOption) -> Seq<char> {
    match o {
        VadOption::BootTime => "boot-time"@,
        VadOption::NoiseTcUp => "noise-tc-up"@,
        VadOption::NoiseTcDown => "noise-tc-down"@,
        VadOption::NoiseReductionAmount => "noise-reduction-amount"@,
        VadOption::MeasureFrequency => "measure-frequency"@,
        VadOption::MeasureDuration => "measure-duration"@,
        VadOption::MeasureTc => "measure-tc"@,
        VadOption::HighPassFrequency => "high-pass-frequency"@,
        VadOption::LowPassFrequency => "low-pass-frequency"@,
        VadOption::HighPassLifterFrequency => "high-pass-lifter-frequency"@,
        VadOption::LowPassLifterFrequency => "low-pass-lifter-frequency"@,
        VadOption::TriggerTime => "trigger-time"@,
        VadOption::TriggerLevel => "trigger-level"@,
        VadOption::SearchTime => "search-time"@,
        VadOption::GapTime => "gap-time"@,
        VadOption::PreTriggerTime => "pre-trigger-time"@,
    }
}

/// Whether an option takes a frequency, which may carry a `k` suffix.
pub open spec fn is_frequency_option(o: VadOption) -> bool {
    o == VadOption::HighPassFrequency || o == VadOption::LowPassFrequency || o
        == VadOption::HighPassLifterFrequency || o == VadOption::LowPassLifterFrequency
}

/// One `vad` option with its value.
#[derive(Debug, Clone, PartialEq, Eq)]
pub struct VadSetting {
    /// The option.
    pub option: VadOption,
    /// The value's number text, without a `k` suffix.
    pub value: String,
    /// Whether the value carried a `k`/`K` suffix (times 1000).
    pub kilo: bool,
}

/// The mathematical content of a [`VadSetting`].
pub struct VadSettingView {
    pub option: VadOption,
    pub value: Seq<char>,
    pub kilo: bool,
}

impl View for VadSetting {
    type V = VadSettingView;

    open spec fn view(&self) -> VadSettingView {
        VadSettingView { option: self.option, value: self.value@, kilo: self.kilo }
    }
}

/// The checked arguments of a `vad` command.
#[derive(Debug, Clone, PartialEq, Eq)]
pub struct VadArgs {
    /// The settings in the order given; a later one overrides an earlier
    /// one for the same option.
    pub settings: Vec<VadSetting>,
}

/// The views of a sequence of settings.
pub open spec fn settings_view(s: Seq<VadSetting>) -> Seq<VadSettingView> {
    s.map_values(|x: VadSetting| x@)
}

impl Default for VadArgs {
    fn default() -> (r: Self)
        ensures
            r.settings@.len() == 0,
    {
        VadArgs { settings: Vec::new() }
    }
}

/// The outcome of the value `v` of option `o`.
pub open spec fn vad_value_outcome(effect: Seq<char>, o: VadOption, v: Seq<char>) -> Result<
    VadSettingView,
    CommandErrorView,
> {
    let kilo = is_frequency_option(o) && v.len() > 0 && (v.last() == 'k' || v.last() == 'K');
    let number = if kilo {
        v.drop_last()
    } else {
        v
    };
    match float_error(effect, vad_argument(o), number) {
        Some(e) => Err(e),
        None => Ok(VadSettingView { option: o, value: number, kilo }),
    }
}

/// The settings from token `off` on, or the first error.
pub open spec fn vad_from(effect: Seq<char>, args: Seq<Seq<char>>, off: int) -> Result<
    Seq<VadSettingView>,
    CommandErrorView,
>
    decreases args.len() - off,
{
    if off < 0 || off >= args.len() {
        Ok(Seq::empty())
    } else if !option_like(args[off]) {
        Err(CommandErrorView::UnexpectedArgument { effect, argument: args[off] })
    } else if off + 1 >= args.len() {
        Err(CommandErrorView::MissingArgument { effect, argument: "option value"@ })
    } else {
        match vad_option_of(args[off]) {
            None => Err(CommandErrorView::UnsupportedOption { effect, option: args[off] }),
            Some(o) => match vad_value_outcome(effect, o, args[off + 1]) {
                Err(e) => Err(e),
                Ok(s) => match vad_from(effect, args, off + 2) {
                    Err(e) => Err(e),
                    Ok(rest) => Ok(seq![s] + rest),
                },
            },
        }
    }
}

/// The value of the last trigger-level setting (`-t`), if any: a later
/// setting overrides an earlier one.
pub open spec fn last_trigger(s: Seq<VadSettingView>) -> Option<Seq<char>> {
    match last_setting(s, VadOption::TriggerLevel) {
        Some(x) => Some(x.value),
        None => None,
    }
}

/// The last setting of option `o` among `s`, if any: the one in effect.
pub open spec fn last_setting(s: Seq<VadSettingView>, o: VadOption) -> Option<VadSettingView>
    decreases s.len(),
{
    if s.len() == 0 {
        None
    } else if s.last().option == o {
        Some(s.last())
    } else {
        last_setting(s.drop_last(), o)
    }
}

/// The outcome of a `vad` command: its settings, or the first error. Once
/// every pair parses, the trigger level in effect must be in `0..=1`.
pub open spec fn vad_outcome(effect: Seq<char>, args: Seq<Seq<char>>) -> Result<
    Seq<VadSettingView>,
    CommandErrorView,
> {
    match vad_from(effect, args, 0) {
        Err(e) => Err(e),
        Ok(s) => match last_trigger(s) {
            Some(v) => if value_within(v, "0"@, "1"@) {
                Ok(s)
            } else {
                Err(
                    CommandErrorView::InvalidEffectConfig {
                        effect,
                        argument: "vad"@,
                        source: EffectError::InvalidVad,
                    },
                )
            },
            None => Ok(s),
        },
    }
}

/// Whether the token equals the literal `lit`.
fn is_word(v: &str, lit: &str) -> (r: bool)
    ensures
        r == (v@ == lit@),
{
    str_eq(v, lit)
}

/// The option named by `value`, if any.
pub fn vad_option_from(value: &str) -> (r: Option<VadOption>)
    ensures
        r == vad_option_of(value@),
{
    if is_word(value, "-b") {
        Some(VadOption::BootTime)
    } else if is_word(value, "-N") {
        Some(VadOption::NoiseTcUp)
    } else if is_word(value, "-n") {
        Some(VadOption::NoiseTcDown)
    } else if is_word(value, "-r") {
        Some(VadOption::NoiseReductionAmount)
    } else if is_word(value, "-f") {
        Some(VadOption::MeasureFrequency)
    } else if is_word(value, "-m") {
        Some(VadOption::MeasureDuration)
    } else if is_word(value, "-M") {
        Some(VadOption::MeasureTc)
    } else if is_word(value, "-h") {
        Some(VadOption::HighPassFrequency)
    } else if is_word(value, "-l") {
        Some(VadOption::LowPassFrequency)
    } else if is_word(value, "-H") {
        Some(VadOption::HighPassLifterFrequency)
    } else if is_word(value, "-L") {
        Some(VadOption::LowPassLifterFrequency)
    } else if is_word(value, "-T") {
        Some(VadOption::TriggerTime)
    } else if is_word(value, "-t") {
        Some(VadOption::TriggerLevel)
    } else if is_word(value, "-s") {
        Some(VadOption::SearchTime)
    } else if is_word(value, "-g") {
        Some(VadOption::GapTime)
    } else if is_word(value, "-p") {
        Some(VadOption::PreTriggerTime)
    } else {
        None
    }
}

/// The argument name of an option.
pub fn vad_argument_name(o: VadOption) -> (r: &'static str)
    ensures
        r@ == vad_argument(o),
{
    match o {
        VadOption::BootTime => "boot-time",
        VadOption::NoiseTcUp => "noise-tc-up",
        VadOption::NoiseTcDown => "noise-tc-down",
        VadOption::NoiseReductionAmount => "noise-reduction-amount",
        VadOption::MeasureFrequency => "measure-frequency",
        VadOption::MeasureDuration => "measure-duration",
        VadOption::MeasureTc => "measure-tc",
        VadOption::HighPassFrequency => "high-pass-frequency",
        VadOption::LowPassFrequency => "low-pass-frequency",
        VadOption::HighPassLifterFrequency => "high-pass-lifter-frequency",
        VadOption::LowPassLifterFrequency => "low-pass-lifter-frequency",
        VadOption::TriggerTime => "trigger-time",
        VadOption::TriggerLevel => "trigger-level",
        VadOption::SearchTime => "search-time",
        VadOption::GapTime => "gap-time",
        VadOption::PreTriggerTime => "pre-trigger-time",
    }
}

/// The token of an option.
pub open spec fn vad_option_token(o: VadOption) -> Seq<char> {
    match o {
        VadOption::BootTime => "-b"@,
        VadOption::NoiseTcUp => "-N"@,
        VadOption::NoiseTcDown => "-n"@,
        VadOption::NoiseReductionAmount => "-r"@,
        VadOption::MeasureFrequency => "-f"@,
        VadOption::MeasureDuration => "-m"@,
        VadOption::MeasureTc => "-M"@,
        VadOption::HighPassFrequency => "-h"@,
        VadOption::LowPassFrequency => "-l"@,
        VadOption::HighPassLifterFrequency => "-H"@,
        VadOption::LowPassLifterFrequency => "-L"@,
        VadOption::TriggerTime => "-T"@,
        VadOption::TriggerLevel => "-t"@,
        VadOption::SearchTime => "-s"@,
        VadOption::GapTime => "-g"@,
        VadOption::PreTriggerTime => "-p"@,
    }
}

/// Renders the token of an option.
pub fn render_vad_option(o: VadOption) -> (r: &'static str)
    ensures
        r@ == vad_option_token(o),
{
    match o {
        VadOption::BootTime => "-b",
        VadOption::NoiseTcUp => "-N",
        VadOption::NoiseTcDown => "-n",
        VadOption::NoiseReductionAmount => "-r",
        VadOption::MeasureFrequency => "-f",
        VadOption::MeasureDuration => "-m",
        VadOption::MeasureTc => "-M",
        VadOption::HighPassFrequency => "-h",
        VadOption::LowPassFrequency => "-l",
        VadOption::HighPassLifterFrequency => "-H",
        VadOption::LowPassLifterFrequency => "-L",
        VadOption::TriggerTime => "-T",
        VadOption::TriggerLevel => "-t",
        VadOption::SearchTime => "-s",
        VadOption::GapTime => "-g",
        VadOption::PreTriggerTime => "-p",
    }
}

/// Law: `-N` sets the rising noise time constant and `-n` the falling
/// one. For any value and any following arguments, a `vad` command that
/// starts with `-N v` (or `-n v`) and parses has, as its first setting, that
/// time constant with the value `v` as given.
pub proof fn lemma_noise_time_constant_options(
    effect: Seq<char>,
    v: Seq<char>,
    rest: Seq<Seq<char>>,
)
    ensures
        vad_outcome(effect, seq!["-N"@, v] + rest) matches Ok(s) ==> s.len() > 0 && s[0]
            == (VadSettingView { option: VadOption::NoiseTcUp, value: v, kilo: false }),
        vad_outcome(effect, seq!["-n"@, v] + rest) matches Ok(s) ==> s.len() > 0 && s[0]
            == (VadSettingView { option: VadOption::NoiseTcDown, value: v, kilo: false }),
{
    lemma_vad_option_round_trip(VadOption::NoiseTcUp);
    lemma_vad_option_round_trip(VadOption::NoiseTcDown);
    reveal_strlit("-N");
    reveal_strlit("-n");
    assert(vad_option_token(VadOption::NoiseTcUp) == "-N"@);
    assert(vad_option_token(VadOption::NoiseTcDown) == "-n"@);
    let up = seq!["-N"@, v] + rest;
    let down = seq!["-n"@, v] + rest;
    assert(up[0] == "-N"@ && up[1] == v && up.len() >= 2);
    assert(down[0] == "-n"@ && down[1] == v && down.len() >= 2);
    assert(option_like("-N"@) && option_like("-n"@));
}

/// Law: each option token sets the option documented for it. For any value
/// and any following arguments, a `vad` command that starts with the token
/// and parses has that option as its first setting: `-b` boot time, `-N`
/// noise time constant up, `-n` noise time constant down, `-r` noise
/// reduction, `-f` measurement frequency, `-m` measurement duration, `-M`
/// measurement time constant, `-h`/`-l` high-/low-pass frequency, `-H`/`-L`
/// high-/low-pass lifter frequency, `-T` trigger time constant, `-t`
/// trigger level, `-s` search time, `-g` gap time and `-p` pre-trigger time.
pub proof fn lemma_option_tokens(effect: Seq<char>, tok: Seq<char>, v: Seq<char>, rest: Seq<Seq<char>>)
    ensures
        vad_outcome(effect, seq![tok, v] + rest) matches Ok(s) ==> s.len() > 0 && s[0].option == (
        if tok == "-b"@ {
            VadOption::BootTime
        } else if tok == "-N"@ {
            VadOption::NoiseTcUp
        } else if tok == "-n"@ {
            VadOption::NoiseTcDown
        } else if tok == "-r"@ {
            VadOption::NoiseReductionAmount
        } else if tok == "-f"@ {
            VadOption::MeasureFrequency
        } else if tok == "-m"@ {
            VadOption::MeasureDuration
        } else if tok == "-M"@ {
            VadOption::MeasureTc
        } else if tok == "-h"@ {
            VadOption::HighPassFrequency
        } else if tok == "-l"@ {
            VadOption::LowPassFrequency
        } else if tok == "-H"@ {
            VadOption::HighPassLifterFrequency
        } else if tok == "-L"@ {
            VadOption::LowPassLifterFrequency
        } else if tok == "-T"@ {
            VadOption::TriggerTime
        } else if tok == "-t"@ {
            VadOption::TriggerLevel
        } else if tok == "-s"@ {
            VadOption::SearchTime
        } else if tok == "-g"@ {
            VadOption::GapTime
        } else {
            VadOption::PreTriggerTime
        }),
{
    reveal_strlit("-b");
    reveal_strlit("-N");
    reveal_strlit("-n");
    reveal_strlit("-r");
    reveal_strlit("-f");
    reveal_strlit("-m");
    reveal_strlit("-M");
    reveal_strlit("-h");
    reveal_strlit("-l");
    reveal_strlit("-H");
    reveal_strlit("-L");
    reveal_strlit("-T");
    reveal_strlit("-t");
    reveal_strlit("-s");
    reveal_strlit("-g");
    reveal_strlit("-p");
    let args = seq![tok, v] + rest;
    assert(args[0] == tok && args[1] == v && args.len() >= 2);
    assert("-b"@[1] == 'b' && "-N"@[1] == 'N' && "-n"@[1] == 'n' && "-r"@[1] == 'r');
    assert("-f"@[1] == 'f' && "-m"@[1] == 'm' && "-M"@[1] == 'M' && "-h"@[1] == 'h');
    assert("-l"@[1] == 'l' && "-H"@[1] == 'H' && "-L"@[1] == 'L' && "-T"@[1] == 'T');
    assert("-t"@[1] == 't' && "-s"@[1] == 's' && "-g"@[1] == 'g' && "-p"@[1] == 'p');
    if vad_outcome(effect, args) is Ok {
        assert(vad_from(effect, args, 0) is Ok);
        assert(vad_option_of(tok) is Some);
        if tok != "-b"@ && tok != "-N"@ && tok != "-n"@ && tok != "-r"@ && tok != "-f"@ && tok
            != "-m"@ && tok != "-M"@ && tok != "-h"@ && tok != "-l"@ && tok != "-H"@ && tok
            != "-L"@ && tok != "-T"@ && tok != "-t"@ && tok != "-s"@ && tok != "-g"@ {
            assert(tok == "-p"@);
        }
    }
}

/// Law: the token of every option names that option.
pub proof fn lemma_vad_option_round_trip(o: VadOption)
    ensures
        vad_option_of(vad_option_token(o)) == Some(o),
{
    reveal_strlit("-b");
    reveal_strlit("-N");
    reveal_strlit("-n");
    reveal_strlit("-r");
    reveal_strlit("-f");
    reveal_strlit("-m");
    reveal_strlit("-M");
    reveal_strlit("-h");
    reveal_strlit("-l");
    reveal_strlit("-H");
    reveal_strlit("-L");
    reveal_strlit("-T");
    reveal_strlit("-t");
    reveal_strlit("-s");
    reveal_strlit("-g");
    reveal_strlit("-p");
    assert("-b"@[1] == 'b' && "-N"@[1] == 'N' && "-n"@[1] == 'n' && "-r"@[1] == 'r');
    assert("-f"@[1] == 'f' && "-m"@[1] == 'm' && "-M"@[1] == 'M' && "-h"@[1] == 'h');
    assert("-l"@[1] == 'l' && "-H"@[1] == 'H' && "-L"@[1] == 'L' && "-T"@[1] == 'T');
    assert("-t"@[1] == 't' && "-s"@[1] == 's' && "-g"@[1] == 'g' && "-p"@[1] == 'p');
}

/// Parses the value `value` of option `o`.
fn parse_vad_value(effect: &'static str, o: VadOption, value: &str) -> (r: CommandResult<
    VadSetting,
>)
    ensures
        match vad_value_outcome(effect@, o, value@) {
            Ok(s) => r matches Ok(x) && x@ == s,
            Err(e) => r matches Err(x) && x@ == e,
        },
{
    let chars = chars_of(value);
    let n = chars.len();
    let frequency = match o {
        VadOption::HighPassFrequency | VadOption::LowPassFrequency
        | VadOption::HighPassLifterFrequency | VadOption::LowPassLifterFrequency => true,
        _ => false,
    };
    let kilo = frequency && n > 0 && (chars[n - 1] == 'k' || chars[n - 1] == 'K');
    let number = if kilo {
        string_from_range(chars.as_slice(), 0, n - 1)
    } else {
        owned(value)
    };
    proof {
        if kilo {
            assert(chars@.subrange(0, n - 1) =~= chars@.drop_last());
        }
    }
    match crate::command::check_float(effect, vad_argument_name(o), number.as_str()) {
        Ok(()) => Ok(VadSetting { option: o, value: number, kilo }),
        Err(e) => Err(e),
    }
}

/// Parses `vad [-option value]...`.
#[verifier::loop_isolation(false)]
pub fn parse_vad(effect: &'static str, args: &[&str]) -> (r: CommandResult<VadArgs>)
    ensures
        match vad_outcome(effect@, args_view(args@)) {
            Ok(s) => r matches Ok(x) && settings_view(x.settings@) == s,
            Err(e) => r matches Err(x) && x@ == e,
        },
{
    let ghost av = args_view(args@);
    let ghost goal = vad_from(effect@, av, 0);
    let mut settings: Vec<VadSetting> = Vec::new();
    let mut offset: usize = 0;
    while offset < args.len()
        invariant
            offset <= args@.len(),
            match goal {
                Ok(all) => match vad_from(effect@, av, offset as int) {
                    Ok(rest) => all == settings_view(settings@) + rest,
                    Err(_) => false,
                },
                Err(e) => vad_from(effect@, av, offset as int) == Err::<
                    Seq<VadSettingView>,
                    CommandErrorView,
                >(e),
            },
        decreases args@.len() - offset,
    {
        let option = args[offset];
        if !crate::command::is_option_like(option) {
            return Err(
                EffectCommandParseError::UnexpectedArgument { effect, argument: owned(option) },
            );
        }
        if offset + 1 >= args.len() {
            return Err(EffectCommandParseError::MissingArgument { effect, argument: "option value" });
        }
        let o = match vad_option_from(option) {
            Some(o) => o,
            None => {
                return Err(
                    EffectCommandParseError::UnsupportedOption { effect, option: owned(option) },
                );
            },
        };
        let setting = match parse_vad_value(effect, o, args[offset + 1]) {
            Ok(s) => s,
            Err(e) => {
                return Err(e);
            },
        };
        let ghost before = settings@;
        settings.push(setting);
        proof {
            assert(settings_view(settings@) =~= settings_view(before).push(setting@));
            match vad_from(effect@, av, offset + 2) {
                Ok(rest) => {
                    assert(settings_view(before) + (seq![setting@] + rest) =~= settings_view(
                        settings@,
                    ) + rest);
                },
                Err(_) => {},
            }
        }
        offset = offset + 2;
    }
    proof {
        match goal {
            Ok(all) => {
                assert(all =~= settings_view(settings@));
            },
            Err(_) => {},
        }
    }
    proof {
        lemma_parsed_settings_valid(effect@, av, 0);
        assert forall|j: int| 0 <= j < settings@.len() implies is_float_literal(
            #[trigger] settings@[j].value@,
        ) by {
            assert(settings_view(settings@)[j] == settings@[j]@);
            assert(valid_setting(effect@, settings_view(settings@)[j]));
        }
    }
    match trigger_level_of(&settings) {
        Some(v) => {
            proof {
                lemma_bounds();
            }
            if !is_within(v.as_str(), "0", "1") {
                return Err(
                    EffectCommandParseError::InvalidEffectConfig {
                        effect,
                        argument: "vad",
                        source: EffectError::InvalidVad,
                    },
                );
            }
        },
        None => {},
    }
    Ok(VadArgs { settings })
}

/// The index of the last setting of option `o`, if any.
fn last_setting_index(settings: &Vec<VadSetting>, o: VadOption) -> (r: Option<usize>)
    ensures
        match last_setting(settings_view(settings@), o) {
            Some(x) => r matches Some(i) && i < settings@.len() && settings@[i as int]@ == x,
            None => r is None,
        },
{
    let ghost sv = settings_view(settings@);
    let mut i = settings.len();
    assert(sv.take(i as int) =~= sv);
    while i > 0
        invariant
            i <= settings@.len(),
            sv == settings_view(settings@),
            last_setting(sv, o) == last_setting(sv.take(i as int), o),
        decreases i,
    {
        let ghost t = sv.take(i as int);
        assert(t.last() == settings@[i - 1]@);
        assert(t.drop_last() =~= sv.take(i - 1));
        if settings[i - 1].option == o {
            return Some(i - 1);
        }
        i = i - 1;
    }
    assert(sv.take(0).len() == 0);
    None
}

/// The value of the last trigger-level setting, if any.
fn trigger_level_of(settings: &Vec<VadSetting>) -> (r: Option<String>)
    requires
        forall|j: int| 0 <= j < settings@.len() ==> is_float_literal(#[trigger] settings@[j].value@),
    ensures
        match last_trigger(settings_view(settings@)) {
            Some(v) => r matches Some(x) && x@ == v && is_float_literal(v),
            None => r is None,
        },
{
    match last_setting_index(settings, VadOption::TriggerLevel) {
        Some(i) => Some(settings[i].value.clone()),
        None => None,
    }
}

/// The tokens of one setting: its option, then its value.
pub open spec fn setting_tokens(s: VadSettingView) -> Seq<Seq<char>> {
    seq![vad_option_token(s.option), if s.kilo {
        kilo_text(s.value)
    } else {
        s.value
    }]
}

/// The tokens of settings `s[..n]`.
pub open spec fn settings_tokens(s: Seq<VadSettingView>, n: int) -> Seq<Seq<char>>
    decreases n,
{
    if n <= 0 {
        Seq::empty()
    } else {
        settings_tokens(s, n - 1) + setting_tokens(s[n - 1])
    }
}

/// The option at position `k` of the fixed rendering order `-b -N -n -r
/// -f -m -M -h -l -H -L -T -t -s -g -p`.
pub open spec fn option_at(k: int) -> VadOption {
    if k == 0 {
        VadOption::BootTime
    } else if k == 1 {
        VadOption::NoiseTcUp
    } else if k == 2 {
        VadOption::NoiseTcDown
    } else if k == 3 {
        VadOption::NoiseReductionAmount
    } else if k == 4 {
        VadOption::MeasureFrequency
    } else if k == 5 {
        VadOption::MeasureDuration
    } else if k == 6 {
        VadOption::MeasureTc
    } else if k == 7 {
        VadOption::HighPassFrequency
    } else if k == 8 {
        VadOption::LowPassFrequency
    } else if k == 9 {
        VadOption::HighPassLifterFrequency
    } else if k == 10 {
        VadOption::LowPassLifterFrequency
    } else if k == 11 {
        VadOption::TriggerTime
    } else if k == 12 {
        VadOption::TriggerLevel
    } else if k == 13 {
        VadOption::SearchTime
    } else if k == 14 {
        VadOption::GapTime
    } else {
        VadOption::PreTriggerTime
    }
}

/// The setting of an optional one, as a sequence of none or one.
pub open spec fn opt_seq(x: Option<VadSettingView>) -> Seq<VadSettingView> {
    match x {
        Some(v) => seq![v],
        None => Seq::empty(),
    }
}

/// The settings in effect for the first `k` options of the rendering order:
/// for each, its last setting, if any.
pub open spec fn canonical_upto(s: Seq<VadSettingView>, k: int) -> Seq<VadSettingView>
    decreases k,
{
    if k <= 0 {
        Seq::empty()
    } else {
        canonical_upto(s, k - 1) + opt_seq(last_setting(s, option_at(k - 1)))
    }
}

/// The settings in effect, one per option given, in the rendering order.
pub open spec fn canonical_settings(s: Seq<VadSettingView>) -> Seq<VadSettingView> {
    canonical_upto(s, 16)
}

/// The option at position `k` of the rendering order.
fn option_at_exec(k: usize) -> (r: VadOption)
    requires
        k < 16,
    ensures
        r == option_at(k as int),
{
    if k == 0 {
        VadOption::BootTime
    } else if k == 1 {
        VadOption::NoiseTcUp
    } else if k == 2 {
        VadOption::NoiseTcDown
    } else if k == 3 {
        VadOption::NoiseReductionAmount
    } else if k == 4 {
        VadOption::MeasureFrequency
    } else if k == 5 {
        VadOption::MeasureDuration
    } else if k == 6 {
        VadOption::MeasureTc
    } else if k == 7 {
        VadOption::HighPassFrequency
    } else if k == 8 {
        VadOption::LowPassFrequency
    } else if k == 9 {
        VadOption::HighPassLifterFrequency
    } else if k == 10 {
        VadOption::LowPassLifterFrequency
    } else if k == 11 {
        VadOption::TriggerTime
    } else if k == 12 {
        VadOption::TriggerLevel
    } else if k == 13 {
        VadOption::SearchTime
    } else if k == 14 {
        VadOption::GapTime
    } else {
        VadOption::PreTriggerTime
    }
}

/// Lemma: the tokens of the first `n` settings depend only on those settings.
proof fn lemma_settings_tokens_same(a: Seq<VadSettingView>, b: Seq<VadSettingView>, n: int)
    requires
        0 <= n <= a.len(),
        n <= b.len(),
        forall|j: int| 0 <= j < n ==> a[j] == b[j],
    ensures
        settings_tokens(a, n) == settings_tokens(b, n),
    decreases n,
{
    if n > 0 {
        lemma_settings_tokens_same(a, b, n - 1);
    }
}

/// Renders the `vad` tokens of `args`: the name, then the setting in effect
/// for each option given, in the fixed order `-b -N -n -r -f -m -M -h -l -H
/// -L -T -t -s -g -p`.
pub fn render_vad(args: &VadArgs) -> (r: Vec<String>)
    ensures
        strings_view(r@) == seq!["vad"@] + settings_tokens(
            canonical_settings(settings_view(args.settings@)),
            canonical_settings(settings_view(args.settings@)).len() as int,
        ),
{
    let ghost sv = settings_view(args.settings@);
    let mut tokens: Vec<String> = Vec::new();
    tokens.push(owned("vad"));
    let mut k: usize = 0;
    while k < 16
        invariant
            sv == settings_view(args.settings@),
            0 <= k <= 16,
            strings_view(tokens@) == seq!["vad"@] + settings_tokens(
                canonical_upto(sv, k as int),
                canonical_upto(sv, k as int).len() as int,
            ),
        decreases 16 - k,
    {
        let ghost before = tokens@;
        let ghost c = canonical_upto(sv, k as int);
        let o = option_at_exec(k);
        match last_setting_index(&args.settings, o) {
            Some(i) => {
                let setting = &args.settings[i];
                tokens.push(owned(render_vad_option(setting.option)));
                let value = if setting.kilo {
                    render_kilo(setting.value.as_str())
                } else {
                    setting.value.clone()
                };
                tokens.push(value);
                proof {
                    let c2 = canonical_upto(sv, k + 1);
                    assert(c2 == c + seq![setting@]);
                    lemma_settings_tokens_same(c, c2, c.len() as int);
                    assert(c2[c.len() as int] == setting@);
                    assert(strings_view(tokens@) =~= strings_view(before) + setting_tokens(
                        setting@,
                    ));
                }
            },
            None => {
                proof {
                    assert(canonical_upto(sv, k + 1) =~= c);
                }
            },
        }
        k = k + 1;
    }
    tokens
}

/// Whether a setting is one that parsing a value can give: its number text
/// is a number, and only a frequency carries the `k` suffix.
pub open spec fn valid_setting(effect: Seq<char>, s: VadSettingView) -> bool {
    &&& float_error(effect, vad_argument(s.option), s.value) is None
    &&& (s.kilo ==> is_frequency_option(s.option))
}

/// Every setting parsed from the tokens is valid.
proof fn lemma_parsed_settings_valid(effect: Seq<char>, args: Seq<Seq<char>>, off: int)
    requires
        vad_from(effect, args, off) is Ok,
    ensures
        forall|j: int|
            0 <= j < vad_from(effect, args, off)->Ok_0.len() ==> valid_setting(
                effect,
                #[trigger] vad_from(effect, args, off)->Ok_0[j],
            ),
    decreases args.len() - off,
{
    if 0 <= off && off < args.len() {
        lemma_parsed_settings_valid(effect, args, off + 2);
        let all = vad_from(effect, args, off)->Ok_0;
        let rest = vad_from(effect, args, off + 2)->Ok_0;
        assert forall|j: int| 0 <= j < all.len() implies valid_setting(effect, #[trigger] all[j]) by {
            if j > 0 {
                assert(all[j] == rest[j - 1]);
            }
        }
    }
}

/// The shape of the tokens of `s[..n]`: two per setting, the option token
/// then the value token.
proof fn lemma_settings_tokens_shape(s: Seq<VadSettingView>, n: int)
    requires
        0 <= n <= s.len(),
    ensures
        settings_tokens(s, n).len() == 2 * n,
        forall|j: int|
            #![trigger s[j]]
            0 <= j < n ==> settings_tokens(s, n)[2 * j] == setting_tokens(s[j])[0]
                && settings_tokens(s, n)[2 * j + 1] == setting_tokens(s[j])[1],
    decreases n,
{
    if n > 0 {
        lemma_settings_tokens_shape(s, n - 1);
        let t = settings_tokens(s, n);
        assert forall|j: int| #![trigger s[j]] 0 <= j < n implies t[2 * j] == setting_tokens(s[j])[0]
            && t[2 * j + 1] == setting_tokens(s[j])[1] by {
            if j < n - 1 {
                assert(t[2 * j] == settings_tokens(s, n - 1)[2 * j]);
                assert(t[2 * j + 1] == settings_tokens(s, n - 1)[2 * j + 1]);
            }
        }
    }
}

/// A setting as parsing its rendered tokens gives it back: a frequency
/// given with `k` whose value is spelled out comes back as that plain
/// number; any other setting comes back unchanged.
pub open spec fn normalized(s: VadSettingView) -> VadSettingView {
    if s.kilo && is_float_literal(s.value) && literal_finite(s.value) && kilo_window(s.value) {
        VadSettingView { option: s.option, value: kilo_text(s.value), kilo: false }
    } else {
        s
    }
}

/// The normalized settings.
pub open spec fn normalized_all(s: Seq<VadSettingView>) -> Seq<VadSettingView> {
    s.map_values(|x: VadSettingView| normalized(x))
}

/// A valid setting's tokens parse back to the normalized setting, which
/// is valid and has the same tokens.
proof fn lemma_setting_round_trip(effect: Seq<char>, s: VadSettingView)
    requires
        valid_setting(effect, s),
    ensures
        option_like(setting_tokens(s)[0]),
        vad_option_of(setting_tokens(s)[0]) == Some(s.option),
        vad_value_outcome(effect, s.option, setting_tokens(s)[1]) == Ok::<
            VadSettingView,
            CommandErrorView,
        >(normalized(s)),
        setting_tokens(normalized(s)) == setting_tokens(s),
        valid_setting(effect, normalized(s)),
        normalized(s).option == s.option,
{
    lemma_vad_option_round_trip(s.option);
    reveal_strlit("-b");
    reveal_strlit("-N");
    reveal_strlit("-n");
    reveal_strlit("-r");
    reveal_strlit("-f");
    reveal_strlit("-m");
    reveal_strlit("-M");
    reveal_strlit("-h");
    reveal_strlit("-l");
    reveal_strlit("-H");
    reveal_strlit("-L");
    reveal_strlit("-T");
    reveal_strlit("-t");
    reveal_strlit("-s");
    reveal_strlit("-g");
    reveal_strlit("-p");
    let v = setting_tokens(s)[1];
    assert(is_float_literal(s.value));
    lemma_float_literal_end(s.value);
    if s.kilo {
        if literal_finite(s.value) && kilo_window(s.value) {
            crate::decimal::lemma_significant_digits(s.value);
            crate::decimal::lemma_plain_decimal_literal(
                crate::decimal::literal_negative(s.value),
                crate::decimal::significant(s.value),
                crate::decimal::point(s.value) + 3,
            );
            assert(v == kilo_text(s.value));
            assert(v.last() != 'k' && v.last() != 'K');
        } else {
            assert(v == s.value.push('k'));
            assert(v.drop_last() =~= s.value);
        }
    }
}

/// The tokens of valid settings parse, from the tokens of setting `k` on,
/// to the normalized settings from `k` on.
proof fn lemma_settings_tokens_parse(effect: Seq<char>, s: Seq<VadSettingView>, k: int)
    requires
        0 <= k <= s.len(),
        forall|j: int| 0 <= j < s.len() ==> valid_setting(effect, #[trigger] s[j]),
    ensures
        vad_from(effect, settings_tokens(s, s.len() as int), 2 * k) == Ok::<
            Seq<VadSettingView>,
            CommandErrorView,
        >(normalized_all(s).subrange(k, s.len() as int)),
    decreases s.len() - k,
{
    let n = s.len() as int;
    let t = settings_tokens(s, n);
    let ns = normalized_all(s);
    lemma_settings_tokens_shape(s, n);
    if k == n {
        assert(ns.subrange(n, n) =~= Seq::<VadSettingView>::empty());
    } else {
        lemma_settings_tokens_parse(effect, s, k + 1);
        assert(valid_setting(effect, s[k]));
        lemma_setting_round_trip(effect, s[k]);
        assert(t[2 * k + 1] == setting_tokens(s[k])[1]);
        assert(t[2 * k] == setting_tokens(s[k])[0]);
        assert(2 * k + 2 == 2 * (k + 1));
        assert(ns[k] == normalized(s[k]));
        assert(seq![ns[k]] + ns.subrange(k + 1, n) =~= ns.subrange(k, n));
    }
}

/// Lemma: settings with the same tokens, one by one, have the same tokens.
proof fn lemma_settings_tokens_pointwise(a: Seq<VadSettingView>, b: Seq<VadSettingView>, n: int)
    requires
        0 <= n <= a.len(),
        n <= b.len(),
        forall|j: int| 0 <= j < n ==> setting_tokens(#[trigger] a[j]) == setting_tokens(b[j]),
    ensures
        settings_tokens(a, n) == settings_tokens(b, n),
    decreases n,
{
    if n > 0 {
        lemma_settings_tokens_pointwise(a, b, n - 1);
    }
}

/// Lemma: normalizing valid settings keeps the last setting of an option
/// that takes no frequency.
proof fn lemma_normalized_last(effect: Seq<char>, s: Seq<VadSettingView>, o: VadOption)
    requires
        !is_frequency_option(o),
        forall|j: int| 0 <= j < s.len() ==> valid_setting(effect, #[trigger] s[j]),
    ensures
        last_setting(normalized_all(s), o) == last_setting(s, o),
    decreases s.len(),
{
    if s.len() > 0 {
        let ns = normalized_all(s);
        assert(ns.drop_last() =~= normalized_all(s.drop_last()));
        assert(valid_setting(effect, s[s.len() - 1]));
        assert(ns.last() == normalized(s.last()));
        lemma_normalized_last(effect, s.drop_last(), o);
    }
}

/// Lemma: the last setting of `o` in `a + b` is its last one in `b`, or
/// else its last one in `a`.
proof fn lemma_last_setting_concat(a: Seq<VadSettingView>, b: Seq<VadSettingView>, o: VadOption)
    ensures
        last_setting(a + b, o) == match last_setting(b, o) {
            Some(x) => Some(x),
            None => last_setting(a, o),
        },
    decreases b.len(),
{
    if b.len() == 0 {
        assert(a + b =~= a);
    } else {
        assert((a + b).drop_last() =~= a + b.drop_last());
        lemma_last_setting_concat(a, b.drop_last(), o);
    }
}

/// Lemma: the last setting of `o` is one of the settings.
proof fn lemma_last_setting_member(s: Seq<VadSettingView>, o: VadOption)
    ensures
        last_setting(s, o) matches Some(x) ==> exists|j: int| 0 <= j < s.len() && s[j] == x,
    decreases s.len(),
{
    if s.len() > 0 && s.last().option != o {
        lemma_last_setting_member(s.drop_last(), o);
        if last_setting(s, o) is Some {
            let j = choose|j: int| 0 <= j < s.drop_last().len() && s.drop_last()[j] == last_setting(s, o)->0;
            assert(s[j] == s.drop_last()[j]);
        }
    } else if s.len() > 0 {
        assert(s[s.len() - 1] == s.last());
    }
}

/// Lemma: the settings in effect are valid settings when all settings are,
/// and the trigger level in effect among them is the one among all.
proof fn lemma_canonical_upto(effect: Seq<char>, s: Seq<VadSettingView>, k: int)
    requires
        0 <= k <= 16,
        forall|j: int| 0 <= j < s.len() ==> valid_setting(effect, #[trigger] s[j]),
    ensures
        forall|j: int|
            0 <= j < canonical_upto(s, k).len() ==> valid_setting(
                effect,
                #[trigger] canonical_upto(s, k)[j],
            ),
        last_setting(canonical_upto(s, k), VadOption::TriggerLevel) == (if k > 12 {
            last_setting(s, VadOption::TriggerLevel)
        } else {
            None
        }),
    decreases k,
{
    if k > 0 {
        lemma_canonical_upto(effect, s, k - 1);
        let c = canonical_upto(s, k - 1);
        let o = option_at(k - 1);
        let b = opt_seq(last_setting(s, o));
        lemma_last_setting_concat(c, b, VadOption::TriggerLevel);
        lemma_last_setting_member(s, o);
        assert forall|j: int| 0 <= j < canonical_upto(s, k).len() implies valid_setting(
            effect,
            #[trigger] canonical_upto(s, k)[j],
        ) by {
            if j >= c.len() {
                assert(canonical_upto(s, k)[j] == b[j - c.len()]);
            } else {
                assert(canonical_upto(s, k)[j] == c[j]);
            }
        }
        if b.len() > 0 {
            assert(b.last() == last_setting(s, o)->0);
            assert(b.drop_last().len() == 0);
        }
        lemma_last_setting_option(s, o);
        assert(option_at(k - 1) == VadOption::TriggerLevel <==> k - 1 == 12);
        if b.len() > 0 {
            if o == VadOption::TriggerLevel {
                assert(last_setting(b, VadOption::TriggerLevel) == Some(b.last()));
            } else {
                assert(last_setting(b, VadOption::TriggerLevel) == last_setting(
                    b.drop_last(),
                    VadOption::TriggerLevel,
                ));
            }
        } else {
            assert(last_setting(b, VadOption::TriggerLevel) is None);
            if o == VadOption::TriggerLevel {
                assert(last_setting(s, VadOption::TriggerLevel) is None);
            }
        }
    }
}

/// Lemma: the last setting of `o` is a setting of `o`.
proof fn lemma_last_setting_option(s: Seq<VadSettingView>, o: VadOption)
    ensures
        last_setting(s, o) matches Some(x) ==> x.option == o,
    decreases s.len(),
{
    if s.len() > 0 && s.last().option != o {
        lemma_last_setting_option(s.drop_last(), o);
    }
}

/// Law: the tokens rendered from the settings a `vad` command parsed to
/// (the setting in effect for each option, in the fixed order, with a
/// frequency given in `k` spelled out) parse back to settings that render
/// to the same tokens.
pub proof fn lemma_vad_round_trip(effect: Seq<char>, args: Seq<Seq<char>>)
    requires
        vad_outcome(effect, args) is Ok,
    ensures
        ({
            let c = canonical_settings(vad_outcome(effect, args)->Ok_0);
            let t = settings_tokens(c, c.len() as int);
            &&& vad_outcome(effect, t) == Ok::<Seq<VadSettingView>, CommandErrorView>(
                normalized_all(c),
            )
            &&& settings_tokens(normalized_all(c), c.len() as int) == t
        }),
{
    let s = vad_from(effect, args, 0)->Ok_0;
    lemma_parsed_settings_valid(effect, args, 0);
    lemma_canonical_upto(effect, s, 16);
    let c = canonical_settings(s);
    let nc = normalized_all(c);
    lemma_settings_tokens_parse(effect, c, 0);
    assert(nc.subrange(0, c.len() as int) =~= nc);
    lemma_normalized_last(effect, c, VadOption::TriggerLevel);
    assert forall|j: int| 0 <= j < c.len() implies setting_tokens(#[trigger] nc[j])
        == setting_tokens(c[j]) by {
        lemma_setting_round_trip(effect, c[j]);
    }
    lemma_settings_tokens_pointwise(nc, c, c.len() as int);
}

} // verus!
