//! Shared vocabulary of the effect command parsers: the parse error type and
//! the argument helpers every command uses.
use vstd::prelude::*;

use crate::error::{effect_error_message, EffectError};
use crate::numbers::{
    float_error_kind, integer_error_message, is_float_literal, parse_unsigned, FloatError,
    IntegerError,
};
use crate::registry::{name_error_message, EffectNameError, NameErrorView};
use crate::text::{is_digit, push_quoted, push_str_chars, quoted};

verus! {

/// Result type of the command parsers.
pub type CommandResult<T> = Result<T, EffectCommandParseError>;

/// Errors produced while parsing positional effect command tokens.
#[derive(Debug, Clone, PartialEq, Eq)]
#[non_exhaustive]
#[allow(inconsistent_fields)]
pub enum EffectCommandParseError {
    /// A required argument was missing.
    MissingArgument {
        /// Effect being parsed.
        effect: &'static str,
        /// Name of the missing argument.
        argument: &'static str,
    },
    /// An argument was not expected at this position.
    UnexpectedArgument {
        /// Effect being parsed.
        effect: &'static str,
        /// The unexpected argument text.
        argument: String,
    },
    /// An option is not supported by this effect.
    UnsupportedOption {
        /// Effect being parsed.
        effect: &'static str,
        /// The unsupported option text.
        option: String,
    },
    /// A numeric argument is not a floating-point number.
    InvalidNumber {
        /// Effect being parsed.
        effect: &'static str,
        /// Name of the argument.
        argument: &'static str,
        /// The argument text.
        value: String,
        /// Why the number did not parse.
        source: FloatError,
    },
    /// An integer argument did not parse.
    InvalidFrameCount {
        /// Effect being parsed.
        effect: &'static str,
        /// Name of the argument.
        argument: &'static str,
        /// The argument text.
        value: String,
        /// Why the integer did not parse.
        source: IntegerError,
    },
    /// The parsed arguments were rejected by the typed effect constructor.
    InvalidEffectConfig {
        /// Effect being parsed.
        effect: &'static str,
        /// Name of the rejected argument group.
        argument: &'static str,
        /// The constructor's error.
        source: EffectError,
    },
    /// Options were combined in a way the effect does not accept.
    InvalidOptionCombination {
        /// Effect being parsed.
        effect: &'static str,
        /// Description of the accepted combinations.
        options: &'static str,
    },
    /// The effect name did not resolve.
    EffectName(EffectNameError),
}

/// The mathematical content of an [`EffectCommandParseError`].
#[allow(inconsistent_fields)]
pub enum CommandErrorView {
    MissingArgument { effect: Seq<char>, argument: Seq<char> },
    UnexpectedArgument { effect: Seq<char>, argument: Seq<char> },
    UnsupportedOption { effect: Seq<char>, option: Seq<char> },
    InvalidNumber { effect: Seq<char>, argument: Seq<char>, value: Seq<char>, source: FloatError },
    InvalidFrameCount {
        effect: Seq<char>,
        argument: Seq<char>,
        value: Seq<char>,
        source: IntegerError,
    },
    InvalidEffectConfig { effect: Seq<char>, argument: Seq<char>, source: EffectError },
    InvalidOptionCombination { effect: Seq<char>, options: Seq<char> },
    EffectName(NameErrorView),
}

impl View for EffectCommandParseError {
    type V = CommandErrorView;

    open spec fn view(&self) -> CommandErrorView {
        match self {
            EffectCommandParseError::MissingArgument { effect, argument } => {
                CommandErrorView::MissingArgument { effect: effect@, argument: argument@ }
            },
            EffectCommandParseError::UnexpectedArgument { effect, argument } => {
                CommandErrorView::UnexpectedArgument { effect: effect@, argument: argument@ }
            },
            EffectCommandParseError::UnsupportedOption { effect, option } => {
                CommandErrorView::UnsupportedOption { effect: effect@, option: option@ }
            },
            EffectCommandParseError::InvalidNumber { effect, argument, value, source } => {
                CommandErrorView::InvalidNumber {
                    effect: effect@,
                    argument: argument@,
                    value: value@,
                    source: *source,
                }
            },
            EffectCommandParseError::InvalidFrameCount { effect, argument, value, source } => {
                CommandErrorView::InvalidFrameCount {
                    effect: effect@,
                    argument: argument@,
                    value: value@,
                    source: *source,
                }
            },
            EffectCommandParseError::InvalidEffectConfig { effect, argument, source } => {
                CommandErrorView::InvalidEffectConfig {
                    effect: effect@,
                    argument: argument@,
                    source: *source,
                }
            },
            EffectCommandParseError::InvalidOptionCombination { effect, options } => {
                CommandErrorView::InvalidOptionCombination { effect: effect@, options: options@ }
            },
            EffectCommandParseError::EffectName(e) => CommandErrorView::EffectName(e@),
        }
    }
}

/// Converts a name resolution error into a command parse error.
pub fn from_name_error(e: EffectNameError) -> (r: EffectCommandParseError)
    ensures
        r@ == CommandErrorView::EffectName(e@),
{
    EffectCommandParseError::EffectName(e)
}

/// The human-readable message of a command parse error.
pub open spec fn command_error_message(e: CommandErrorView) -> Seq<char> {
    match e {
        CommandErrorView::MissingArgument { effect, argument } => "effect "@ + quoted(effect)
            + " requires argument "@ + quoted(argument),
        CommandErrorView::UnexpectedArgument { effect, argument } => "effect "@ + quoted(effect)
            + " received unexpected argument "@ + quoted(argument),
        CommandErrorView::UnsupportedOption { effect, option } => "effect "@ + quoted(effect)
            + " does not support option "@ + quoted(option),
        CommandErrorView::InvalidNumber { effect, argument, value, .. } => "effect "@ + quoted(effect)
            + " argument "@ + quoted(argument) + " is not a number: "@ + quoted(value),
        CommandErrorView::InvalidFrameCount { effect, argument, value, source } => "effect "@
            + quoted(effect) + " argument "@ + quoted(argument) + " is not a valid count "@
            + quoted(value) + ": "@ + integer_error_message(source),
        CommandErrorView::InvalidEffectConfig { effect, argument, source } => "invalid "@ + quoted(
            argument,
        ) + " for effect "@ + quoted(effect) + ": "@ + effect_error_message(source),
        CommandErrorView::InvalidOptionCombination { effect, options } => "effect "@ + quoted(
            effect,
        ) + " has an invalid option combination: "@ + options,
        CommandErrorView::EffectName(e) => name_error_message(e),
    }
}

/// Appends the message of an integer parse error.
fn push_integer_error(s: &mut String, e: IntegerError)
    ensures
        final(s)@ == old(s)@ + integer_error_message(e),
{
    match e {
        IntegerError::Empty => push_str_chars(s, "cannot parse integer from empty string"),
        IntegerError::InvalidDigit => push_str_chars(s, "invalid digit found in string"),
        IntegerError::PosOverflow => push_str_chars(s, "number too large to fit in target type"),
        IntegerError::NegOverflow => push_str_chars(s, "number too small to fit in target type"),
    }
}

impl EffectCommandParseError {
    /// Renders the error as a human-readable message.
    pub fn message(&self) -> (r: String)
        ensures
            r@ == command_error_message(self@),
    {
        let mut s = String::new();
        match self {
            EffectCommandParseError::MissingArgument { effect, argument } => {
                push_str_chars(&mut s, "effect ");
                push_quoted(&mut s, effect);
                push_str_chars(&mut s, " requires argument ");
                push_quoted(&mut s, argument);
            },
            EffectCommandParseError::UnexpectedArgument { effect, argument } => {
                push_str_chars(&mut s, "effect ");
                push_quoted(&mut s, effect);
                push_str_chars(&mut s, " received unexpected argument ");
                push_quoted(&mut s, argument.as_str());
            },
            EffectCommandParseError::UnsupportedOption { effect, option } => {
                push_str_chars(&mut s, "effect ");
                push_quoted(&mut s, effect);
                push_str_chars(&mut s, " does not support option ");
                push_quoted(&mut s, option.as_str());
            },
            EffectCommandParseError::InvalidNumber { effect, argument, value, .. } => {
                push_str_chars(&mut s, "effect ");
                push_quoted(&mut s, effect);
                push_str_chars(&mut s, " argument ");
                push_quoted(&mut s, argument);
                push_str_chars(&mut s, " is not a number: ");
                push_quoted(&mut s, value.as_str());
            },
            EffectCommandParseError::InvalidFrameCount { effect, argument, value, source } => {
                push_str_chars(&mut s, "effect ");
                push_quoted(&mut s, effect);
                push_str_chars(&mut s, " argument ");
                push_quoted(&mut s, argument);
                push_str_chars(&mut s, " is not a valid count ");
                push_quoted(&mut s, value.as_str());
                push_str_chars(&mut s, ": ");
                push_integer_error(&mut s, *source);
            },
            EffectCommandParseError::InvalidEffectConfig { effect, argument, source } => {
                push_str_chars(&mut s, "invalid ");
                push_quoted(&mut s, argument);
                push_str_chars(&mut s, " for effect ");
                push_quoted(&mut s, effect);
                push_str_chars(&mut s, ": ");
                let m = source.message();
                push_str_chars(&mut s, m.as_str());
            },
            EffectCommandParseError::InvalidOptionCombination { effect, options } => {
                push_str_chars(&mut s, "effect ");
                push_quoted(&mut s, effect);
                push_str_chars(&mut s, " has an invalid option combination: ");
                push_str_chars(&mut s, options);
            },
            EffectCommandParseError::EffectName(e) => {
                let m = e.message();
                push_str_chars(&mut s, m.as_str());
            },
        }
        proof {
            assert(s@ =~= command_error_message(self@));
        }
        s
    }
}

/// The character views of a sequence of argument slices.
pub open spec fn args_view(args: Seq<&str>) -> Seq<Seq<char>> {
    args.map_values(|a: &str| a@)
}

/// Whether a token looks like a command-line option: a `-` followed by
/// something other than a digit or `.` (so `-1` and `-.5` are numbers).
pub open spec fn option_like(s: Seq<char>) -> bool {
    s.len() >= 2 && s[0] == '-' && !is_digit(s[1]) && s[1] != '.'
}

/// Whether `value` looks like a command-line option.
pub fn is_option_like(value: &str) -> (r: bool)
    ensures
        r == option_like(value@),
{
    let chars = crate::text::chars_of(value);
    chars.len() >= 2 && chars[0] == '-' && !('0' <= chars[1] && chars[1] <= '9') && chars[1]
        != '.'
}

/// The error for an argument that no position accepts: an unsupported
/// option when it looks like one, an unexpected argument otherwise.
pub open spec fn stray_argument(effect: Seq<char>, arg: Seq<char>) -> CommandErrorView {
    if option_like(arg) {
        CommandErrorView::UnsupportedOption { effect, option: arg }
    } else {
        CommandErrorView::UnexpectedArgument { effect, argument: arg }
    }
}

/// Builds the error for an argument that no position accepts.
pub fn stray_argument_error(effect: &'static str, arg: &str) -> (r: EffectCommandParseError)
    ensures
        r@ == stray_argument(effect@, arg@),
{
    if is_option_like(arg) {
        EffectCommandParseError::UnsupportedOption { effect, option: crate::text::owned(arg) }
    } else {
        EffectCommandParseError::UnexpectedArgument { effect, argument: crate::text::owned(arg) }
    }
}

/// Rejects any remaining arguments, reporting the first one.
pub fn reject_extra_arguments(effect: &'static str, args: &[&str]) -> (r: CommandResult<()>)
    ensures
        args@.len() == 0 ==> r is Ok,
        args@.len() > 0 ==> (r matches Err(e) && e@ == stray_argument(effect@, args@[0]@)),
{
    if args.len() == 0 {
        Ok(())
    } else {
        Err(stray_argument_error(effect, args[0]))
    }
}

/// Returns the first argument, or reports it as missing.
pub fn required_arg<'a>(effect: &'static str, args: &[&'a str], argument: &'static str) -> (r:
    CommandResult<&'a str>)
    ensures
        args@.len() > 0 ==> r == Ok::<&'a str, EffectCommandParseError>(args@[0]),
        args@.len() == 0 ==> (r matches Err(e) && e@ == (CommandErrorView::MissingArgument {
            effect: effect@,
            argument: argument@,
        })),
{
    if args.len() == 0 {
        Err(EffectCommandParseError::MissingArgument { effect, argument })
    } else {
        Ok(args[0])
    }
}

/// The error for a token that is not a floating-point literal, if it is
/// not one.
pub open spec fn literal_error(effect: Seq<char>, argument: Seq<char>, value: Seq<char>) -> Option<
    CommandErrorView,
> {
    if is_float_literal(value) {
        None
    } else {
        Some(
            CommandErrorView::InvalidNumber {
                effect,
                argument,
                value,
                source: float_error_kind(value),
            },
        )
    }
}

/// Checks that `value` is a floating-point literal.
pub fn check_literal(effect: &'static str, argument: &'static str, value: &str) -> (r: CommandResult<
    (),
>)
    ensures
        match literal_error(effect@, argument@, value@) {
            None => r is Ok,
            Some(e) => r matches Err(x) && x@ == e,
        },
{
    if crate::numbers::is_float_text(value) {
        Ok(())
    } else {
        Err(
            EffectCommandParseError::InvalidNumber {
                effect,
                argument,
                value: crate::text::owned(value),
                source: crate::numbers::float_error_of(value),
            },
        )
    }
}

/// The error for a numeric argument, if it is not a number: a token that
/// looks like an option is reported as an unsupported option, any other
/// token that is not a floating-point literal as an invalid number.
pub open spec fn float_error(effect: Seq<char>, argument: Seq<char>, value: Seq<char>) -> Option<
    CommandErrorView,
> {
    if option_like(value) {
        Some(CommandErrorView::UnsupportedOption { effect, option: value })
    } else {
        literal_error(effect, argument, value)
    }
}

/// Checks that a numeric argument is a number.
pub fn check_float(effect: &'static str, argument: &'static str, value: &str) -> (r: CommandResult<
    (),
>)
    ensures
        match float_error(effect@, argument@, value@) {
            None => r is Ok,
            Some(e) => r matches Err(x) && x@ == e,
        },
{
    if is_option_like(value) {
        return Err(
            EffectCommandParseError::UnsupportedOption { effect, option: crate::text::owned(value) },
        );
    }
    check_literal(effect, argument, value)
}

/// The outcome of parsing an unsigned integer argument no larger than `max`.
pub open spec fn count_outcome(
    effect: Seq<char>,
    argument: Seq<char>,
    value: Seq<char>,
    max: nat,
) -> Result<nat, CommandErrorView> {
    match parse_unsigned(value, max) {
        Ok(v) => Ok(v),
        Err(e) => Err(
            CommandErrorView::InvalidFrameCount { effect, argument, value, source: e },
        ),
    }
}

/// Parses a `u32` argument.
pub fn parse_u32_arg(effect: &'static str, argument: &'static str, value: &str) -> (r:
    CommandResult<u32>)
    ensures
        match count_outcome(effect@, argument@, value@, u32::MAX as nat) {
            Ok(v) => r == Ok::<u32, EffectCommandParseError>(v as u32),
            Err(e) => r matches Err(x) && x@ == e,
        },
{
    match crate::numbers::parse_u32_text(value) {
        Ok(v) => Ok(v),
        Err(source) => Err(
            EffectCommandParseError::InvalidFrameCount {
                effect,
                argument,
                value: crate::text::owned(value),
                source,
            },
        ),
    }
}

/// Parses a `u64` argument.
pub fn parse_u64_arg(effect: &'static str, argument: &'static str, value: &str) -> (r:
    CommandResult<u64>)
    ensures
        match count_outcome(effect@, argument@, value@, u64::MAX as nat) {
            Ok(v) => r == Ok::<u64, EffectCommandParseError>(v as u64),
            Err(e) => r matches Err(x) && x@ == e,
        },
{
    match crate::numbers::parse_u64_text(value) {
        Ok(v) => Ok(v),
        Err(source) => Err(
            EffectCommandParseError::InvalidFrameCount {
                effect,
                argument,
                value: crate::text::owned(value),
                source,
            },
        ),
    }
}


/// The argument at position `i`, if present.
pub open spec fn arg_at(args: Seq<Seq<char>>, i: int) -> Option<Seq<char>> {
    if 0 <= i < args.len() {
        Some(args[i])
    } else {
        None
    }
}

/// The float error of an optional argument.
pub open spec fn opt_float_error(effect: Seq<char>, argument: Seq<char>, value: Option<Seq<char>>) -> Option<
    CommandErrorView,
> {
    match value {
        Some(v) => float_error(effect, argument, v),
        None => None,
    }
}

/// The error for extra arguments starting at position `from`, if any.
pub open spec fn extra_error(effect: Seq<char>, args: Seq<Seq<char>>, from: int) -> Option<
    CommandErrorView,
> {
    if from < args.len() {
        Some(stray_argument(effect, args[from]))
    } else {
        None
    }
}

/// The view of an optional owned string.
pub open spec fn opt_text(o: Option<String>) -> Option<Seq<char>> {
    match o {
        Some(s) => Some(s@),
        None => None,
    }
}

/// The argument at position `i` as an owned string, if present.
pub fn owned_arg(args: &[&str], i: usize) -> (r: Option<String>)
    ensures
        opt_text(r) == arg_at(args_view(args@), i as int),
{
    if i < args.len() {
        Some(crate::text::owned(args[i]))
    } else {
        None
    }
}

/// Checks that the argument at position `i`, if present, is a number.
pub fn check_opt_float(effect: &'static str, argument: &'static str, args: &[&str], i: usize) -> (r:
    CommandResult<()>)
    ensures
        match opt_float_error(effect@, argument@, arg_at(args_view(args@), i as int)) {
            None => r is Ok,
            Some(e) => r matches Err(x) && x@ == e,
        },
{
    if i < args.len() {
        check_float(effect, argument, args[i])
    } else {
        Ok(())
    }
}

/// Rejects arguments from position `from` on, reporting the first one.
pub fn reject_extra_from(effect: &'static str, args: &[&str], from: usize) -> (r: CommandResult<()>)
    ensures
        match extra_error(effect@, args_view(args@), from as int) {
            None => r is Ok,
            Some(e) => r matches Err(x) && x@ == e,
        },
{
    if from < args.len() {
        Err(stray_argument_error(effect, args[from]))
    } else {
        Ok(())
    }
}

} // verus!
