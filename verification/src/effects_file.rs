//! Parser for SoX-ng-inspired effects files.
//!
//! Effects files are a text form of the positional command tokens accepted by
//! [`crate::chain::parse_effect_chain`]. Each non-empty, non-comment line may
//! contain one or more effect commands, and `:` preserves an explicit chain
//! boundary. Tokens are separated by whitespace; single and double quotes
//! group whitespace into one token; a backslash escapes the next character
//! outside single quotes; and `#` starts a comment outside quotes.
use vstd::prelude::*;

use crate::chain::{
    chain_outcome, cli_result_matches, join_spaced, join_tokens, run_chain, strings_view,
    ChainFailure, ChainOutcome, EffectChain, EffectChainParseError,
};
use crate::command::{command_error_message, CommandErrorView, EffectCommandParseError};
use crate::numbers::{first_of, first_of_exec, lemma_first_of_prefix};
use crate::registry::resolves_to;
use crate::text::{chars_of, decimal, push_decimal, push_quoted, push_str_chars, quoted};

verus! {

/// Whether `c` has the Unicode `White_Space` property, which is what
/// `char::is_whitespace` tests.
pub open spec fn is_white_space(c: char) -> bool {
    ('\u{9}' <= c && c <= '\u{d}') || c == ' ' || c == '\u{85}' || c == '\u{a0}' || c
        == '\u{1680}' || ('\u{2000}' <= c && c <= '\u{200a}') || c == '\u{2028}' || c
        == '\u{2029}' || c == '\u{202f}' || c == '\u{205f}' || c == '\u{3000}'
}

/// Whether `c` is Unicode white space.
pub fn is_white_space_char(c: char) -> (r: bool)
    ensures
        r == is_white_space(c),
{
    ('\u{9}' <= c && c <= '\u{d}') || c == ' ' || c == '\u{85}' || c == '\u{a0}' || c
        == '\u{1680}' || ('\u{2000}' <= c && c <= '\u{200a}') || c == '\u{2028}' || c
        == '\u{2029}' || c == '\u{202f}' || c == '\u{205f}' || c == '\u{3000}'
}

/// One token of an effects file, with its one-based source position.
#[derive(Debug, Clone, PartialEq, Eq)]
pub struct Token {
    /// Token text after quote removal and escape processing.
    pub value: String,
    /// One-based source line.
    pub line: usize,
    /// One-based source column (in characters) where the token starts.
    pub column: usize,
}

/// The mathematical content of a [`Token`].
pub struct TokenView {
    pub value: Seq<char>,
    pub line: nat,
    pub column: nat,
}

impl View for Token {
    type V = TokenView;

    open spec fn view(&self) -> TokenView {
        TokenView { value: self.value@, line: self.line as nat, column: self.column as nat }
    }
}

/// Errors produced while parsing effects-file text.
#[derive(Debug, Clone, PartialEq, Eq)]
#[non_exhaustive]
pub enum EffectsFileParseError {
    /// A single-quoted token reached the end of its line before closing.
    UnterminatedSingleQuote {
        /// One-based source line.
        line: usize,
        /// One-based source column of the opening quote.
        column: usize,
    },
    /// A double-quoted token reached the end of its line before closing.
    UnterminatedDoubleQuote {
        /// One-based source line.
        line: usize,
        /// One-based source column of the opening quote.
        column: usize,
    },
    /// A backslash appeared without a following character to escape.
    DanglingEscape {
        /// One-based source line.
        line: usize,
        /// One-based source column of the backslash.
        column: usize,
    },
    /// One command in the file could not be parsed.
    CommandParseFailed {
        /// One-based source line of the command's first token.
        line: usize,
        /// One-based source column of the command's first token.
        column: usize,
        /// Raw command tokens that were being parsed, joined by spaces.
        command: String,
        /// The command parser's error.
        source: EffectCommandParseError,
    },
    /// A `:` boundary would create an empty chain segment.
    EmptyBoundaryChain {
        /// One-based source line.
        line: usize,
        /// One-based source column.
        column: usize,
    },
    /// A SoX-ng boundary control token is known but not implemented yet.
    UnsupportedBoundaryControl {
        /// One-based source line.
        line: usize,
        /// One-based source column.
        column: usize,
        /// Unsupported boundary control token.
        control: String,
    },
}

/// The mathematical content of an [`EffectsFileParseError`].
pub enum FileErrorView {
    UnterminatedSingleQuote { line: nat, column: nat },
    UnterminatedDoubleQuote { line: nat, column: nat },
    DanglingEscape { line: nat, column: nat },
    CommandParseFailed { line: nat, column: nat, command: Seq<char>, source: CommandErrorView },
    EmptyBoundaryChain { line: nat, column: nat },
    UnsupportedBoundaryControl { line: nat, column: nat, control: Seq<char> },
}

impl View for EffectsFileParseError {
    type V = FileErrorView;

    open spec fn view(&self) -> FileErrorView {
        match self {
            EffectsFileParseError::UnterminatedSingleQuote { line, column } => {
                FileErrorView::UnterminatedSingleQuote { line: *line as nat, column: *column as nat }
            },
            EffectsFileParseError::UnterminatedDoubleQuote { line, column } => {
                FileErrorView::UnterminatedDoubleQuote { line: *line as nat, column: *column as nat }
            },
            EffectsFileParseError::DanglingEscape { line, column } => {
                FileErrorView::DanglingEscape { line: *line as nat, column: *column as nat }
            },
            EffectsFileParseError::CommandParseFailed { line, column, command, source } => {
                FileErrorView::CommandParseFailed {
                    line: *line as nat,
                    column: *column as nat,
                    command: command@,
                    source: source@,
                }
            },
            EffectsFileParseError::EmptyBoundaryChain { line, column } => {
                FileErrorView::EmptyBoundaryChain { line: *line as nat, column: *column as nat }
            },
            EffectsFileParseError::UnsupportedBoundaryControl { line, column, control } => {
                FileErrorView::UnsupportedBoundaryControl {
                    line: *line as nat,
                    column: *column as nat,
                    control: control@,
                }
            },
        }
    }
}

/// Quoting state while scanning one token.
pub enum ScanState {
    /// Outside quotes.
    Plain,
    /// Inside single quotes opened at this one-based column.
    Single(int),
    /// Inside double quotes opened at this one-based column.
    Double(int),
}

/// A tokenizer failure, with its one-based column.
pub enum ScanError {
    UnterminatedSingle(int),
    UnterminatedDouble(int),
    Dangling(int),
}

/// Scans one token of `chars` starting at index `i` in quoting state
/// `state`, having collected `acc` so far. Returns the token text and the
/// index just past the token.
pub open spec fn scan_token(chars: Seq<char>, i: int, state: ScanState, acc: Seq<char>) -> Result<
    (Seq<char>, int),
    ScanError,
>
    decreases chars.len() - i,
{
    if i >= chars.len() || i < 0 {
        match state {
            ScanState::Plain => Ok((acc, i)),
            ScanState::Single(o) => Err(ScanError::UnterminatedSingle(o)),
            ScanState::Double(o) => Err(ScanError::UnterminatedDouble(o)),
        }
    } else {
        let c = chars[i];
        match state {
            ScanState::Single(o) => if c == '\'' {
                scan_token(chars, i + 1, ScanState::Plain, acc)
            } else {
                scan_token(chars, i + 1, ScanState::Single(o), acc.push(c))
            },
            ScanState::Double(o) => if c == '"' {
                scan_token(chars, i + 1, ScanState::Plain, acc)
            } else if c == '\\' {
                if i + 1 >= chars.len() {
                    Err(ScanError::Dangling(i + 1))
                } else {
                    scan_token(chars, i + 2, ScanState::Double(o), acc.push(chars[i + 1]))
                }
            } else {
                scan_token(chars, i + 1, ScanState::Double(o), acc.push(c))
            },
            ScanState::Plain => if is_white_space(c) || c == '#' {
                Ok((acc, i))
            } else if c == '\'' {
                scan_token(chars, i + 1, ScanState::Single(i + 1), acc)
            } else if c == '"' {
                scan_token(chars, i + 1, ScanState::Double(i + 1), acc)
            } else if c == '\\' {
                if i + 1 >= chars.len() {
                    Err(ScanError::Dangling(i + 1))
                } else {
                    scan_token(chars, i + 2, ScanState::Plain, acc.push(chars[i + 1]))
                }
            } else {
                scan_token(chars, i + 1, ScanState::Plain, acc.push(c))
            },
        }
    }
}

/// Lemma: a successful scan from a valid index ends at a later index within
/// the line, unless it stops immediately at white space or `#`.
pub proof fn lemma_scan_advances(chars: Seq<char>, i: int, state: ScanState, acc: Seq<char>)
    requires
        0 <= i <= chars.len(),
    ensures
        scan_token(chars, i, state, acc) matches Ok((v, k)) ==> i <= k <= chars.len(),
    decreases chars.len() - i,
{
    if i < chars.len() {
        let c = chars[i];
        match state {
            ScanState::Single(o) => if c == '\'' {
                lemma_scan_advances(chars, i + 1, ScanState::Plain, acc);
            } else {
                lemma_scan_advances(chars, i + 1, ScanState::Single(o), acc.push(c));
            },
            ScanState::Double(o) => if c == '"' {
                lemma_scan_advances(chars, i + 1, ScanState::Plain, acc);
            } else if c == '\\' {
                if i + 1 < chars.len() {
                    lemma_scan_advances(chars, i + 2, ScanState::Double(o), acc.push(chars[i + 1]));
                }
            } else {
                lemma_scan_advances(chars, i + 1, ScanState::Double(o), acc.push(c));
            },
            ScanState::Plain => if is_white_space(c) || c == '#' {
            } else if c == '\'' {
                lemma_scan_advances(chars, i + 1, ScanState::Single(i + 1), acc);
            } else if c == '"' {
                lemma_scan_advances(chars, i + 1, ScanState::Double(i + 1), acc);
            } else if c == '\\' {
                if i + 1 < chars.len() {
                    lemma_scan_advances(chars, i + 2, ScanState::Plain, acc.push(chars[i + 1]));
                }
            } else {
                lemma_scan_advances(chars, i + 1, ScanState::Plain, acc.push(c));
            },
        }
    }
}

/// Lemma: scanning from a character that is not white space or `#`
/// consumes at least that character.
pub proof fn lemma_scan_consumes(chars: Seq<char>, i: int)
    requires
        0 <= i < chars.len(),
        !is_white_space(chars[i]),
        chars[i] != '#',
    ensures
        scan_token(chars, i, ScanState::Plain, Seq::empty()) matches Ok((v, k)) ==> i < k
            <= chars.len(),
{
    let c = chars[i];
    let empty = Seq::<char>::empty();
    if c == '\'' {
        lemma_scan_advances(chars, i + 1, ScanState::Single(i + 1), empty);
    } else if c == '"' {
        lemma_scan_advances(chars, i + 1, ScanState::Double(i + 1), empty);
    } else if c == '\\' {
        if i + 1 < chars.len() {
            lemma_scan_advances(chars, i + 2, ScanState::Plain, empty.push(chars[i + 1]));
        }
    } else {
        lemma_scan_advances(chars, i + 1, ScanState::Plain, empty.push(c));
    }
}

/// The first index at or after `i` that is not white space.
pub open spec fn skip_white_space(chars: Seq<char>, i: int) -> int
    decreases chars.len() - i,
{
    if 0 <= i < chars.len() && is_white_space(chars[i]) {
        skip_white_space(chars, i + 1)
    } else {
        i
    }
}

/// The tokens of one line, scanning from index `i`.
pub open spec fn line_tokens_from(chars: Seq<char>, i: int, line: nat) -> Result<
    Seq<TokenView>,
    ScanError,
>
    decreases chars.len() - i,
{
    let j = skip_white_space(chars, i);
    if j < 0 || j >= chars.len() || chars[j] == '#' {
        Ok(Seq::empty())
    } else {
        match scan_token(chars, j, ScanState::Plain, Seq::empty()) {
            Err(e) => Err(e),
            Ok((v, k)) => {
                let token = TokenView { value: v, line, column: (j + 1) as nat };
                if k <= i || k > chars.len() || (k < chars.len() && chars[k] == '#') {
                    Ok(seq![token])
                } else {
                    match line_tokens_from(chars, k, line) {
                        Err(e) => Err(e),
                        Ok(rest) => Ok(seq![token] + rest),
                    }
                }
            },
        }
    }
}

/// The file error for a tokenizer failure on line `line`.
pub open spec fn scan_error_view(e: ScanError, line: nat) -> FileErrorView {
    match e {
        ScanError::UnterminatedSingle(c) => FileErrorView::UnterminatedSingleQuote {
            line,
            column: c as nat,
        },
        ScanError::UnterminatedDouble(c) => FileErrorView::UnterminatedDoubleQuote {
            line,
            column: c as nat,
        },
        ScanError::Dangling(c) => FileErrorView::DanglingEscape { line, column: c as nat },
    }
}

/// The views of a sequence of tokens.
pub open spec fn tokens_view(tokens: Seq<Token>) -> Seq<TokenView> {
    tokens.map_values(|t: Token| t@)
}

/// Quoting state of an in-progress exec scan.
#[derive(Debug, Clone, Copy, PartialEq, Eq)]
enum Quote {
    Single { opening_column: usize },
    Double { opening_column: usize },
}

/// The scan state corresponding to an exec quoting state.
spec fn quote_state(q: Option<Quote>) -> ScanState {
    match q {
        None => ScanState::Plain,
        Some(Quote::Single { opening_column }) => ScanState::Single(opening_column as int),
        Some(Quote::Double { opening_column }) => ScanState::Double(opening_column as int),
    }
}

/// Handles one character inside double quotes; returns the next index.
fn push_double_quoted_character(
    chars: &[char],
    index: usize,
    line_number: usize,
    token: &mut String,
    quote: &mut Option<Quote>,
) -> (r: Result<usize, EffectsFileParseError>)
    requires
        index < chars@.len(),
        old(quote) matches Some(Quote::Double { .. }),
    ensures
        match r {
            Ok(next) => index < next <= chars@.len() && scan_token(
                chars@,
                index as int,
                quote_state(*old(quote)),
                old(token)@,
            ) == scan_token(chars@, next as int, quote_state(*final(quote)), final(token)@),
            Err(e) => scan_token(chars@, index as int, quote_state(*old(quote)), old(token)@)
                matches Err(se) && e@ == scan_error_view(se, line_number as nat),
        },
{
    let character = chars[index];
    if character == '"' {
        *quote = None;
        Ok(index + 1)
    } else if character == '\\' {
        let escape_index = index + 1;
        if escape_index >= chars.len() {
            return Err(
                EffectsFileParseError::DanglingEscape { line: line_number, column: index + 1 },
            );
        }
        crate::text::push_char(token, chars[escape_index]);
        Ok(escape_index + 1)
    } else {
        crate::text::push_char(token, character);
        Ok(index + 1)
    }
}

/// Rejects a token that ended inside quotes.
fn reject_unterminated_quote(quote: Option<Quote>, line_number: usize) -> (r: Result<
    (),
    EffectsFileParseError,
>)
    ensures
        match quote {
            None => r is Ok,
            Some(Quote::Single { opening_column }) => r matches Err(e) && e@
                == (FileErrorView::UnterminatedSingleQuote {
                line: line_number as nat,
                column: opening_column as nat,
            }),
            Some(Quote::Double { opening_column }) => r matches Err(e) && e@
                == (FileErrorView::UnterminatedDoubleQuote {
                line: line_number as nat,
                column: opening_column as nat,
            }),
        },
{
    match quote {
        Some(Quote::Single { opening_column }) => Err(
            EffectsFileParseError::UnterminatedSingleQuote { line: line_number, column: opening_column },
        ),
        Some(Quote::Double { opening_column }) => Err(
            EffectsFileParseError::UnterminatedDoubleQuote { line: line_number, column: opening_column },
        ),
        None => Ok(()),
    }
}

/// Scans one token starting at `start_index`, which must not be white space
/// or `#`. Returns the token and the index just past it.
fn tokenize_from(chars: &[char], start_index: usize, line_number: usize) -> (r: Result<
    (Token, usize),
    EffectsFileParseError,
>)
    requires
        start_index < chars@.len(),
    ensures
        match scan_token(chars@, start_index as int, ScanState::Plain, Seq::empty()) {
            Ok((v, k)) => r matches Ok((t, next)) && t@ == (TokenView {
                value: v,
                line: line_number as nat,
                column: (start_index + 1) as nat,
            }) && next == k,
            Err(se) => r matches Err(e) && e@ == scan_error_view(se, line_number as nat),
        },
{
    let ghost goal = scan_token(chars@, start_index as int, ScanState::Plain, Seq::empty());
    let n = chars.len();
    let column = start_index + 1;
    let mut token = String::new();
    let mut quote: Option<Quote> = None;
    let mut index = start_index;
    while index < chars.len()
        invariant_except_break
            goal == scan_token(chars@, start_index as int, ScanState::Plain, Seq::empty()),
            start_index <= index <= chars@.len(),
            goal == scan_token(chars@, index as int, quote_state(quote), token@),
        ensures
            goal == scan_token(chars@, start_index as int, ScanState::Plain, Seq::empty()),
            start_index <= index <= chars@.len(),
            goal == scan_token(chars@, index as int, quote_state(quote), token@),
            index < chars@.len() ==> quote is None && (is_white_space(chars@[index as int])
                || chars@[index as int] == '#'),
        decreases chars@.len() - index,
    {
        let character = chars[index];
        match quote {
            Some(Quote::Single { .. }) => {
                if character == '\'' {
                    quote = None;
                } else {
                    crate::text::push_char(&mut token, character);
                }
                index = index + 1;
            },
            Some(Quote::Double { .. }) => {
                match push_double_quoted_character(
                    chars,
                    index,
                    line_number,
                    &mut token,
                    &mut quote,
                ) {
                    Ok(next) => {
                        index = next;
                    },
                    Err(e) => {
                        return Err(e);
                    },
                }
            },
            None => {
                if is_white_space_char(character) || character == '#' {
                    break;
                } else if character == '\'' {
                    quote = Some(Quote::Single { opening_column: index + 1 });
                    index = index + 1;
                } else if character == '"' {
                    quote = Some(Quote::Double { opening_column: index + 1 });
                    index = index + 1;
                } else if character == '\\' {
                    if index + 1 >= chars.len() {
                        return Err(
                            EffectsFileParseError::DanglingEscape {
                                line: line_number,
                                column: index + 1,
                            },
                        );
                    }
                    crate::text::push_char(&mut token, chars[index + 1]);
                    index = index + 2;
                } else {
                    crate::text::push_char(&mut token, character);
                    index = index + 1;
                }
            },
        }
    }
    match reject_unterminated_quote(quote, line_number) {
        Ok(()) => {},
        Err(e) => {
            return Err(e);
        },
    }
    Ok((Token { value: token, line: line_number, column }, index))
}

/// Splits one line into tokens. `line_number` is one-based.
pub fn tokenize_line(line: &str, line_number: usize) -> (r: Result<Vec<Token>, EffectsFileParseError>)
    ensures
        match line_tokens_from(line@, 0, line_number as nat) {
            Ok(ts) => r matches Ok(v) && tokens_view(v@) == ts,
            Err(se) => r matches Err(e) && e@ == scan_error_view(se, line_number as nat),
        },
{
    let chars = chars_of(line);
    tokenize_chars(chars.as_slice(), line_number)
}

/// Splits the characters of one line into tokens.
fn tokenize_chars(chars: &[char], line_number: usize) -> (r: Result<Vec<Token>, EffectsFileParseError>)
    ensures
        match line_tokens_from(chars@, 0, line_number as nat) {
            Ok(ts) => r matches Ok(v) && tokens_view(v@) == ts,
            Err(se) => r matches Err(e) && e@ == scan_error_view(se, line_number as nat),
        },
{
    let ghost goal = line_tokens_from(chars@, 0, line_number as nat);
    let mut tokens: Vec<Token> = Vec::new();
    let mut index: usize = 0;
    while index < chars.len()
        invariant
            goal == line_tokens_from(chars@, 0, line_number as nat),
            0 <= index <= chars@.len(),
            match goal {
                Ok(ts) => match line_tokens_from(chars@, index as int, line_number as nat) {
                    Ok(rest) => ts == tokens_view(tokens@) + rest,
                    Err(_) => false,
                },
                Err(se) => line_tokens_from(chars@, index as int, line_number as nat) == Err::<
                    Seq<TokenView>,
                    ScanError,
                >(se),
            },
        ensures
            line_tokens_from(chars@, index as int, line_number as nat) == Ok::<
                Seq<TokenView>,
                ScanError,
            >(Seq::empty()),
        decreases chars@.len() - index,
    {
        let ghost here = index as int;
        while index < chars.len() && is_white_space_char(chars[index])
            invariant
                here <= index <= chars@.len(),
                skip_white_space(chars@, here) == skip_white_space(chars@, index as int),
            decreases chars@.len() - index,
        {
            index = index + 1;
        }
        proof {
            assert(skip_white_space(chars@, index as int) == index);
        }
        if index == chars.len() || chars[index] == '#' {
            proof {
                assert(line_tokens_from(chars@, here, line_number as nat) == Ok::<
                    Seq<TokenView>,
                    ScanError,
                >(Seq::empty()));
                assert(line_tokens_from(chars@, index as int, line_number as nat) == Ok::<
                    Seq<TokenView>,
                    ScanError,
                >(Seq::empty()));
                assert(tokens_view(tokens@) + Seq::<TokenView>::empty() =~= tokens_view(tokens@));
            }
            break;
        }
        let (token, next_index) = match tokenize_from(chars, index, line_number) {
            Ok(pair) => pair,
            Err(e) => {
                return Err(e);
            },
        };
        proof {
            lemma_scan_consumes(chars@, index as int);
        }
        let ghost before = tokens@;
        tokens.push(token);
        proof {
            assert(tokens_view(tokens@) =~= tokens_view(before).push(token@));
        }
        if next_index < chars.len() && chars[next_index] == '#' {
            proof {
                assert(tokens_view(tokens@) + Seq::<TokenView>::empty() =~= tokens_view(tokens@));
                assert(tokens_view(before) + seq![token@] =~= tokens_view(tokens@));
            }
            index = chars.len();
            proof {
                assert(line_tokens_from(chars@, index as int, line_number as nat) == Ok::<
                    Seq<TokenView>,
                    ScanError,
                >(Seq::empty()));
            }
        } else {
            proof {
                match line_tokens_from(chars@, next_index as int, line_number as nat) {
                    Ok(rest) => {
                        assert(tokens_view(before) + (seq![token@] + rest) =~= tokens_view(tokens@)
                            + rest);
                    },
                    Err(_) => {},
                }
            }
            index = next_index;
        }
    }
    proof {
        assert(tokens_view(tokens@) + Seq::<TokenView>::empty() =~= tokens_view(tokens@));
    }
    Ok(tokens)
}


/// The tokens of `s`, whose first line is line number `line`. Lines end at
/// `\n`; a `\r` just before a `\n` is not part of the line.
pub open spec fn source_tokens(s: Seq<char>, line: nat) -> Result<Seq<TokenView>, FileErrorView>
    decreases s.len(),
{
    if s.len() == 0 {
        Ok(Seq::empty())
    } else {
        let n = first_of(s, '\n', '\n');
        let raw = s.take(n);
        let text = if n < s.len() && raw.len() > 0 && raw.last() == '\r' {
            raw.drop_last()
        } else {
            raw
        };
        match line_tokens_from(text, 0, line) {
            Err(se) => Err(scan_error_view(se, line)),
            Ok(ts) => if n >= s.len() || n < 0 {
                Ok(ts)
            } else {
                match source_tokens(s.skip(n + 1), line + 1) {
                    Err(e) => Err(e),
                    Ok(rest) => Ok(ts + rest),
                }
            },
        }
    }
}

/// The values of a sequence of token views.
pub open spec fn token_values(ts: Seq<TokenView>) -> Seq<Seq<char>> {
    ts.map_values(|t: TokenView| t.value)
}

/// Splits the whole source into tokens, line by line.
pub fn tokenize_source(source: &str) -> (r: Result<Vec<Token>, EffectsFileParseError>)
    ensures
        match source_tokens(source@, 1) {
            Ok(ts) => r matches Ok(v) && tokens_view(v@) == ts,
            Err(fe) => r matches Err(e) && e@ == fe,
        },
{
    let chars = chars_of(source);
    let ghost goal = source_tokens(chars@, 1);
    let mut tokens: Vec<Token> = Vec::new();
    let mut start: usize = 0;
    let mut line_index: usize = 0;
    proof {
        assert(chars@.skip(0) =~= chars@);
    }
    while start < chars.len()
        invariant
            goal == source_tokens(chars@, 1),
            chars@ == source@,
            0 <= start <= chars@.len(),
            line_index <= start,
            match goal {
                Ok(ts) => match source_tokens(chars@.skip(start as int), (line_index + 1) as nat) {
                    Ok(rest) => ts == tokens_view(tokens@) + rest,
                    Err(_) => false,
                },
                Err(fe) => source_tokens(chars@.skip(start as int), (line_index + 1) as nat) == Err::<
                    Seq<TokenView>,
                    FileErrorView,
                >(fe),
            },
        decreases chars@.len() - start,
    {
        let ghost s = chars@.skip(start as int);
        let line_number = line_index + 1;
        let n = first_of_exec(chars.as_slice(), start, '\n', '\n');
        proof {
            lemma_first_of_prefix(s, '\n', '\n', 0);
        }
        let mut stop = n;
        if n < chars.len() && n > start && chars[n - 1] == '\r' {
            stop = n - 1;
        }
        let mut text: Vec<char> = Vec::new();
        let mut k = start;
        while k < stop
            invariant
                start <= k <= stop <= chars@.len(),
                text@ == chars@.subrange(start as int, k as int),
            decreases stop - k,
        {
            text.push(chars[k]);
            proof {
                assert(chars@.subrange(start as int, k + 1) =~= chars@.subrange(
                    start as int,
                    k as int,
                ).push(chars@[k as int]));
            }
            k = k + 1;
        }
        proof {
            let raw = s.take(n - start);
            assert(raw =~= chars@.subrange(start as int, n as int));
            if n < chars@.len() && raw.len() > 0 && raw.last() == '\r' {
                assert(raw.drop_last() =~= text@);
            } else {
                assert(raw =~= text@);
            }
        }
        let line_tokens = match tokenize_chars(text.as_slice(), line_number) {
            Ok(v) => v,
            Err(e) => {
                return Err(e);
            },
        };
        let ghost before = tokens@;
        let mut t: usize = 0;
        while t < line_tokens.len()
            invariant
                0 <= t <= line_tokens@.len(),
                tokens_view(tokens@) == tokens_view(before) + tokens_view(line_tokens@).take(
                    t as int,
                ),
            decreases line_tokens@.len() - t,
        {
            let ghost prev = tokens@;
            let token = Token {
                value: line_tokens[t].value.clone(),
                line: line_tokens[t].line,
                column: line_tokens[t].column,
            };
            tokens.push(token);
            proof {
                assert(tokens_view(tokens@) =~= tokens_view(prev).push(line_tokens@[t as int]@));
                assert(tokens_view(line_tokens@).take(t + 1) =~= tokens_view(line_tokens@).take(
                    t as int,
                ).push(line_tokens@[t as int]@));
                assert(tokens_view(before) + tokens_view(line_tokens@).take(t + 1) =~= (tokens_view(
                    before,
                ) + tokens_view(line_tokens@).take(t as int)).push(line_tokens@[t as int]@));
            }
            t = t + 1;
        }
        proof {
            assert(tokens_view(line_tokens@).take(t as int) =~= tokens_view(line_tokens@));
        }
        if n >= chars.len() {
            proof {
                assert(chars@.skip(chars@.len() as int).len() == 0);
            }
            start = chars.len();
            proof {
                assert(tokens_view(tokens@) + Seq::<TokenView>::empty() =~= tokens_view(tokens@));
            }
        } else {
            proof {
                assert(s.skip(n - start + 1) =~= chars@.skip(n + 1));
                match source_tokens(chars@.skip(n + 1), (line_number + 1) as nat) {
                    Ok(rest) => {
                        assert(tokens_view(before) + (tokens_view(line_tokens@) + rest) =~= tokens_view(
                            tokens@,
                        ) + rest);
                    },
                    Err(_) => {},
                }
            }
            start = n + 1;
            line_index = line_index + 1;
        }
    }
    proof {
        assert(chars@.skip(start as int).len() == 0);
        assert(tokens_view(tokens@) + Seq::<TokenView>::empty() =~= tokens_view(tokens@));
    }
    Ok(tokens)
}

/// `r` is the result of parsing a file whose token stream is `ts`.
pub open spec fn file_result_matches(
    ts: Seq<TokenView>,
    r: Result<EffectChain, EffectsFileParseError>,
) -> bool {
    let values = token_values(ts);
    match chain_outcome(values) {
        ChainOutcome::Done(c) => r matches Ok(ch) && ch@ == c,
        ChainOutcome::EmptyBoundary(i) => r matches Err(e) && e@
            == (FileErrorView::EmptyBoundaryChain { line: ts[i].line, column: ts[i].column }),
        ChainOutcome::UnsupportedControl(i) => r matches Err(e) && e@
            == (FileErrorView::UnsupportedBoundaryControl {
            line: ts[i].line,
            column: ts[i].column,
            control: ts[i].value,
        }),
        ChainOutcome::BadName(i) => r matches Err(
            EffectsFileParseError::CommandParseFailed { line, column, command, source },
        ) && line == ts[i].line && column == ts[i].column && command@ == ts[i].value && (
        source matches EffectCommandParseError::EffectName(n) && resolves_to(ts[i].value, Err(n))),
        ChainOutcome::BadArgs(i, j, ev) => r matches Err(e) && e@
            == (FileErrorView::CommandParseFailed {
            line: ts[i].line,
            column: ts[i].column,
            command: join_spaced(values.subrange(i, j)),
            source: ev,
        }),
    }
}

/// Parses a token stream read from an effects file.
fn parse_file_commands(tokens: &[Token]) -> (r: Result<EffectChain, EffectsFileParseError>)
    ensures
        file_result_matches(tokens_view(tokens@), r),
{
    let ghost ts = tokens_view(tokens@);
    let mut values: Vec<String> = Vec::new();
    let mut k: usize = 0;
    while k < tokens.len()
        invariant
            0 <= k <= tokens@.len(),
            ts == tokens_view(tokens@),
            strings_view(values@) == token_values(ts).take(k as int),
        decreases tokens@.len() - k,
    {
        let ghost before = values@;
        values.push(tokens[k].value.clone());
        proof {
            assert(strings_view(values@) =~= strings_view(before).push(tokens@[k as int].value@));
            assert(token_values(ts).take(k + 1) =~= token_values(ts).take(k as int).push(
                ts[k as int].value,
            ));
        }
        k = k + 1;
    }
    proof {
        assert(token_values(ts).take(k as int) =~= token_values(ts));
    }
    match run_chain(values.as_slice()) {
        Ok(chain) => Ok(chain),
        Err(ChainFailure::EmptyBoundary { index }) => {
            proof {
                assert(ts[index as int] == tokens@[index as int]@);
            }
            Err(
                EffectsFileParseError::EmptyBoundaryChain {
                    line: tokens[index].line,
                    column: tokens[index].column,
                },
            )
        },
        Err(ChainFailure::UnsupportedControl { index }) => {
            proof {
                assert(ts[index as int] == tokens@[index as int]@);
            }
            Err(
                EffectsFileParseError::UnsupportedBoundaryControl {
                    line: tokens[index].line,
                    column: tokens[index].column,
                    control: tokens[index].value.clone(),
                },
            )
        },
        Err(ChainFailure::Command { start, end, source }) => {
            let command = join_tokens(values.as_slice(), start, end);
            proof {
                assert(ts[start as int] == tokens@[start as int]@);
                if end == start + 1 {
                    let one = strings_view(values@).subrange(start as int, end as int);
                    assert(one =~= seq![values@[start as int]@]);
                    assert(join_spaced(one) == one[0]);
                    assert(token_values(ts)[start as int] == ts[start as int].value);
                }
            }
            Err(
                EffectsFileParseError::CommandParseFailed {
                    line: tokens[start].line,
                    column: tokens[start].column,
                    command,
                    source,
                },
            )
        },
    }
}

/// Parses an effects file from a string.
///
/// Each non-empty, non-comment line may contain one or more positional
/// effect commands, and `:` separates explicit chain segments. The file
/// yields the same chain as the flat command-line token stream of its
/// tokens. Errors carry one-based line and column positions.
pub fn parse_effects_file_str(source: &str) -> (r: Result<EffectChain, EffectsFileParseError>)
    ensures
        match source_tokens(source@, 1) {
            Err(fe) => r matches Err(e) && e@ == fe,
            Ok(ts) => file_result_matches(ts, r),
        },
{
    let tokens = match tokenize_source(source) {
        Ok(t) => t,
        Err(e) => {
            return Err(e);
        },
    };
    parse_file_commands(tokens.as_slice())
}

/// Law: a file without tokens (only blank lines and comments) parses to
/// the empty chain.
pub proof fn lemma_blank_file_is_empty_chain(
    ts: Seq<TokenView>,
    file: Result<EffectChain, EffectsFileParseError>,
)
    requires
        ts.len() == 0,
        file_result_matches(ts, file),
    ensures
        file matches Ok(c) && c@.commands.len() == 0 && c@.boundaries.len() == 0,
{
    assert(token_values(ts) =~= Seq::<Seq<char>>::empty());
}

/// Law: an effects file parses to the same chain as the flat command-line
/// token stream made of its token values, and when it fails, it fails at
/// the same token for the same reason, reported at that token's line and
/// column.
#[verifier::spinoff_prover]
pub proof fn lemma_file_chain_matches_cli(
    ts: Seq<TokenView>,
    file: Result<EffectChain, EffectsFileParseError>,
    cli: Result<EffectChain, EffectChainParseError>,
)
    requires
        file_result_matches(ts, file),
        cli_result_matches(token_values(ts), cli),
    ensures
        file is Ok <==> cli is Ok,
        file is Ok ==> file->Ok_0@ == cli->Ok_0@,
        cli matches Err(EffectChainParseError::EmptyBoundaryChain { index }) ==> file matches Err(
            e,
        ) && e@ == (FileErrorView::EmptyBoundaryChain {
            line: ts[index as int].line,
            column: ts[index as int].column,
        }),
        cli matches Err(EffectChainParseError::UnsupportedBoundaryControl { index, control })
            ==> file matches Err(e) && e@ == (FileErrorView::UnsupportedBoundaryControl {
            line: ts[index as int].line,
            column: ts[index as int].column,
            control: control@,
        }),
        cli matches Err(EffectChainParseError::CommandParseFailed { index, command, source })
            ==> file matches Err(
            EffectsFileParseError::CommandParseFailed { line, column, command: c, source: s },
        ) && line == ts[index as int].line && column == ts[index as int].column && c@ == command@
            && s@ == source@,
{
    let values = token_values(ts);
    crate::chain::lemma_chain_outcome_indices(values);
    match chain_outcome(values) {
        ChainOutcome::BadName(i) => {
            assert(values[i] == ts[i].value);
            match (file, cli) {
                (
                    Err(EffectsFileParseError::CommandParseFailed { source: s, .. }),
                    Err(EffectChainParseError::CommandParseFailed { source, .. }),
                ) => {
                    match (s, source) {
                        (EffectCommandParseError::EffectName(n1), EffectCommandParseError::EffectName(n2)) => {
                            crate::registry::lemma_name_error_unique(values[i], n1, n2);
                        },
                        _ => {},
                    }
                },
                _ => {},
            }
        },
        ChainOutcome::UnsupportedControl(i) => {
            assert(values[i] == ts[i].value);
        },
        _ => {},
    }
}

/// The `"effects file line L, column C: "` prefix of file error messages.
pub open spec fn position_prefix(line: nat, column: nat) -> Seq<char> {
    "effects file line "@ + decimal(line) + ", column "@ + decimal(column) + ": "@
}

/// The human-readable message of an effects-file error.
pub open spec fn file_error_message(e: FileErrorView) -> Seq<char> {
    match e {
        FileErrorView::UnterminatedSingleQuote { line, column } => position_prefix(line, column)
            + "unterminated single quote"@,
        FileErrorView::UnterminatedDoubleQuote { line, column } => position_prefix(line, column)
            + "unterminated double quote"@,
        FileErrorView::DanglingEscape { line, column } => position_prefix(line, column)
            + "dangling escape"@,
        FileErrorView::CommandParseFailed { line, column, command, source } => position_prefix(
            line,
            column,
        ) + "command "@ + quoted(command) + " failed to parse: "@ + command_error_message(source),
        FileErrorView::EmptyBoundaryChain { line, column } => position_prefix(line, column)
            + "chain boundary creates an empty segment"@,
        FileErrorView::UnsupportedBoundaryControl { line, column, control } => position_prefix(
            line,
            column,
        ) + "unsupported boundary control "@ + quoted(control)
            + "; `newfile` and `restart` semantics are not implemented"@,
    }
}

/// Appends the position prefix of a file error message.
fn push_position(s: &mut String, line: usize, column: usize)
    ensures
        final(s)@ == old(s)@ + position_prefix(line as nat, column as nat),
{
    let ghost start = s@;
    push_str_chars(s, "effects file line ");
    push_decimal(s, line as u64);
    push_str_chars(s, ", column ");
    push_decimal(s, column as u64);
    push_str_chars(s, ": ");
    proof {
        assert(s@ =~= start + position_prefix(line as nat, column as nat));
    }
}

impl EffectsFileParseError {
    /// Renders the error as a human-readable message.
    pub fn message(&self) -> (r: String)
        ensures
            r@ == file_error_message(self@),
    {
        let mut s = String::new();
        match self {
            EffectsFileParseError::UnterminatedSingleQuote { line, column } => {
                push_position(&mut s, *line, *column);
                push_str_chars(&mut s, "unterminated single quote");
            },
            EffectsFileParseError::UnterminatedDoubleQuote { line, column } => {
                push_position(&mut s, *line, *column);
                push_str_chars(&mut s, "unterminated double quote");
            },
            EffectsFileParseError::DanglingEscape { line, column } => {
                push_position(&mut s, *line, *column);
                push_str_chars(&mut s, "dangling escape");
            },
            EffectsFileParseError::CommandParseFailed { line, column, command, source } => {
                push_position(&mut s, *line, *column);
                push_str_chars(&mut s, "command ");
                push_quoted(&mut s, command.as_str());
                push_str_chars(&mut s, " failed to parse: ");
                let m = source.message();
                push_str_chars(&mut s, m.as_str());
            },
            EffectsFileParseError::EmptyBoundaryChain { line, column } => {
                push_position(&mut s, *line, *column);
                push_str_chars(&mut s, "chain boundary creates an empty segment");
            },
            EffectsFileParseError::UnsupportedBoundaryControl { line, column, control } => {
                push_position(&mut s, *line, *column);
                push_str_chars(&mut s, "unsupported boundary control ");
                push_quoted(&mut s, control.as_str());
                push_str_chars(&mut s, "; `newfile` and `restart` semantics are not implemented");
            },
        }
        proof {
            assert(s@ =~= file_error_message(self@));
        }
        s
    }
}


/// `t` with a backslash before every character.
pub open spec fn escape_all(t: Seq<char>) -> Seq<char>
    decreases t.len(),
{
    if t.len() == 0 {
        Seq::empty()
    } else {
        seq!['\\', t[0]] + escape_all(t.drop_first())
    }
}

/// `t` with a backslash before every `"` and `\\`: its text inside double
/// quotes.
pub open spec fn escape_quoted(t: Seq<char>) -> Seq<char>
    decreases t.len(),
{
    if t.len() == 0 {
        Seq::empty()
    } else if t[0] == '"' || t[0] == '\\' {
        seq!['\\', t[0]] + escape_quoted(t.drop_first())
    } else {
        seq![t[0]] + escape_quoted(t.drop_first())
    }
}

/// Lemma: scanning escaped text inside double quotes collects the text,
/// and the closing quote ends the quoting.
proof fn lemma_scan_escaped(
    chars: Seq<char>,
    i: int,
    o: int,
    acc: Seq<char>,
    t: Seq<char>,
    all: bool,
)
    requires
        0 <= i,
        ({
            let e = if all {
                escape_all(t)
            } else {
                escape_quoted(t)
            };
            &&& i + e.len() < chars.len()
            &&& chars.subrange(i, i + e.len()) == e
            &&& chars[i + e.len()] == '"'
        }),
    ensures
        ({
            let e = if all {
                escape_all(t)
            } else {
                escape_quoted(t)
            };
            scan_token(chars, i, ScanState::Double(o), acc) == scan_token(
                chars,
                i + e.len() + 1,
                ScanState::Plain,
                acc + t,
            )
        }),
    decreases t.len(),
{
    let e = if all {
        escape_all(t)
    } else {
        escape_quoted(t)
    };
    if t.len() == 0 {
        assert(acc + t =~= acc);
    } else {
        let rest = t.drop_first();
        let er = if all {
            escape_all(rest)
        } else {
            escape_quoted(rest)
        };
        let escaped = all || t[0] == '"' || t[0] == '\\';
        let w: int = if escaped {
            2
        } else {
            1
        };
        assert(e.len() == w + er.len());
        assert(chars[i] == e[0]) by {
            assert(chars.subrange(i, i + e.len())[0] == chars[i]);
        }
        if escaped {
            assert(e[0] == '\\' && e[1] == t[0]);
            assert(chars[i + 1] == e[1]) by {
                assert(chars.subrange(i, i + e.len())[1] == chars[i + 1]);
            }
        } else {
            assert(e[0] == t[0]);
        }
        assert(chars.subrange(i + w, i + w + er.len()) =~= er) by {
            assert forall|x: int| 0 <= x < er.len() implies chars.subrange(i + w, i + w + er.len())[x]
                == er[x] by {
                assert(chars.subrange(i, i + e.len())[w + x] == chars[i + w + x]);
                assert(e[w + x] == er[x]);
            }
        }
        assert(acc.push(t[0]) + rest =~= acc + t);
        lemma_scan_escaped(chars, i + w, o, acc.push(t[0]), rest, all);
    }
}

/// Lemma: the line holding just a double-quoted text has that text as its
/// one token.
proof fn lemma_quoted_line(e: Seq<char>, t: Seq<char>, all: bool, line: nat)
    requires
        e == (if all {
            escape_all(t)
        } else {
            escape_quoted(t)
        }),
    ensures
        line_tokens_from(seq!['"'] + e + seq!['"'], 0, line) == Ok::<Seq<TokenView>, ScanError>(
            seq![TokenView { value: t, line, column: 1 }],
        ),
{
    let chars = seq!['"'] + e + seq!['"'];
    let n = chars.len() as int;
    assert(chars[0] == '"');
    assert(!is_white_space('"'));
    assert(skip_white_space(chars, 0) == 0);
    assert(chars.subrange(1, 1 + e.len() as int) =~= e);
    assert(chars[1 + e.len() as int] == '"');
    lemma_scan_escaped(chars, 1, 1, Seq::empty(), t, all);
    assert(Seq::<char>::empty() + t =~= t);
    assert(scan_token(chars, 0, ScanState::Plain, Seq::empty()) == scan_token(
        chars,
        1,
        ScanState::Double(1),
        Seq::empty(),
    ));
    assert(scan_token(chars, n, ScanState::Plain, t) == Ok::<(Seq<char>, int), ScanError>((t, n)));
    assert(skip_white_space(chars, n) == n);
    assert(line_tokens_from(chars, n, line) == Ok::<Seq<TokenView>, ScanError>(Seq::empty()));
    assert(seq![TokenView { value: t, line, column: 1 }] + Seq::<TokenView>::empty() =~= seq![
        TokenView { value: t, line, column: 1 },
    ]);
}

/// Law: inside double quotes a backslash escapes the next character, which
/// stands for itself, and the backslash is dropped. For any text `t`, the
/// line `"t"` written with a backslash before every character, or before
/// each `"` and backslash only, has exactly one token, whose value is `t`.
pub proof fn lemma_double_quoted_escapes(t: Seq<char>, line: nat)
    ensures
        line_tokens_from(seq!['"'] + escape_all(t) + seq!['"'], 0, line) == Ok::<
            Seq<TokenView>,
            ScanError,
        >(seq![TokenView { value: t, line, column: 1 }]),
        line_tokens_from(seq!['"'] + escape_quoted(t) + seq!['"'], 0, line) == Ok::<
            Seq<TokenView>,
            ScanError,
        >(seq![TokenView { value: t, line, column: 1 }]),
{
    lemma_quoted_line(escape_all(t), t, true, line);
    lemma_quoted_line(escape_quoted(t), t, false, line);
}

/// Lemma: scanning escaped text outside quotes up to the end of the line
/// collects the text.
proof fn lemma_scan_escaped_plain(chars: Seq<char>, i: int, acc: Seq<char>, t: Seq<char>)
    requires
        0 <= i,
        i + escape_all(t).len() == chars.len(),
        chars.subrange(i, chars.len() as int) == escape_all(t),
    ensures
        scan_token(chars, i, ScanState::Plain, acc) == Ok::<(Seq<char>, int), ScanError>(
            (acc + t, chars.len() as int),
        ),
    decreases t.len(),
{
    let e = escape_all(t);
    if t.len() == 0 {
        assert(acc + t =~= acc);
    } else {
        let rest = t.drop_first();
        assert(e.len() == 2 + escape_all(rest).len());
        assert(chars[i] == '\\') by {
            assert(chars.subrange(i, chars.len() as int)[0] == chars[i]);
        }
        assert(chars[i + 1] == t[0]) by {
            assert(chars.subrange(i, chars.len() as int)[1] == chars[i + 1]);
        }
        assert(chars.subrange(i + 2, chars.len() as int) =~= escape_all(rest)) by {
            assert forall|x: int| 0 <= x < escape_all(rest).len() implies chars.subrange(
                i + 2,
                chars.len() as int,
            )[x] == escape_all(rest)[x] by {
                assert(chars.subrange(i, chars.len() as int)[2 + x] == chars[i + 2 + x]);
            }
        }
        assert(acc.push(t[0]) + rest =~= acc + t);
        lemma_scan_escaped_plain(chars, i + 2, acc.push(t[0]), rest);
    }
}

/// Lemma: scanning text without `'` inside single quotes collects it as is,
/// and the closing quote ends the quoting.
proof fn lemma_scan_single(chars: Seq<char>, i: int, o: int, acc: Seq<char>, t: Seq<char>)
    requires
        0 <= i,
        i + t.len() < chars.len(),
        chars.subrange(i, i + t.len()) == t,
        chars[i + t.len()] == '\'',
        !t.contains('\''),
    ensures
        scan_token(chars, i, ScanState::Single(o), acc) == scan_token(
            chars,
            i + t.len() + 1,
            ScanState::Plain,
            acc + t,
        ),
    decreases t.len(),
{
    if t.len() == 0 {
        assert(acc + t =~= acc);
    } else {
        let rest = t.drop_first();
        assert(chars[i] == t[0]) by {
            assert(chars.subrange(i, i + t.len())[0] == chars[i]);
        }
        assert(t[0] != '\'') by {
            if t[0] == '\'' {
                assert(t.contains('\''));
            }
        }
        assert(chars.subrange(i + 1, i + 1 + rest.len()) =~= rest) by {
            assert forall|x: int| 0 <= x < rest.len() implies chars.subrange(i + 1, i + 1 + rest.len())[x]
                == rest[x] by {
                assert(chars.subrange(i, i + t.len())[1 + x] == chars[i + 1 + x]);
            }
        }
        assert(!rest.contains('\'')) by {
            if rest.contains('\'') {
                let x = choose|x: int| 0 <= x < rest.len() && rest[x] == '\'';
                assert(t[x + 1] == rest[x]);
            }
        }
        assert(acc.push(t[0]) + rest =~= acc + t);
        lemma_scan_single(chars, i + 1, o, acc.push(t[0]), rest);
    }
}

/// Law: outside quotes a backslash escapes the next character too, and
/// inside single quotes nothing is escaped. For any non-empty text `t`,
/// the line that is `t` with a backslash before every character has the
/// one token `t`; for any text `t` without `'`, the line `'t'` has the one
/// token `t`, backslashes and all.
pub proof fn lemma_plain_escapes_and_single_quotes(t: Seq<char>, line: nat)
    ensures
        t.len() > 0 ==> line_tokens_from(escape_all(t), 0, line) == Ok::<Seq<TokenView>, ScanError>(
            seq![TokenView { value: t, line, column: 1 }],
        ),
        !t.contains('\'') ==> line_tokens_from(seq!['\''] + t + seq!['\''], 0, line) == Ok::<
            Seq<TokenView>,
            ScanError,
        >(seq![TokenView { value: t, line, column: 1 }]),
{
    let token = TokenView { value: t, line, column: 1 };
    assert(seq![token] + Seq::<TokenView>::empty() =~= seq![token]);
    assert(Seq::<char>::empty() + t =~= t);
    if t.len() > 0 {
        let chars = escape_all(t);
        let n = chars.len() as int;
        assert(chars[0] == '\\');
        assert(!is_white_space('\\'));
        assert(skip_white_space(chars, 0) == 0);
        assert(chars.subrange(0, n) =~= chars);
        lemma_scan_escaped_plain(chars, 0, Seq::empty(), t);
        assert(skip_white_space(chars, n) == n);
        assert(line_tokens_from(chars, n, line) == Ok::<Seq<TokenView>, ScanError>(Seq::empty()));
    }
    if !t.contains('\'') {
        let chars = seq!['\''] + t + seq!['\''];
        let n = chars.len() as int;
        assert(chars[0] == '\'');
        assert(!is_white_space('\''));
        assert(skip_white_space(chars, 0) == 0);
        assert(chars.subrange(1, 1 + t.len() as int) =~= t);
        assert(chars[1 + t.len() as int] == '\'');
        lemma_scan_single(chars, 1, 1, Seq::empty(), t);
        assert(scan_token(chars, n, ScanState::Plain, t) == Ok::<(Seq<char>, int), ScanError>(
            (t, n),
        ));
        assert(skip_white_space(chars, n) == n);
        assert(line_tokens_from(chars, n, line) == Ok::<Seq<TokenView>, ScanError>(Seq::empty()));
    }
}

/// The index just past the word that starts at `j`: the first white space
/// at or after `j`, or the end.
pub open spec fn word_end(s: Seq<char>, j: int) -> int
    decreases s.len() - j,
{
    if 0 <= j < s.len() && !is_white_space(s[j]) {
        word_end(s, j + 1)
    } else {
        j
    }
}

/// The white-space-separated words of `s` from index `i` on.
pub open spec fn words_from(s: Seq<char>, i: int) -> Seq<Seq<char>>
    decreases s.len() - i,
{
    let j = skip_white_space(s, i);
    if j < i || j >= s.len() {
        Seq::empty()
    } else {
        let k = word_end(s, j);
        if k <= j || k > s.len() {
            Seq::empty()
        } else {
            seq![s.subrange(j, k)] + words_from(s, k)
        }
    }
}

/// Whether `s` holds no quote, backslash or `#`: text that has no
/// quoting, escaping or comments.
pub open spec fn plain_text(s: Seq<char>) -> bool {
    forall|i: int| 0 <= i < s.len() ==> #[trigger] s[i] != '\'' && s[i] != '"' && s[i] != '\\'
        && s[i] != '#'
}

/// Lemma: skipping white space stays within the text and moves forward.
proof fn lemma_skip_bounds(s: Seq<char>, i: int)
    requires
        0 <= i <= s.len(),
    ensures
        i <= skip_white_space(s, i) <= s.len(),
        skip_white_space(s, i) < s.len() ==> !is_white_space(s[skip_white_space(s, i)]),
        forall|x: int| i <= x < skip_white_space(s, i) ==> is_white_space(#[trigger] s[x]),
    decreases s.len() - i,
{
    if i < s.len() && is_white_space(s[i]) {
        lemma_skip_bounds(s, i + 1);
    }
}

/// Lemma: a word ends within the text, after non-white-space characters.
proof fn lemma_word_end_bounds(s: Seq<char>, j: int)
    requires
        0 <= j <= s.len(),
    ensures
        j <= word_end(s, j) <= s.len(),
        word_end(s, j) < s.len() ==> is_white_space(s[word_end(s, j)]),
        forall|x: int| j <= x < word_end(s, j) ==> !is_white_space(#[trigger] s[x]),
    decreases s.len() - j,
{
    if j < s.len() && !is_white_space(s[j]) {
        lemma_word_end_bounds(s, j + 1);
    }
}

/// Lemma: skipping white space in a prefix that ends at white space finds
/// the same index as in the whole text, when that index is inside it.
proof fn lemma_skip_prefix(s: Seq<char>, i: int, m: int)
    requires
        0 <= i <= m <= s.len(),
    ensures
        skip_white_space(s, i) < m ==> skip_white_space(s.take(m), i) == skip_white_space(s, i),
        skip_white_space(s, i) >= m ==> skip_white_space(s.take(m), i) == m,
    decreases s.len() - i,
{
    let t = s.take(m);
    assert(t.len() == m);
    lemma_skip_bounds(s, i);
    if i < m {
        assert(t[i] == s[i]);
        if is_white_space(s[i]) {
            lemma_skip_prefix(s, i + 1, m);
            assert(skip_white_space(t, i) == skip_white_space(t, i + 1));
            assert(skip_white_space(s, i) == skip_white_space(s, i + 1));
        } else {
            assert(skip_white_space(t, i) == i);
            assert(skip_white_space(s, i) == i);
        }
    } else {
        assert(skip_white_space(t, i) == i);
    }
}

/// Lemma: a word that ends inside a prefix ends at the same index there.
proof fn lemma_word_end_prefix(s: Seq<char>, j: int, m: int)
    requires
        0 <= j <= m <= s.len(),
        word_end(s, j) <= m,
    ensures
        word_end(s.take(m), j) == word_end(s, j),
    decreases s.len() - j,
{
    let t = s.take(m);
    assert(t.len() == m);
    if j < m {
        assert(t[j] == s[j]);
        if !is_white_space(s[j]) {
            lemma_word_end_prefix(s, j + 1, m);
            assert(word_end(t, j) == word_end(t, j + 1));
            assert(word_end(s, j) == word_end(s, j + 1));
        } else {
            assert(word_end(t, j) == j);
        }
    } else {
        assert(word_end(t, j) == j);
        assert(word_end(s, j) >= j) by {
            lemma_word_end_bounds(s, j);
        }
    }
}

/// Lemma: the words from `i` split at a white-space character `m` into the
/// words before it and the words after it.
proof fn lemma_words_split(s: Seq<char>, i: int, m: int)
    requires
        0 <= i <= m < s.len(),
        is_white_space(s[m]),
    ensures
        words_from(s, i) == words_from(s.take(m), i) + words_from(s, m + 1),
    decreases m - i,
{
    let j = skip_white_space(s, i);
    lemma_skip_bounds(s, i);
    lemma_skip_prefix(s, i, m);
    let t = s.take(m);
    if j > m {
        lemma_skip_bounds(s, m + 1);
        lemma_skip_eq(s, i, m + 1);
        assert(words_from(t, i) =~= Seq::<Seq<char>>::empty());
        assert(words_from(s, i) == words_from(s, m + 1));
    } else {
        assert(j < m);
        lemma_word_end_bounds(s, j);
        let k = word_end(s, j);
        assert(k <= m) by {
            if k > m {
                assert(!is_white_space(s[m]));
            }
        }
        lemma_word_end_prefix(s, j, m);
        assert(t.subrange(j, k) =~= s.subrange(j, k));
        if k == m {
            lemma_skip_bounds(t, m);
            assert(words_from(t, k) =~= Seq::<Seq<char>>::empty());
            lemma_skip_eq(s, m, m + 1);
            assert(words_from(s, k) == words_from(s, m + 1));
        } else {
            lemma_words_split(s, k, m);
        }
        assert(words_from(s, i) == seq![s.subrange(j, k)] + words_from(s, k));
        assert(words_from(t, i) == seq![s.subrange(j, k)] + words_from(t, k));
        assert(seq![s.subrange(j, k)] + words_from(t, k) + words_from(s, m + 1) =~= seq![
            s.subrange(j, k),
        ] + (words_from(t, k) + words_from(s, m + 1)));
    }
}

/// Lemma: when the text from `a` up to `b` is white space, skipping from
/// `a` and from `b` ends at the same index.
proof fn lemma_skip_eq(s: Seq<char>, a: int, b: int)
    requires
        0 <= a <= b <= s.len(),
        forall|x: int| a <= x < b ==> is_white_space(#[trigger] s[x]),
    ensures
        skip_white_space(s, a) == skip_white_space(s, b),
    decreases b - a,
{
    if a < b {
        lemma_skip_eq(s, a + 1, b);
    }
}

/// Lemma: the words from `d + i` are the words of the text after `d` from
/// `i` on.
proof fn lemma_words_shift(s: Seq<char>, d: int, i: int)
    requires
        0 <= d <= s.len(),
        0 <= i <= s.len() - d,
    ensures
        words_from(s, d + i) == words_from(s.skip(d), i),
    decreases s.len() - d - i,
{
    let u = s.skip(d);
    lemma_skip_shift(s, d, i);
    let j = skip_white_space(u, i);
    lemma_skip_bounds(u, i);
    if j < u.len() {
        lemma_word_end_shift(s, d, j);
        let k = word_end(u, j);
        lemma_word_end_bounds(u, j);
        assert(s.subrange(d + j, d + k) =~= u.subrange(j, k));
        if k > j {
            lemma_words_shift(s, d, k);
        }
    }
}

/// Lemma: skipping white space commutes with dropping a prefix.
proof fn lemma_skip_shift(s: Seq<char>, d: int, i: int)
    requires
        0 <= d <= s.len(),
        0 <= i <= s.len() - d,
    ensures
        skip_white_space(s, d + i) == d + skip_white_space(s.skip(d), i),
    decreases s.len() - d - i,
{
    if i < s.len() - d && is_white_space(s[d + i]) {
        lemma_skip_shift(s, d, i + 1);
    }
}

/// Lemma: a word's end commutes with dropping a prefix.
proof fn lemma_word_end_shift(s: Seq<char>, d: int, j: int)
    requires
        0 <= d <= s.len(),
        0 <= j <= s.len() - d,
    ensures
        word_end(s, d + j) == d + word_end(s.skip(d), j),
    decreases s.len() - d - j,
{
    if j < s.len() - d && !is_white_space(s[d + j]) {
        lemma_word_end_shift(s, d, j + 1);
    }
}

/// Lemma: scanning plain text outside quotes collects the word.
proof fn lemma_scan_plain(t: Seq<char>, i: int, acc: Seq<char>)
    requires
        0 <= i <= t.len(),
        plain_text(t),
    ensures
        scan_token(t, i, ScanState::Plain, acc) == Ok::<(Seq<char>, int), ScanError>(
            (acc + t.subrange(i, word_end(t, i)), word_end(t, i)),
        ),
    decreases t.len() - i,
{
    if i < t.len() && !is_white_space(t[i]) {
        assert(t[i] != '#' && t[i] != '\'' && t[i] != '"' && t[i] != '\\');
        lemma_scan_plain(t, i + 1, acc.push(t[i]));
        lemma_word_end_bounds(t, i + 1);
        assert(acc.push(t[i]) + t.subrange(i + 1, word_end(t, i + 1)) =~= acc + t.subrange(
            i,
            word_end(t, i),
        ));
    } else {
        assert(acc + t.subrange(i, i) =~= acc);
    }
}

/// Lemma: the tokens of a plain line are its words.
proof fn lemma_plain_line(t: Seq<char>, i: int, line: nat)
    requires
        0 <= i <= t.len(),
        plain_text(t),
    ensures
        line_tokens_from(t, i, line) is Ok,
        token_values(line_tokens_from(t, i, line)->Ok_0) == words_from(t, i),
    decreases t.len() - i,
{
    let j = skip_white_space(t, i);
    lemma_skip_bounds(t, i);
    if j < t.len() {
        assert(t[j] != '#');
        lemma_scan_plain(t, j, Seq::empty());
        lemma_word_end_bounds(t, j);
        let k = word_end(t, j);
        assert(k > j) by {
            assert(word_end(t, j) == word_end(t, j + 1));
            lemma_word_end_bounds(t, j + 1);
        }
        assert(Seq::<char>::empty() + t.subrange(j, k) =~= t.subrange(j, k));
        if k < t.len() {
            assert(t[k] != '#');
        }
        if k < t.len() {
            lemma_plain_line(t, k, line);
            let rest = line_tokens_from(t, k, line)->Ok_0;
            let token = TokenView { value: t.subrange(j, k), line, column: (j + 1) as nat };
            assert(token_values(seq![token] + rest) =~= seq![t.subrange(j, k)] + token_values(rest));
        } else {
            lemma_skip_bounds(t, k);
            let token = TokenView { value: t.subrange(j, k), line, column: (j + 1) as nat };
            assert(token_values(seq![token]) =~= seq![t.subrange(j, k)]);
            assert(words_from(t, k) =~= Seq::<Seq<char>>::empty());
            assert(seq![t.subrange(j, k)] + words_from(t, k) =~= seq![t.subrange(j, k)]);
        }
    } else {
        assert(token_values(Seq::<TokenView>::empty()) =~= Seq::<Seq<char>>::empty());
    }
}

/// Law: in text without quotes, backslashes or `#`, the token values of an
/// effects file are its white-space-separated words; line breaks only
/// separate tokens, so the file parses as the flat command-line tokens of
/// those words do (see [`lemma_file_chain_matches_cli`]).
pub proof fn lemma_plain_file_tokens(s: Seq<char>, line: nat)
    requires
        plain_text(s),
    ensures
        source_tokens(s, line) is Ok,
        token_values(source_tokens(s, line)->Ok_0) == words_from(s, 0),
    decreases s.len(),
{
    if s.len() == 0 {
        assert(token_values(Seq::<TokenView>::empty()) =~= Seq::<Seq<char>>::empty());
    } else {
        let n = first_of(s, '\n', '\n');
        crate::numbers::lemma_first_of_hit(s, '\n', '\n');
        let raw = s.take(n);
        let text = if n < s.len() && raw.len() > 0 && raw.last() == '\r' {
            raw.drop_last()
        } else {
            raw
        };
        assert(plain_text(raw)) by {
            assert forall|x: int| 0 <= x < raw.len() implies #[trigger] raw[x] != '\'' && raw[x]
                != '"' && raw[x] != '\\' && raw[x] != '#' by {
                assert(raw[x] == s[x]);
            }
        }
        assert(plain_text(text)) by {
            assert forall|x: int| 0 <= x < text.len() implies #[trigger] text[x] != '\'' && text[x]
                != '"' && text[x] != '\\' && text[x] != '#' by {
                assert(text[x] == raw[x]);
            }
        }
        lemma_plain_line(text, 0, line);
        let ts = line_tokens_from(text, 0, line)->Ok_0;
        if text.len() < raw.len() {
            assert(is_white_space(raw[raw.len() - 1]));
            lemma_words_split(raw, 0, raw.len() - 1);
            assert(raw.take(raw.len() - 1) =~= text);
            lemma_skip_bounds(raw, raw.len() as int);
            assert(words_from(raw, raw.len() as int) =~= Seq::<Seq<char>>::empty());
            assert(words_from(raw, 0) =~= words_from(text, 0));
        }
        if n >= s.len() {
            assert(raw =~= s);
        } else {
            assert(s[n] == '\n');
            let rest_s = s.skip(n + 1);
            assert(plain_text(rest_s)) by {
                assert forall|x: int| 0 <= x < rest_s.len() implies #[trigger] rest_s[x] != '\''
                    && rest_s[x] != '"' && rest_s[x] != '\\' && rest_s[x] != '#' by {
                    assert(rest_s[x] == s[n + 1 + x]);
                }
            }
            lemma_plain_file_tokens(rest_s, line + 1);
            let rest = source_tokens(rest_s, line + 1)->Ok_0;
            lemma_words_split(s, 0, n);
            lemma_words_shift(s, n + 1, 0);
            assert(token_values(ts + rest) =~= token_values(ts) + token_values(rest));
        }
    }
}

} // verus!
