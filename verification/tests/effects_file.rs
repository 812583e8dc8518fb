use auralis_effects::chain::parse_effect_chain;
use auralis_effects::command::EffectCommandParseError;
use auralis_effects::effects_file::{parse_effects_file_str, tokenize_line, EffectsFileParseError};

#[test]
fn parsed_effects_match_equivalent_cli_args() {
    let file_chain = parse_effects_file_str(
        "
            gain -3
            dcshift 0.125 reverse
            fade t 2
            ",
    )
    .unwrap();
    let cli_chain = parse_effect_chain(&[
        "gain", "-3", "dcshift", "0.125", "reverse", "fade", "t", "2",
    ])
    .unwrap();

    assert_eq!(file_chain, cli_chain);
}

#[test]
fn quoted_and_escaped_tokens_follow_sox_style_rules() {
    let tokens =
        tokenize_line(r#"gain "-3" dcshift '0.125' reverse\#literal # comment"#, 4).unwrap();
    let values: Vec<&str> = tokens.iter().map(|token| token.value.as_str()).collect();
    let columns: Vec<usize> = tokens.iter().map(|token| token.column).collect();

    assert_eq!(
        values,
        ["gain", "-3", "dcshift", "0.125", "reverse#literal"]
    );
    assert_eq!(columns, [1, 6, 11, 19, 27]);
}

#[test]
fn malformed_quotes_report_line_and_column() {
    let error = parse_effects_file_str("gain \"-3").unwrap_err();

    assert_eq!(
        error,
        EffectsFileParseError::UnterminatedDoubleQuote { line: 1, column: 6 }
    );
    assert_eq!(
        error.message(),
        "effects file line 1, column 6: unterminated double quote"
    );

    let error = parse_effects_file_str("gain '-3").unwrap_err();

    assert_eq!(
        error,
        EffectsFileParseError::UnterminatedSingleQuote { line: 1, column: 6 }
    );
}

#[test]
fn dangling_escape_reports_line_and_column() {
    let error = parse_effects_file_str("gain \\").unwrap_err();

    assert_eq!(
        error,
        EffectsFileParseError::DanglingEscape { line: 1, column: 6 }
    );
    assert_eq!(
        error.message(),
        "effects file line 1, column 6: dangling escape"
    );
}

#[test]
fn command_parse_failures_report_command_start_line_and_column() {
    let error = parse_effects_file_str("gain -3 trim reverse").unwrap_err();

    assert_eq!(
        error,
        EffectsFileParseError::CommandParseFailed {
            line: 1,
            column: 9,
            command: "trim".to_owned(),
            source: EffectCommandParseError::MissingArgument {
                effect: "trim",
                argument: "position",
            },
        }
    );
    assert_eq!(
        error.message(),
        "effects file line 1, column 9: command `trim` failed to parse: effect `trim` requires argument `position`"
    );
}

#[test]
fn empty_boundary_segments_report_line_and_column() {
    let error = parse_effects_file_str("gain -3\n:").unwrap_err();

    assert_eq!(
        error,
        EffectsFileParseError::EmptyBoundaryChain { line: 2, column: 1 }
    );
    assert_eq!(
        error.message(),
        "effects file line 2, column 1: chain boundary creates an empty segment"
    );

    let error = parse_effects_file_str("gain -3 :\n# comment").unwrap_err();
    assert_eq!(
        error,
        EffectsFileParseError::EmptyBoundaryChain { line: 1, column: 9 }
    );
}

#[test]
fn unsupported_boundary_controls_report_line_and_column() {
    let error = parse_effects_file_str("gain -3 : newfile").unwrap_err();

    assert_eq!(
        error,
        EffectsFileParseError::UnsupportedBoundaryControl {
            line: 1,
            column: 11,
            control: "newfile".to_owned(),
        }
    );
    assert_eq!(
        error.message(),
        "effects file line 1, column 11: unsupported boundary control `newfile`; `newfile` and `restart` semantics are not implemented"
    );

    let error = parse_effects_file_str("gain -3\nrestart").unwrap_err();
    assert_eq!(
        error,
        EffectsFileParseError::UnsupportedBoundaryControl {
            line: 2,
            column: 1,
            control: "restart".to_owned(),
        }
    );
}

#[test]
fn unsupported_effect_names_are_reported_at_file_position() {
    let error = parse_effects_file_str("gain -3\nbandreject 100 200").unwrap_err();

    assert_eq!(
        error.message(),
        "effects file line 2, column 1: command `bandreject` failed to parse: known SoX-ng effect `bandreject` is not implemented by Auralis; missing SoX-ng coverage entry for `bandreject`"
    );
}

#[test]
fn ignores_blank_lines_and_documented_comments() {
    let chain = parse_effects_file_str(
        "
            # whole-line comment

            gain 0 # inline comment

            \t# tab-indented comment
            ",
    )
    .unwrap();

    assert_eq!(chain.len(), 1);
    assert_eq!(chain.commands()[0].render_tokens(), ["gain", "0"]);
}

#[test]
fn boundary_syntax_is_preserved_across_effects_file_lines() {
    let chain = parse_effects_file_str(
        "
            gain -3 :
            dcshift 0.125 reverse
            ",
    )
    .unwrap();

    assert!(chain.has_boundaries());
    assert_eq!(chain.boundaries()[0].before_command(), 1);
    assert_eq!(
        chain.render_tokens(),
        ["gain", "-3", ":", "dcshift", "0.125", "reverse"]
    );
}

#[test]
fn comments_only_parse_to_empty_chain() {
    let chain = parse_effects_file_str(
        "
            # no effects yet

            ",
    )
    .unwrap();

    assert!(chain.is_empty());
}

#[test]
fn plain_file_tokens_are_its_whitespace_separated_words() {
    let source = "gain -3\r\n\t dcshift 0.125   reverse\n\n: vol 2\n";
    let values: Vec<String> = auralis_effects::effects_file::tokenize_source(source)
        .unwrap()
        .into_iter()
        .map(|t| t.value)
        .collect();
    let words: Vec<&str> = source.split_whitespace().collect();
    assert_eq!(values, words);
}
