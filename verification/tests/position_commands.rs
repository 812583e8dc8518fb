use auralis_effects::command::EffectCommandParseError;
use auralis_effects::command_silence::{
    parse_silence, SilenceArgs, SilenceDurationText, SilenceThresholdText,
};
use auralis_effects::command_splice::{
    parse_splice, render_point, render_splice, SpliceAmount, SpliceArgs, SpliceFade, SplicePoint,
};
use auralis_effects::command_trim::{
    expand_range_arg, parse_trim, render_trim, render_trim_position, TrimPosition,
};
use auralis_effects::error::EffectError;
use auralis_effects::numbers::{FloatError, IntegerError};

#[test]
fn trim_parses_anchors_and_units() {
    assert_eq!(
        parse_trim("trim", &["10", "=20s", "+5f", "-3", "-0"]).unwrap(),
        vec![
            TrimPosition::Absolute(10),
            TrimPosition::Absolute(20),
            TrimPosition::Relative(5),
            TrimPosition::BeforeEnd(3),
            TrimPosition::End,
        ]
    );
    assert_eq!(
        parse_trim("trim", &["5", "7"]).unwrap(),
        vec![TrimPosition::Absolute(5), TrimPosition::Relative(7)]
    );
}

#[test]
fn trim_expands_a_single_range() {
    assert_eq!(
        expand_range_arg("10..20"),
        Some(vec!["10".to_owned(), "=20".to_owned()])
    );
    assert_eq!(
        expand_range_arg(".."),
        Some(vec!["0".to_owned(), "-0".to_owned()])
    );
    assert_eq!(expand_range_arg("10"), None);
    assert_eq!(
        parse_trim("trim", &["100.."]).unwrap(),
        vec![TrimPosition::Absolute(100), TrimPosition::End]
    );
    assert_eq!(
        parse_trim("trim", &["..8"]).unwrap(),
        vec![TrimPosition::Absolute(0), TrimPosition::Absolute(8)]
    );
}

#[test]
fn trim_reports_missing_and_invalid_positions() {
    assert_eq!(
        parse_trim("trim", &[]).unwrap_err(),
        EffectCommandParseError::MissingArgument {
            effect: "trim",
            argument: "position",
        }
    );
    assert_eq!(
        parse_trim("trim", &["1", "x"]).unwrap_err(),
        EffectCommandParseError::InvalidFrameCount {
            effect: "trim",
            argument: "position",
            value: "x".to_owned(),
            source: IntegerError::InvalidDigit,
        }
    );
    assert_eq!(
        parse_trim("trim", &["="]).unwrap_err(),
        EffectCommandParseError::InvalidFrameCount {
            effect: "trim",
            argument: "position",
            value: "=".to_owned(),
            source: IntegerError::Empty,
        }
    );
}

#[test]
fn trim_renders_canonical_positions() {
    let positions = parse_trim("trim", &["+10", "=20s", "5", "-3", "-0"]).unwrap();
    let tokens = render_trim(&positions);
    assert_eq!(tokens, ["trim", "10", "=20", "5", "-3", "-0"]);
    let args: Vec<&str> = tokens[1..].iter().map(String::as_str).collect();
    assert_eq!(parse_trim("trim", &args).unwrap(), positions);
    assert_eq!(render_trim_position(1, TrimPosition::Absolute(4)), "=4");
}

fn frames(n: u64) -> SpliceAmount {
    SpliceAmount::Frames(n)
}

#[test]
fn parses_default_and_explicit_splice_points() {
    assert_eq!(
        parse_splice("splice", &["1s"]).unwrap(),
        SpliceArgs {
            fade: SpliceFade::HalfSine,
            points: vec![SplicePoint {
                position: frames(1),
                excess: None,
                leeway: None,
            }],
        }
    );
    assert_eq!(
        parse_splice("splice", &["-t", "=48s,4s,0s", "96s,2s"]).unwrap(),
        SpliceArgs {
            fade: SpliceFade::Triangular,
            points: vec![
                SplicePoint {
                    position: frames(48),
                    excess: Some(frames(4)),
                    leeway: Some(frames(0)),
                },
                SplicePoint {
                    position: frames(96),
                    excess: Some(frames(2)),
                    leeway: None,
                },
            ],
        }
    );
}

#[test]
fn renders_canonical_tokens() {
    assert_eq!(
        render_splice(&parse_splice("splice", &["-q", "1s,4s,0s"]).unwrap()),
        ["splice", "-q", "1s,4s,0s"]
    );
    let parsed = parse_splice("splice", &["=48s,4s"]).unwrap();
    assert_eq!(render_point(&parsed.points[0]), "48s,4s");
}

#[test]
fn rejects_missing_invalid_options_and_malformed_points() {
    assert_eq!(
        parse_splice("splice", &[]).unwrap_err(),
        EffectCommandParseError::MissingArgument {
            effect: "splice",
            argument: "position[,excess[,leeway]]"
        }
    );
    assert_eq!(
        parse_splice("splice", &["-x", "1s"]).unwrap_err(),
        EffectCommandParseError::UnsupportedOption {
            effect: "splice",
            option: "-x".to_owned()
        }
    );
    assert_eq!(
        parse_splice("splice", &["1s,"]).unwrap_err(),
        EffectCommandParseError::InvalidEffectConfig {
            effect: "splice",
            argument: "splice",
            source: EffectError::InvalidSplice
        }
    );
}

#[test]
fn splice_times_use_seconds_and_colon_forms() {
    let parsed = parse_splice("splice", &["1:30.5t,0.01"]).unwrap();
    assert_eq!(
        parsed.points[0].position,
        SpliceAmount::Seconds("1:30.5".to_owned())
    );
    assert_eq!(
        parsed.points[0].excess,
        Some(SpliceAmount::Seconds("0.01".to_owned()))
    );
    assert_eq!(
        parse_splice("splice", &["1:2:3:4"]).unwrap_err(),
        EffectCommandParseError::InvalidEffectConfig {
            effect: "splice",
            argument: "splice",
            source: EffectError::InvalidSplice
        }
    );
    assert_eq!(
        parse_splice("splice", &["1:x"]).unwrap_err(),
        EffectCommandParseError::InvalidNumber {
            effect: "splice",
            argument: "position",
            value: "x".to_owned(),
            source: FloatError::Invalid,
        }
    );
    assert_eq!(
        parse_splice("splice", &["1,2,3,4"]).unwrap_err(),
        EffectCommandParseError::InvalidEffectConfig {
            effect: "splice",
            argument: "splice",
            source: EffectError::InvalidSplice
        }
    );
    assert!(parse_splice("splice", &["abcs"]).is_err());
}

#[test]
fn parses_copy_through_and_start_stop_forms() {
    assert_eq!(
        parse_silence("silence", &["0"]).unwrap(),
        SilenceArgs {
            leave_silence: false,
            above_periods: 0,
            above: None,
            below: None,
        }
    );
    assert_eq!(
        parse_silence("silence", &["-l", "1", "2s", "0%", "-1", "0.5", "-40d"]).unwrap(),
        SilenceArgs {
            leave_silence: true,
            above_periods: 1,
            above: Some((
                SilenceDurationText::Frames("2".to_owned()),
                SilenceThresholdText::Percent("0".to_owned()),
            )),
            below: Some((
                -1,
                SilenceDurationText::Seconds("0.5".to_owned()),
                SilenceThresholdText::Decibels("-40".to_owned()),
            )),
        }
    );
}

#[test]
fn rejects_invalid_forms() {
    assert_eq!(
        parse_silence("silence", &["1", "1s", "101%"]).unwrap_err(),
        EffectCommandParseError::InvalidEffectConfig {
            effect: "silence",
            argument: "silence",
            source: EffectError::InvalidSilence,
        }
    );
    assert!(matches!(
        parse_silence("silence", &[]).unwrap_err(),
        EffectCommandParseError::MissingArgument {
            argument: "above-periods",
            ..
        }
    ));
    assert_eq!(
        parse_silence("silence", &["-l", "0"]).unwrap_err(),
        EffectCommandParseError::InvalidEffectConfig {
            effect: "silence",
            argument: "silence",
            source: EffectError::InvalidSilence,
        }
    );
}

#[test]
fn silence_reports_structure_errors_in_token_order() {
    assert_eq!(
        parse_silence("silence", &["1", "2s"]).unwrap_err(),
        EffectCommandParseError::MissingArgument {
            effect: "silence",
            argument: "duration threshold",
        }
    );
    assert_eq!(
        parse_silence("silence", &["0", "1", "2s"]).unwrap_err(),
        EffectCommandParseError::MissingArgument {
            effect: "silence",
            argument: "below-periods duration threshold",
        }
    );
    assert_eq!(
        parse_silence("silence", &["0", "0", "2s", "1%"]).unwrap_err(),
        EffectCommandParseError::InvalidEffectConfig {
            effect: "silence",
            argument: "silence",
            source: EffectError::InvalidSilence,
        }
    );
    assert_eq!(
        parse_silence("silence", &["0", "1", "2s", "1%", "x"]).unwrap_err(),
        EffectCommandParseError::UnexpectedArgument {
            effect: "silence",
            argument: "x".to_owned(),
        }
    );
    assert_eq!(
        parse_silence("silence", &["1", "1:2:3:4", "1%"]).unwrap_err(),
        EffectCommandParseError::InvalidEffectConfig {
            effect: "silence",
            argument: "silence",
            source: EffectError::InvalidSilence,
        }
    );
    assert_eq!(
        parse_silence("silence", &["1", "1:x", "1%"]).unwrap_err(),
        EffectCommandParseError::InvalidNumber {
            effect: "silence",
            argument: "duration",
            value: "1:x".to_owned(),
            source: FloatError::Invalid,
        }
    );
    assert_eq!(
        parse_silence("silence", &["1", "2s", "loud"]).unwrap_err(),
        EffectCommandParseError::InvalidNumber {
            effect: "silence",
            argument: "threshold",
            value: "loud".to_owned(),
            source: FloatError::Invalid,
        }
    );
    assert_eq!(
        parse_silence("silence", &["x"]).unwrap_err(),
        EffectCommandParseError::InvalidFrameCount {
            effect: "silence",
            argument: "above-periods",
            value: "x".to_owned(),
            source: IntegerError::InvalidDigit,
        }
    );
}

#[test]
fn silence_thresholds_are_read_as_plain_numbers() {
    assert_eq!(
        parse_silence("silence", &["1", "2s", "-x"]).unwrap_err(),
        EffectCommandParseError::InvalidNumber {
            effect: "silence",
            argument: "threshold",
            value: "-x".to_owned(),
            source: FloatError::Invalid,
        }
    );
    assert_eq!(
        parse_silence("silence", &["1", "2s", "d"]).unwrap_err(),
        EffectCommandParseError::InvalidNumber {
            effect: "silence",
            argument: "threshold",
            value: "d".to_owned(),
            source: FloatError::Empty,
        }
    );
}

#[test]
fn splice_rendered_tokens_parse_back_to_the_same_points() {
    let parsed = parse_splice("splice", &["-q", "=1:30.5t,0.01", "44100s,100s,0.2"]).unwrap();
    let rendered = render_splice(&parsed);
    assert_eq!(rendered, ["splice", "-q", "1:30.5,0.01", "44100s,100s,0.2"]);
    let tokens: Vec<&str> = rendered.iter().map(String::as_str).collect();
    assert_eq!(parse_splice("splice", &tokens[1..]).unwrap(), parsed);

    let half_sine = parse_splice("splice", &["-h", "2.5"]).unwrap();
    let rendered = render_splice(&half_sine);
    assert_eq!(rendered, ["splice", "2.5"]);
    let tokens: Vec<&str> = rendered.iter().map(String::as_str).collect();
    assert_eq!(parse_splice("splice", &tokens[1..]).unwrap(), half_sine);
}

#[test]
fn silence_values_are_range_checked_by_exact_value() {
    assert!(parse_silence("silence", &["1", "1s", "100%"]).is_ok());
    assert!(parse_silence("silence", &["1", "0.5", "-40d"]).is_ok());
    let invalid = EffectCommandParseError::InvalidEffectConfig {
        effect: "silence",
        argument: "silence",
        source: EffectError::InvalidSilence,
    };
    assert_eq!(parse_silence("silence", &["1", "1s", "100.0001%"]).unwrap_err(), invalid);
    assert_eq!(parse_silence("silence", &["1", "1s", "0d"]).unwrap_err(), invalid);
    assert_eq!(parse_silence("silence", &["1", "-1.5", "1%"]).unwrap_err(), invalid);
    assert_eq!(parse_silence("silence", &["1", "-5s", "1%"]).unwrap_err(), invalid);
}
