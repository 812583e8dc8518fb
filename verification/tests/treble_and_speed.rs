use auralis_effects::chain::EffectCommand;
use auralis_effects::command::EffectCommandParseError;
use auralis_effects::command_treble::{parse_treble, render_treble, TrebleArgs, WidthUnit};
use auralis_effects::commands::{parse_speed, render_speed};
use auralis_effects::error::EffectError;

fn rendered(args: &[&str]) -> Vec<String> {
    render_treble(&parse_treble("treble", args).unwrap())
}

#[test]
fn parses_required_gain_and_optional_defaults() {
    assert_eq!(
        parse_treble("treble", &["+6"]).unwrap(),
        TrebleArgs {
            gain: "+6".to_owned(),
            frequency: None,
            frequency_kilo: false,
            width: None,
        }
    );
    assert_eq!(rendered(&["+6"]), ["treble", "6", "3000", "0.5s"]);
    assert_eq!(rendered(&["-3", "3500"]), ["treble", "-3", "3500", "0.5s"]);
    assert_eq!(rendered(&["6", "3k", "0.707q"]), ["treble", "6", "3000", "0.707q"]);
    assert_eq!(rendered(&["6", "3000", "1o"]), ["treble", "6", "3000", "1o"]);
    assert_eq!(
        parse_treble("treble", &["6", "3000", "0.5s"]).unwrap(),
        TrebleArgs {
            gain: "6".to_owned(),
            frequency: Some("3000".to_owned()),
            frequency_kilo: false,
            width: Some(("0.5".to_owned(), WidthUnit::Slope)),
        }
    );
}

#[test]
fn rejects_bad_command_shapes_and_designs() {
    assert_eq!(
        parse_treble("treble", &[]).unwrap_err(),
        EffectCommandParseError::MissingArgument {
            effect: "treble",
            argument: "gain",
        }
    );
    assert_eq!(
        parse_treble("treble", &["-b", "24"]).unwrap_err(),
        EffectCommandParseError::UnsupportedOption {
            effect: "treble",
            option: "-b".to_owned(),
        }
    );
    assert_eq!(
        parse_treble("treble", &["6", "3000", "2s"]).unwrap_err(),
        EffectCommandParseError::InvalidEffectConfig {
            effect: "treble",
            argument: "filter-design",
            source: EffectError::InvalidBiquadDesign,
        }
    );
    assert_eq!(
        parse_treble("treble", &["6", "3000", "1x"]).unwrap_err(),
        EffectCommandParseError::InvalidEffectConfig {
            effect: "treble",
            argument: "width",
            source: EffectError::InvalidBiquadDesign,
        }
    );
    assert_eq!(
        parse_treble("treble", &["6", "0"]).unwrap_err(),
        EffectCommandParseError::InvalidEffectConfig {
            effect: "treble",
            argument: "filter-design",
            source: EffectError::InvalidBiquadDesign,
        }
    );
    assert_eq!(
        parse_treble("treble", &["6", "3000", "0.5s", "extra"]).unwrap_err(),
        EffectCommandParseError::UnexpectedArgument {
            effect: "treble",
            argument: "extra".to_owned(),
        }
    );
}

#[test]
fn treble_rules_apply_through_the_command_parser() {
    assert!(EffectCommand::parse("treble", &["+6"]).is_ok());
    assert_eq!(
        EffectCommand::parse("treble", &["6", "0"]).unwrap_err(),
        EffectCommandParseError::InvalidEffectConfig {
            effect: "treble",
            argument: "filter-design",
            source: EffectError::InvalidBiquadDesign,
        }
    );
    assert_eq!(
        EffectCommand::parse("treble", &["6", "3000", "0.5s", "extra"]).unwrap_err(),
        EffectCommandParseError::UnexpectedArgument {
            effect: "treble",
            argument: "extra".to_owned(),
        }
    );
}

#[test]
fn treble_renders_kilohertz_and_widths_as_plain_numbers() {
    assert_eq!(rendered(&["1.50", "2.5k", "2.0q"]), ["treble", "1.5", "2500", "2q"]);
    assert_eq!(rendered(&["0", "1e3", "1s"]), ["treble", "0", "1000", "1s"]);
    assert_eq!(
        parse_treble("treble", &["6", "3000", "-1q"]).unwrap_err(),
        EffectCommandParseError::InvalidEffectConfig {
            effect: "treble",
            argument: "filter-design",
            source: EffectError::InvalidBiquadDesign,
        }
    );
}

#[test]
fn renders_as_canonical_ratio() {
    let speed = parse_speed("speed", &["1.5"]).unwrap();
    assert_eq!(render_speed(&speed), ["speed", "1.5"]);
    let cents = parse_speed("speed", &["100c"]).unwrap();
    assert_eq!(render_speed(&cents), ["speed", "100c"]);
}

#[test]
fn treble_rendered_tokens_parse_back_to_the_same_rendering() {
    for args in [
        &["+6"][..],
        &["-3.50", "3.5k", "0.7070q"][..],
        &["6", "2e3", "1.0o"][..],
        &["0", "100", "1s"][..],
    ] {
        let first = rendered(args);
        let again: Vec<&str> = first[1..].iter().map(|s| s.as_str()).collect();
        let reparsed = parse_treble("treble", &again).unwrap();
        assert_eq!(render_treble(&reparsed), first);
    }
    let reparsed = parse_treble("treble", &["-3.5", "3500", "0.707q"]).unwrap();
    assert_eq!(reparsed.frequency, Some("3500".to_owned()));
    assert!(!reparsed.frequency_kilo);
}

#[test]
fn speed_rendered_factor_parses_back() {
    for args in [&["1.50"][..], &["2e0"][..], &["-150.0c"][..]] {
        let first = render_speed(&parse_speed("speed", args).unwrap());
        let reparsed = parse_speed("speed", &[first[1].as_str()]).unwrap();
        assert_eq!(render_speed(&reparsed), first);
    }
    assert_eq!(render_speed(&parse_speed("speed", &["2e0"]).unwrap()), ["speed", "2"]);
}
