use auralis_effects::command::EffectCommandParseError;
use auralis_effects::command_sinc::{parse_sinc, render_sinc, SincArgs, SincBandArgs};
use auralis_effects::error::EffectError;
use auralis_effects::numbers::{FloatError, IntegerError};

fn rendered(args: &[&str]) -> Vec<String> {
    render_sinc(&parse_sinc("sinc", args).unwrap())
}

fn invalid(argument: &'static str) -> EffectCommandParseError {
    EffectCommandParseError::InvalidEffectConfig {
        effect: "sinc",
        argument,
        source: EffectError::InvalidSinc,
    }
}

#[test]
fn parses_low_pass_and_high_pass_forms() {
    assert_eq!(rendered(&["-n", "11", "-4000"]), ["sinc", "-n", "11", "-4000"]);
    assert_eq!(
        parse_sinc("sinc", &["-n11", "1000"]).unwrap(),
        SincArgs {
            band: SincBandArgs::HighPass {
                frequency: "1000".to_owned(),
                kilo: false,
            },
            attenuation: None,
            beta: None,
            transition: None,
            taps: Some(11),
            round_taps: false,
        }
    );
}

#[test]
fn rejects_band_ranges_and_unsupported_phase_options() {
    assert_eq!(
        parse_sinc("sinc", &["1000-4000"]).unwrap_err(),
        invalid("frequency-range")
    );
    assert_eq!(
        parse_sinc("sinc", &["-M", "1000"]).unwrap_err(),
        EffectCommandParseError::UnsupportedOption {
            effect: "sinc",
            option: "-M".to_owned(),
        }
    );
}

#[test]
fn sinc_renders_options_in_canonical_order() {
    assert_eq!(
        rendered(&["-r", "-t", "0.5k", "-a", "80", "3k", "-n", "101"]),
        ["sinc", "-a", "80", "-t", "500", "-n", "101", "-r", "3000"]
    );
    assert_eq!(rendered(&["-a120.0", "-4000", "-d"]), ["sinc", "-4000", "-d"]);
    assert_eq!(rendered(&["-b", "8.50", "-.5k"]), ["sinc", "-b", "8.5", "-500"]);
    assert_eq!(
        parse_sinc("sinc", &["-d", "-2.5k"]).unwrap().band,
        SincBandArgs::LowPass {
            frequency: "2.5".to_owned(),
            kilo: true,
            delete_at_nyquist: true,
        }
    );
}

#[test]
fn sinc_rejects_missing_and_misplaced_arguments() {
    assert_eq!(
        parse_sinc("sinc", &[]).unwrap_err(),
        EffectCommandParseError::MissingArgument {
            effect: "sinc",
            argument: "frequency-range",
        }
    );
    assert_eq!(
        parse_sinc("sinc", &["1000", "-n"]).unwrap_err(),
        EffectCommandParseError::MissingArgument {
            effect: "sinc",
            argument: "taps",
        }
    );
    assert_eq!(
        parse_sinc("sinc", &["1000", "2000"]).unwrap_err(),
        EffectCommandParseError::UnexpectedArgument {
            effect: "sinc",
            argument: "2000".to_owned(),
        }
    );
    assert_eq!(
        parse_sinc("sinc", &["-x"]).unwrap_err(),
        EffectCommandParseError::UnsupportedOption {
            effect: "sinc",
            option: "-x".to_owned(),
        }
    );
    assert_eq!(
        parse_sinc("sinc", &["-d", "1000"]).unwrap_err(),
        EffectCommandParseError::UnsupportedOption {
            effect: "sinc",
            option: "-d".to_owned(),
        }
    );
    assert_eq!(
        parse_sinc("sinc", &["-nx", "1000"]).unwrap_err(),
        EffectCommandParseError::InvalidFrameCount {
            effect: "sinc",
            argument: "taps",
            value: "x".to_owned(),
            source: IntegerError::InvalidDigit,
        }
    );
    assert_eq!(
        parse_sinc("sinc", &["-a", "loud", "1000"]).unwrap_err(),
        EffectCommandParseError::InvalidNumber {
            effect: "sinc",
            argument: "attenuation",
            value: "loud".to_owned(),
            source: FloatError::Invalid,
        }
    );
}

#[test]
fn sinc_checks_design_ranges() {
    assert_eq!(
        parse_sinc("sinc", &["-a", "80", "-b", "4", "1000"]).unwrap_err(),
        invalid("attenuation")
    );
    assert_eq!(parse_sinc("sinc", &["-a", "30", "1000"]).unwrap_err(), invalid("options"));
    assert_eq!(parse_sinc("sinc", &["-b", "300", "1000"]).unwrap_err(), invalid("options"));
    assert_eq!(parse_sinc("sinc", &["-n", "5", "1000"]).unwrap_err(), invalid("options"));
    assert_eq!(parse_sinc("sinc", &["-t", "0", "1000"]).unwrap_err(), invalid("options"));
    assert_eq!(parse_sinc("sinc", &["0"]).unwrap_err(), invalid("frequency-range"));
    assert!(parse_sinc("sinc", &["-a", "180", "-n", "32767", "1000"]).is_ok());
}
