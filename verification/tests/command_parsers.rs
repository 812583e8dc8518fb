use auralis_effects::chain::parse_effect_chain;
use auralis_effects::command::EffectCommandParseError;
use auralis_effects::command_saturation::{parse_saturation, render_saturation, SaturationArgs};
use auralis_effects::commands::{
    parse_riaa, parse_softvol, parse_speed, parse_stretch, parse_swap, parse_tremolo,
    parse_upsample, render_softvol, render_stretch, render_tremolo, render_upsample, SoftVolArgs, SpeedArgs,
    StretchArgs, StretchFade, TremoloArgs,
};
use auralis_effects::effects::{Riaa, SaturationType, Swap, Upsample};
use auralis_effects::error::EffectError;
use auralis_effects::numbers::{FloatError, IntegerError};

fn text(s: &str) -> Option<String> {
    Some(s.to_owned())
}

#[test]
fn parses_bare_riaa() {
    assert_eq!(parse_riaa("riaa", &[]).unwrap(), Riaa::new());
    let chain = parse_effect_chain(&["riaa"]).unwrap();
    assert_eq!(chain.commands()[0].render_tokens(), ["riaa"]);
}

#[test]
fn command_riaa_rejects_arguments_and_options() {
    assert_eq!(
        parse_riaa("riaa", &["extra"]).unwrap_err(),
        EffectCommandParseError::UnexpectedArgument {
            effect: "riaa",
            argument: "extra".to_owned(),
        }
    );
    assert_eq!(
        parse_riaa("riaa", &["-x"]).unwrap_err(),
        EffectCommandParseError::UnsupportedOption {
            effect: "riaa",
            option: "-x".to_owned(),
        }
    );
}

#[test]
fn parses_bare_swap() {
    assert_eq!(parse_swap("swap", &[]).unwrap(), Swap::new());
    let chain = parse_effect_chain(&["swap"]).unwrap();
    assert_eq!(chain.commands()[0].render_tokens(), ["swap"]);
}

#[test]
fn command_swap_rejects_arguments_and_options() {
    assert_eq!(
        parse_swap("swap", &["extra"]).unwrap_err(),
        EffectCommandParseError::UnexpectedArgument {
            effect: "swap",
            argument: "extra".to_owned(),
        }
    );
    assert_eq!(
        parse_swap("swap", &["-x"]).unwrap_err(),
        EffectCommandParseError::UnsupportedOption {
            effect: "swap",
            option: "-x".to_owned(),
        }
    );
}

#[test]
fn parses_ratio_and_cents_factor() {
    assert_eq!(
        parse_speed("speed", &["1.5"]).unwrap(),
        SpeedArgs {
            factor: "1.5".to_owned(),
            cents: false,
        }
    );

    let cents = parse_speed("speed", &["100c"]).unwrap();
    assert_eq!(
        cents,
        SpeedArgs {
            factor: "100".to_owned(),
            cents: true,
        }
    );
    let factor = 2.0_f64.powf(cents.factor.parse::<f64>().unwrap() / 1200.0);
    assert!((factor - 2.0_f64.powf(100.0 / 1200.0)).abs() < 1.0e-12);
}

#[test]
fn rejects_missing_invalid_and_extra_arguments() {
    assert_eq!(
        parse_speed("speed", &["0"]).unwrap_err(),
        EffectCommandParseError::InvalidEffectConfig {
            effect: "speed",
            argument: "factor",
            source: EffectError::InvalidSpeedFactor,
        }
    );
    assert_eq!(
        parse_speed("speed", &[]).unwrap_err(),
        EffectCommandParseError::MissingArgument {
            effect: "speed",
            argument: "factor",
        }
    );
    assert!(matches!(
        parse_speed("speed", &["bad"]).unwrap_err(),
        EffectCommandParseError::InvalidNumber {
            effect: "speed",
            argument: "factor",
            ..
        }
    ));
    assert_eq!(
        parse_speed("speed", &["1.5", "extra"]).unwrap_err(),
        EffectCommandParseError::UnexpectedArgument {
            effect: "speed",
            argument: "extra".to_owned(),
        }
    );
}

#[test]
fn speed_cents_suffix_needs_a_number_before_it() {
    assert_eq!(
        parse_speed("speed", &["c"]).unwrap_err(),
        EffectCommandParseError::InvalidNumber {
            effect: "speed",
            argument: "factor",
            value: String::new(),
            source: FloatError::Empty,
        }
    );
}

#[test]
fn parses_defaults_and_explicit_options() {
    assert_eq!(
        parse_stretch("stretch", &[]).unwrap(),
        StretchArgs {
            factor: None,
            window: None,
            fade: StretchFade::Linear,
            shift: None,
            fading: None,
        }
    );

    assert_eq!(
        parse_stretch("stretch", &["1.5", "10", "q", "0.75", "0.25"]).unwrap(),
        StretchArgs {
            factor: text("1.5"),
            window: text("10"),
            fade: StretchFade::QuarterCosine,
            shift: text("0.75"),
            fading: text("0.25"),
        }
    );
}

#[test]
fn command_stretch_rejects_invalid_values_and_extra_arguments() {
    assert_eq!(
        parse_stretch("stretch", &["1", "0"]).unwrap_err(),
        EffectCommandParseError::InvalidEffectConfig {
            effect: "stretch",
            argument: "stretch",
            source: EffectError::InvalidStretch,
        }
    );
    assert_eq!(
        parse_stretch("stretch", &["1", "20", "bad"]).unwrap_err(),
        EffectCommandParseError::InvalidOptionCombination {
            effect: "stretch",
            options: "fade must be l, s, h, or q",
        }
    );
    assert_eq!(
        parse_stretch("stretch", &["1", "20", "l", "1", "0", "extra"]).unwrap_err(),
        EffectCommandParseError::UnexpectedArgument {
            effect: "stretch",
            argument: "extra".to_owned(),
        }
    );
}

#[test]
fn stretch_fade_accepts_every_spelling() {
    for (spelling, fade) in [
        ("L", StretchFade::Linear),
        ("linear", StretchFade::Linear),
        ("S", StretchFade::Sqrt),
        ("sqrt", StretchFade::Sqrt),
        ("H", StretchFade::HalfCosine),
        ("Half", StretchFade::HalfCosine),
        ("Q", StretchFade::QuarterCosine),
        ("quarter", StretchFade::QuarterCosine),
    ] {
        assert_eq!(
            parse_stretch("stretch", &["1", "20", spelling]).unwrap().fade,
            fade
        );
    }
}

#[test]
fn parses_defaults_and_explicit_arguments() {
    assert_eq!(
        parse_softvol("softvol", &[]).unwrap(),
        SoftVolArgs {
            volume: None,
            double_time: None,
            headroom: None,
        }
    );
    assert_eq!(
        parse_softvol("softvol", &["2", "10", "0.1"]).unwrap(),
        SoftVolArgs {
            volume: text("2"),
            double_time: text("10"),
            headroom: text("0.1"),
        }
    );
    assert_eq!(
        render_softvol(&parse_softvol("softvol", &[]).unwrap()),
        ["softvol", "1", "0", "0"]
    );
}

#[test]
fn command_softvol_rejects_invalid_values_and_extra_arguments() {
    assert_eq!(
        parse_softvol("softvol", &["-1"]).unwrap_err(),
        EffectCommandParseError::InvalidEffectConfig {
            effect: "softvol",
            argument: "softvol",
            source: EffectError::InvalidSoftVol,
        }
    );
    assert_eq!(
        parse_softvol("softvol", &["1", "0", "0", "extra"]).unwrap_err(),
        EffectCommandParseError::UnexpectedArgument {
            effect: "softvol",
            argument: "extra".to_owned(),
        }
    );
}

#[test]
fn parses_default_and_explicit_depth() {
    assert_eq!(
        parse_tremolo("tremolo", &["5"]).unwrap(),
        TremoloArgs {
            speed: "5".to_owned(),
            depth: None,
        }
    );
    assert_eq!(
        parse_tremolo("tremolo", &["5", "75"]).unwrap(),
        TremoloArgs {
            speed: "5".to_owned(),
            depth: text("75"),
        }
    );
    assert_eq!(
        render_tremolo(&parse_tremolo("tremolo", &["5"]).unwrap()),
        ["tremolo", "5", "40"]
    );
}

#[test]
fn command_tremolo_rejects_invalid_values_and_extra_arguments() {
    assert_eq!(
        parse_tremolo("tremolo", &["5", "0"]).unwrap_err(),
        EffectCommandParseError::InvalidEffectConfig {
            effect: "tremolo",
            argument: "tremolo",
            source: EffectError::InvalidTremolo,
        }
    );
    assert_eq!(
        parse_tremolo("tremolo", &[]).unwrap_err(),
        EffectCommandParseError::MissingArgument {
            effect: "tremolo",
            argument: "speed",
        }
    );
    assert_eq!(
        parse_tremolo("tremolo", &["5", "40", "extra"]).unwrap_err(),
        EffectCommandParseError::UnexpectedArgument {
            effect: "tremolo",
            argument: "extra".to_owned(),
        }
    );
}

#[test]
fn parses_default_and_explicit_factor() {
    assert_eq!(
        parse_upsample("upsample", &[]).unwrap(),
        Upsample::default_factor()
    );
    assert_eq!(
        parse_upsample("upsample", &["3"]).unwrap(),
        Upsample::new(3).unwrap()
    );
    assert_eq!(
        render_upsample(parse_upsample("upsample", &[]).unwrap()),
        ["upsample", "2"]
    );
}

#[test]
fn rejects_invalid_factor_option_and_extra_argument() {
    assert_eq!(
        parse_upsample("upsample", &["0"]).unwrap_err(),
        EffectCommandParseError::InvalidEffectConfig {
            effect: "upsample",
            argument: "factor",
            source: EffectError::InvalidUpsampleFactor,
        }
    );
    assert!(matches!(
        parse_upsample("upsample", &["-1"]).unwrap_err(),
        EffectCommandParseError::InvalidFrameCount {
            effect: "upsample",
            argument: "factor",
            ..
        }
    ));
    assert_eq!(
        parse_upsample("upsample", &["--bad"]).unwrap_err(),
        EffectCommandParseError::UnsupportedOption {
            effect: "upsample",
            option: "--bad".to_owned(),
        }
    );
    assert_eq!(
        parse_upsample("upsample", &["2", "extra"]).unwrap_err(),
        EffectCommandParseError::UnexpectedArgument {
            effect: "upsample",
            argument: "extra".to_owned(),
        }
    );
}

#[test]
fn upsample_reports_integer_errors_and_the_maximum() {
    assert_eq!(
        parse_upsample("upsample", &["-1"]).unwrap_err(),
        EffectCommandParseError::InvalidFrameCount {
            effect: "upsample",
            argument: "factor",
            value: "-1".to_owned(),
            source: IntegerError::InvalidDigit,
        }
    );
    assert_eq!(
        parse_upsample("upsample", &["4294967296"]).unwrap_err(),
        EffectCommandParseError::InvalidFrameCount {
            effect: "upsample",
            argument: "factor",
            value: "4294967296".to_owned(),
            source: IntegerError::PosOverflow,
        }
    );
    assert_eq!(parse_upsample("upsample", &["256"]).unwrap().factor, 256);
    assert!(parse_upsample("upsample", &["257"]).is_err());
    assert_eq!(parse_upsample("upsample", &["+7"]).unwrap().factor, 7);
}

#[test]
fn parses_default_and_explicit_arguments() {
    assert_eq!(
        parse_saturation("saturation", &[]).unwrap(),
        SaturationArgs {
            saturation_type: SaturationType::Tanh,
            blend: None,
            offset: None,
            parameter: None,
        }
    );
    assert_eq!(
        parse_saturation("saturation", &["sqrt", "0.75", "0.1", "0.25"]).unwrap(),
        SaturationArgs {
            saturation_type: SaturationType::Sqrt,
            blend: text("0.75"),
            offset: text("0.1"),
            parameter: text("0.25"),
        }
    );
    assert_eq!(
        render_saturation(&parse_saturation("saturation", &["diode"]).unwrap()),
        ["saturation", "diode", "1", "0", "0.5"]
    );
}

#[test]
fn command_saturation_rejects_invalid_values_and_extra_arguments() {
    assert_eq!(
        parse_saturation("saturation", &["tanh", "1", "0", "0.5"]).unwrap_err(),
        EffectCommandParseError::InvalidEffectConfig {
            effect: "saturation",
            argument: "saturation",
            source: EffectError::InvalidSaturation,
        }
    );
    assert_eq!(
        parse_saturation("saturation", &["unknown"]).unwrap_err(),
        EffectCommandParseError::UnexpectedArgument {
            effect: "saturation",
            argument: "unknown".to_owned(),
        }
    );
    assert_eq!(
        parse_saturation("saturation", &["sqrt", "1", "0", "0.5", "extra"]).unwrap_err(),
        EffectCommandParseError::UnexpectedArgument {
            effect: "saturation",
            argument: "extra".to_owned(),
        }
    );
}

#[test]
fn saturation_names_the_parameter_of_each_type() {
    assert_eq!(
        parse_saturation("saturation", &["tanh", "1", "0", "x"]).unwrap_err(),
        EffectCommandParseError::InvalidNumber {
            effect: "saturation",
            argument: "drive",
            value: "x".to_owned(),
            source: FloatError::Invalid,
        }
    );
    assert!(matches!(
        parse_saturation("saturation", &["sqrt", "1", "0", "x"]).unwrap_err(),
        EffectCommandParseError::InvalidNumber {
            argument: "color",
            ..
        }
    ));
    assert!(matches!(
        parse_saturation("saturation", &["diode", "1", "0", "x"]).unwrap_err(),
        EffectCommandParseError::InvalidNumber {
            argument: "threshold",
            ..
        }
    ));
    assert_eq!(
        parse_saturation("saturation", &["-x"]).unwrap_err(),
        EffectCommandParseError::UnsupportedOption {
            effect: "saturation",
            option: "-x".to_owned(),
        }
    );
}

#[test]
fn option_like_numbers_are_unsupported_options() {
    assert_eq!(
        parse_tremolo("tremolo", &["5", "-x"]).unwrap_err(),
        EffectCommandParseError::UnsupportedOption {
            effect: "tremolo",
            option: "-x".to_owned(),
        }
    );
    assert_eq!(
        parse_speed("speed", &["-inf"]).unwrap_err(),
        EffectCommandParseError::UnsupportedOption {
            effect: "speed",
            option: "-inf".to_owned(),
        }
    );
    assert_eq!(
        parse_tremolo("tremolo", &["-.5"]).unwrap_err(),
        EffectCommandParseError::InvalidEffectConfig {
            effect: "tremolo",
            argument: "tremolo",
            source: EffectError::InvalidTremolo,
        }
    );
    assert_eq!(
        parse_tremolo("tremolo", &[".5"]).unwrap(),
        TremoloArgs {
            speed: ".5".to_owned(),
            depth: None,
        }
    );
    assert_eq!(
        parse_tremolo("tremolo", &["+5", "1e2"]).unwrap().depth,
        text("1e2")
    );
    assert!(parse_tremolo("tremolo", &["+inf", "1e2"]).is_err());
    assert!(parse_tremolo("tremolo", &["5", "1e3"]).is_err());
}

fn owned_strs(tokens: &[String]) -> Vec<&str> {
    tokens.iter().map(String::as_str).collect()
}

#[test]
fn saturation_rendered_tokens_render_the_same_after_parsing() {
    let parsed = parse_saturation("saturation", &["diode", "0.8"]).unwrap();
    let rendered = render_saturation(&parsed);
    assert_eq!(rendered, ["saturation", "diode", "0.8", "0", "0.5"]);
    let reparsed = parse_saturation("saturation", &owned_strs(&rendered)[1..]).unwrap();
    assert_eq!(reparsed.saturation_type, SaturationType::Diode);
    assert_eq!(reparsed.parameter, Some("0.5".to_owned()));
    assert_eq!(render_saturation(&reparsed), rendered);
}

#[test]
fn upsample_tremolo_and_softvol_tokens_parse_back() {
    let upsample = parse_upsample("upsample", &["8"]).unwrap();
    let rendered = render_upsample(upsample);
    assert_eq!(rendered, ["upsample", "8"]);
    assert_eq!(parse_upsample("upsample", &owned_strs(&rendered)[1..]).unwrap(), upsample);

    let tremolo = parse_tremolo("tremolo", &["6"]).unwrap();
    let rendered = render_tremolo(&tremolo);
    assert_eq!(rendered, ["tremolo", "6", "40"]);
    let reparsed = parse_tremolo("tremolo", &owned_strs(&rendered)[1..]).unwrap();
    assert_eq!(reparsed.depth, Some("40".to_owned()));
    assert_eq!(render_tremolo(&reparsed), rendered);

    let softvol = parse_softvol("softvol", &["2"]).unwrap();
    let rendered = render_softvol(&softvol);
    assert_eq!(rendered, ["softvol", "2", "0", "0"]);
    let reparsed = parse_softvol("softvol", &owned_strs(&rendered)[1..]).unwrap();
    assert_eq!(render_softvol(&reparsed), rendered);
}

#[test]
fn renders_canonical_full_option_set() {
    assert_eq!(
        render_stretch(&parse_stretch("stretch", &["1.5", "10", "q", "0.75", "0.25"]).unwrap())
            .unwrap(),
        ["stretch", "1.5", "10", "q", "0.75", "0.25"]
    );
}

#[test]
fn stretch_rendering_fills_defaults_when_a_fading_is_given() {
    assert_eq!(
        render_stretch(&parse_stretch("stretch", &["2", "20.0", "Sqrt", "0.80", "0"]).unwrap())
            .unwrap(),
        ["stretch", "2", "20", "s", "0.8", "0"]
    );
    let mut args = parse_stretch("stretch", &["1.25"]).unwrap();
    assert_eq!(render_stretch(&args), None);
    args.fading = Some("0.1".to_owned());
    assert_eq!(render_stretch(&args).unwrap(), ["stretch", "1.25", "20", "l", "0.8", "0.1"]);
    args.factor = Some("0.5".to_owned());
    assert_eq!(render_stretch(&args).unwrap(), ["stretch", "0.5", "20", "l", "1", "0.1"]);
}

#[test]
fn tremolo_and_softvol_render_values_as_plain_decimals() {
    assert_eq!(
        render_tremolo(&parse_tremolo("tremolo", &["5.50", "2.5e1"]).unwrap()),
        ["tremolo", "5.5", "25"]
    );
    assert_eq!(
        render_softvol(&parse_softvol("softvol", &["1.0", ".5", "3e0"]).unwrap()),
        ["softvol", "1", "0.5", "3"]
    );
}
