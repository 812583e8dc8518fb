use auralis_effects::command::EffectCommandParseError;
use auralis_effects::command_stat::{
    parse_stat, parse_stats, render_stat, render_stats, StatArgs, StatsArgs, StatsDisplay,
};
use auralis_effects::command_synth::{
    parse_synth, render_length, render_waveform, SynthArgs, SynthChannelArgs, SynthLength,
    SynthWaveform,
};
use auralis_effects::command_tempo::{
    parse_tempo, profile_option, render_tempo, TempoArgs, TempoProfile,
};
use auralis_effects::command_vad::{parse_vad, render_vad, VadArgs, VadOption, VadSetting};
use auralis_effects::command_vol::{parse_vol, render_vol, split_suffix_type, VolArgs, VolGainType};
use auralis_effects::error::EffectError;
use auralis_effects::numbers::{FloatError, IntegerError};

fn text(s: &str) -> Option<String> {
    Some(s.to_owned())
}

fn channel(waveform: SynthWaveform, frequency: Option<&str>, parameters: &[&str]) -> SynthChannelArgs {
    SynthChannelArgs {
        waveform,
        frequency: frequency.map(str::to_owned),
        parameters: parameters.iter().map(|p| (*p).to_owned()).collect(),
    }
}

#[test]
fn parses_defaults_and_basic_waveforms() {
    assert_eq!(
        parse_synth("synth", &[]).unwrap(),
        SynthArgs {
            no_headroom: false,
            length: None,
            channels: Vec::new(),
        }
    );
    assert_eq!(
        parse_synth("synth", &["-n", "16s", "sine", "1000"]).unwrap(),
        SynthArgs {
            no_headroom: true,
            length: Some(SynthLength::Frames(16)),
            channels: vec![channel(SynthWaveform::Sine, Some("1000"), &[])],
        }
    );
    assert_eq!(
        parse_synth("synth", &["triangle", "4", "0", "25", "25"]).unwrap(),
        SynthArgs {
            no_headroom: false,
            length: None,
            channels: vec![channel(SynthWaveform::Triangle, Some("4"), &["0", "25", "25"])],
        }
    );
}

#[test]
fn parses_multiple_channel_specs() {
    assert_eq!(
        parse_synth("synth", &["4s", "sine", "1", "square", "2"]).unwrap(),
        SynthArgs {
            no_headroom: false,
            length: Some(SynthLength::Frames(4)),
            channels: vec![
                channel(SynthWaveform::Sine, Some("1"), &[]),
                channel(SynthWaveform::Square, Some("2"), &[]),
            ],
        }
    );
}

#[test]
fn rejects_future_noise_sweep_and_combine_modes() {
    assert_eq!(
        parse_synth("synth", &["noise"]).unwrap_err(),
        EffectCommandParseError::UnsupportedOption {
            effect: "synth",
            option: "noise".to_owned(),
        }
    );
    assert_eq!(
        parse_synth("synth", &["sine", "440:880"]).unwrap_err(),
        EffectCommandParseError::InvalidNumber {
            effect: "synth",
            argument: "frequency",
            value: "440:880".to_owned(),
            source: FloatError::Invalid,
        }
    );
    assert_eq!(
        parse_synth("synth", &["sine", "mix"]).unwrap_err(),
        EffectCommandParseError::UnsupportedOption {
            effect: "synth",
            option: "mix".to_owned(),
        }
    );
}

#[test]
fn rejects_invalid_parameters() {
    assert!(matches!(
        parse_synth("synth", &["sine", "-1"]).unwrap_err(),
        EffectCommandParseError::InvalidEffectConfig {
            source: EffectError::InvalidSynth,
            ..
        }
    ));
    assert_eq!(
        parse_synth("synth", &["sine", "440", "0", "0", "0", "0", "0", "1"]).unwrap_err(),
        EffectCommandParseError::UnexpectedArgument {
            effect: "synth",
            argument: "1".to_owned(),
        }
    );
}

#[test]
fn synth_length_forms_and_errors() {
    assert_eq!(
        parse_synth("synth", &["2.5", "square"]).unwrap().length,
        Some(SynthLength::Seconds("2.5".to_owned()))
    );
    assert_eq!(parse_synth("synth", &["5"]).unwrap().length, None);
    assert_eq!(
        parse_synth("synth", &["12xs"]).unwrap_err(),
        EffectCommandParseError::InvalidFrameCount {
            effect: "synth",
            argument: "length",
            value: "12xs".to_owned(),
            source: IntegerError::InvalidDigit,
        }
    );
    assert_eq!(
        parse_synth("synth", &["-x"]).unwrap_err(),
        EffectCommandParseError::UnsupportedOption {
            effect: "synth",
            option: "-x".to_owned(),
        }
    );
    assert_eq!(
        parse_synth("synth", &["sine", "sine"]).unwrap().channels,
        vec![
            channel(SynthWaveform::Sine, None, &[]),
            channel(SynthWaveform::Sine, None, &[]),
        ]
    );
    assert_eq!(
        parse_synth("synth", &["bogus"]).unwrap_err(),
        EffectCommandParseError::UnexpectedArgument {
            effect: "synth",
            argument: "bogus".to_owned(),
        }
    );
    assert_eq!(render_waveform(SynthWaveform::Trapezium), "trapezium");
    assert_eq!(render_length(&SynthLength::Frames(48000)), "48000s");
}

#[test]
fn parses_default_vad_command() {
    let parsed = parse_vad("vad", &[]).unwrap();
    assert_eq!(parsed, VadArgs::default());
    assert_eq!(render_vad(&parsed), ["vad"]);
}

#[test]
fn parses_and_renders_advanced_options() {
    let parsed = parse_vad(
        "vad",
        &["-T", "0.01", "-t", "1", "-g", "0.1", "-p", "0.001", "-h", "1k"],
    )
    .unwrap();
    assert_eq!(parsed.settings.len(), 5);
    assert_eq!(
        parsed.settings[4],
        VadSetting {
            option: VadOption::HighPassFrequency,
            value: "1".to_owned(),
            kilo: true,
        }
    );
    assert_eq!(
        render_vad(&parsed),
        ["vad", "-h", "1000", "-T", "0.01", "-t", "1", "-g", "0.1", "-p", "0.001"]
    );
}

#[test]
fn rejects_unknown_options_and_out_of_range_values() {
    assert!(parse_vad("vad", &["-t", "21"])
        .unwrap_err()
        .message()
        .contains("invalid `vad`"));
    assert!(parse_vad("vad", &["-x", "1"]).unwrap_err().message().contains("-x"));
}

#[test]
fn renders_frame_domain_typed_core_as_default_command() {
    assert_eq!(render_vad(&VadArgs::default()), ["vad"]);
}

#[test]
fn vad_reports_missing_values_and_stray_arguments() {
    assert_eq!(
        parse_vad("vad", &["-t"]).unwrap_err(),
        EffectCommandParseError::MissingArgument {
            effect: "vad",
            argument: "option value",
        }
    );
    assert_eq!(
        parse_vad("vad", &["1"]).unwrap_err(),
        EffectCommandParseError::UnexpectedArgument {
            effect: "vad",
            argument: "1".to_owned(),
        }
    );
    assert_eq!(
        parse_vad("vad", &["-b", "soon"]).unwrap_err(),
        EffectCommandParseError::InvalidNumber {
            effect: "vad",
            argument: "boot-time",
            value: "soon".to_owned(),
            source: FloatError::Invalid,
        }
    );
    assert!(parse_vad("vad", &["-b", "1k"]).is_err());
    assert!(parse_vad("vad", &["-L", "2K"]).is_ok());
}

#[test]
fn parses_sox_ng_vol_gain_types_and_limiter_gain() {
    let vol = |gain: &str, gain_type, limiter: Option<&str>| VolArgs {
        gain: gain.to_owned(),
        gain_type,
        limiter_gain: limiter.map(str::to_owned),
    };
    assert_eq!(
        parse_vol("vol", &["0.5"]).unwrap(),
        vol("0.5", VolGainType::Amplitude, None)
    );
    assert_eq!(
        parse_vol("vol", &["0.25", "power"]).unwrap(),
        vol("0.25", VolGainType::Power, None)
    );
    assert_eq!(
        parse_vol("vol", &["-6dB"]).unwrap(),
        vol("-6", VolGainType::Decibels, None)
    );
    assert_eq!(
        parse_vol("vol", &["2", "amplitude", "0.05"]).unwrap(),
        vol("2", VolGainType::Amplitude, Some("0.05"))
    );
}

#[test]
fn renders_canonical_vol_tokens() {
    let command = parse_vol("vol", &["2a", "0.05"]).unwrap();

    assert_eq!(render_vol(&command), ["vol", "2", "0.05"]);
}

#[test]
fn rejects_unknown_type_and_invalid_limiter() {
    assert!(parse_vol("vol", &["0.5", "0.05"]).is_err());
    assert_eq!(
        parse_vol("vol", &["1", "loud"]).unwrap_err(),
        EffectCommandParseError::UnexpectedArgument {
            effect: "vol",
            argument: "loud".to_owned(),
        }
    );
}

#[test]
fn vol_suffixes_are_tried_longest_first() {
    assert_eq!(
        split_suffix_type("3amplitude"),
        Some(("3".to_owned(), VolGainType::Amplitude))
    );
    assert_eq!(
        split_suffix_type("3db"),
        Some(("3".to_owned(), VolGainType::Decibels))
    );
    assert_eq!(split_suffix_type("dB"), None);
    assert_eq!(split_suffix_type("0.5"), None);
    assert_eq!(
        parse_vol("vol", &[]).unwrap_err(),
        EffectCommandParseError::MissingArgument {
            effect: "vol",
            argument: "gain",
        }
    );
    assert_eq!(
        parse_vol("vol", &["1", "dB", "0.1", "extra"]).unwrap_err(),
        EffectCommandParseError::UnexpectedArgument {
            effect: "vol",
            argument: "extra".to_owned(),
        }
    );
}

#[test]
fn parses_and_renders_basic_factor() {
    assert_eq!(
        parse_tempo("tempo", &["1.25"]).unwrap(),
        TempoArgs {
            quick_search: false,
            profile: TempoProfile::Default,
            factor: "1.25".to_owned(),
            segment: None,
            search: None,
            overlap: None,
        }
    );
    assert_eq!(
        render_tempo(&parse_tempo("tempo", &["1.25"]).unwrap()),
        ["tempo", "1.25"]
    );
}

#[test]
fn parses_tuning_flags_and_explicit_timing_values() {
    assert_eq!(
        parse_tempo("tempo", &["-q", "-s", "1.25"]).unwrap(),
        TempoArgs {
            quick_search: true,
            profile: TempoProfile::Speech,
            factor: "1.25".to_owned(),
            segment: None,
            search: None,
            overlap: None,
        }
    );
    assert_eq!(
        render_tempo(&parse_tempo("tempo", &["-m", "1.5", "60", "10", "8"]).unwrap()),
        ["tempo", "-m", "1.5", "60", "10", "8"]
    );
    assert_eq!(
        render_tempo(&parse_tempo("tempo", &["-l", "0.75", "20"]).unwrap()),
        ["tempo", "-l", "0.75", "20"]
    );
    let music = parse_tempo("tempo", &["-m", "1.5", "60", "10", "8"]).unwrap();
    assert_eq!(music.profile, TempoProfile::Music);
    assert_eq!(
        (music.segment, music.search, music.overlap),
        (text("60"), text("10"), text("8"))
    );
    assert_eq!(profile_option(TempoProfile::Linear), Some("-l"));
    assert_eq!(profile_option(TempoProfile::Default), None);
}

#[test]
fn rejects_missing_options_invalid_values_and_extra_arguments() {
    assert_eq!(
        parse_tempo("tempo", &["1.25", "9"]).unwrap_err(),
        EffectCommandParseError::InvalidEffectConfig {
            effect: "tempo",
            argument: "tempo",
            source: EffectError::InvalidTempoTuning,
        }
    );
    assert_eq!(
        parse_tempo("tempo", &["0.01"]).unwrap_err(),
        EffectCommandParseError::InvalidEffectConfig {
            effect: "tempo",
            argument: "tempo",
            source: EffectError::InvalidTempoFactor,
        }
    );
    assert_eq!(
        parse_tempo("tempo", &[]).unwrap_err(),
        EffectCommandParseError::MissingArgument {
            effect: "tempo",
            argument: "factor",
        }
    );
    assert_eq!(
        parse_tempo("tempo", &["-x", "1.25"]).unwrap_err(),
        EffectCommandParseError::UnsupportedOption {
            effect: "tempo",
            option: "-x".to_owned(),
        }
    );
    assert_eq!(
        parse_tempo("tempo", &["1.25", "82", "10", "8", "extra"]).unwrap_err(),
        EffectCommandParseError::UnexpectedArgument {
            effect: "tempo",
            argument: "extra".to_owned(),
        }
    );
}

#[test]
fn tempo_checks_timings_before_the_factor() {
    assert!(matches!(
        parse_tempo("tempo", &["fast", "ten"]).unwrap_err(),
        EffectCommandParseError::InvalidNumber {
            argument: "segment",
            ..
        }
    ));
    assert!(matches!(
        parse_tempo("tempo", &["fast"]).unwrap_err(),
        EffectCommandParseError::InvalidNumber {
            argument: "factor",
            ..
        }
    ));
    assert_eq!(parse_tempo("tempo", &["-s", "-m", "2"]).unwrap().profile, TempoProfile::Music);
}

#[test]
fn command_stat_parses_default_and_supported_options() {
    assert_eq!(
        parse_stat("stat", &[]).unwrap(),
        StatArgs {
            scale: None,
            rms: false,
            volume_only: false,
            json: false,
        }
    );
    assert_eq!(
        parse_stat("stat", &["-s", "2", "-rms", "-v", "-j"]).unwrap(),
        StatArgs {
            scale: text("2"),
            rms: true,
            volume_only: true,
            json: true,
        }
    );
    assert_eq!(
        render_stat(&parse_stat("stat", &["-s", "2", "-rms", "-v", "-j"]).unwrap()),
        ["stat", "-s", "2", "-rms", "-v", "-j"]
    );
}

#[test]
fn stat_rendering_omits_the_default_scale() {
    assert_eq!(render_stat(&parse_stat("stat", &["-s", "1.0"]).unwrap()), ["stat"]);
    assert_eq!(
        render_stat(&parse_stat("stat", &["-s", "2.50", "-v"]).unwrap()),
        ["stat", "-s", "2.5", "-v"]
    );
}

#[test]
fn rejects_unsupported_options_extra_arguments_and_bad_scale() {
    assert!(matches!(
        parse_stat("stat", &["-s", "0"]).unwrap_err(),
        EffectCommandParseError::InvalidEffectConfig {
            source: EffectError::InvalidStat,
            ..
        }
    ));
    assert_eq!(
        parse_stat("stat", &["-freq"]).unwrap_err(),
        EffectCommandParseError::UnsupportedOption {
            effect: "stat",
            option: "-freq".to_owned(),
        }
    );
    assert_eq!(
        parse_stat("stat", &["extra"]).unwrap_err(),
        EffectCommandParseError::UnexpectedArgument {
            effect: "stat",
            argument: "extra".to_owned(),
        }
    );
    assert_eq!(
        parse_stat("stat", &["-s"]).unwrap_err(),
        EffectCommandParseError::MissingArgument {
            effect: "stat",
            argument: "scale",
        }
    );
}

#[test]
fn command_stats_parses_default_and_supported_options() {
    assert_eq!(
        parse_stats("stats", &[]).unwrap(),
        StatsArgs {
            display: StatsDisplay::Default,
            window_time: None,
            json: false,
        }
    );
    assert_eq!(
        parse_stats("stats", &["-x", "16", "-w", "0.1", "-j"]).unwrap(),
        StatsArgs {
            display: StatsDisplay::HexBits("16".to_owned()),
            window_time: text("0.1"),
            json: true,
        }
    );
    assert_eq!(
        render_stats(&parse_stats("stats", &["-x", "16", "-w", "0.1", "-j"]).unwrap()),
        ["stats", "-x", "16", "-w", "0.1", "-j"]
    );
    assert_eq!(
        parse_stats("stats", &["-b", "12"]).unwrap().display,
        StatsDisplay::SignedBits("12".to_owned())
    );
    assert_eq!(
        render_stats(&parse_stats("stats", &["-b", "12"]).unwrap()),
        ["stats", "-b", "12"]
    );
}

#[test]
fn stats_rendering_omits_default_scale_and_window() {
    assert_eq!(
        render_stats(&parse_stats("stats", &["-s", "1", "-w", "0.050"]).unwrap()),
        ["stats"]
    );
    assert_eq!(
        render_stats(&parse_stats("stats", &["-s", "0.5", "-b", "16.0", "-w", "5e-2"]).unwrap()),
        ["stats", "-b", "16"]
    );
    assert_eq!(
        render_stats(&parse_stats("stats", &["-s", "4", "-w", "1"]).unwrap()),
        ["stats", "-s", "4", "-w", "1"]
    );
}

#[test]
fn rejects_unsupported_options_extra_arguments_and_bad_ranges() {
    assert!(matches!(
        parse_stats("stats", &["-b", "1"]).unwrap_err(),
        EffectCommandParseError::InvalidEffectConfig {
            source: EffectError::InvalidStats,
            ..
        }
    ));
    assert_eq!(
        parse_stats("stats", &["-rms"]).unwrap_err(),
        EffectCommandParseError::UnsupportedOption {
            effect: "stats",
            option: "-rms".to_owned(),
        }
    );
    assert_eq!(
        parse_stats("stats", &["extra"]).unwrap_err(),
        EffectCommandParseError::UnexpectedArgument {
            effect: "stats",
            argument: "extra".to_owned(),
        }
    );
    assert_eq!(
        parse_stats("stats", &["-w"]).unwrap_err(),
        EffectCommandParseError::MissingArgument {
            effect: "stats",
            argument: "window-time",
        }
    );
    assert_eq!(
        parse_stats("stats", &["-s", "2", "-b", "8"]).unwrap().display,
        StatsDisplay::SignedBits("8".to_owned())
    );
}

fn strs(tokens: &[String]) -> Vec<&str> {
    tokens.iter().map(String::as_str).collect()
}

#[test]
fn tempo_rendered_tokens_parse_back_to_the_same_arguments() {
    let parsed = parse_tempo("tempo", &["-m", "-q", "1.5", "30", "15"]).unwrap();
    let rendered = render_tempo(&parsed);
    assert_eq!(rendered, ["tempo", "-q", "-m", "1.5", "30", "15"]);
    assert_eq!(parse_tempo("tempo", &strs(&rendered)[1..]).unwrap(), parsed);
}

#[test]
fn vol_rendered_tokens_parse_back_to_the_same_arguments() {
    let suffixed = parse_vol("vol", &["-6dB", "0.05"]).unwrap();
    let rendered = render_vol(&suffixed);
    assert_eq!(rendered, ["vol", "-6", "dB", "0.05"]);
    assert_eq!(parse_vol("vol", &strs(&rendered)[1..]).unwrap(), suffixed);

    let amplitude = parse_vol("vol", &["2", "amplitude", "0.1"]).unwrap();
    let rendered = render_vol(&amplitude);
    assert_eq!(rendered, ["vol", "2", "0.1"]);
    assert_eq!(parse_vol("vol", &strs(&rendered)[1..]).unwrap(), amplitude);
}

#[test]
fn vad_rendered_tokens_parse_back_to_the_same_settings() {
    let parsed = parse_vad("vad", &["-t", "0.7", "-h", "2.5k", "-T", "0.25"]).unwrap();
    let rendered = render_vad(&parsed);
    assert_eq!(rendered, ["vad", "-h", "2500", "-T", "0.25", "-t", "0.7"]);
    let reparsed = parse_vad("vad", &strs(&rendered)[1..]).unwrap();
    assert_eq!(render_vad(&reparsed), rendered);
}

#[test]
fn stats_bits_are_whole_numbers_from_2_to_32_by_exact_value() {
    assert!(parse_stats("stats", &["-b", "16.0"]).is_ok());
    assert!(parse_stats("stats", &["-x", "3.2e1"]).is_ok());
    assert!(parse_stats("stats", &["-b", "2"]).is_ok());
    for bad in ["2.5", "33", "0", "-4", "1e9", "inf"] {
        assert!(matches!(
            parse_stats("stats", &["-b", bad]).unwrap_err(),
            EffectCommandParseError::InvalidEffectConfig {
                source: EffectError::InvalidStats,
                ..
            }
        ));
    }
}

#[test]
fn stat_scale_must_be_above_zero() {
    assert!(parse_stat("stat", &["-s", "0.001"]).is_ok());
    for bad in ["-0", "0.0e5", "-2", "nan"] {
        assert!(matches!(
            parse_stat("stat", &["-s", bad]).unwrap_err(),
            EffectCommandParseError::InvalidEffectConfig {
                source: EffectError::InvalidStat,
                ..
            }
        ));
    }
}

#[test]
fn tempo_and_vad_ranges_follow_the_later_setting() {
    assert!(parse_tempo("tempo", &["100", "120", "30", "0"]).is_ok());
    assert!(parse_tempo("tempo", &["100.5"]).is_err());
    assert!(parse_tempo("tempo", &["1", "10", "30.01"]).is_err());
    assert!(parse_vad("vad", &["-t", "21", "-t", "0.5"]).is_ok());
    assert!(parse_vad("vad", &["-t", "0.5", "-t", "1.5"]).is_err());
}

#[test]
fn vol_limiter_needs_a_gain_of_magnitude_one() {
    assert!(parse_vol("vol", &["-1", "0.05"]).is_ok());
    assert_eq!(
        parse_vol("vol", &["2", "1"]).unwrap_err(),
        EffectCommandParseError::InvalidEffectConfig {
            effect: "vol",
            argument: "limiter-gain",
            source: EffectError::InvalidVolLimiterGain,
        }
    );
    assert_eq!(
        parse_vol("vol", &["inf"]).unwrap_err(),
        EffectCommandParseError::InvalidEffectConfig {
            effect: "vol",
            argument: "gain",
            source: EffectError::InvalidVolGain,
        }
    );
}

#[test]
fn vad_renders_the_settings_in_effect_in_fixed_order() {
    let parsed = parse_vad(
        "vad",
        &["-T", "0.01", "-t", "1", "-g", "0.1", "-p", "0.001", "-h", "1k", "-t", "0.5"],
    )
    .unwrap();
    assert_eq!(
        render_vad(&parsed),
        ["vad", "-h", "1000", "-T", "0.01", "-t", "0.5", "-g", "0.1", "-p", "0.001"]
    );
}

#[test]
fn vad_kilo_frequencies_render_as_plain_numbers() {
    let render = |value: &str| {
        let parsed = parse_vad("vad", &["-l", value]).unwrap();
        render_vad(&parsed)[2].clone()
    };
    assert_eq!(render("2.5k"), "2500");
    assert_eq!(render("0.0015K"), "1.5");
    assert_eq!(render("1.25e-3k"), "1.25");
    assert_eq!(render("0.00k"), "0");
    assert_eq!(render("12.000k"), "12000");
}

#[test]
fn tempo_renders_values_as_plain_decimals() {
    let parsed = parse_tempo("tempo", &["-s", "1.50", "6e1", "10.0"]).unwrap();
    let rendered = render_tempo(&parsed);
    assert_eq!(rendered, ["tempo", "-s", "1.5", "60", "10"]);
    let again: Vec<&str> = rendered[1..].iter().map(|s| s.as_str()).collect();
    assert_eq!(render_tempo(&parse_tempo("tempo", &again).unwrap()), rendered);
}

#[test]
fn vol_renders_values_as_plain_decimals() {
    let parsed = parse_vol("vol", &["2.50", "dB", "0.050"]).unwrap();
    let rendered = render_vol(&parsed);
    assert_eq!(rendered, ["vol", "2.5", "dB", "0.05"]);
    let again: Vec<&str> = rendered[1..].iter().map(|s| s.as_str()).collect();
    assert_eq!(render_vol(&parse_vol("vol", &again).unwrap()), rendered);
}
