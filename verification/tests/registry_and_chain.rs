use auralis_effects::chain::{parse_effect_chain, EffectChainParseError, EffectCommand};
use auralis_effects::command::EffectCommandParseError;
use auralis_effects::effects::{
    Downsample, Hilbert, NoiseProf, RemixSource, Repeat, Upsample, MAX_DOWNSAMPLE_FACTOR,
    MAX_FINITE_REPEAT_COUNT,
};
use auralis_effects::error::EffectError;
use auralis_effects::numbers::{parse_i32_text, parse_u32_text, parse_u64_text, IntegerError};
use auralis_effects::registry::{
    edit_distance, resolve_effect_name, EffectKind, EffectNameError, EffectRegistry,
};

fn chars(s: &str) -> Vec<char> {
    s.chars().collect()
}

#[test]
fn resolves_canonical_names_and_aliases() {
    let gain = EffectRegistry::resolve("gain").unwrap();
    assert_eq!(gain.kind(), EffectKind::Gain);
    assert_eq!(gain.canonical_name(), "gain");

    let dc = resolve_effect_name("dc-shift").unwrap();
    assert_eq!(dc.kind(), EffectKind::DcShift);
    assert_eq!(dc.canonical_name(), "dcshift");
    assert!(dc.aliases().contains(&"dc_shift"));

    assert_eq!(
        EffectRegistry::resolve("volume").unwrap().kind(),
        EffectKind::Vol
    );
}

#[test]
fn reports_empty_unsupported_and_unknown_names() {
    assert_eq!(
        EffectRegistry::resolve("").unwrap_err(),
        EffectNameError::EmptyName
    );
    assert_eq!(
        EffectRegistry::resolve("bandreject").unwrap_err(),
        EffectNameError::UnsupportedSoxNgEffect {
            name: "bandreject".to_owned(),
        }
    );
    assert!(EffectRegistry::is_known_sox_ng_effect("bandreject"));
    assert!(!EffectRegistry::is_known_sox_ng_effect("gainz"));

    let unknown = EffectRegistry::resolve("gian").unwrap_err();
    assert!(matches!(unknown, EffectNameError::UnknownEffect { .. }));
    assert_eq!(unknown.suggestions()[0], "gain");
    assert!(unknown.message().starts_with("unknown effect `gian`; did you mean"));
    assert_eq!(
        EffectNameError::EmptyName.message(),
        "effect name cannot be empty"
    );
}

#[test]
fn suggestions_are_limited_and_ranked() {
    let error = EffectRegistry::resolve("revers").unwrap_err();
    let suggestions = error.suggestions();
    assert!(!suggestions.is_empty());
    assert!(suggestions.len() <= 3);
    assert_eq!(suggestions[0], "reverb");
    assert!(suggestions.contains(&"reverse"));
    assert_eq!(
        EffectRegistry::resolve("qqqqqqqqqqqqqqqqqqqq")
            .unwrap_err()
            .suggestions()
            .len(),
        0
    );
}

#[test]
fn edit_distance_counts_insertions_deletions_and_substitutions() {
    assert_eq!(edit_distance(&chars("kitten"), &chars("sitting")), 3);
    assert_eq!(edit_distance(&chars(""), &chars("abc")), 3);
    assert_eq!(edit_distance(&chars("gain"), &chars("gain")), 0);
    assert_eq!(edit_distance(&chars("flaw"), &chars("lawn")), 2);
}

#[test]
fn registry_tables_have_their_sizes() {
    assert_eq!(EffectRegistry::supported_effects().len(), 54);
    assert_eq!(EffectRegistry::known_sox_ng_effects().len(), 66);
    let names: Vec<&str> = EffectRegistry::supported_effects()
        .iter()
        .map(|d| d.canonical_name())
        .collect();
    assert_eq!(names.first(), Some(&"allpass"));
    assert_eq!(names.last(), Some(&"vol"));
    for name in &names {
        assert_eq!(EffectRegistry::resolve(name).unwrap().canonical_name(), *name);
    }
}

#[test]
fn chain_splits_commands_at_names_and_boundaries() {
    let chain = parse_effect_chain(&["gain", "-3", ":", "dc-shift", "0.1", "reverse"]).unwrap();
    assert_eq!(chain.len(), 3);
    assert_eq!(chain.boundaries()[0].before_command(), 1);
    assert_eq!(chain.commands()[1].kind(), EffectKind::DcShift);
    assert_eq!(chain.commands()[1].args(), ["0.1"]);
    assert_eq!(
        chain.render_tokens(),
        ["gain", "-3", ":", "dcshift", "0.1", "reverse"]
    );
    let tokens = chain.render_tokens();
    let again: Vec<&str> = tokens.iter().map(String::as_str).collect();
    assert_eq!(parse_effect_chain(&again).unwrap(), chain);
}

#[test]
fn chain_reports_errors_by_token_index() {
    assert_eq!(
        parse_effect_chain(&[":", "gain", "1"]).unwrap_err(),
        EffectChainParseError::EmptyBoundaryChain { index: 0 }
    );
    assert_eq!(
        parse_effect_chain(&["gain", "1", ":", ":"]).unwrap_err(),
        EffectChainParseError::EmptyBoundaryChain { index: 3 }
    );
    assert_eq!(
        parse_effect_chain(&["reverse", "x"]).unwrap_err(),
        EffectChainParseError::CommandParseFailed {
            index: 0,
            command: "reverse x".to_owned(),
            source: EffectCommandParseError::UnexpectedArgument {
                effect: "reverse",
                argument: "x".to_owned(),
            },
        }
    );
    assert!(matches!(
        parse_effect_chain(&["gian"]).unwrap_err(),
        EffectChainParseError::CommandParseFailed {
            index: 0,
            source: EffectCommandParseError::EffectName(EffectNameError::UnknownEffect { .. }),
            ..
        }
    ));
    assert!(parse_effect_chain(&[]).unwrap().is_empty());
}

#[test]
fn downsample_accepts_factor_one() {
    assert_eq!(Downsample::new(1).unwrap().factor, 1);
}

#[test]
fn rejects_factor_outside_sox_ng_range() {
    assert_eq!(
        Downsample::new(0).unwrap_err(),
        EffectError::InvalidDownsampleFactor
    );
    assert_eq!(
        Downsample::new(MAX_DOWNSAMPLE_FACTOR + 1).unwrap_err(),
        EffectError::InvalidDownsampleFactor
    );
    assert_eq!(Downsample::default_factor().factor, 2);
    assert_eq!(Upsample::default_factor().factor, 2);
}

#[test]
fn repeat_accepts_zero_count() {
    assert_eq!(Repeat::new(0).unwrap().count, 0);
    assert_eq!(Repeat::default_count().count, 1);
}

#[test]
fn rejects_count_above_sox_ng_finite_range() {
    assert_eq!(
        Repeat::new(MAX_FINITE_REPEAT_COUNT + 1).unwrap_err(),
        EffectError::InvalidRepeatCount
    );
    assert!(Repeat::new(MAX_FINITE_REPEAT_COUNT).is_ok());
}

#[test]
fn validates_sox_ng_tap_range_and_oddness() {
    assert_eq!(
        Hilbert::with_taps(1).unwrap_err(),
        EffectError::InvalidHilbert
    );
    assert_eq!(
        Hilbert::with_taps(4).unwrap_err(),
        EffectError::InvalidHilbert
    );
    assert!(Hilbert::with_taps(5).is_ok());
    assert_eq!(Hilbert::with_taps(5).unwrap().taps(), Some(5));
    assert_eq!(Hilbert::default_taps().taps(), None);
}

#[test]
fn rejects_empty_output_path() {
    assert_eq!(
        NoiseProf::new(Some(String::new())).unwrap_err(),
        EffectError::InvalidNoiseProfile
    );
    assert_eq!(NoiseProf::stdout().output_path(), None);
    assert_eq!(
        NoiseProf::new(Some("profile.txt".to_owned()))
            .unwrap()
            .output_path(),
        Some("profile.txt")
    );
}

#[test]
fn remix_sources_are_one_based() {
    assert!(RemixSource::channel(0).is_err());
    assert!(RemixSource::channel(1).is_ok());
    assert!(RemixSource::range(Some(3), Some(2)).is_ok());
    assert!(RemixSource::range(Some(0), Some(3)).is_err());
    assert!(RemixSource::range(None, None).is_err());
    assert_eq!(
        RemixSource::all(),
        RemixSource::Range {
            start: None,
            end: None,
        }
    );
}

#[test]
fn integers_follow_rust_parsing_rules() {
    assert_eq!(parse_u32_text("4294967295"), Ok(u32::MAX));
    assert_eq!(parse_u32_text("4294967296"), Err(IntegerError::PosOverflow));
    assert_eq!(parse_u32_text(""), Err(IntegerError::Empty));
    assert_eq!(parse_u32_text("+"), Err(IntegerError::InvalidDigit));
    assert_eq!(parse_u64_text("+18"), Ok(18));
    assert_eq!(parse_i32_text("-2147483648"), Ok(i32::MIN));
    assert_eq!(parse_i32_text("-2147483649"), Err(IntegerError::NegOverflow));
    assert_eq!(parse_i32_text("12a"), Err(IntegerError::InvalidDigit));
}

#[test]
fn error_messages_name_the_failure() {
    assert_eq!(
        EffectCommandParseError::MissingArgument {
            effect: "trim",
            argument: "position",
        }
        .message(),
        "effect `trim` requires argument `position`"
    );
    assert!(!EffectError::InvalidSilence.message().is_empty());
}

#[test]
fn effect_command_parse_resolves_and_checks_arguments() {
    let command = EffectCommand::parse("dc_shift", &["0.1"]).unwrap();
    assert_eq!(command.kind(), EffectKind::DcShift);
    assert_eq!(command.name(), "dcshift");
    assert_eq!(command.args(), ["0.1"]);
    assert_eq!(command.render_tokens(), ["dcshift", "0.1"]);

    assert_eq!(
        EffectCommand::parse("trim", &[]).unwrap_err(),
        EffectCommandParseError::MissingArgument {
            effect: "trim",
            argument: "position",
        }
    );
    assert!(matches!(
        EffectCommand::parse("nope", &[]).unwrap_err(),
        EffectCommandParseError::EffectName(EffectNameError::UnknownEffect { .. })
    ));
}

#[test]
fn suggestions_are_deterministic() {
    let first = EffectRegistry::resolve("tremelo").unwrap_err();
    let second = EffectRegistry::resolve("tremelo").unwrap_err();
    assert_eq!(first, second);
    assert_eq!(first.suggestions()[0], "tremolo");
}

#[test]
fn parsed_chains_have_no_empty_segments() {
    let chain =
        parse_effect_chain(&["gain", "1", ":", "reverse", ":", "swap", "riaa", ":", "gain", "2"])
            .unwrap();
    let boundaries: Vec<usize> = chain.boundaries().iter().map(|b| b.before_command()).collect();
    assert_eq!(boundaries, [1, 2, 4]);
    assert_eq!(chain.len(), 5);
    assert!(parse_effect_chain(&["gain", "1", ":"]).is_err());
}

#[test]
fn supported_effects_are_listed_in_canonical_name_order() {
    let names: Vec<&str> = EffectRegistry::supported_effects()
        .iter()
        .map(|d| d.canonical_name())
        .collect();
    let mut sorted = names.clone();
    sorted.sort();
    assert_eq!(names, sorted);
    assert!(names.iter().position(|n| *n == "bandpass") < names.iter().position(|n| *n == "bend"));
}

#[test]
fn every_alias_resolves_to_the_descriptor_listing_it() {
    for descriptor in EffectRegistry::supported_effects() {
        for alias in descriptor.aliases() {
            let resolved = EffectRegistry::resolve(alias).unwrap();
            assert_eq!(resolved.canonical_name(), descriptor.canonical_name());
        }
    }
    assert_eq!(resolve_effect_name("normalise").unwrap().canonical_name(), "norm");
}

#[test]
fn defaults_match_the_sox_ng_default_constructors() {
    assert_eq!(Downsample::default(), Downsample::default_factor());
    assert_eq!(Repeat::default(), Repeat::default_count());
    assert_eq!(Hilbert::default(), Hilbert::default_taps());
    assert_eq!(Hilbert::default().taps(), None);
    assert_eq!(NoiseProf::default(), NoiseProf::stdout());
}
