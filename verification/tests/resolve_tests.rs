use slm_aim::dispatch::{Context, State};
use slm_aim::resolve::{base_stem, first_present, ResolveError};
use slm_aim::schema::{
    BasePattern, Config, CustomPattern, DefaultState, DirPath, LogLevel, Logging, Microscope,
    MqttConfig, PatternComputationConfig, PatternComputationDebug, PatternParams, SLMCalibScaling,
    ScreenConfig, SpotPattern,
};

fn spot_pattern() -> PatternParams {
    PatternParams::Spot {
        spot: SpotPattern {
            position_xy: (0, 0),
            diameter: 0,
            gradient_xy: (0, 0),
            background_gradient_xy: (0, 0),
        },
    }
}

fn context_with(extensions: &[&str]) -> Context {
    let config = Config {
        microscope: Microscope { serial_nr: "s".to_string() },
        dir_path: DirPath { base_patterns: "p".to_string(), flatness_corr_patterns: "f".to_string() },
        mqtt: MqttConfig { broker_ip: "localhost".to_string(), port: 1 },
        screen: ScreenConfig { size: (2, 2), fullscreen: true },
        compute_pattern: PatternComputationConfig {
            slm_calib_scaling: SLMCalibScaling { known_wavelengths: vec![], scale_factor_bits: vec![] },
            add_flatness_correction: false,
            debug: Some(PatternComputationDebug { save_computed_to_image: true }),
        },
        image_file_extensions: extensions.iter().map(|e| e.to_string()).collect(),
        logging: Logging { log_level: LogLevel::Debug },
        defaults: DefaultState { fresnel: 0, wavelength: 488, pattern: spot_pattern() },
    };
    Context::new(config, State { wavelength: 488, fresnel: 0, pattern_params: spot_pattern() })
}

fn gauss() -> BasePattern {
    BasePattern {
        filename: "gauss".to_string(),
        properties: vec![
            ("size".to_string(), "10".to_string()),
            ("shape".to_string(), "round".to_string()),
        ],
    }
}

#[test]
fn flatness_candidates_probe_factory_first() {
    let c = context_with(&[".png", ".bmp"]);
    assert_eq!(
        c.flatness_candidates(488),
        vec![
            "flatness_wavelength_488_factory.png".to_string(),
            "flatness_wavelength_488_factory.bmp".to_string(),
            "flatness_wavelength_488.png".to_string(),
            "flatness_wavelength_488.bmp".to_string(),
        ]
    );
    assert!(context_with(&[]).flatness_candidates(488).is_empty());
}

#[test]
fn flatness_file_is_the_first_present() {
    let c = context_with(&[".png", ".bmp"]);
    assert_eq!(
        c.get_file_path_for_flatness_corr_pattern(561, &vec![false, true, true, true]),
        Ok("flatness_wavelength_561_factory.bmp".to_string())
    );
    assert_eq!(
        c.get_file_path_for_flatness_corr_pattern(561, &vec![false, false, false, true]),
        Ok("flatness_wavelength_561.bmp".to_string())
    );
    assert_eq!(
        c.get_file_path_for_flatness_corr_pattern(561, &vec![false, false, false, false]),
        Err(ResolveError::NoFlatnessPattern { wavelength: 561 })
    );
    assert_eq!(
        c.get_file_path_for_flatness_corr_pattern(561, &vec![]),
        Err(ResolveError::NoFlatnessPattern { wavelength: 561 })
    );
}

#[test]
fn merged_correction_goes_to_the_plain_file() {
    let c = context_with(&[".png", ".bmp"]);
    assert_eq!(
        c.merged_correction_name(561, &vec![false, true, false, false]),
        Ok("flatness_wavelength_561.bmp".to_string())
    );
    assert_eq!(
        c.merged_correction_name(561, &vec![false, false, true, false]),
        Ok("flatness_wavelength_561.png".to_string())
    );
    assert_eq!(
        c.merged_correction_name(561, &vec![false, false]),
        Err(ResolveError::NoFlatnessPattern { wavelength: 561 })
    );
}

#[test]
fn base_pattern_names_follow_declared_order() {
    assert_eq!(base_stem(&gauss()), "gauss_size_10_shape_round");
    assert_eq!(
        base_stem(&BasePattern { filename: "plain".to_string(), properties: vec![] }),
        "plain"
    );
    let c = context_with(&["png", "bmp"]);
    assert_eq!(
        c.base_candidates(&gauss()),
        vec![
            "gauss_size_10_shape_round.png".to_string(),
            "gauss_size_10_shape_round.bmp".to_string()
        ]
    );
}

#[test]
fn pattern_file_by_kind() {
    let c = context_with(&["png", "bmp"]);
    let base = PatternParams::Base { base: gauss() };
    assert_eq!(
        c.get_file_path_for_base_corr_pattern(&base, &vec![true, true]),
        Ok("gauss_size_10_shape_round.png".to_string())
    );
    assert_eq!(
        c.get_file_path_for_base_corr_pattern(&base, &vec![false, true]),
        Ok("gauss_size_10_shape_round.bmp".to_string())
    );
    assert_eq!(
        c.get_file_path_for_base_corr_pattern(&base, &vec![false, false]),
        Err(ResolveError::NoBasePattern { stem: "gauss_size_10_shape_round".to_string() })
    );
    let custom = PatternParams::Custom { custom: CustomPattern { filename: "mine.png".to_string() } };
    assert_eq!(
        c.get_file_path_for_base_corr_pattern(&custom, &vec![]),
        Ok("mine.png".to_string())
    );
    assert_eq!(
        c.get_file_path_for_base_corr_pattern(&spot_pattern(), &vec![true]),
        Err(ResolveError::SpotHasNoFile)
    );
}

#[test]
fn first_present_stops_at_count() {
    assert_eq!(first_present(&vec![false, false, true], 3), Some(2));
    assert_eq!(first_present(&vec![false, false, true], 2), None);
    assert_eq!(first_present(&vec![true, true], 5), Some(0));
    assert_eq!(first_present(&vec![], 5), None);
}

#[test]
fn debug_image_only_when_asked() {
    let mut c = context_with(&[]);
    assert!(c.config.compute_pattern.saves_computed_image());
    c.config.compute_pattern.debug = Some(PatternComputationDebug { save_computed_to_image: false });
    assert!(!c.config.compute_pattern.saves_computed_image());
    c.config.compute_pattern.debug = None;
    assert!(!c.config.compute_pattern.saves_computed_image());
}
