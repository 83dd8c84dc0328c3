use slm_aim::cache::ArrayCache;
use slm_aim::calibration::ScaleError;
use slm_aim::dispatch::{
    correction_done, initialize_state, last_will_message, lasers_request, patterns_report,
    prestack_done, state_report, Context, State,
};
use slm_aim::payload::Raster;
use slm_aim::plan::{BaseTerm, PatternPlan};
use slm_aim::resample::fit_to_shape;
use slm_aim::schema::{
    AimCommand, AvailablePatterns, BasePattern, BasePatternError, Config, CustomPattern,
    DefaultState, DirPath, LaserCommand, LogLevel, Logging, Message, MessageData, MessageType,
    Microscope, MqttConfig, PatternComputationConfig, PatternComputationDebug, PatternParams,
    SLMCalibScaling, ScreenConfig, SpotPattern,
};
use slm_aim::screen::put_pattern;

fn a_spot() -> SpotPattern {
    SpotPattern {
        position_xy: (3.0f32.to_bits(), 4.0f32.to_bits()),
        diameter: 2.0f32.to_bits(),
        gradient_xy: (0.1f32.to_bits(), 0.2f32.to_bits()),
        background_gradient_xy: (0.0f32.to_bits(), 0.0f32.to_bits()),
    }
}

fn a_config(add_flatness: bool, debug: Option<bool>) -> Config {
    Config {
        microscope: Microscope { serial_nr: "m1".to_string() },
        dir_path: DirPath { base_patterns: "p".to_string(), flatness_corr_patterns: "f".to_string() },
        mqtt: MqttConfig { broker_ip: "h".to_string(), port: 65535 },
        screen: ScreenConfig { size: (8, 6), fullscreen: false },
        compute_pattern: PatternComputationConfig {
            slm_calib_scaling: SLMCalibScaling {
                known_wavelengths: vec![450, 500, 550],
                scale_factor_bits: vec![1, 2, 3],
            },
            add_flatness_correction: add_flatness,
            debug: debug.map(|d| PatternComputationDebug { save_computed_to_image: d }),
        },
        image_file_extensions: vec![".png".to_string()],
        logging: Logging { log_level: LogLevel::Critical },
        defaults: DefaultState {
            fresnel: 2,
            wavelength: 530,
            pattern: PatternParams::Spot { spot: a_spot() },
        },
    }
}

#[test]
fn plan_of_a_spot_without_extras() {
    let config = a_config(false, None);
    let state = initialize_state(config.defaults.clone());
    assert_eq!(
        state,
        State { wavelength: 530, fresnel: 2, pattern_params: PatternParams::Spot { spot: a_spot() } }
    );
    let mut c = Context::new(config, state);
    c.update_state(None, Some(0), None);
    assert_eq!(
        c.pattern_plan(),
        PatternPlan {
            size: (8, 6),
            wavelength: 530,
            base: BaseTerm::Spot(a_spot()),
            flatness: None,
            fresnel: None,
            scale: Ok(3),
            save_image: false,
        }
    );
}

#[test]
fn plan_of_a_file_with_correction_and_lens() {
    let config = a_config(true, Some(true));
    let state = State {
        wavelength: 525,
        fresnel: 7,
        pattern_params: PatternParams::Base {
            base: BasePattern {
                filename: "gauss".to_string(),
                properties: vec![("size".to_string(), "10".to_string())],
            },
        },
    };
    let plan = Context::new(config, state).pattern_plan();
    assert_eq!(plan.base, BaseTerm::Probe(vec!["gauss_size_10..png".to_string()]));
    assert_eq!(
        plan.flatness,
        Some(vec![
            "flatness_wavelength_525_factory.png".to_string(),
            "flatness_wavelength_525.png".to_string()
        ])
    );
    assert_eq!(plan.fresnel, Some(7));
    assert_eq!(plan.scale, Ok(2));
    assert!(plan.save_image);
}

#[test]
fn plan_of_a_custom_pattern_without_table() {
    let mut config = a_config(false, Some(false));
    config.compute_pattern.slm_calib_scaling.known_wavelengths.clear();
    let state = State {
        wavelength: 525,
        fresnel: 0,
        pattern_params: PatternParams::Custom {
            custom: CustomPattern { filename: "mine.png".to_string() },
        },
    };
    let plan = Context::new(config, state).pattern_plan();
    assert_eq!(plan.base, BaseTerm::Custom("mine.png".to_string()));
    assert_eq!(plan.scale, Err(ScaleError::NoKnownWavelengths));
    assert!(!plan.save_image);
}

#[test]
fn planning_twice_gives_the_same_plan() {
    let c = Context::new(a_config(true, None), initialize_state(a_config(true, None).defaults));
    assert_eq!(c.pattern_plan(), c.pattern_plan());
}

#[test]
fn outbound_messages() {
    assert_eq!(
        lasers_request(),
        Message { m_type: MessageType::Device, data: MessageData::Lasers(LaserCommand::Get) }
    );
    assert_eq!(
        prestack_done(),
        Message {
            m_type: MessageType::Device,
            data: MessageData::Aim(AimCommand::Response { reply: "PreStack done".to_string() }),
        }
    );
    assert_eq!(
        correction_done(640),
        Message {
            m_type: MessageType::Device,
            data: MessageData::Aim(AimCommand::SetCorrectionPatternDeltasResponse {
                wavelength: 640,
                success: true
            }),
        }
    );
    assert_eq!(
        last_will_message(),
        Message { m_type: MessageType::Device, data: MessageData::Aim(AimCommand::Disconnect) }
    );
    assert_eq!(
        state_report(State {
            wavelength: 561,
            fresnel: 7,
            pattern_params: PatternParams::Spot { spot: a_spot() },
        }),
        Message {
            m_type: MessageType::Device,
            data: MessageData::Aim(AimCommand::CurrentState {
                wavelength: 561,
                fresnel: 7,
                pattern: PatternParams::Spot { spot: a_spot() },
            }),
        }
    );
    let catalog = AvailablePatterns { pattern_names: vec![], patterns: vec![] };
    assert_eq!(
        patterns_report(catalog.clone()),
        Message {
            m_type: MessageType::Device,
            data: MessageData::Aim(AimCommand::AvailablePatterns { patterns: catalog }),
        }
    );
}

#[test]
fn base_pattern_needs_exactly_one_entry() {
    assert_eq!(BasePattern::from_entries(vec![]), Err(BasePatternError::Empty));
    let entry = ("gauss".to_string(), vec![("size".to_string(), "10".to_string())]);
    assert_eq!(
        BasePattern::from_entries(vec![entry.clone()]),
        Ok(BasePattern { filename: entry.0.clone(), properties: entry.1.clone() })
    );
    assert_eq!(
        BasePattern::from_entries(vec![entry.clone(), entry]),
        Err(BasePatternError::Ambiguous)
    );
}

#[test]
fn cache_keeps_the_first_read_and_takes_overwrites() {
    let first = Raster { shape: [1, 2], samples: vec![1, 2] };
    let second = Raster { shape: [2, 1], samples: vec![3, 4] };
    let mut cache = ArrayCache::new();
    assert!(!cache.contains_key("a.png"));
    assert_eq!(cache.get("a.png"), None);
    cache.insert_if_absent("a.png", first.clone());
    cache.insert_if_absent("a.png", second.clone());
    assert_eq!(cache.get("a.png"), Some(&first));
    cache.insert("b.png", first.clone());
    cache.insert("a.png", second.clone());
    assert_eq!(cache.get("a.png"), Some(&second));
    assert_eq!(cache.get("b.png"), Some(&first));
    assert!(cache.contains_key("b.png"));
    assert!(!cache.contains_key("c.png"));
}

#[test]
fn fitting_pads_with_zero_and_crops() {
    let image = vec![1, 2, 3, 4, 5, 6];
    assert_eq!(fit_to_shape(&image, [2, 3], [2, 3]), image);
    assert_eq!(fit_to_shape(&image, [2, 3], [3, 4]), vec![1, 2, 3, 0, 4, 5, 6, 0, 0, 0, 0, 0]);
    assert_eq!(fit_to_shape(&image, [2, 3], [1, 2]), vec![1, 2]);
    assert_eq!(fit_to_shape(&image, [2, 3], [3, 1]), vec![1, 4, 0]);
    assert_eq!(fit_to_shape(&image, [2, 3], [0, 5]), Vec::<u8>::new());
    assert_eq!(fit_to_shape(&Vec::new(), [0, 0], [1, 2]), vec![0, 0]);
}

#[test]
fn pattern_is_laid_into_the_colour_bytes() {
    // a frame 3 wide and 2 high; the pattern holds column after column
    let pattern = vec![10, 11, 20, 21, 30, 31];
    let mut pixels = vec![255u8; 24];
    put_pattern(&mut pixels, (3, 2), &pattern);
    assert_eq!(
        pixels,
        vec![
            10, 10, 10, 255, 20, 20, 20, 255, 30, 30, 30, 255, 11, 11, 11, 255, 21, 21, 21, 255,
            31, 31, 31, 255
        ]
    );
    let mut nothing: Vec<u8> = Vec::new();
    put_pattern(&mut nothing, (0, 5), &Vec::new());
    assert!(nothing.is_empty());
}
