use pso::config::{Config, ConfigError, Interval, Settings, Weights};
use pso::scalar::Scalar;

fn scalar(value: f64) -> Scalar {
    Scalar::from_bits(value.to_bits())
}

fn interval(min: f64, max: f64) -> Interval {
    Interval { min: scalar(min), max: scalar(max) }
}

fn usual_settings() -> Settings {
    Settings {
        particles: 15,
        iterations: 1000,
        weights: Weights { inertia: scalar(0.9), cognitive: scalar(1.0), social: scalar(1.0) },
        x: interval(-5.0, 5.0),
        y: interval(-5.0, 5.0),
        velocity: interval(-5.0, 5.0),
    }
}

fn fault_of(settings: Settings) -> Option<ConfigError> {
    match Config::new(settings) {
        Ok(_) => None,
        Err(e) => Some(e),
    }
}

#[test]
fn usual_settings_are_accepted_unchanged() {
    let settings = usual_settings();
    let config = Config::new(settings).expect("sound settings");
    assert_eq!(config.settings(), settings);
    assert_eq!(config.settings().particles, 15);
    assert_eq!(config.settings().iterations, 1000);
    assert_eq!(config.settings().weights.inertia, scalar(0.9));
}

#[test]
fn zero_particles_are_a_configuration_error() {
    let settings = Settings { particles: 0, ..usual_settings() };
    assert_eq!(fault_of(settings), Some(ConfigError::NoParticles));
}

#[test]
fn one_particle_is_enough() {
    let settings = Settings { particles: 1, ..usual_settings() };
    assert_eq!(fault_of(settings), None);
}

#[test]
fn zero_iterations_are_accepted() {
    let settings = Settings { iterations: 0, ..usual_settings() };
    assert_eq!(fault_of(settings), None);
}

#[test]
fn an_infinite_bound_is_refused() {
    let settings = Settings { x: interval(-5.0, f64::INFINITY), ..usual_settings() };
    assert_eq!(fault_of(settings), Some(ConfigError::NonFiniteBound));
    let settings = Settings { y: interval(f64::NEG_INFINITY, 5.0), ..usual_settings() };
    assert_eq!(fault_of(settings), Some(ConfigError::NonFiniteBound));
}

#[test]
fn a_nan_bound_is_refused() {
    let settings = Settings { velocity: interval(f64::NAN, 5.0), ..usual_settings() };
    assert_eq!(fault_of(settings), Some(ConfigError::NonFiniteBound));
    let settings = Settings { x: interval(-5.0, f64::NAN), ..usual_settings() };
    assert_eq!(fault_of(settings), Some(ConfigError::NonFiniteBound));
}

#[test]
fn an_empty_range_is_refused() {
    let settings = Settings { x: interval(5.0, 5.0), ..usual_settings() };
    assert_eq!(fault_of(settings), Some(ConfigError::EmptyRange));
    let settings = Settings { y: interval(5.0, -5.0), ..usual_settings() };
    assert_eq!(fault_of(settings), Some(ConfigError::EmptyRange));
    let settings = Settings { velocity: interval(0.0, -0.0), ..usual_settings() };
    assert_eq!(fault_of(settings), Some(ConfigError::EmptyRange));
}

#[test]
fn faults_are_reported_in_a_fixed_order() {
    let settings = Settings {
        particles: 0,
        x: interval(f64::NAN, 5.0),
        y: interval(5.0, -5.0),
        ..usual_settings()
    };
    assert_eq!(fault_of(settings), Some(ConfigError::NoParticles));
    let settings =
        Settings { x: interval(5.0, -5.0), y: interval(-5.0, f64::INFINITY), ..usual_settings() };
    assert_eq!(fault_of(settings), Some(ConfigError::NonFiniteBound));
}

#[test]
fn any_weights_are_accepted() {
    let settings = Settings {
        weights: Weights {
            inertia: scalar(f64::NAN),
            cognitive: scalar(f64::INFINITY),
            social: scalar(-3.0),
        },
        ..usual_settings()
    };
    assert_eq!(fault_of(settings), None);
}

#[test]
fn intervals_say_whether_they_can_be_drawn_from() {
    assert!(interval(-5.0, 5.0).is_bounded());
    assert!(interval(-5.0, 5.0).is_inhabited());
    assert!(interval(5.0, -5.0).is_bounded());
    assert!(!interval(5.0, -5.0).is_inhabited());
    assert!(!interval(0.0, f64::INFINITY).is_bounded());
    assert!(interval(0.0, f64::INFINITY).is_inhabited());
    assert!(!interval(f64::NAN, 1.0).is_inhabited());
}
