use gui_vst::parameters::{AtomicParameter, Parameters, PARAM_ONE};

#[test]
fn defaults_are_amplitude_point_three_and_half_pulse_width() {
    let params = Parameters::new();
    assert_eq!(params.amplitude.get(), 300_000);
    assert_eq!(params.pulse_width.get(), PARAM_ONE / 2);
}

#[test]
fn set_then_get_returns_the_value() {
    let p = AtomicParameter::new(0);
    p.set(750_000);
    assert_eq!(p.get(), 750_000);
}

#[test]
fn out_of_range_values_are_stored_as_is() {
    let p = AtomicParameter::new(0);
    p.set(2 * PARAM_ONE);
    assert_eq!(p.get(), 2_000_000);
    p.set(-5);
    assert_eq!(p.get(), -5);
}

#[test]
fn parameters_are_routed_by_index() {
    let params = Parameters::new();
    params.set_parameter(0, 100_000);
    params.set_parameter(1, 900_000);
    assert_eq!(params.get_parameter(0), 100_000);
    assert_eq!(params.get_parameter(1), 900_000);
    assert_eq!(params.amplitude.get(), 100_000);
    assert_eq!(params.pulse_width.get(), 900_000);
}

#[test]
fn unknown_parameter_index_reads_zero_and_ignores_writes() {
    let params = Parameters::new();
    params.set_parameter(2, 123);
    params.set_parameter(-1, 456);
    assert_eq!(params.get_parameter(2), 0);
    assert_eq!(params.get_parameter(-1), 0);
    assert_eq!(params.amplitude.get(), 300_000);
    assert_eq!(params.pulse_width.get(), 500_000);
}

#[test]
fn only_the_two_parameters_can_be_automated() {
    let params = Parameters::new();
    assert!(params.can_be_automated(0));
    assert!(params.can_be_automated(1));
    assert!(!params.can_be_automated(2));
    assert!(!params.can_be_automated(-1));
}

#[test]
fn writes_are_visible_through_a_shared_handle() {
    let params = std::sync::Arc::new(Parameters::new());
    let other = params.clone();
    other.amplitude.set(0);
    assert_eq!(params.amplitude.get(), 0);
}

#[test]
fn selector_picks_the_store_of_each_index() {
    let params = Parameters::new();
    assert!(std::ptr::eq(params.parameter(0).unwrap(), &params.amplitude));
    assert!(std::ptr::eq(params.parameter(1).unwrap(), &params.pulse_width));
    assert!(params.parameter(2).is_none());
    assert!(params.parameter(-1).is_none());
}
