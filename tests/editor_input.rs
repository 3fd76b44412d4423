use gui_vst::editor_input::{
    handle_mouse_event, slider_fill_width, slider_value, ActiveElement, MouseEvent, ParameterChange,
};

#[test]
fn slider_value_spans_the_slider() {
    assert_eq!(slider_value(50), 0);
    assert_eq!(slider_value(500), 500_000);
    assert_eq!(slider_value(950), 1_000_000);
    assert_eq!(slider_value(51), 1_111);
}

#[test]
fn slider_value_is_held_beyond_the_ends() {
    assert_eq!(slider_value(-20), 0);
    assert_eq!(slider_value(49), 0);
    assert_eq!(slider_value(951), 1_000_000);
    assert_eq!(slider_value(i32::MAX), 1_000_000);
}

#[test]
fn fill_width_is_share_of_slider() {
    assert_eq!(slider_fill_width(0), 0);
    assert_eq!(slider_fill_width(-400_000), 0);
    assert_eq!(slider_fill_width(500_000), 450);
    assert_eq!(slider_fill_width(1_000_000), 900);
    assert_eq!(slider_fill_width(300_000), 270);
    assert_eq!(slider_fill_width(i32::MAX), u16::MAX);
}

#[test]
fn press_on_amplitude_slider_starts_dragging_it() {
    let (state, change) =
        handle_mouse_event(ActiveElement::Idle, MouseEvent::ButtonPress { button: 1, x: 500, y: 350 });
    assert_eq!(state, ActiveElement::Amplitude);
    assert_eq!(change, Some(ParameterChange { index: 0, value: 500_000 }));
}

#[test]
fn press_on_pulse_width_slider_starts_dragging_it() {
    let (state, change) =
        handle_mouse_event(ActiveElement::Idle, MouseEvent::ButtonPress { button: 1, x: 950, y: 700 });
    assert_eq!(state, ActiveElement::PulseWidth);
    assert_eq!(change, Some(ParameterChange { index: 1, value: 1_000_000 }));
}

#[test]
fn press_elsewhere_or_with_other_button_changes_nothing() {
    let outside = MouseEvent::ButtonPress { button: 1, x: 500, y: 500 };
    assert_eq!(handle_mouse_event(ActiveElement::Idle, outside), (ActiveElement::Idle, None));
    let right = MouseEvent::ButtonPress { button: 3, x: 500, y: 350 };
    assert_eq!(handle_mouse_event(ActiveElement::Idle, right), (ActiveElement::Idle, None));
    let left_of = MouseEvent::ButtonPress { button: 1, x: 49, y: 350 };
    assert_eq!(handle_mouse_event(ActiveElement::PulseWidth, left_of), (ActiveElement::PulseWidth, None));
}

#[test]
fn motion_while_dragging_sets_clamped_value() {
    let (state, change) = handle_mouse_event(ActiveElement::PulseWidth, MouseEvent::Motion { x: 2000, y: 0 });
    assert_eq!(state, ActiveElement::PulseWidth);
    assert_eq!(change, Some(ParameterChange { index: 1, value: 1_000_000 }));
    let (_, change) = handle_mouse_event(ActiveElement::Amplitude, MouseEvent::Motion { x: -5, y: 900 });
    assert_eq!(change, Some(ParameterChange { index: 0, value: 0 }));
    let (_, change) = handle_mouse_event(ActiveElement::Amplitude, MouseEvent::Motion { x: 320, y: 900 });
    assert_eq!(change, Some(ParameterChange { index: 0, value: 300_000 }));
}

#[test]
fn motion_without_drag_changes_nothing() {
    assert_eq!(
        handle_mouse_event(ActiveElement::Idle, MouseEvent::Motion { x: 500, y: 350 }),
        (ActiveElement::Idle, None)
    );
}

#[test]
fn release_ends_the_drag() {
    assert_eq!(
        handle_mouse_event(ActiveElement::Amplitude, MouseEvent::ButtonRelease { button: 1 }),
        (ActiveElement::Idle, None)
    );
    assert_eq!(
        handle_mouse_event(ActiveElement::PulseWidth, MouseEvent::ButtonRelease { button: 2 }),
        (ActiveElement::Idle, None)
    );
}
