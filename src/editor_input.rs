use vstd::prelude::*;

use crate::parameters::{AMPLITUDE_INDEX, PARAM_ONE, PULSE_WIDTH_INDEX};

verus! {

/// Left edge, in pixels, of both parameter sliders of the editor window.
pub const SLIDER_LEFT: i32 = 50;

/// Width of a slider in pixels; a slider spans `SLIDER_LEFT ..= SLIDER_LEFT + SLIDER_WIDTH`.
pub const SLIDER_WIDTH: i32 = 900;

/// Height of a slider in pixels.
pub const SLIDER_HEIGHT: i32 = 100;

/// Top edge of the amplitude slider.
pub const AMPLITUDE_SLIDER_TOP: i32 = 300;

/// Top edge of the pulse-width slider.
pub const PULSE_WIDTH_SLIDER_TOP: i32 = 600;

/// The mouse button that drags sliders.
pub const LEFT_BUTTON: u8 = 1;

/// The slider being dragged, if any.
#[derive(PartialEq, Eq, Structural, Clone, Copy, Debug)]
pub enum ActiveElement {
    Idle,
    Amplitude,
    PulseWidth,
}

/// A pointer event of the editor window, in window coordinates.
#[derive(PartialEq, Eq, Structural, Clone, Copy, Debug)]
pub enum MouseEvent {
    ButtonPress { button: u8, x: i32, y: i32 },
    Motion { x: i32, y: i32 },
    ButtonRelease { button: u8 },
}

/// A new value for the parameter at `index`.
#[derive(PartialEq, Eq, Structural, Clone, Copy, Debug)]
pub struct ParameterChange {
    pub index: i32,
    pub value: i32,
}

/// Whether the point `(x, y)` lies on the slider whose top edge is `top` (edges included).
pub open spec fn on_slider(top: int, x: int, y: int) -> bool {
    &&& top <= y <= top + SLIDER_HEIGHT
    &&& SLIDER_LEFT <= x <= SLIDER_LEFT + SLIDER_WIDTH
}

/// The parameter value under horizontal position `x`: 0 at the slider's left edge, `PARAM_ONE`
/// at its right edge, linear (rounded down) in between and held at the ends beyond them.
pub open spec fn slider_value_at(x: int) -> int {
    if x < SLIDER_LEFT {
        0
    } else if x <= SLIDER_LEFT + SLIDER_WIDTH {
        (x - SLIDER_LEFT) * PARAM_ONE / (SLIDER_WIDTH as int)
    } else {
        PARAM_ONE as int
    }
}

/// The parameter that a slider sets.
pub open spec fn slider_index(active: ActiveElement) -> int {
    match active {
        ActiveElement::Amplitude => AMPLITUDE_INDEX as int,
        ActiveElement::PulseWidth => PULSE_WIDTH_INDEX as int,
        ActiveElement::Idle => -1,
    }
}

/// The parameter value under horizontal position `x` of a slider.
pub fn slider_value(x: i32) -> (r: i32)
    ensures
        r == slider_value_at(x as int),
        0 <= r <= PARAM_ONE,
{
    if x < SLIDER_LEFT {
        0
    } else if x <= SLIDER_LEFT + SLIDER_WIDTH {
        let offset: i64 = (x - SLIDER_LEFT) as i64;
        assert(0 <= offset * 1_000_000 <= 900 * 1_000_000) by (nonlinear_arith)
            requires
                0 <= offset <= 900,
        ;
        assert(offset * 1_000_000 / 900 <= 1_000_000) by (nonlinear_arith)
            requires
                0 <= offset * 1_000_000 <= 900 * 1_000_000,
        ;
        (offset * PARAM_ONE as i64 / SLIDER_WIDTH as i64) as i32
    } else {
        PARAM_ONE
    }
}

/// The share `value / PARAM_ONE` of the slider width, rounded down, held to `[0, u16::MAX]`.
pub open spec fn fill_width_of(value: int) -> int {
    if value <= 0 {
        0
    } else {
        let w = value * (SLIDER_WIDTH as int) / (PARAM_ONE as int);
        if w > u16::MAX {
            u16::MAX as int
        } else {
            w
        }
    }
}

/// Width in pixels of the filled part of a slider showing `value`: the value's share of the
/// slider width, rounded toward zero, 0 for a value at or below 0 and at most `u16::MAX`.
pub fn slider_fill_width(value: i32) -> (r: u16)
    ensures
        r == fill_width_of(value as int),
{
    if value <= 0 {
        0
    } else {
        assert(0 < value * 900 <= 0x7fff_ffff * 900) by (nonlinear_arith)
            requires
                0 < value <= 0x7fff_ffff,
        ;
        let scaled: i64 = value as i64 * SLIDER_WIDTH as i64 / PARAM_ONE as i64;
        if scaled > u16::MAX as i64 {
            u16::MAX
        } else {
            scaled as u16
        }
    }
}

/// Decides what a pointer event does to the sliders. A left-button press on a slider starts
/// dragging it and sets its parameter from the pointer position; pointer motion while a slider
/// is dragged sets that slider's parameter, held to `[0, PARAM_ONE]` beyond the slider's ends;
/// releasing any button ends the drag. Everything else changes nothing.
pub fn handle_mouse_event(active: ActiveElement, event: MouseEvent) -> (r: (
    ActiveElement,
    Option<ParameterChange>,
))
    ensures
        match event {
            MouseEvent::ButtonPress { button, x, y } => if button == LEFT_BUTTON && on_slider(
                AMPLITUDE_SLIDER_TOP as int,
                x as int,
                y as int,
            ) {
                r == (ActiveElement::Amplitude, Some(
                    ParameterChange { index: AMPLITUDE_INDEX, value: slider_value_at(x as int) as i32 },
                ))
            } else if button == LEFT_BUTTON && on_slider(
                PULSE_WIDTH_SLIDER_TOP as int,
                x as int,
                y as int,
            ) {
                r == (ActiveElement::PulseWidth, Some(
                    ParameterChange { index: PULSE_WIDTH_INDEX, value: slider_value_at(x as int) as i32 },
                ))
            } else {
                r == (active, None::<ParameterChange>)
            },
            MouseEvent::Motion { x, y } => if active == ActiveElement::Idle {
                r == (active, None::<ParameterChange>)
            } else {
                r == (active, Some(
                    ParameterChange {
                        index: slider_index(active) as i32,
                        value: slider_value_at(x as int) as i32,
                    },
                ))
            },
            MouseEvent::ButtonRelease { button } => r == (ActiveElement::Idle, None::<
                ParameterChange,
            >),
        },
{
    match event {
        MouseEvent::ButtonPress { button, x, y } => {
            let inside_x = x >= SLIDER_LEFT && x <= SLIDER_LEFT + SLIDER_WIDTH;
            if button == LEFT_BUTTON && inside_x && y >= AMPLITUDE_SLIDER_TOP && y
                <= AMPLITUDE_SLIDER_TOP + SLIDER_HEIGHT {
                (
                    ActiveElement::Amplitude,
                    Some(ParameterChange { index: AMPLITUDE_INDEX, value: slider_value(x) }),
                )
            } else if button == LEFT_BUTTON && inside_x && y >= PULSE_WIDTH_SLIDER_TOP && y
                <= PULSE_WIDTH_SLIDER_TOP + SLIDER_HEIGHT {
                (
                    ActiveElement::PulseWidth,
                    Some(ParameterChange { index: PULSE_WIDTH_INDEX, value: slider_value(x) }),
                )
            } else {
                (active, None)
            }
        },
        MouseEvent::Motion { x, y } => match active {
            ActiveElement::Amplitude => (
                active,
                Some(ParameterChange { index: AMPLITUDE_INDEX, value: slider_value(x) }),
            ),
            ActiveElement::PulseWidth => (
                active,
                Some(ParameterChange { index: PULSE_WIDTH_INDEX, value: slider_value(x) }),
            ),
            ActiveElement::Idle => (active, None),
        },
        MouseEvent::ButtonRelease { button } => (ActiveElement::Idle, None),
    }
}

} // verus!
