use std::sync::atomic::{AtomicI32, Ordering};
use vstd::prelude::*;

verus! {

/// Parameter values are fixed-point numbers counted in millionths: `PARAM_ONE` stands for 1.0.
pub const PARAM_ONE: i32 = 1_000_000;

/// Index of the amplitude parameter.
pub const AMPLITUDE_INDEX: i32 = 0;

/// Index of the pulse-width parameter.
pub const PULSE_WIDTH_INDEX: i32 = 1;

/// A single parameter value shared between the audio path and the control path.
///
/// Reads and writes are single-word atomic operations, so a reader never blocks and never
/// observes a torn value. Since another thread may write at any moment, nothing is promised
/// about which value a read returns.
pub struct AtomicParameter {
    value: AtomicI32,
}

impl AtomicParameter {
    pub fn new(value: i32) -> (r: Self) {
        Self { value: AtomicI32::new(value) }
    }

    /// The most recently stored value.
    pub fn get(&self) -> (r: i32) {
        self.value.load(Ordering::Relaxed)
    }

    /// Stores `value` as it is; no range check is made.
    pub fn set(&self, value: i32) {
        self.value.store(value, Ordering::Relaxed);
    }
}

/// The plug-in's adjustable values: amplitude and pulse width, both nominally in `[0, 1]`.
pub struct Parameters {
    pub amplitude: AtomicParameter,
    pub pulse_width: AtomicParameter,
}

/// Whether `index` names one of the two parameters.
pub open spec fn is_parameter_index(index: i32) -> bool {
    index == AMPLITUDE_INDEX || index == PULSE_WIDTH_INDEX
}

impl Parameters {
    /// Amplitude 0.3 and pulse width 0.5.
    pub fn new() -> (r: Self) {
        Self {
            amplitude: AtomicParameter::new(300_000),
            pulse_width: AtomicParameter::new(PARAM_ONE / 2),
        }
    }

    /// The store of the parameter at `index`: 0 amplitude, 1 pulse width, none for any other.
    pub fn parameter(&self, index: i32) -> (r: Option<&AtomicParameter>)
        ensures
            index == AMPLITUDE_INDEX ==> r == Some(&self.amplitude),
            index == PULSE_WIDTH_INDEX ==> r == Some(&self.pulse_width),
            !is_parameter_index(index) ==> r is None,
    {
        if index == AMPLITUDE_INDEX {
            Some(&self.amplitude)
        } else if index == PULSE_WIDTH_INDEX {
            Some(&self.pulse_width)
        } else {
            None
        }
    }

    /// Reads the parameter at `index` (0 amplitude, 1 pulse width); any other index reads 0.
    pub fn get_parameter(&self, index: i32) -> (r: i32)
        ensures
            !is_parameter_index(index) ==> r == 0,
    {
        match self.parameter(index) {
            Some(store) => store.get(),
            None => 0,
        }
    }

    /// Writes the parameter at `index` (0 amplitude, 1 pulse width); any other index is ignored.
    pub fn set_parameter(&self, index: i32, value: i32) {
        match self.parameter(index) {
            Some(store) => store.set(value),
            None => {},
        }
    }

    /// Both parameters can be automated by the host; no other index exists.
    pub fn can_be_automated(&self, index: i32) -> (r: bool)
        ensures
            r == is_parameter_index(index),
    {
        index == AMPLITUDE_INDEX || index == PULSE_WIDTH_INDEX
    }
}

} // verus!
