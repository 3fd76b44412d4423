pub mod midi_input_processor;
pub mod pitch;
pub mod parameters;
pub mod square_oscillator;
pub mod audio_engine;
pub mod synth;
pub mod editor_input;
