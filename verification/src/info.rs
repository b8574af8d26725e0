//! The static descriptor of the oscillator engine.

use vstd::prelude::*;
use crate::synth::TriangleSynth;

verus! {

/// Number of input channels: the engine consumes no audio.
pub const INPUT_CHANNELS: i32 = 0;

/// Number of output channels.
pub const OUTPUT_CHANNELS: i32 = 2;

/// The identifier under which a host knows the engine.
pub const UNIQUE_ID: i32 = 135798642;

/// What kind of engine a descriptor describes.
#[derive(Clone, Copy, Debug, PartialEq, Eq, Structural)]
pub enum Category {
    /// Processes incoming audio.
    Effect,
    /// Produces audio from note events.
    Synth,
}

/// The descriptor that an engine hands to its host.
#[derive(Clone, Copy, Debug)]
pub struct EngineInfo {
    pub name: &'static str,
    pub vendor: &'static str,
    pub unique_id: i32,
    pub inputs: i32,
    pub outputs: i32,
    pub category: Category,
}

impl TriangleSynth {
    /// The engine's descriptor: a synthesizer without inputs and with two
    /// outputs.
    pub fn get_info(&self) -> (info: EngineInfo)
        ensures
            info.name@ == "TriangleSynth"@,
            info.vendor@ == ""@,
            info.unique_id == UNIQUE_ID,
            info.inputs == INPUT_CHANNELS,
            info.outputs == OUTPUT_CHANNELS,
            info.category == Category::Synth,
    {
        EngineInfo {
            name: "TriangleSynth",
            vendor: "",
            unique_id: UNIQUE_ID,
            inputs: INPUT_CHANNELS,
            outputs: OUTPUT_CHANNELS,
            category: Category::Synth,
        }
    }
}

} // verus!
