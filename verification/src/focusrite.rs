//! The data model of a Focusrite Control device profile (the `<device>` document).
use vstd::prelude::*;

use crate::compat::UnixTimestamp;

verus! {

/// A device profile: the state of one interface's outputs, inputs and settings.
#[derive(Debug, PartialEq, Eq)]
pub struct Device {
    pub timestamp: UnixTimestamp,
    pub outputs: DeviceOutputs,
    pub record_outputs: RecordOutputs,
    pub inputs: DeviceInputs,
    pub settings: DeviceSettings,
    pub clocking: DeviceClocking,
    pub monitoring: DeviceMonitoring,
}

/// The `<outputs>` element: the device's outputs, in document order.
#[derive(Debug, PartialEq, Eq)]
pub struct DeviceOutputs {
    pub v: Vec<Output>,
}

/// One output of a device.
#[derive(Debug, PartialEq, Eq)]
pub enum Output {
    Analog(AnalogOutput),
    SpdifRca(SpdifRcaOutput),
    Loopback(LoopbackOutput),
}

/// An analogue line or headphone output.
#[derive(Debug, PartialEq, Eq)]
pub struct AnalogOutput {
    pub stereo: bool,
    pub mute: bool,
    pub source: Option<String>,
    pub nickname: String,
    pub gain: i16,
    pub hardware_control: bool,
}

/// An S/PDIF output on an RCA connector.
#[derive(Debug, PartialEq, Eq)]
pub struct SpdifRcaOutput {
    pub stereo: bool,
    pub mute: bool,
    pub source: Option<String>,
    pub nickname: String,
}

/// A loopback output, which feeds back into the computer.
#[derive(Debug, PartialEq, Eq)]
pub struct LoopbackOutput {
    pub stereo: bool,
    pub mute: bool,
    pub source: Option<String>,
    pub nickname: String,
}

/// A set of `<record/>` elements for defining record output settings.
#[derive(Debug, PartialEq, Eq)]
pub struct RecordOutputs {
    v: Vec<RecordOutput>,
}

/// Record outputs seem to be Windows-specific types, as essentially each application is on its
/// own for managing these things, as opposed to macOS and Linux having subsystems for these,
/// e.g. ALSA, Pipewire.
///
/// Some instances of these are simply blank and this appears to be the case when stereo is
/// used, things are picked up from the previous record output.
#[derive(Debug, PartialEq, Eq)]
pub struct RecordOutput {
    /// This appears to reference a specific analog input.
    pub hardware_input: Option<u8>,
    /// Unsure exactly what this means: does `m` mean `monitor`?
    pub hardware_input_m: Option<u8>,
    /// Unsure exactly what this means: does `h` mean `headphones`?
    pub hardware_input_h: Option<u8>,
}

/// A set of input configurations of various types.
#[derive(Debug, PartialEq, Eq)]
pub struct DeviceInputs {
    v: Vec<Input>,
}

/// Representation of an individual input of an arbitrary type.
#[derive(Debug, PartialEq, Eq)]
pub enum Input {
    Analog(AnalogInput),
    Adat(AdatInput),
    Playback(PlaybackInput),
    SpdifRca(SpdifRcaInput),
}

/// An analogue (microphone, line or instrument) input.
#[derive(Debug, PartialEq, Eq)]
pub struct AnalogInput {
    pub nickname: String,
    pub air: Option<bool>,
    pub pad: Option<bool>,
    pub mode: Option<AnalogInputMode>,
}

/// The level an analogue input is set up for.
#[derive(Clone, Copy, Debug, PartialEq, Eq, Structural)]
pub enum AnalogInputMode {
    Line,
    Instrument,
}

/// An S/PDIF input on an RCA connector.
#[derive(Debug, PartialEq, Eq)]
pub struct SpdifRcaInput {
    pub nickname: String,
}

/// An ADAT (optical) input.
#[derive(Debug, PartialEq, Eq)]
pub struct AdatInput {
    pub nickname: String,
}

/// A software playback channel used as an input.
#[derive(Debug, PartialEq, Eq)]
pub struct PlaybackInput {
    pub nickname: String,
}

/// Device-wide settings.
#[derive(Debug, PartialEq, Eq)]
pub struct DeviceSettings {
    pub spdif_mode: Option<String>,
    pub phantom_persistence: Option<bool>,
}

/// Clock settings (the document's `<clocking/>` element carries none that are known).
#[derive(Clone, Copy, Debug, PartialEq, Eq, Structural)]
pub struct DeviceClocking {}

/// Monitoring settings.
#[derive(Debug, PartialEq, Eq)]
pub struct DeviceMonitoring {
    pub preset: Option<String>,
}

impl View for DeviceOutputs {
    type V = Seq<Output>;

    open spec fn view(&self) -> Seq<Output> {
        self.v@
    }
}

impl View for RecordOutputs {
    type V = Seq<RecordOutput>;

    closed spec fn view(&self) -> Seq<RecordOutput> {
        self.v@
    }
}

impl View for DeviceInputs {
    type V = Seq<Input>;

    closed spec fn view(&self) -> Seq<Input> {
        self.v@
    }
}

impl core::ops::Deref for DeviceOutputs {
    type Target = Vec<Output>;

    fn deref(&self) -> (r: &Vec<Output>)
        ensures
            r@ == self@,
    {
        &self.v
    }
}

impl core::ops::Deref for RecordOutputs {
    type Target = Vec<RecordOutput>;

    fn deref(&self) -> (r: &Vec<RecordOutput>)
        ensures
            r@ == self@,
    {
        &self.v
    }
}

impl core::ops::Deref for DeviceInputs {
    type Target = Vec<Input>;

    fn deref(&self) -> (r: &Vec<Input>)
        ensures
            r@ == self@,
    {
        &self.v
    }
}

impl RecordOutputs {
    /// The record outputs `v`, in order.
    pub fn new(v: Vec<RecordOutput>) -> (r: RecordOutputs)
        ensures
            r@ == v@,
    {
        RecordOutputs { v }
    }

    /// The record outputs, in order.
    pub fn into_vec(self) -> (r: Vec<RecordOutput>)
        ensures
            r@ == self@,
    {
        self.v
    }
}

impl DeviceInputs {
    /// The inputs `v`, in order.
    pub fn new(v: Vec<Input>) -> (r: DeviceInputs)
        ensures
            r@ == v@,
    {
        DeviceInputs { v }
    }

    /// The inputs, in order.
    pub fn into_vec(self) -> (r: Vec<Input>)
        ensures
            r@ == self@,
    {
        self.v
    }
}

impl Device {
    /// The timestamp of the profile.
    pub open spec fn timestamp_part(self) -> UnixTimestamp {
        self.timestamp
    }

    /// The device-wide settings of the profile.
    pub open spec fn settings_part(self) -> DeviceSettings {
        self.settings
    }

    /// The clock settings of the profile.
    pub open spec fn clocking_part(self) -> DeviceClocking {
        self.clocking
    }

    /// The monitoring settings of the profile.
    pub open spec fn monitoring_part(self) -> DeviceMonitoring {
        self.monitoring
    }

    /// The outputs of the profile.
    pub open spec fn output_set(self) -> DeviceOutputs {
        self.outputs
    }

    /// The record outputs of the profile.
    pub open spec fn record_output_set(self) -> RecordOutputs {
        self.record_outputs
    }

    /// The inputs of the profile.
    pub open spec fn input_set(self) -> DeviceInputs {
        self.inputs
    }

    /// The profile made of the given parts.
    pub fn new(
        timestamp: UnixTimestamp,
        outputs: DeviceOutputs,
        record_outputs: RecordOutputs,
        inputs: DeviceInputs,
        settings: DeviceSettings,
        clocking: DeviceClocking,
        monitoring: DeviceMonitoring,
    ) -> (r: Device)
        ensures
            r.timestamp_part() == timestamp,
            r.output_set() == outputs,
            r.record_output_set() == record_outputs,
            r.input_set() == inputs,
            r.settings_part() == settings,
            r.clocking_part() == clocking,
            r.monitoring_part() == monitoring,
            r.timestamp == timestamp,
            r.outputs == outputs,
            r.record_outputs == record_outputs,
            r.inputs == inputs,
            r.settings == settings,
            r.clocking == clocking,
            r.monitoring == monitoring,
    {
        Device {
            timestamp,
            outputs,
            record_outputs,
            inputs,
            settings,
            clocking,
            monitoring,
        }
    }

    /// The outputs of the profile, in document order.
    pub fn outputs(&self) -> (r: &[Output])
        ensures
            r@ == self.output_set()@,
            r@ == self.outputs@,
    {
        self.outputs.v.as_slice()
    }

    /// The record outputs of the profile, in document order.
    pub fn record_outputs(&self) -> (r: &[RecordOutput])
        ensures
            r@ == self.record_output_set()@,
            r@ == self.record_outputs@,
    {
        self.record_outputs.v.as_slice()
    }

    /// The inputs of the profile, in document order.
    pub fn inputs(&self) -> (r: &[Input])
        ensures
            r@ == self.input_set()@,
            r@ == self.inputs@,
    {
        self.inputs.v.as_slice()
    }

    /// The parts the profile is made of (the inverse of [`Device::new`]).
    pub fn into_parts(self) -> (r: (
        UnixTimestamp,
        DeviceOutputs,
        RecordOutputs,
        DeviceInputs,
        DeviceSettings,
        DeviceClocking,
        DeviceMonitoring,
    ))
        ensures
            r.0 == self.timestamp_part(),
            r.1 == self.output_set(),
            r.2 == self.record_output_set(),
            r.3 == self.input_set(),
            r.4 == self.settings_part(),
            r.5 == self.clocking_part(),
            r.6 == self.monitoring_part(),
            r == (
                self.timestamp,
                self.outputs,
                self.record_outputs,
                self.inputs,
                self.settings,
                self.clocking,
                self.monitoring,
            ),
    {
        (
            self.timestamp,
            self.outputs,
            self.record_outputs,
            self.inputs,
            self.settings,
            self.clocking,
            self.monitoring,
        )
    }
}

/// The parts of a profile, as the accessors and contracts name them, are its fields.
pub proof fn lemma_device_parts_are_fields(d: Device)
    ensures
        d.timestamp_part() == d.timestamp,
        d.output_set() == d.outputs,
        d.record_output_set() == d.record_outputs,
        d.input_set() == d.inputs,
        d.settings_part() == d.settings,
        d.clocking_part() == d.clocking,
        d.monitoring_part() == d.monitoring,
{
}

/// A profile is determined by its parts, so taking a profile apart with
/// [`Device::into_parts`] and putting the parts back together with [`Device::new`] gives back
/// the same profile.
pub proof fn lemma_device_determined_by_parts(a: Device, b: Device)
    requires
        a.timestamp_part() == b.timestamp_part(),
        a.output_set() == b.output_set(),
        a.record_output_set() == b.record_output_set(),
        a.input_set() == b.input_set(),
        a.settings_part() == b.settings_part(),
        a.clocking_part() == b.clocking_part(),
        a.monitoring_part() == b.monitoring_part(),
    ensures
        a == b,
{
}

/// The name `FocusriteProfile` for a device profile.
pub type FocusriteProfile = Device;

} // verus!
