//! Audio devices as the stream builder sees them: what a hardware endpoint
//! offers, held as plain values.

use vstd::prelude::*;

verus! {

/// The encoding of one sample as the hardware takes or delivers it.
#[derive(Clone, Copy, Debug, PartialEq, Eq, Structural)]
pub enum SampleFormat {
    /// Signed 16-bit integers.
    I16,
    /// Unsigned 16-bit integers.
    U16,
    /// 32-bit floating point.
    F32,
}

/// The format of a stream: fixed once the stream has started.
#[derive(Clone, Copy, Debug, PartialEq, Eq, Structural)]
pub struct Format {
    pub channels: u16,
    pub sample_rate: u32,
    pub data_type: SampleFormat,
}

/// A family of formats that a device supports: one channel count, one
/// encoding, and every sample rate from `min_sample_rate` to
/// `max_sample_rate`, both included.
#[derive(Clone, Copy, Debug, PartialEq, Eq, Structural)]
pub struct SupportedFormat {
    pub channels: u16,
    pub min_sample_rate: u32,
    pub max_sample_rate: u32,
    pub data_type: SampleFormat,
}

impl SupportedFormat {
    /// The family holds `format`.
    pub open spec fn covers(self, format: Format) -> bool {
        &&& self.channels == format.channels
        &&& self.data_type == format.data_type
        &&& self.min_sample_rate <= format.sample_rate <= self.max_sample_rate
    }

    /// Whether the family holds `format`.
    pub fn is_covering(&self, format: &Format) -> (b: bool)
        ensures
            b == self.covers(*format),
    {
        self.channels == format.channels && self.data_type == format.data_type
            && self.min_sample_rate <= format.sample_rate && format.sample_rate
            <= self.max_sample_rate
    }
}

/// One of `supported` holds `format`.
pub open spec fn is_supported(supported: Seq<SupportedFormat>, format: Format) -> bool {
    exists|i: int| 0 <= i < supported.len() && (#[trigger] supported[i]).covers(format)
}

/// Whether one of `supported` holds `format`.
pub fn supports(supported: &Vec<SupportedFormat>, format: &Format) -> (b: bool)
    ensures
        b == is_supported(supported@, *format),
{
    let mut i: usize = 0;
    while i < supported.len()
        invariant
            i <= supported@.len(),
            forall|j: int| 0 <= j < i ==> !(#[trigger] supported@[j]).covers(*format),
        decreases supported@.len() - i,
    {
        if supported[i].is_covering(format) {
            return true;
        }
        i += 1;
    }
    false
}

/// A hardware endpoint: which one it is among those of its host, the format it
/// would choose by itself, and all that it supports.
#[derive(Clone, Debug, PartialEq, Eq)]
pub struct Device {
    pub index: usize,
    pub default_format: Option<Format>,
    pub supported_formats: Vec<SupportedFormat>,
}

impl Device {
    /// Whether the device supports `format`.
    pub fn supports(&self, format: &Format) -> (b: bool)
        ensures
            b == is_supported(self.supported_formats@, *format),
    {
        supports(&self.supported_formats, format)
    }
}

/// The devices of a host, handed out one by one in the host's order.
pub struct Devices {
    devices: Vec<Device>,
}

impl Devices {
    /// The devices that are still to come, next one first.
    pub closed spec fn view(&self) -> Seq<Device> {
        self.devices@
    }

    /// The devices of a host, in its order.
    pub fn new(devices: Vec<Device>) -> (all: Self)
        ensures
            all@ == devices@,
    {
        Devices { devices }
    }

    /// The number of devices that are still to come.
    pub fn len(&self) -> (n: usize)
        ensures
            n == self@.len(),
    {
        self.devices.len()
    }

    /// The next device, or `None` once all have been handed out.
    pub fn next(&mut self) -> (device: Option<Device>)
        ensures
            old(self)@.len() == 0 ==> device is None && final(self)@ == old(self)@,
            old(self)@.len() > 0 ==> device == Some(old(self)@[0]) && final(self)@ == old(
                self,
            )@.subrange(1, old(self)@.len() as int),
    {
        if self.devices.len() == 0 {
            None
        } else {
            Some(self.devices.remove(0))
        }
    }
}

} // verus!
