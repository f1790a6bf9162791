//! The run configuration, as plain values: CPU description, memory regions,
//! byte patches, peripheral extras and device bindings. The embedding
//! program parses its configuration file into these.

use vstd::prelude::*;

use crate::ext_devices::ExtDevicesConfig;
use crate::framebuffers::FramebufferConfig;
use crate::sw_spi::SoftwareSpiConfig;

verus! {

/// One memory region to map: `size` bytes at `start`, rounded up to the
/// host's page granularity, optionally loaded from a file.
pub struct Region {
    pub name: String,
    pub start: u32,
    pub size: u32,
    pub load: Option<String>,
}

/// Bytes written over the loaded regions after mapping.
pub struct Patch {
    pub start: u32,
    pub data: Vec<u8>,
}

pub struct Cpu {
    /// Path of the chip description file.
    pub svd: String,
    pub vector_table: u32,
}

/// Peripheral extras: the software-SPI units bit-banged over GPIO.
pub struct PeripheralsConfig {
    pub software_spi: Option<Vec<SoftwareSpiConfig>>,
}

pub struct Config {
    pub cpu: Cpu,
    pub regions: Vec<Region>,
    pub patches: Option<Vec<Patch>>,
    pub peripherals: Option<PeripheralsConfig>,
    pub devices: Option<ExtDevicesConfig>,
    pub framebuffers: Option<Vec<FramebufferConfig>>,
}

} // verus!
