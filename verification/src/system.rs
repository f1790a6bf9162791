//! System assembly: maps and loads the configured memory regions, applies
//! the byte patches, and builds the peripheral fabric from the chip
//! description and the device configuration. The embedding program reads
//! the files and hands their contents in as byte vectors.

use vstd::prelude::*;

use crate::config::{Config, Patch, Region};
use crate::ext_devices::{opt_list, ExtDevices};
use crate::framebuffers::Framebuffers;
use crate::gpio::GpioPorts;
use crate::memory::{map_region_spec, mem_write, MemV, Memory};
use crate::peripherals::Peripherals;
use crate::svd::SvdDevice;
use crate::util::{round_up, ConfigError};

verus! {

/// The configured size rounded up to the host's 4 KiB page granularity.
pub open spec fn page_rounded(size: u32) -> int {
    ((size + 4095) / 4096) * 4096
}

/// What mapping and loading one region does: the rounded range is mapped
/// (a zero or unrepresentable size, or an overlap, fails), then the file
/// content — truncated to the mapped size — is written over its start.
pub open spec fn load_region_step(m: MemV, r: Region, file: Option<Vec<u8>>) -> (MemV, bool) {
    if r.size == 0 || r.size + 4095 > usize::MAX {
        (m, false)
    } else {
        let mapped = map_region_spec(m, r.start, page_rounded(r.size));
        if !mapped.1 {
            (m, false)
        } else {
            match file {
                None => (mapped.0, true),
                Some(content) => {
                    let len = if content@.len() < page_rounded(r.size) {
                        content@.len() as int
                    } else {
                        page_rounded(r.size)
                    };
                    let w = mem_write(mapped.0, r.start, content@.take(len));
                    (w.0, w.1)
                },
            }
        }
    }
}

/// The regions from index `i` on, folded over the memory; stops at the
/// first failure with the memory as far as it got.
pub open spec fn load_regions_spec(
    m: MemV,
    regions: Seq<Region>,
    files: Seq<Option<Vec<u8>>>,
    i: int,
) -> (MemV, bool)
    decreases regions.len() - i,
{
    if i < 0 || i >= regions.len() {
        (m, true)
    } else {
        let step = load_region_step(m, regions[i], files[i]);
        if !step.1 {
            (step.0, false)
        } else {
            load_regions_spec(step.0, regions, files, i + 1)
        }
    }
}

/// The patches from index `j` on, folded over the memory; a patch outside
/// the mapped regions fails.
pub open spec fn apply_patches_spec(m: MemV, patches: Seq<Patch>, j: int) -> (MemV, bool)
    decreases patches.len() - j,
{
    if j < 0 || j >= patches.len() {
        (m, true)
    } else {
        let w = mem_write(m, patches[j].start, patches[j].data@);
        if !w.1 {
            (w.0, false)
        } else {
            apply_patches_spec(w.0, patches, j + 1)
        }
    }
}

/// Maps each configured region (size rounded up to the 4 KiB page
/// granularity), loads the given file contents into them (truncated to the
/// mapped size), then applies the patches. Succeeds exactly when every
/// region maps and loads and every patch lands in mapped memory.
#[verifier::loop_isolation(false)]
pub fn load_memory_regions(
    mem: &mut Memory,
    regions: &Vec<Region>,
    region_files: &Vec<Option<Vec<u8>>>,
    patches: &Vec<Patch>,
) -> (r: Result<(), ConfigError>)
    requires
        regions.len() == region_files.len(),
    ensures
        ({
            let lr = load_regions_spec(old(mem)@, regions@, region_files@, 0);
            let pa = apply_patches_spec(lr.0, patches@, 0);
            &&& (r is Ok <==> lr.1 && pa.1)
            &&& final(mem)@ == (if lr.1 {
                pa.0
            } else {
                lr.0
            })
            &&& (r == Err::<(), ConfigError>(ConfigError::BadRegion) <==> !lr.1)
            &&& (r == Err::<(), ConfigError>(ConfigError::BadPatch) <==> lr.1 && !pa.1)
        }),
{
    let ghost m0 = old(mem)@;
    let n = regions.len();
    for i in 0..n
        invariant
            load_regions_spec(m0, regions@, region_files@, 0) == load_regions_spec(
                mem@,
                regions@,
                region_files@,
                i as int,
            ),
    {
        let region = &regions[i];
        if region.size == 0 {
            return Err(ConfigError::BadRegion);
        }
        if (region.size as u64) + 4095 > (usize::MAX as u64) {
            return Err(ConfigError::BadRegion);
        }
        let size = round_up(region.size as usize, 4096);
        let ghost pre = mem@;
        if !mem.map_region(region.start, size) {
            return Err(ConfigError::BadRegion);
        }
        match &region_files[i] {
            None => {},
            Some(content) => {
                let len = if content.len() < size {
                    content.len()
                } else {
                    size
                };
                let chunk = vstd::slice::slice_to_vec(
                    vstd::slice::slice_subrange(content.as_slice(), 0, len),
                );
                proof {
                    assert(chunk@ =~= content@.take(len as int));
                }
                let ok = mem.write(region.start, &chunk);
                if !ok {
                    return Err(ConfigError::BadRegion);
                }
            },
        }
    }
    let ghost m1 = mem@;
    proof {
        assert(load_regions_spec(m0, regions@, region_files@, 0) == (m1, true));
    }
    let m = patches.len();
    for p in 0..m
        invariant
            apply_patches_spec(m1, patches@, 0) == apply_patches_spec(mem@, patches@, p as int),
    {
        let ok = mem.write(patches[p].start, &patches[p].data);
        if !ok {
            return Err(ConfigError::BadPatch);
        }
    }
    Ok(())
}

/// Builds the whole system from the configuration: the memory holds the
/// loaded regions and patches, and the world is the fabric `from_svd`
/// builds over the configured surfaces and devices.
pub fn prepare(
    config: Config,
    svd_device: &SvdDevice,
    region_files: &Vec<Option<Vec<u8>>>,
    flash_images: Vec<Vec<u8>>,
) -> (r: Result<(Peripherals, Memory), ConfigError>)
    requires
        config.regions.len() == region_files.len(),
        forall|i: int|
            0 <= i < svd_device.peripherals.len() ==> crate::svd::peripheral_ok(
                #[trigger] svd_device.peripherals[i],
            ),
    ensures
        ({
            let lr = load_regions_spec(Seq::empty(), config.regions@, region_files@, 0);
            let pa = apply_patches_spec(lr.0, opt_list(config.patches), 0);
            match r {
                Ok(p) => {
                    &&& lr.1 && pa.1
                    &&& p.1@ == pa.0
                    &&& p.0.wf()
                    &&& crate::peripherals::slots_wf(p.0@.slots)
                    &&& forall|i: int|
                        0 <= i < opt_list(config.framebuffers).len()
                            ==> crate::framebuffers::fb_config_ok(
                            #[trigger] opt_list(config.framebuffers)[i],
                        )
                    &&& p.0.debug_peripherals.len() == svd_device.peripherals.len()
                    &&& forall|i: int|
                        0 <= i < svd_device.peripherals.len()
                            ==> crate::peripherals::debug_entry_built(
                            #[trigger] p.0.debug_peripherals[i],
                            svd_device.peripherals@,
                            i,
                        )
                    &&& p.0.slots.len() == crate::peripherals::count_selecting(
                        svd_device.peripherals@,
                        svd_device.peripherals.len() as int,
                    )
                    &&& ({
                        let sw = opt_list(
                            match config.peripherals {
                                Some(pc) => pc.software_spi,
                                None => None,
                            },
                        );
                        &&& p.0.sw_spis.len() == sw.len()
                        &&& forall|k: int|
                            0 <= k < sw.len() ==> crate::peripherals::sw_unit_built(
                                #[trigger] p.0.sw_spis[k],
                                sw[k],
                                k,
                                p.0.gpio,
                            )
                    })
                    &&& ({
                        let dc = match config.devices {
                            Some(d) => d,
                            None => crate::ext_devices::ExtDevicesConfig {
                                spi_flash: None,
                                usart_probe: None,
                                display: None,
                                lcd: None,
                                touchscreen: None,
                            },
                        };
                        &&& crate::ext_devices::flashes_built(
                            p.0.devices.spi_flashes,
                            opt_list(dc.spi_flash),
                            flash_images@,
                        )
                        &&& crate::ext_devices::probes_built(
                            p.0.devices.usart_probes,
                            opt_list(dc.usart_probe),
                        )
                        &&& crate::ext_devices::displays_built(
                            p.0.devices.displays,
                            opt_list(dc.display),
                            p.0.framebuffers,
                        )
                        &&& crate::ext_devices::lcds_built(
                            p.0.devices.lcds,
                            opt_list(dc.lcd),
                            p.0.framebuffers,
                        )
                        &&& crate::ext_devices::touchscreens_built(
                            p.0.devices.touchscreens,
                            opt_list(dc.touchscreen),
                            p.0.framebuffers,
                        )
                    })
                },
                Err(ConfigError::BadRegion) => !lr.1,
                Err(ConfigError::BadPatch) => lr.1 && !pa.1,
                Err(_) => true,
            }
        }),
{
    let mut mem = Memory::new();
    proof {
        assert(mem@ =~= Seq::<crate::memory::RegionV>::empty());
    }
    let patches = match config.patches {
        None => Vec::new(),
        Some(ps) => ps,
    };
    load_memory_regions(&mut mem, &config.regions, region_files, &patches)?;
    let framebuffers = Framebuffers::from_config(
        match config.framebuffers {
            None => Vec::new(),
            Some(fbs) => fbs,
        },
    )?;
    let mut gpio = GpioPorts::new();
    let devices_config = match config.devices {
        None => crate::ext_devices::ExtDevicesConfig {
            spi_flash: None,
            usart_probe: None,
            display: None,
            lcd: None,
            touchscreen: None,
        },
        Some(d) => d,
    };
    let devices: ExtDevices = devices_config.into_ext_devices(
        &mut gpio,
        &framebuffers,
        flash_images,
    )?;
    let peripherals_config = match config.peripherals {
        None => crate::config::PeripheralsConfig { software_spi: None },
        Some(p) => p,
    };
    let world = Peripherals::from_svd(
        svd_device,
        peripherals_config,
        gpio,
        devices,
        framebuffers,
    )?;
    Ok((world, mem))
}

} // verus!
