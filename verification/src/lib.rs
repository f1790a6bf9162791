//! Register-level model of an STM32-class microcontroller's peripheral fabric.
//!
//! The crate models the machinery that turns memory-mapped I/O accesses into
//! peripheral behaviour: an address router (bit-banding, alignment, slot
//! dispatch), the peripheral register models (RCC, SysTick, GPIO, DMA, SPI,
//! USART, FSMC, I2C, SCB, NVIC), external device models (SPI flash, displays,
//! LCD, touchscreen, USART probe), software-bitbanged SPI on GPIO edges, an
//! interrupt controller with full exception entry/exit frames, and the
//! framebuffer surfaces shared between displays and touchscreens.
//!
//! The CPU execution engine itself is an external collaborator: callers hand
//! this crate register values, memory contents and MMIO events, and receive
//! the resulting state transitions back as plain values.

pub mod config;
pub mod display;
pub mod dma;
pub mod emulator;
pub mod ext_devices;
pub mod framebuffers;
pub mod fsmc;
pub mod gpio;
pub mod i2c;
pub mod lcd;
pub mod memory;
pub mod nvic;
pub mod peripherals;
pub mod rcc;
pub mod regfile;
pub mod scb;
pub mod spi;
pub mod spi_flash;
pub mod svd;
pub mod sw_spi;
pub mod system;
pub mod systick;
pub mod touchscreen;
pub mod usart;
pub mod usart_probe;
pub mod util;

pub use util::{round_up, Point, Rect};
