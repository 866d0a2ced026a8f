//! A verified planner for general-purpose GPU compute.
//!
//! The library decides *what* is asked of a device: which resources are
//! created and how large they are, which writes and copies are in bounds,
//! which binding slot every resource occupies, and in which order the
//! commands reach the queue. It performs no device call itself: every
//! operation records [`Command`]s in the [`Framework`], and a driver takes
//! them with [`Framework::take_commands`], runs them on the device in order
//! and hands mapped bytes back to [`PendingRead::resolve`].
//!
//! What a command means is written down in [`semantics`], together with the
//! laws that hold of the library's plans on every device that runs the
//! commands with that meaning. A device that takes buffer copies in whole
//! words only is served by a driver that pads as [`copy`] says.

pub mod buffer;
pub mod bytes;
pub mod command;
pub mod copy;
pub mod device;
pub mod error;
pub mod format;
pub mod framework;
pub mod image;
pub mod kernel;
pub mod pitch;
pub mod read;
pub mod semantics;

pub use buffer::GpuBuffer;
pub use command::{
    Access, Binding, BufferDescriptor, BufferUsage, Command, ImageDescriptor, ImageUsage,
    ImageView, Region, Resource, ResourceKind, Slot, SlotKind,
};
pub use copy::{pad_upload, padded_size};
pub use device::{DeviceRequest, Limits, PowerPreference};
pub use error::Error;
pub use format::PixelFormat;
pub use framework::Framework;
pub use image::{GpuImage, image_is_valid};
pub use kernel::{
    EntryPoint, Kernel, KernelBuilder, Shader, collect_group, count_bindings, count_sets,
    layout_matches,
};
pub use pitch::{padded_bytes_per_row, strip_row_padding};
pub use read::{PendingRead, TypedRead};
