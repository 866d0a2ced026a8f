//! The commands that the library asks a device driver to run, and the plain
//! values they carry.
use crate::format::PixelFormat;
use vstd::prelude::*;

verus! {

/// How a kernel may touch a bound resource.
#[derive(Clone, Copy, Debug, PartialEq, Eq, Structural)]
pub enum Access {
    ReadOnly,
    ReadWrite,
}

/// What a resource handle of a [`crate::Framework`] stands for.
#[derive(Clone, Copy, Debug, PartialEq, Eq, Structural)]
pub enum ResourceKind {
    /// Device memory that kernels read and write.
    Buffer,
    /// Host-visible memory that a read is shuttled through.
    Staging,
    /// A two-dimensional image.
    Image,
    /// A compiled pipeline with its bindings.
    Kernel,
}

/// What a buffer may be used for.
#[derive(Clone, Copy, Debug, PartialEq, Eq, Structural)]
pub struct BufferUsage {
    pub storage: bool,
    pub copy_src: bool,
    pub copy_dst: bool,
    pub map_read: bool,
}

/// Usage of a buffer that kernels work on: storage, and both ends of a copy.
pub open spec fn storage_usage() -> BufferUsage {
    BufferUsage { storage: true, copy_src: true, copy_dst: true, map_read: false }
}

/// Usage of a staging buffer: the target of a copy, readable by the host.
pub open spec fn staging_usage() -> BufferUsage {
    BufferUsage { storage: false, copy_src: false, copy_dst: true, map_read: true }
}

impl BufferUsage {
    /// Usage of a buffer that kernels work on.
    pub fn for_storage() -> (r: BufferUsage)
        ensures
            r == storage_usage(),
    {
        BufferUsage { storage: true, copy_src: true, copy_dst: true, map_read: false }
    }

    /// Usage of a staging buffer.
    pub fn for_staging() -> (r: BufferUsage)
        ensures
            r == staging_usage(),
    {
        BufferUsage { storage: false, copy_src: false, copy_dst: true, map_read: true }
    }
}

/// A buffer to create.
#[derive(Clone, Copy, Debug, PartialEq, Eq, Structural)]
pub struct BufferDescriptor {
    /// Size in bytes.
    pub size: usize,
    pub usage: BufferUsage,
    pub mapped_at_creation: bool,
}

/// What an image may be used for.
#[derive(Clone, Copy, Debug, PartialEq, Eq, Structural)]
pub struct ImageUsage {
    pub storage_binding: bool,
    pub texture_binding: bool,
    pub copy_src: bool,
    pub copy_dst: bool,
}

/// An image to create.
#[derive(Clone, Copy, Debug, PartialEq, Eq, Structural)]
pub struct ImageDescriptor {
    pub width: u32,
    pub height: u32,
    pub depth: u32,
    pub mip_levels: u32,
    pub samples: u32,
    pub format: PixelFormat,
    pub usage: ImageUsage,
}

/// The descriptor of a two-dimensional storage image: one layer, one mip
/// level, one sample, usable as a storage and texture binding and as both
/// ends of a copy.
pub open spec fn image_descriptor(width: u32, height: u32, format: PixelFormat) -> ImageDescriptor {
    ImageDescriptor {
        width,
        height,
        depth: 1,
        mip_levels: 1,
        samples: 1,
        format,
        usage: ImageUsage {
            storage_binding: true,
            texture_binding: true,
            copy_src: true,
            copy_dst: true,
        },
    }
}

/// A rectangle of pixels inside an image.
#[derive(Clone, Copy, Debug, PartialEq, Eq, Structural)]
pub struct Region {
    pub x: u32,
    pub y: u32,
    pub width: u32,
    pub height: u32,
}

/// A reference to a region of an image, usable for binding.
#[derive(Clone, Copy, Debug, PartialEq, Eq, Structural)]
pub struct ImageView {
    /// Handle of the image.
    pub image: usize,
    pub region: Region,
    pub format: PixelFormat,
}

/// A resource as a kernel sees it.
#[derive(Clone, Copy, Debug, PartialEq, Eq, Structural)]
pub enum Resource {
    /// A buffer, by its handle.
    Buffer(usize),
    /// A view of an image.
    Image(ImageView),
}

/// The kind of resource that a binding slot takes.
#[derive(Clone, Copy, Debug, PartialEq, Eq, Structural)]
pub enum SlotKind {
    Buffer,
    Image,
}

/// A binding slot of a shader's entry point. Every slot is visible to the
/// compute stage only.
#[derive(Clone, Copy, Debug, PartialEq, Eq, Structural)]
pub struct Slot {
    /// Index of the binding set.
    pub set: u32,
    /// Index of the binding inside its set.
    pub index: usize,
    pub kind: SlotKind,
    pub access: Access,
}

/// A resource bound to a slot.
#[derive(Clone, Copy, Debug, PartialEq, Eq, Structural)]
pub struct Binding {
    /// Index of the binding set.
    pub set: u32,
    /// Index of the binding inside its set.
    pub index: usize,
    pub access: Access,
    pub resource: Resource,
}

impl Resource {
    /// The kind of slot that takes this resource.
    pub open spec fn slot_kind(self) -> SlotKind {
        match self {
            Resource::Buffer(_) => SlotKind::Buffer,
            Resource::Image(_) => SlotKind::Image,
        }
    }

    /// The kind of slot that takes this resource.
    pub fn kind(&self) -> (r: SlotKind)
        ensures
            r == self.slot_kind(),
    {
        match self {
            Resource::Buffer(_) => SlotKind::Buffer,
            Resource::Image(_) => SlotKind::Image,
        }
    }
}

impl Binding {
    /// The slot that this binding fills.
    pub open spec fn spec_slot(self) -> Slot {
        Slot { set: self.set, index: self.index, kind: self.resource.slot_kind(), access: self.access }
    }

    /// The slot that this binding fills.
    pub fn slot(&self) -> (r: Slot)
        ensures
            r == self.spec_slot(),
    {
        Slot { set: self.set, index: self.index, kind: self.resource.kind(), access: self.access }
    }
}

/// One request to the device. A driver runs the commands of a framework in
/// the order in which they were recorded.
#[derive(Debug, PartialEq, Eq)]
#[allow(inconsistent_fields)]
pub enum Command {
    /// Create a buffer with unspecified contents.
    CreateBuffer { id: usize, desc: BufferDescriptor },
    /// Create a buffer that holds `contents`.
    CreateBufferInit { id: usize, usage: BufferUsage, contents: Vec<u8> },
    /// Create an image with unspecified contents, and its full view.
    CreateImage { id: usize, desc: ImageDescriptor },
    /// Copy `data` from the host into a buffer, `offset` bytes from its start.
    WriteBuffer { buffer: usize, offset: usize, data: Vec<u8> },
    /// Copy the first `size` bytes of one buffer to the start of another.
    CopyBuffer { source: usize, destination: usize, size: usize },
    /// Copy `data` from the host into the whole of an image; a row of pixels
    /// takes `bytes_per_row` bytes of `data`.
    WriteImage { image: usize, data: Vec<u8>, bytes_per_row: usize, width: u32, height: u32 },
    /// Copy the whole of an image into a staging buffer, one row every
    /// `bytes_per_row` bytes.
    CopyImageToBuffer { image: usize, staging: usize, bytes_per_row: usize, width: u32, height: u32 },
    /// Ask for the first `size` bytes of a staging buffer to be mapped for
    /// reading by the host.
    MapRead { staging: usize, size: usize },
    /// Give up a resource: a staging buffer is unmapped first, and the memory
    /// of the resource is free once nothing on the device uses it.
    Release { id: usize },
    /// Create the bind groups and the pipeline of a kernel.
    CreateKernel { id: usize, shader: u64, entry_point: String, bindings: Vec<Binding> },
    /// Run a kernel with a count of workgroups in each dimension.
    Dispatch { kernel: usize, x: u32, y: u32, z: u32 },
    /// Drive the device's pending work; wait for all of it if `wait` is set.
    Poll { wait: bool },
}

/// A [`Command`] as a mathematical value.
#[verifier::ext_equal]
#[allow(inconsistent_fields)]
pub enum Op {
    CreateBuffer { id: usize, desc: BufferDescriptor },
    CreateBufferInit { id: usize, usage: BufferUsage, contents: Seq<u8> },
    CreateImage { id: usize, desc: ImageDescriptor },
    WriteBuffer { buffer: usize, offset: usize, data: Seq<u8> },
    CopyBuffer { source: usize, destination: usize, size: usize },
    WriteImage { image: usize, data: Seq<u8>, bytes_per_row: usize, width: u32, height: u32 },
    CopyImageToBuffer { image: usize, staging: usize, bytes_per_row: usize, width: u32, height: u32 },
    MapRead { staging: usize, size: usize },
    Release { id: usize },
    CreateKernel { id: usize, shader: u64, entry_point: Seq<char>, bindings: Seq<Binding> },
    Dispatch { kernel: usize, x: u32, y: u32, z: u32 },
    Poll { wait: bool },
}

impl View for Command {
    type V = Op;

    open spec fn view(&self) -> Op {
        match *self {
            Command::CreateBuffer { id, desc } => Op::CreateBuffer { id, desc },
            Command::CreateBufferInit { id, usage, contents } => Op::CreateBufferInit {
                id,
                usage,
                contents: contents@,
            },
            Command::CreateImage { id, desc } => Op::CreateImage { id, desc },
            Command::WriteBuffer { buffer, offset, data } => Op::WriteBuffer {
                buffer,
                offset,
                data: data@,
            },
            Command::CopyBuffer { source, destination, size } => Op::CopyBuffer {
                source,
                destination,
                size,
            },
            Command::WriteImage { image, data, bytes_per_row, width, height } => Op::WriteImage {
                image,
                data: data@,
                bytes_per_row,
                width,
                height,
            },
            Command::CopyImageToBuffer {
                image,
                staging,
                bytes_per_row,
                width,
                height,
            } => Op::CopyImageToBuffer { image, staging, bytes_per_row, width, height },
            Command::MapRead { staging, size } => Op::MapRead { staging, size },
            Command::Release { id } => Op::Release { id },
            Command::CreateKernel { id, shader, entry_point, bindings } => Op::CreateKernel {
                id,
                shader,
                entry_point: entry_point@,
                bindings: bindings@,
            },
            Command::Dispatch { kernel, x, y, z } => Op::Dispatch { kernel, x, y, z },
            Command::Poll { wait } => Op::Poll { wait },
        }
    }
}

/// The commands of a queue as mathematical values, in order.
pub open spec fn ops(queue: Seq<Command>) -> Seq<Op> {
    queue.map_values(|c: Command| c@)
}

} // verus!
