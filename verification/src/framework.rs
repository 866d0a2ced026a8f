//! The device context: it hands out resource handles and keeps the queue of
//! commands in the order in which they were issued.
use crate::buffer::{BufferModel, GpuBuffer, after_read_request};
use crate::bytes::to_bytes;
use crate::command::{
    BufferDescriptor, BufferUsage, Command, ImageDescriptor, ImageUsage, Op, ResourceKind,
    image_descriptor, ops, staging_usage, storage_usage,
};
use crate::error::Error;
use crate::format::PixelFormat;
use crate::image::{GpuImage, ImageModel, valid_image};
use crate::kernel::{BuilderModel, KernelBuilder, Shader};
use vstd::layout::size_of;
use vstd::prelude::*;

verus! {

/// What a [`Framework`] holds, as a mathematical value.
#[verifier::ext_equal]
pub struct FrameworkState {
    /// The kind of every resource created so far; a handle is an index here.
    pub resources: Seq<ResourceKind>,
    /// The commands recorded and not yet taken by the driver, oldest first.
    pub commands: Seq<Op>,
    /// The staging buffers of the reads that are not resolved yet.
    pub pending: Seq<usize>,
    /// Whether a command was recorded since the last blocking poll.
    pub unsettled: bool,
}

/// `ids` without every occurrence of `id`, the rest in order.
pub open spec fn without(ids: Seq<usize>, id: usize) -> Seq<usize>
    decreases ids.len(),
{
    if ids.len() == 0 {
        ids
    } else if ids.last() == id {
        without(ids.drop_last(), id)
    } else {
        without(ids.drop_last(), id).push(ids.last())
    }
}

impl FrameworkState {
    /// A context with no resource, no command and no read under way.
    pub open spec fn empty() -> Self {
        FrameworkState {
            resources: Seq::empty(),
            commands: Seq::empty(),
            pending: Seq::empty(),
            unsettled: false,
        }
    }

    /// The handle that the next resource gets.
    pub open spec fn next_id(self) -> nat {
        self.resources.len()
    }

    /// The state after a resource of `kind` got the next handle.
    pub open spec fn allocate(self, kind: ResourceKind) -> Self {
        FrameworkState { resources: self.resources.push(kind), ..self }
    }

    /// The state after `op` was recorded behind all earlier commands.
    pub open spec fn record(self, op: Op) -> Self {
        FrameworkState { commands: self.commands.push(op), unsettled: true, ..self }
    }

    /// The state after a read through `staging` was begun.
    pub open spec fn await_read(self, staging: usize) -> Self {
        FrameworkState { pending: self.pending.push(staging), ..self }
    }

    /// The state after the read through `staging` was resolved.
    pub open spec fn finish_read(self, staging: usize) -> Self {
        FrameworkState { pending: without(self.pending, staging), ..self }
    }

    /// Whether this framework itself knows of work that may not be complete:
    /// a command of its own since its last blocking poll, or a read of its own
    /// that is not resolved. This is the framework's record, not the state of
    /// the device: what others gave the device is not counted.
    pub open spec fn has_pending_work(self) -> bool {
        self.unsettled || self.pending.len() > 0
    }

    /// The state after a poll that does not block: the poll is recorded,
    /// whatever is known to be pending.
    pub open spec fn poll(self) -> Self {
        FrameworkState { commands: self.commands.push(Op::Poll { wait: false }), ..self }
    }

    /// The state after a poll that waits for all pending work: the poll is
    /// recorded, and every command recorded before it is complete when the
    /// device has run it.
    pub open spec fn blocking_poll(self) -> Self {
        FrameworkState {
            commands: self.commands.push(Op::Poll { wait: true }),
            unsettled: false,
            ..self
        }
    }

    /// The state after the driver took the recorded commands.
    pub open spec fn drained(self) -> Self {
        FrameworkState { commands: Seq::empty(), ..self }
    }
}

/// `op` creates buffer `id` for storage use, filled with `len` bytes.
pub open spec fn is_buffer_init(op: Op, id: usize, len: nat) -> bool {
    match op {
        Op::CreateBufferInit { id: i, usage, contents } => i == id && usage == storage_usage()
            && contents.len() == len,
        _ => false,
    }
}

/// The connection to one device and its command queue.
///
/// Every resource is created through it and gets the next free handle. Every
/// operation on a resource records its commands here, behind all commands
/// recorded before.
#[derive(Debug)]
pub struct Framework {
    resources: Vec<ResourceKind>,
    queue: Vec<Command>,
    pending: Vec<usize>,
    unsettled: bool,
}

impl View for Framework {
    type V = FrameworkState;

    closed spec fn view(&self) -> FrameworkState {
        FrameworkState {
            resources: self.resources@,
            commands: ops(self.queue@),
            pending: self.pending@,
            unsettled: self.unsettled,
        }
    }
}

impl Framework {
    /// A context with no resource and an empty queue.
    pub fn new() -> (fw: Framework)
        ensures
            fw@ == FrameworkState::empty(),
    {
        let fw = Framework {
            resources: Vec::new(),
            queue: Vec::new(),
            pending: Vec::new(),
            unsettled: false,
        };
        assert(fw@ =~= FrameworkState::empty());
        fw
    }

    /// The number of resources created so far.
    pub fn resource_count(&self) -> (n: usize)
        ensures
            n == self@.resources.len(),
    {
        self.resources.len()
    }

    /// The kind of the resource with handle `id`, if there is one.
    pub fn resource_kind(&self, id: usize) -> (kind: Option<ResourceKind>)
        ensures
            kind == if id < self@.resources.len() {
                Some(self@.resources[id as int])
            } else {
                None
            },
    {
        if id < self.resources.len() {
            Some(self.resources[id])
        } else {
            None
        }
    }

    /// The number of commands waiting to be taken.
    pub fn command_count(&self) -> (n: usize)
        ensures
            n == self@.commands.len(),
    {
        self.queue.len()
    }

    /// The number of reads that are not resolved yet.
    pub fn pending_reads(&self) -> (n: usize)
        ensures
            n == self@.pending.len(),
    {
        self.pending.len()
    }

    /// Whether a read through `staging` is not resolved yet.
    pub fn is_pending(&self, staging: usize) -> (b: bool)
        ensures
            b == self@.pending.contains(staging),
    {
        let mut i: usize = 0;
        while i < self.pending.len()
            invariant
                i <= self.pending@.len(),
                forall|j: int| 0 <= j < i ==> self.pending@[j] != staging,
            decreases self.pending@.len() - i,
        {
            if self.pending[i] == staging {
                return true;
            }
            i = i + 1;
        }
        false
    }

    /// Whether this framework itself knows of work that may not be complete:
    /// a command of its own since its last blocking poll, or a read of its own
    /// that is not resolved. Work that others gave the device is not counted.
    pub fn has_pending_work(&self) -> (b: bool)
        ensures
            b == self@.has_pending_work(),
    {
        self.unsettled || self.pending.len() > 0
    }

    /// Gives the next handle to a resource of `kind`.
    pub(crate) fn allocate(&mut self, kind: ResourceKind) -> (id: usize)
        ensures
            id == old(self)@.next_id(),
            final(self)@ == old(self)@.allocate(kind),
    {
        let id: usize = self.resources.len();
        self.resources.push(kind);
        assert(self@ =~= old(self)@.allocate(kind));
        id
    }

    /// Records `command` behind all earlier commands.
    pub(crate) fn record(&mut self, command: Command)
        ensures
            final(self)@ == old(self)@.record(command@),
    {
        self.queue.push(command);
        self.unsettled = true;
        assert(self@ =~= old(self)@.record(command@));
    }

    /// Notes that a read through `staging` was begun.
    pub(crate) fn await_read(&mut self, staging: usize)
        ensures
            final(self)@ == old(self)@.await_read(staging),
    {
        self.pending.push(staging);
        assert(self@ =~= old(self)@.await_read(staging));
    }

    /// Notes that the read through `staging` was resolved.
    pub(crate) fn finish_read(&mut self, staging: usize)
        ensures
            final(self)@ == old(self)@.finish_read(staging),
    {
        let mut kept: Vec<usize> = Vec::new();
        let mut i: usize = 0;
        while i < self.pending.len()
            invariant
                i <= self.pending@.len(),
                kept@ == without(self.pending@.take(i as int), staging),
                *self == *old(self),
            decreases self.pending@.len() - i,
        {
            assert(self.pending@.take(i + 1).drop_last() =~= self.pending@.take(i as int));
            if self.pending[i] != staging {
                kept.push(self.pending[i]);
            }
            i = i + 1;
        }
        assert(self.pending@.take(i as int) =~= self.pending@);
        self.pending = kept;
        assert(self@ =~= old(self)@.finish_read(staging));
    }

    /// A builder of a kernel that runs `entry_point` of `shader`, without
    /// bindings yet.
    pub fn create_kernel_builder<'sha>(&self, shader: &'sha Shader, entry_point: &str) -> (builder:
        KernelBuilder<'sha>)
        ensures
            builder@ == (BuilderModel {
                shader: shader@,
                entry_point: entry_point@,
                bindings: Seq::empty(),
            }),
    {
        KernelBuilder::new(shader, entry_point)
    }

    /// Creates a buffer of `len` elements for storage use. Its contents are
    /// unspecified until they are written. The size in bytes has to fit in
    /// `usize`.
    pub fn create_buffer<T: bytemuck::Pod>(&mut self, len: usize) -> (buffer: GpuBuffer<T>)
        requires
            len * size_of::<T>() <= usize::MAX,
        ensures
            buffer@ == (BufferModel { id: old(self)@.next_id() as usize, len: len as nat }),
            final(self)@ == old(self)@.allocate(ResourceKind::Buffer).record(
                Op::CreateBuffer {
                    id: buffer@.id,
                    desc: BufferDescriptor {
                        size: (len * size_of::<T>()) as usize,
                        usage: storage_usage(),
                        mapped_at_creation: false,
                    },
                },
            ),
    {
        let id: usize = self.allocate(ResourceKind::Buffer);
        let size: usize = len * core::mem::size_of::<T>();
        let buffer = GpuBuffer::<T>::new(id, len, size);
        let desc = BufferDescriptor {
            size,
            usage: BufferUsage::for_storage(),
            mapped_at_creation: false,
        };
        self.record(Command::CreateBuffer { id, desc });
        buffer
    }

    /// Creates a buffer of `len` elements for storage use that holds
    /// `contents`.
    fn init_buffer<T: bytemuck::Pod>(&mut self, len: usize, contents: Vec<u8>) -> (buffer: GpuBuffer<T>)
        requires
            contents@.len() == len * size_of::<T>(),
        ensures
            buffer@ == (BufferModel { id: old(self)@.next_id() as usize, len: len as nat }),
            final(self)@ == old(self)@.allocate(ResourceKind::Buffer).record(
                Op::CreateBufferInit { id: buffer@.id, usage: storage_usage(), contents: contents@ },
            ),
    {
        let id: usize = self.allocate(ResourceKind::Buffer);
        let buffer = GpuBuffer::<T>::new(id, len, contents.len());
        self.record(
            Command::CreateBufferInit { id, usage: BufferUsage::for_storage(), contents },
        );
        buffer
    }

    /// Creates a buffer of `len` elements for storage use that holds
    /// `contents`, the bytes of its elements, uploaded as the buffer is
    /// created. The bytes have to be those of exactly `len` elements; otherwise
    /// the sizes do not match, and nothing is created or recorded.
    pub fn create_buffer_from_bytes<T: bytemuck::Pod>(&mut self, len: usize, contents: Vec<u8>) -> (r:
        Result<GpuBuffer<T>, Error>)
        ensures
            contents@.len() != len * size_of::<T>() ==> r is Err && r->Err_0 == Error::SizeMismatch
                && final(self)@ == old(self)@,
            contents@.len() == len * size_of::<T>() ==> r is Ok && r->Ok_0@ == (BufferModel {
                id: old(self)@.next_id() as usize,
                len: len as nat,
            }) && final(self)@ == old(self)@.allocate(ResourceKind::Buffer).record(
                Op::CreateBufferInit {
                    id: old(self)@.next_id() as usize,
                    usage: storage_usage(),
                    contents: contents@,
                },
            ),
    {
        let size: usize = contents.len();
        match len.checked_mul(core::mem::size_of::<T>()) {
            Some(expected) => if size == expected {
                Ok(self.init_buffer(len, contents))
            } else {
                Err(Error::SizeMismatch)
            },
            None => Err(Error::SizeMismatch),
        }
    }

    /// Creates a buffer for storage use that holds the elements of `data`,
    /// uploaded as the buffer is created: the bytes of the elements, as they
    /// lie in host memory, become the contents as in
    /// [`Framework::create_buffer_from_bytes`].
    pub fn create_buffer_from_slice<T: bytemuck::Pod>(&mut self, data: &[T]) -> (buffer: GpuBuffer<T>)
        ensures
            buffer@ == (BufferModel { id: old(self)@.next_id() as usize, len: data@.len() }),
            final(self)@.commands.len() == old(self)@.commands.len() + 1,
            is_buffer_init(
                final(self)@.commands.last(),
                buffer@.id,
                data@.len() * size_of::<T>(),
            ),
            final(self)@ == old(self)@.allocate(ResourceKind::Buffer).record(
                final(self)@.commands.last(),
            ),
    {
        let contents = to_bytes(data);
        self.init_buffer(data.len(), contents)
    }

    /// Creates an image of `width` by `height` pixels of `format`, usable as a
    /// storage and texture binding and as both ends of a copy, and its full
    /// view. The image has to hold a pixel, the pitch of its rows has to fit in
    /// 32 bits, and its staging buffer has to fit in `usize`.
    pub fn create_image(&mut self, width: u32, height: u32, format: PixelFormat) -> (image: GpuImage)
        requires
            valid_image(width, height, format),
        ensures
            image.model() == (ImageModel {
                id: old(self)@.next_id() as usize,
                width,
                height,
                format,
            }),
            image.wf(),
            final(self)@ == old(self)@.allocate(ResourceKind::Image).record(
                Op::CreateImage {
                    id: old(self)@.next_id() as usize,
                    desc: image_descriptor(width, height, format),
                },
            ),
    {
        let id: usize = self.allocate(ResourceKind::Image);
        let desc = ImageDescriptor {
            width,
            height,
            depth: 1,
            mip_levels: 1,
            samples: 1,
            format,
            usage: ImageUsage {
                storage_binding: true,
                texture_binding: true,
                copy_src: true,
                copy_dst: true,
            },
        };
        self.record(Command::CreateImage { id, desc });
        GpuImage::new(id, width, height, format)
    }

    /// Creates a staging buffer of `size` bytes: host-visible memory that a
    /// read is copied to and mapped from.
    pub(crate) fn create_staging_buffer(&mut self, size: usize) -> (id: usize)
        ensures
            id == old(self)@.next_id(),
            final(self)@ == old(self)@.allocate(ResourceKind::Staging).record(
                Op::CreateBuffer {
                    id,
                    desc: BufferDescriptor {
                        size,
                        usage: staging_usage(),
                        mapped_at_creation: false,
                    },
                },
            ),
    {
        let id: usize = self.allocate(ResourceKind::Staging);
        let desc = BufferDescriptor {
            size,
            usage: BufferUsage::for_staging(),
            mapped_at_creation: false,
        };
        self.record(Command::CreateBuffer { id, desc });
        id
    }

    /// Non-blocking poll: asks the device to make progress on its pending
    /// work and to return at once. The poll is recorded on every call, also
    /// where this framework knows of no pending work: the device may have work
    /// from others. Nothing but the queue changes.
    pub fn poll(&mut self)
        ensures
            final(self)@ == old(self)@.poll(),
    {
        self.queue.push(Command::Poll { wait: false });
        assert(self@ =~= old(self)@.poll());
    }

    /// Blocking poll: asks the device to complete all pending work, reads
    /// included, before it returns. The poll is recorded on every call. When
    /// the device has run it, no command recorded before it is pending.
    pub fn blocking_poll(&mut self)
        ensures
            final(self)@ == old(self)@.blocking_poll(),
    {
        self.queue.push(Command::Poll { wait: true });
        self.unsettled = false;
        assert(self@ =~= old(self)@.blocking_poll());
    }

    /// Hands the recorded commands to the driver, oldest first, and leaves
    /// the queue empty.
    pub fn take_commands(&mut self) -> (commands: Vec<Command>)
        ensures
            ops(commands@) == old(self)@.commands,
            final(self)@ == old(self)@.drained(),
    {
        let mut commands: Vec<Command> = Vec::new();
        std::mem::swap(&mut self.queue, &mut commands);
        assert(self@ =~= old(self)@.drained());
        commands
    }
}

/// A new resource gets a handle that no earlier resource has, and every
/// earlier resource keeps its handle and its kind through every step.
pub proof fn lemma_handles_are_fresh(
    state: FrameworkState,
    kind: ResourceKind,
    op: Op,
    staging: usize,
)
    ensures
        state.allocate(kind).resources == state.resources.push(kind),
        state.allocate(kind).resources[state.next_id() as int] == kind,
        forall|id: int|
            0 <= id < state.resources.len() ==> id != state.next_id() && state.allocate(
                kind,
            ).resources[id] == #[trigger] state.resources[id],
        state.record(op).resources == state.resources,
        state.await_read(staging).resources == state.resources,
        state.finish_read(staging).resources == state.resources,
        state.poll().resources == state.resources,
        state.blocking_poll().resources == state.resources,
        state.drained().resources == state.resources,
{
}

/// No step of a framework drops or reorders a command: what was recorded
/// stays at the front of the queue, in its order, and a new command goes to
/// the end.
pub proof fn lemma_commands_keep_order(
    state: FrameworkState,
    op: Op,
    kind: ResourceKind,
    staging: usize,
)
    ensures
        state.record(op).commands == state.commands + seq![op],
        state.allocate(kind).commands == state.commands,
        state.await_read(staging).commands == state.commands,
        state.finish_read(staging).commands == state.commands,
        state.commands.is_prefix_of(state.poll().commands),
        state.commands.is_prefix_of(state.blocking_poll().commands),
{
    assert(state.record(op).commands =~= state.commands + seq![op]);
    assert(state.commands =~= state.poll().commands.take(state.commands.len() as int));
    assert(state.commands =~= state.blocking_poll().commands.take(state.commands.len() as int));
}

/// A write, a dispatch, a second write and a blocking read reach the queue in
/// the order in which they are issued, behind everything recorded before:
/// the device sees the dispatch after the first write and before the second,
/// and the copy of the read after both.
pub proof fn lemma_submission_order(
    state: FrameworkState,
    first: Op,
    dispatch: Op,
    second: Op,
    buffer: usize,
    size: usize,
)
    ensures
        ({
            let staging = state.next_id() as usize;
            after_read_request(
                state.record(first).record(dispatch).record(second),
                buffer,
                size,
            ).blocking_poll().commands == state.commands + seq![
                first,
                dispatch,
                second,
                Op::CreateBuffer {
                    id: staging,
                    desc: BufferDescriptor {
                        size,
                        usage: staging_usage(),
                        mapped_at_creation: false,
                    },
                },
                Op::CopyBuffer { source: buffer, destination: staging, size },
                Op::MapRead { staging, size },
                Op::Poll { wait: true },
            ]
        }),
{
    let staging = state.next_id() as usize;
    let written = state.record(first).record(dispatch).record(second);
    let asked = after_read_request(written, buffer, size);
    assert(asked.blocking_poll().commands =~= state.commands + seq![
        first,
        dispatch,
        second,
        Op::CreateBuffer {
            id: staging,
            desc: BufferDescriptor { size, usage: staging_usage(), mapped_at_creation: false },
        },
        Op::CopyBuffer { source: buffer, destination: staging, size },
        Op::MapRead { staging, size },
        Op::Poll { wait: true },
    ]);
}

/// A poll makes no resource, begins and ends no read and takes no command
/// back: it only goes to the end of the queue. So does every further poll,
/// whether or not the framework knows of pending work. A blocking poll leaves
/// only the reads that are not resolved as pending.
pub proof fn lemma_poll_changes_nothing(state: FrameworkState)
    ensures
        state.poll() == (FrameworkState {
            commands: state.commands + seq![Op::Poll { wait: false }],
            ..state
        }),
        state.blocking_poll() == (FrameworkState {
            commands: state.commands + seq![Op::Poll { wait: true }],
            unsettled: false,
            ..state
        }),
        state.poll().poll().resources == state.resources,
        state.poll().poll().pending == state.pending,
        state.poll().has_pending_work() == state.has_pending_work(),
        state.blocking_poll().has_pending_work() == (state.pending.len() > 0),
{
    assert(state.poll().commands =~= state.commands + seq![Op::Poll { wait: false }]);
    assert(state.blocking_poll().commands =~= state.commands + seq![Op::Poll { wait: true }]);
}

} // verus!
