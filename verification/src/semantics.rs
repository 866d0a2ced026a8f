//! What the commands mean: the memory of a device as a mathematical value,
//! and what each command does to it.
//!
//! Nothing here runs. The meaning is what a driver has to implement, and the
//! laws at the end say what the library's plans give on every device that
//! does.
use crate::buffer::{after_read_request, linear_plan};
use crate::command::{BufferDescriptor, Op, staging_usage};
use crate::error::Error;
use crate::format::bytes_per_pixel;
use crate::framework::FrameworkState;
use crate::image::{ImageModel, valid_image};
use crate::pitch::{holds_rows, lemma_align_up, lemma_strip_recovers_rows, row_alignment};
use vstd::prelude::*;

verus! {

/// The memory of a device.
#[verifier::ext_equal]
pub struct Memory {
    /// The bytes of every buffer, by handle.
    pub buffers: Map<usize, Seq<u8>>,
    /// The pixels of every image, tightly packed, by handle.
    pub images: Map<usize, Seq<u8>>,
}

/// What a device does that no command determines.
pub struct Device {
    /// The contents of a resource that was created and not written yet, by
    /// its handle and its size in bytes.
    pub fresh: spec_fn(usize, nat) -> Seq<u8>,
    /// What one dispatch of a kernel makes of the memory, by the kernel's
    /// handle and the count of workgroups.
    pub kernel: spec_fn(usize, (u32, u32, u32), Memory) -> Memory,
}

impl Device {
    /// A new resource has the size it was created with.
    pub open spec fn wf(self) -> bool {
        forall|id: usize, size: nat| (#[trigger] (self.fresh)(id, size)).len() == size
    }
}

/// `target` with `data` written over it from position `offset` on, as far as
/// `target` reaches.
pub open spec fn overwrite(target: Seq<u8>, offset: int, data: Seq<u8>) -> Seq<u8> {
    Seq::new(
        target.len(),
        |i: int|
            if offset <= i < offset + data.len() {
                data[i - offset]
            } else {
                target[i]
            },
    )
}

/// `target` with the rows of `pixels` written over it, row `r` from position
/// `r * pitch` on; the bytes behind each row stay as they are.
pub open spec fn place_rows(target: Seq<u8>, pixels: Seq<u8>, row_bytes: int, pitch: int) -> Seq<u8> {
    Seq::new(
        target.len(),
        |i: int|
            if pitch > 0 && i % pitch < row_bytes && (i / pitch) * row_bytes + i % pitch
                < pixels.len() {
                pixels[(i / pitch) * row_bytes + i % pitch]
            } else {
                target[i]
            },
    )
}

/// The memory after the device ran `op`.
pub open spec fn step(device: Device, memory: Memory, op: Op) -> Memory {
    match op {
        Op::CreateBuffer { id, desc } => Memory {
            buffers: memory.buffers.insert(id, (device.fresh)(id, desc.size as nat)),
            ..memory
        },
        Op::CreateBufferInit { id, usage, contents } => Memory {
            buffers: memory.buffers.insert(id, contents),
            ..memory
        },
        Op::CreateImage { id, desc } => Memory {
            images: memory.images.insert(
                id,
                (device.fresh)(
                    id,
                    desc.width as nat * desc.height as nat * bytes_per_pixel(desc.format),
                ),
            ),
            ..memory
        },
        Op::WriteBuffer { buffer, offset, data } => if memory.buffers.dom().contains(buffer) {
            Memory {
                buffers: memory.buffers.insert(
                    buffer,
                    overwrite(memory.buffers[buffer], offset as int, data),
                ),
                ..memory
            }
        } else {
            memory
        },
        Op::CopyBuffer { source, destination, size } => if memory.buffers.dom().contains(source)
            && memory.buffers.dom().contains(destination) {
            Memory {
                buffers: memory.buffers.insert(
                    destination,
                    overwrite(
                        memory.buffers[destination],
                        0,
                        memory.buffers[source].take(size as int),
                    ),
                ),
                ..memory
            }
        } else {
            memory
        },
        Op::WriteImage { image, data, bytes_per_row, width, height } => if memory.images.dom().contains(
            image,
        ) {
            Memory { images: memory.images.insert(image, data), ..memory }
        } else {
            memory
        },
        Op::CopyImageToBuffer { image, staging, bytes_per_row, width, height } => if memory.images.dom().contains(
        image) && memory.buffers.dom().contains(staging) && height > 0 {
            Memory {
                buffers: memory.buffers.insert(
                    staging,
                    place_rows(
                        memory.buffers[staging],
                        memory.images[image],
                        memory.images[image].len() as int / height as int,
                        bytes_per_row as int,
                    ),
                ),
                ..memory
            }
        } else {
            memory
        },
        Op::Release { id } => Memory {
            buffers: memory.buffers.remove(id),
            images: memory.images.remove(id),
        },
        Op::Dispatch { kernel, x, y, z } => (device.kernel)(kernel, (x, y, z), memory),
        Op::MapRead { staging, size } => memory,
        Op::CreateKernel { id, shader, entry_point, bindings } => memory,
        Op::Poll { wait } => memory,
    }
}

/// The memory after the device ran `ops`, the first one first.
pub open spec fn run(device: Device, memory: Memory, ops: Seq<Op>) -> Memory
    decreases ops.len(),
{
    if ops.len() == 0 {
        memory
    } else {
        step(device, run(device, memory, ops.drop_last()), ops.last())
    }
}

/// A poll changes nothing in the memory of the device: polling a device
/// that has nothing to do is a no-op, however often it is done.
pub proof fn lemma_poll_keeps_memory(device: Device, memory: Memory, ops: Seq<Op>, wait: bool)
    ensures
        step(device, memory, Op::Poll { wait }) == memory,
        run(device, memory, ops.push(Op::Poll { wait })) == run(device, memory, ops),
{
    assert(ops.push(Op::Poll { wait }).drop_last() =~= ops);
}

/// Running commands one after the other is running them in one go.
pub proof fn lemma_run_concat(device: Device, memory: Memory, first: Seq<Op>, then: Seq<Op>)
    ensures
        run(device, memory, first + then) == run(device, run(device, memory, first), then),
    decreases then.len(),
{
    if then.len() == 0 {
        assert(first + then =~= first);
    } else {
        lemma_run_concat(device, memory, first, then.drop_last());
        assert((first + then).drop_last() =~= first + then.drop_last());
        assert((first + then).last() == then.last());
    }
}

/// What the commands of a framework that were recorded from `earlier` on
/// make of the memory.
pub open spec fn run_since(
    device: Device,
    memory: Memory,
    earlier: FrameworkState,
    now: FrameworkState,
) -> Memory {
    run(device, memory, now.commands.skip(earlier.commands.len() as int))
}

/// Recording one more command runs it behind the others.
pub proof fn lemma_run_record(
    device: Device,
    memory: Memory,
    earlier: FrameworkState,
    now: FrameworkState,
    op: Op,
)
    requires
        earlier.commands.len() <= now.commands.len(),
    ensures
        run_since(device, memory, earlier, now.record(op)) == step(
            device,
            run_since(device, memory, earlier, now),
            op,
        ),
{
    let k = earlier.commands.len() as int;
    assert(now.record(op).commands.skip(k).drop_last() =~= now.commands.skip(k));
}

/// The memory after a read of `buffer` was asked for: the staging buffer of
/// the read holds the first `size` bytes of `buffer`, and every other buffer
/// is as it was.
pub proof fn lemma_read_request_copies(
    device: Device,
    memory: Memory,
    earlier: FrameworkState,
    now: FrameworkState,
    buffer: usize,
    size: usize,
)
    requires
        device.wf(),
        earlier.commands.len() <= now.commands.len(),
        now.next_id() <= usize::MAX,
        buffer != now.next_id(),
        run_since(device, memory, earlier, now).buffers.dom().contains(buffer),
        run_since(device, memory, earlier, now).buffers[buffer].len() == size,
    ensures
        ({
            let before = run_since(device, memory, earlier, now);
            let asked = after_read_request(now, buffer, size);
            let after = run_since(device, memory, earlier, asked);
            let staging = now.next_id() as usize;
            &&& after.buffers == before.buffers.insert(staging, before.buffers[buffer])
            &&& after.images == before.images
            &&& run_since(device, memory, earlier, asked.blocking_poll()) == after
        }),
{
    let before = run_since(device, memory, earlier, now);
    let staging = now.next_id() as usize;
    let create = Op::CreateBuffer {
        id: staging,
        desc: BufferDescriptor { size, usage: staging_usage(), mapped_at_creation: false },
    };
    let copy = Op::CopyBuffer { source: buffer, destination: staging, size };
    let map = Op::MapRead { staging, size };
    let s0 = now.allocate(crate::command::ResourceKind::Staging);
    let s1 = s0.record(create);
    let s2 = s1.record(copy);
    let s3 = s2.record(map);
    let asked = after_read_request(now, buffer, size);
    assert(asked == s3.await_read(staging));
    assert(run_since(device, memory, earlier, s0) == before);
    lemma_run_record(device, memory, earlier, s0, create);
    lemma_run_record(device, memory, earlier, s1, copy);
    lemma_run_record(device, memory, earlier, s2, map);
    let m1 = step(device, before, create);
    let m2 = step(device, m1, copy);
    assert(m1.buffers[staging].len() == size);
    assert(m1.buffers[buffer] == before.buffers[buffer]);
    assert(m1.buffers[buffer].take(size as int) =~= before.buffers[buffer]);
    assert(overwrite(m1.buffers[staging], 0, before.buffers[buffer]) =~= before.buffers[buffer]);
    assert(m2.buffers =~= before.buffers.insert(staging, before.buffers[buffer]));
    assert(run_since(device, memory, earlier, asked) == m2);
    let polled = asked.blocking_poll();
    let k = earlier.commands.len() as int;
    assert(polled.commands.skip(k).drop_last() =~= asked.commands.skip(k));
}

/// What is written to a whole buffer is what a read of the buffer gives, byte
/// for byte, on every device that runs the commands as [`step`] says:
/// whatever was recorded before, and whatever the buffer held.
pub proof fn lemma_write_then_read(
    device: Device,
    memory: Memory,
    state: FrameworkState,
    buffer: usize,
    data: Seq<u8>,
)
    requires
        device.wf(),
        state.next_id() <= usize::MAX,
        buffer != state.next_id(),
        memory.buffers.dom().contains(buffer),
        memory.buffers[buffer].len() == data.len(),
        0 < data.len() <= usize::MAX,
    ensures
        ({
            let size = data.len() as usize;
            let staging = state.next_id() as usize;
            let written = state.record(Op::WriteBuffer { buffer, offset: 0, data });
            let read = after_read_request(written, buffer, size).blocking_poll();
            let mapped = run_since(device, memory, state, read).buffers[staging];
            linear_plan(staging, size).outcome(Some(mapped)) == Ok::<Seq<u8>, Error>(data)
        }),
{
    let size = data.len() as usize;
    let written = state.record(Op::WriteBuffer { buffer, offset: 0, data });
    assert(state.commands.skip(state.commands.len() as int) =~= Seq::empty());
    lemma_run_record(device, memory, state, state, Op::WriteBuffer { buffer, offset: 0, data });
    let m1 = run_since(device, memory, state, written);
    assert(m1.buffers[buffer] =~= data);
    lemma_read_request_copies(device, memory, state, written, buffer, size);
    crate::buffer::lemma_read_returns_mapped_bytes(state.next_id() as usize, size, data);
}

/// A buffer that was created from bytes gives these bytes when it is read,
/// on every device that runs the commands as [`step`] says.
pub proof fn lemma_init_then_read(
    device: Device,
    memory: Memory,
    state: FrameworkState,
    usage: crate::command::BufferUsage,
    contents: Seq<u8>,
)
    requires
        device.wf(),
        state.next_id() + 1 <= usize::MAX,
        0 < contents.len() <= usize::MAX,
    ensures
        ({
            let size = contents.len() as usize;
            let buffer = state.next_id() as usize;
            let staging = (state.next_id() + 1) as usize;
            let created = state.allocate(crate::command::ResourceKind::Buffer).record(
                Op::CreateBufferInit { id: buffer, usage, contents },
            );
            let read = after_read_request(created, buffer, size).blocking_poll();
            let mapped = run_since(device, memory, state, read).buffers[staging];
            linear_plan(staging, size).outcome(Some(mapped)) == Ok::<Seq<u8>, Error>(contents)
        }),
{
    let size = contents.len() as usize;
    let buffer = state.next_id() as usize;
    let allocated = state.allocate(crate::command::ResourceKind::Buffer);
    let op = Op::CreateBufferInit { id: buffer, usage, contents };
    let created = allocated.record(op);
    assert(state.commands.skip(state.commands.len() as int) =~= Seq::empty());
    lemma_run_record(device, memory, state, allocated, op);
    lemma_read_request_copies(device, memory, state, created, buffer, size);
    crate::buffer::lemma_read_returns_mapped_bytes((state.next_id() + 1) as usize, size, contents);
}

/// A read sees the commands in the order of their issue: after a write, a
/// dispatch and a second write, it gives what the second write made of what
/// the kernel left, and the kernel ran on what the first write left. This
/// holds on every device that runs the commands as [`step`] says, whatever
/// the kernel does.
pub proof fn lemma_read_sees_issue_order(
    device: Device,
    memory: Memory,
    state: FrameworkState,
    buffer: usize,
    first: (usize, Seq<u8>),
    kernel: usize,
    workgroups: (u32, u32, u32),
    second: (usize, Seq<u8>),
    size: usize,
)
    requires
        device.wf(),
        state.next_id() <= usize::MAX,
        buffer != state.next_id(),
        ({
            let m1 = step(device, memory, Op::WriteBuffer { buffer, offset: first.0, data: first.1 });
            let m2 = (device.kernel)(kernel, workgroups, m1);
            let m3 = step(device, m2, Op::WriteBuffer { buffer, offset: second.0, data: second.1 });
            m3.buffers.dom().contains(buffer) && m3.buffers[buffer].len() == size
        }),
    ensures
        ({
            let m1 = step(device, memory, Op::WriteBuffer { buffer, offset: first.0, data: first.1 });
            let m2 = (device.kernel)(kernel, workgroups, m1);
            let m3 = step(device, m2, Op::WriteBuffer { buffer, offset: second.0, data: second.1 });
            let staging = state.next_id() as usize;
            let issued = state.record(
                Op::WriteBuffer { buffer, offset: first.0, data: first.1 },
            ).record(
                Op::Dispatch { kernel, x: workgroups.0, y: workgroups.1, z: workgroups.2 },
            ).record(Op::WriteBuffer { buffer, offset: second.0, data: second.1 });
            let read = after_read_request(issued, buffer, size).blocking_poll();
            let mapped = run_since(device, memory, state, read).buffers[staging];
            &&& mapped == m3.buffers[buffer]
            &&& linear_plan(staging, size).outcome(Some(mapped)) == Ok::<Seq<u8>, Error>(mapped)
        }),
{
    let w1 = Op::WriteBuffer { buffer, offset: first.0, data: first.1 };
    let go = Op::Dispatch { kernel, x: workgroups.0, y: workgroups.1, z: workgroups.2 };
    let w2 = Op::WriteBuffer { buffer, offset: second.0, data: second.1 };
    let s1 = state.record(w1);
    let s2 = s1.record(go);
    let s3 = s2.record(w2);
    assert(state.commands.skip(state.commands.len() as int) =~= Seq::empty());
    lemma_run_record(device, memory, state, state, w1);
    lemma_run_record(device, memory, state, s1, go);
    lemma_run_record(device, memory, state, s2, w2);
    lemma_read_request_copies(device, memory, state, s3, buffer, size);
    let m3 = run_since(device, memory, state, s3);
    crate::buffer::lemma_read_returns_mapped_bytes(
        state.next_id() as usize,
        size,
        m3.buffers[buffer],
    );
}

/// The pixels that are written to an image are the pixels that a read of the
/// image gives, on every device that runs the commands as [`step`] says:
/// also where a row in the staging buffer is longer than a row of pixels, and
/// whatever the staging buffer held between the rows.
pub proof fn lemma_image_write_then_read(
    device: Device,
    memory: Memory,
    state: FrameworkState,
    image: ImageModel,
    pixels: Seq<u8>,
)
    requires
        device.wf(),
        state.next_id() <= usize::MAX,
        valid_image(image.width, image.height, image.format),
        memory.images.dom().contains(image.id),
        pixels.len() == image.byte_len(),
    ensures
        ({
            let staging = state.next_id() as usize;
            let written = state.record(
                Op::WriteImage {
                    image: image.id,
                    data: pixels,
                    bytes_per_row: image.row_bytes() as usize,
                    width: image.width,
                    height: image.height,
                },
            );
            let read = image.after_read_request(written).blocking_poll();
            let mapped = run_since(device, memory, state, read).buffers[staging];
            image.read_plan(staging).outcome(Some(mapped)) == Ok::<Seq<u8>, Error>(pixels)
        }),
{
    let staging = state.next_id() as usize;
    let row = image.row_bytes() as int;
    let pitch = image.pitch() as int;
    let rows = image.height as int;
    lemma_align_up(image.row_bytes(), row_alignment());
    assert(row > 0 && rows > 0 && row <= pitch && pitch * rows <= usize::MAX && row * rows
        == pixels.len()) by {
        assert(row > 0) by (nonlinear_arith)
            requires
                row == image.width as int * bytes_per_pixel(image.format) as int,
                image.width > 0,
                bytes_per_pixel(image.format) > 0,
        ;
        assert(image.staging_len() == (ImageModel { id: 0, ..image }).staging_len());
    }
    assert(pitch <= pitch * rows) by (nonlinear_arith)
        requires
            pitch >= 0,
            rows >= 1,
    ;
    let size = image.staging_len() as usize;
    let write = Op::WriteImage {
        image: image.id,
        data: pixels,
        bytes_per_row: image.row_bytes() as usize,
        width: image.width,
        height: image.height,
    };
    let create = Op::CreateBuffer {
        id: staging,
        desc: BufferDescriptor { size, usage: staging_usage(), mapped_at_creation: false },
    };
    let copy = Op::CopyImageToBuffer {
        image: image.id,
        staging,
        bytes_per_row: image.pitch() as usize,
        width: image.width,
        height: image.height,
    };
    let map = Op::MapRead { staging, size };
    let written = state.record(write);
    let s0 = written.allocate(crate::command::ResourceKind::Staging);
    let s1 = s0.record(create);
    let s2 = s1.record(copy);
    let s3 = s2.record(map);
    let asked = image.after_read_request(written);
    assert(asked == s3.await_read(staging));
    assert(state.commands.skip(state.commands.len() as int) =~= Seq::empty());
    lemma_run_record(device, memory, state, state, write);
    assert(run_since(device, memory, state, s0) == run_since(device, memory, state, written));
    lemma_run_record(device, memory, state, s0, create);
    lemma_run_record(device, memory, state, s1, copy);
    lemma_run_record(device, memory, state, s2, map);
    let k = state.commands.len() as int;
    assert(asked.blocking_poll().commands.skip(k).drop_last() =~= asked.commands.skip(k));

    let m1 = step(device, memory, write);
    let m2 = step(device, m1, create);
    let m3 = step(device, m2, copy);
    assert(m3 == run_since(device, memory, state, asked.blocking_poll()));
    assert(m2.images[image.id] == pixels);
    assert(pixels.len() as int / rows == row) by {
        vstd::arithmetic::div_mod::lemma_div_by_multiple(row, rows);
    }
    let filled = m2.buffers[staging];
    assert(filled.len() == pitch * rows);
    let mapped = m3.buffers[staging];
    assert(mapped == place_rows(filled, pixels, row, pitch));
    assert forall|r: int, c: int| 0 <= r < rows && 0 <= c < row implies #[trigger] mapped[r * pitch
        + c] == pixels[r * row + c] by {
        let i = r * pitch + c;
        vstd::arithmetic::div_mod::lemma_fundamental_div_mod_converse(i, pitch, r, c);
        assert(0 <= i < pitch * rows && 0 <= r * row + c < row * rows) by (nonlinear_arith)
            requires
                0 <= r < rows,
                0 <= c < row,
                row <= pitch,
                i == r * pitch + c,
        ;
    }
    assert(holds_rows(mapped, pixels, row as nat, pitch as nat, rows as nat));
    lemma_strip_recovers_rows(mapped, pixels, row as nat, pitch as nat, rows as nat);
}

} // verus!
