//! Typed buffers in device memory.
use crate::bytes::to_bytes;
use crate::command::{BufferDescriptor, Command, Op, ResourceKind, staging_usage};
use crate::error::Error;
use crate::framework::{Framework, FrameworkState};
use crate::pitch::strip_padding;
use crate::read::{ReadPlan, TypedRead};
use std::marker::PhantomData;
use vstd::layout::size_of;
use vstd::prelude::*;

verus! {

/// A [`GpuBuffer`] as a mathematical value.
pub struct BufferModel {
    /// Handle of the buffer in its framework.
    pub id: usize,
    /// Number of elements.
    pub len: nat,
}

/// A region of device memory that holds `len` elements of `T`.
///
/// Its size in bytes is always `len * size_of::<T>()`.
#[derive(Debug)]
pub struct GpuBuffer<T> {
    id: usize,
    len: usize,
    elem_size: usize,
    size: usize,
    marker: PhantomData<T>,
}

impl<T> View for GpuBuffer<T> {
    type V = BufferModel;

    closed spec fn view(&self) -> BufferModel {
        BufferModel { id: self.id, len: self.len as nat }
    }
}

/// `op` writes `len` bytes into `buffer`, `offset` bytes from its start.
pub open spec fn is_buffer_write(op: Op, buffer: usize, offset: int, len: nat) -> bool {
    match op {
        Op::WriteBuffer { buffer: b, offset: o, data } => b == buffer && o == offset && data.len()
            == len,
        _ => false,
    }
}

/// The state after a read of `size` bytes of `buffer` was asked for: a staging
/// buffer of that size is created, filled from the buffer and mapped.
pub open spec fn after_read_request(state: FrameworkState, buffer: usize, size: usize) -> FrameworkState {
    let staging = state.next_id() as usize;
    state.allocate(ResourceKind::Staging).record(
        Op::CreateBuffer {
            id: staging,
            desc: BufferDescriptor { size, usage: staging_usage(), mapped_at_creation: false },
        },
    ).record(Op::CopyBuffer { source: buffer, destination: staging, size }).record(
        Op::MapRead { staging, size },
    ).await_read(staging)
}

/// The plan of a read of `size` bytes in one row through `staging`.
pub open spec fn linear_plan(staging: usize, size: usize) -> ReadPlan {
    ReadPlan { staging: Some(staging), row_bytes: size as nat, pitch: size as nat, rows: 1 }
}

/// The plan of a read that asks nothing of the device.
pub open spec fn empty_plan() -> ReadPlan {
    ReadPlan { staging: None, row_bytes: 0, pitch: 0, rows: 0 }
}

impl<T> GpuBuffer<T> {
    #[verifier::type_invariant]
    spec fn inv(self) -> bool {
        &&& self.elem_size == size_of::<T>()
        &&& self.size == self.len * self.elem_size
    }

    /// Size of the buffer in bytes.
    pub open spec fn byte_size(&self) -> nat {
        self@.len * size_of::<T>()
    }

    /// A buffer of `len` elements in `size` bytes with handle `id`.
    pub(crate) fn new(id: usize, len: usize, size: usize) -> (buffer: GpuBuffer<T>)
        requires
            size == len * size_of::<T>(),
        ensures
            buffer@ == (BufferModel { id, len: len as nat }),
    {
        GpuBuffer { id, len, elem_size: core::mem::size_of::<T>(), size, marker: PhantomData }
    }

    /// Handle of the buffer in its framework.
    pub fn id(&self) -> (r: usize)
        ensures
            r == self@.id,
    {
        self.id
    }

    /// Number of elements.
    pub fn len(&self) -> (r: usize)
        ensures
            r == self@.len,
    {
        self.len
    }

    /// Size in bytes.
    pub fn size(&self) -> (r: usize)
        ensures
            r == self.byte_size(),
    {
        proof {
            use_type_invariant(self);
        }
        self.size
    }

    /// Asks for all bytes of the buffer to be copied to a new staging buffer
    /// and mapped there.
    fn request_read(&self, fw: &mut Framework) -> (pending: TypedRead<T>)
        ensures
            self.byte_size() == 0 ==> final(fw)@ == old(fw)@ && pending@ == empty_plan(),
            self.byte_size() > 0 ==> final(fw)@ == after_read_request(
                old(fw)@,
                self@.id,
                self.byte_size() as usize,
            ) && pending@ == linear_plan(old(fw)@.next_id() as usize, self.byte_size() as usize),
    {
        proof {
            use_type_invariant(self);
        }
        if self.size == 0 {
            TypedRead::new(None, 0)
        } else {
            assert(self.elem_size > 0) by (nonlinear_arith)
                requires
                    self.size == self.len * self.elem_size,
                    self.size > 0,
            ;
            assert(self.size % self.elem_size == 0) by (nonlinear_arith)
                requires
                    self.size == self.len * self.elem_size,
                    self.elem_size > 0,
            ;
            let staging: usize = fw.create_staging_buffer(self.size);
            fw.record(Command::CopyBuffer { source: self.id, destination: staging, size: self.size });
            fw.record(Command::MapRead { staging, size: self.size });
            fw.await_read(staging);
            TypedRead::new(Some(staging), self.size)
        }
    }

    /// Begins a read of the whole buffer that does not block: a staging
    /// buffer is created, filled from the buffer and mapped. The data are
    /// there once the device was polled and the read is resolved. Reading a
    /// buffer without bytes asks nothing of the device.
    pub fn read_async(&self, fw: &mut Framework) -> (pending: TypedRead<T>)
        ensures
            self.byte_size() == 0 ==> final(fw)@ == old(fw)@ && pending@ == empty_plan(),
            self.byte_size() > 0 ==> final(fw)@ == after_read_request(
                old(fw)@,
                self@.id,
                self.byte_size() as usize,
            ) && pending@ == linear_plan(old(fw)@.next_id() as usize, self.byte_size() as usize),
    {
        self.request_read(fw)
    }

    /// Begins a blocking read of the whole buffer: as [`GpuBuffer::read_async`],
    /// followed by a blocking poll, so that every command recorded before has
    /// completed when the read is resolved. Reading a buffer without bytes asks
    /// nothing of the device.
    pub fn read(&self, fw: &mut Framework) -> (pending: TypedRead<T>)
        ensures
            self.byte_size() == 0 ==> final(fw)@ == old(fw)@ && pending@ == empty_plan(),
            self.byte_size() > 0 ==> final(fw)@ == after_read_request(
                old(fw)@,
                self@.id,
                self.byte_size() as usize,
            ).blocking_poll() && pending@ == linear_plan(
                old(fw)@.next_id() as usize,
                self.byte_size() as usize,
            ),
    {
        let pending = self.request_read(fw);
        if self.size() > 0 {
            fw.blocking_poll();
        }
        pending
    }

    /// Gives the buffer up: its memory is free once nothing on the device
    /// uses it. The handle is consumed, so nothing can be asked of the buffer
    /// afterwards.
    pub fn release(self, fw: &mut Framework)
        ensures
            final(fw)@ == old(fw)@.record(Op::Release { id: self@.id }),
    {
        fw.record(Command::Release { id: self.id });
    }

    /// Copies `bytes` from the host into the buffer, from byte `offset` on.
    ///
    /// An upload that would reach past the end of the buffer is refused as a
    /// whole: nothing is recorded. An upload of no bytes records nothing
    /// either.
    pub fn upload(&self, fw: &mut Framework, offset: usize, bytes: Vec<u8>) -> (r: Result<(), Error>)
        ensures
            r == if offset + bytes@.len() > self.byte_size() {
                Err::<(), Error>(Error::OutOfBounds)
            } else {
                Ok::<(), Error>(())
            },
            final(fw)@ == if offset + bytes@.len() > self.byte_size() || bytes@.len() == 0 {
                old(fw)@
            } else {
                old(fw)@.record(Op::WriteBuffer { buffer: self@.id, offset, data: bytes@ })
            },
    {
        proof {
            use_type_invariant(self);
        }
        if offset > self.size || bytes.len() > self.size - offset {
            return Err(Error::OutOfBounds);
        }
        if bytes.len() > 0 {
            fw.record(Command::WriteBuffer { buffer: self.id, offset, data: bytes });
        }
        Ok(())
    }

    /// Copies the whole of `other` into this buffer on the device. The two
    /// must have the same size in bytes; where they have no bytes nothing is
    /// recorded.
    pub fn copy_from(&self, fw: &mut Framework, other: &GpuBuffer<T>) -> (r: Result<(), Error>)
        ensures
            r == if other.byte_size() != self.byte_size() {
                Err::<(), Error>(Error::SizeMismatch)
            } else {
                Ok::<(), Error>(())
            },
            final(fw)@ == if other.byte_size() != self.byte_size() || self.byte_size() == 0 {
                old(fw)@
            } else {
                old(fw)@.record(
                    Op::CopyBuffer {
                        source: other@.id,
                        destination: self@.id,
                        size: self.byte_size() as usize,
                    },
                )
            },
    {
        proof {
            use_type_invariant(self);
            use_type_invariant(other);
        }
        if other.size != self.size {
            Err(Error::SizeMismatch)
        } else {
            if self.size > 0 {
                fw.record(
                    Command::CopyBuffer { source: other.id, destination: self.id, size: self.size },
                );
            }
            Ok(())
        }
    }
}

impl<T: bytemuck::Pod> GpuBuffer<T> {
    /// Copies `data` from the host into the buffer, from element `offset` on:
    /// the bytes of the elements, as they lie in host memory, are handed to
    /// [`GpuBuffer::upload`].
    ///
    /// A write that would reach past the end of the buffer is refused as a
    /// whole: nothing is recorded. A write of no bytes records nothing either.
    pub fn write(&self, fw: &mut Framework, offset: usize, data: &[T]) -> (r: Result<(), Error>)
        ensures
            r == if offset + data@.len() > self@.len {
                Err::<(), Error>(Error::OutOfBounds)
            } else {
                Ok::<(), Error>(())
            },
            offset + data@.len() > self@.len || data@.len() * size_of::<T>() == 0 ==> final(fw)@
                == old(fw)@,
            offset + data@.len() <= self@.len && data@.len() * size_of::<T>() > 0 ==> {
                &&& final(fw)@.commands.len() == old(fw)@.commands.len() + 1
                &&& final(fw)@ == old(fw)@.record(final(fw)@.commands.last())
                &&& is_buffer_write(
                    final(fw)@.commands.last(),
                    self@.id,
                    offset * size_of::<T>(),
                    data@.len() * size_of::<T>(),
                )
            },
    {
        proof {
            use_type_invariant(self);
        }
        if offset > self.len || data.len() > self.len - offset {
            return Err(Error::OutOfBounds);
        }
        let bytes = to_bytes(data);
        assert(offset * self.elem_size + data@.len() * self.elem_size <= self.len * self.elem_size)
            by (nonlinear_arith)
            requires
                offset + data@.len() <= self.len,
        ;
        self.upload(fw, offset * self.elem_size, bytes)
    }
}

/// A read of a buffer hands the mapped bytes on as they are: what the device
/// copied out of the buffer is what the read gives, byte for byte.
pub proof fn lemma_read_returns_mapped_bytes(staging: usize, size: usize, mapped: Seq<u8>)
    requires
        mapped.len() == size,
    ensures
        linear_plan(staging, size).outcome(Some(mapped)) == Ok::<Seq<u8>, Error>(mapped),
{
    let plan = linear_plan(staging, size);
    let out = strip_padding(mapped, plan.row_bytes, plan.pitch, plan.rows);
    assert(size as nat * 1 == size);
    assert forall|i: int| 0 <= i < out.len() implies out[i] == mapped[i] by {
        if size > 0 {
            vstd::arithmetic::div_mod::lemma_small_mod(i as nat, size as nat);
            vstd::arithmetic::div_mod::lemma_basic_div(i, size as int);
        }
    }
    assert(out =~= mapped);
}

/// A buffer without bytes is read without the device: nothing is asked for,
/// and the read gives no bytes whatever the driver hands in.
pub proof fn lemma_empty_read(mapped: Option<Seq<u8>>)
    ensures
        empty_plan().outcome(mapped) == Ok::<Seq<u8>, Error>(Seq::empty()),
{
}

} // verus!
