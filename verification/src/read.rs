//! Reads that are under way: what was asked of the device, and what becomes of
//! the bytes it hands back.
use crate::bytes::from_bytes;
use crate::command::{Command, Op};
use crate::error::Error;
use crate::framework::Framework;
use crate::pitch::{strip_padding, strip_rows};
use std::marker::PhantomData;
use vstd::layout::size_of;
use vstd::prelude::*;

verus! {

/// What a read asked for, as a mathematical value.
pub struct ReadPlan {
    /// The staging buffer that the device fills, or `None` where there is
    /// nothing to read.
    pub staging: Option<usize>,
    /// Bytes of data in a row.
    pub row_bytes: nat,
    /// Bytes from the start of one row to the start of the next.
    pub pitch: nat,
    /// Number of rows.
    pub rows: nat,
}

impl ReadPlan {
    /// Number of bytes that the device maps for this read.
    pub open spec fn mapped_len(self) -> nat {
        self.pitch * self.rows
    }

    /// What the read gives once the device has answered: `mapped` is `None`
    /// where the mapping failed, else the mapped bytes.
    pub open spec fn outcome(self, mapped: Option<Seq<u8>>) -> Result<Seq<u8>, Error> {
        if self.staging is None {
            Ok(Seq::empty())
        } else {
            match mapped {
                None => Err(Error::MapFailed),
                Some(bytes) => if bytes.len() != self.mapped_len() {
                    Err(Error::SizeMismatch)
                } else {
                    Ok(strip_padding(bytes, self.row_bytes, self.pitch, self.rows))
                },
            }
        }
    }
}

/// A read that was asked of the device and is not resolved yet.
///
/// The driver runs the recorded commands, waits for the staging buffer to be
/// mapped and hands its bytes to [`PendingRead::resolve`].
#[derive(Debug)]
pub struct PendingRead {
    staging: Option<usize>,
    row_bytes: usize,
    pitch: usize,
    rows: usize,
    mapped_len: usize,
}

impl View for PendingRead {
    type V = ReadPlan;

    closed spec fn view(&self) -> ReadPlan {
        ReadPlan {
            staging: self.staging,
            row_bytes: self.row_bytes as nat,
            pitch: self.pitch as nat,
            rows: self.rows as nat,
        }
    }
}

/// The bytes of a `Result` as a sequence.
pub open spec fn bytes_of(r: Result<Vec<u8>, Error>) -> Result<Seq<u8>, Error> {
    match r {
        Ok(v) => Ok(v@),
        Err(e) => Err(e),
    }
}

/// The bytes of an `Option` as a sequence.
pub open spec fn mapped_of(mapped: Option<&[u8]>) -> Option<Seq<u8>> {
    match mapped {
        Some(bytes) => Some(bytes@),
        None => None,
    }
}

impl PendingRead {
    #[verifier::type_invariant]
    spec fn inv(self) -> bool {
        &&& self.row_bytes <= self.pitch
        &&& self.mapped_len == self.pitch * self.rows
    }

    /// A read of `rows` rows of `row_bytes` bytes, `pitch` bytes apart,
    /// through `staging`.
    pub(crate) fn new(staging: Option<usize>, row_bytes: usize, pitch: usize, rows: usize) -> (r:
        PendingRead)
        requires
            row_bytes <= pitch,
            pitch * rows <= usize::MAX,
        ensures
            r@ == (ReadPlan {
                staging,
                row_bytes: row_bytes as nat,
                pitch: pitch as nat,
                rows: rows as nat,
            }),
    {
        PendingRead { staging, row_bytes, pitch, rows, mapped_len: pitch * rows }
    }

    /// The staging buffer that the device fills, or `None` where nothing was
    /// asked of the device.
    pub fn staging(&self) -> (r: Option<usize>)
        ensures
            r == self@.staging,
    {
        self.staging
    }

    /// Number of bytes that the driver hands to [`PendingRead::resolve`].
    pub fn mapped_len(&self) -> (r: usize)
        ensures
            r == self@.mapped_len(),
    {
        proof {
            use_type_invariant(self);
        }
        self.mapped_len
    }

    /// Ends the read with what the device answered: `None` where the mapping
    /// failed, else the mapped bytes. The staging buffer is released either
    /// way, and the data come back without their row padding.
    pub fn resolve(self, fw: &mut Framework, mapped: Option<&[u8]>) -> (r: Result<Vec<u8>, Error>)
        ensures
            bytes_of(r) == self@.outcome(mapped_of(mapped)),
            final(fw)@ == match self@.staging {
                Some(staging) => old(fw)@.finish_read(staging).record(Op::Release { id: staging }),
                None => old(fw)@,
            },
    {
        proof {
            use_type_invariant(&self);
        }
        match self.staging {
            None => Ok(Vec::new()),
            Some(staging) => {
                fw.finish_read(staging);
                fw.record(Command::Release { id: staging });
                match mapped {
                    None => Err(Error::MapFailed),
                    Some(bytes) => {
                        if bytes.len() != self.mapped_len {
                            Err(Error::SizeMismatch)
                        } else {
                            Ok(strip_rows(bytes, self.row_bytes, self.pitch, self.rows))
                        }
                    },
                }
            },
        }
    }
}

/// A read of a typed buffer that was asked of the device and is not resolved
/// yet.
#[derive(Debug)]
pub struct TypedRead<T> {
    inner: PendingRead,
    marker: PhantomData<T>,
}

impl<T> View for TypedRead<T> {
    type V = ReadPlan;

    closed spec fn view(&self) -> ReadPlan {
        self.inner@
    }
}

impl<T> TypedRead<T> {
    #[verifier::type_invariant]
    spec fn inv(self) -> bool {
        &&& self.inner@.rows <= 1
        &&& self.inner@.pitch == self.inner@.row_bytes
        &&& self.inner@.staging is Some ==> size_of::<T>() > 0 && self.inner@.row_bytes % size_of::<
            T,
        >() == 0
    }

    /// A read of `size` bytes in one row through `staging`, or of nothing.
    pub(crate) fn new(staging: Option<usize>, size: usize) -> (r: TypedRead<T>)
        requires
            staging is None ==> size == 0,
            staging is Some ==> size_of::<T>() > 0 && (size as nat) % size_of::<T>() == 0,
        ensures
            r@ == (ReadPlan {
                staging,
                row_bytes: size as nat,
                pitch: size as nat,
                rows: if staging is Some {
                    1nat
                } else {
                    0nat
                },
            }),
    {
        let rows: usize = if staging.is_some() {
            1
        } else {
            0
        };
        TypedRead { inner: PendingRead::new(staging, size, size, rows), marker: PhantomData }
    }

    /// The staging buffer that the device fills, or `None` where nothing was
    /// asked of the device.
    pub fn staging(&self) -> (r: Option<usize>)
        ensures
            r == self@.staging,
    {
        self.inner.staging()
    }

    /// Number of bytes that the driver hands to [`TypedRead::resolve`].
    pub fn mapped_len(&self) -> (r: usize)
        ensures
            r == self@.mapped_len(),
    {
        self.inner.mapped_len()
    }
}

impl<T> TypedRead<T> {
    /// Ends the read with what the device answered, as
    /// [`PendingRead::resolve`] does, and gives the bytes of the buffer as
    /// they are.
    pub fn resolve_bytes(self, fw: &mut Framework, mapped: Option<&[u8]>) -> (r: Result<
        Vec<u8>,
        Error,
    >)
        ensures
            bytes_of(r) == self@.outcome(mapped_of(mapped)),
            final(fw)@ == match self@.staging {
                Some(staging) => old(fw)@.finish_read(staging).record(Op::Release { id: staging }),
                None => old(fw)@,
            },
    {
        self.inner.resolve(fw, mapped)
    }
}

impl<T: bytemuck::Pod> TypedRead<T> {
    /// Ends the read with what the device answered, as
    /// [`TypedRead::resolve_bytes`] does, and gives the bytes as elements of
    /// `T`. A read that asked nothing of the device gives no element.
    pub fn resolve(self, fw: &mut Framework, mapped: Option<&[u8]>) -> (r: Result<Vec<T>, Error>)
        ensures
            match self@.outcome(mapped_of(mapped)) {
                Ok(bytes) => r is Ok && r->Ok_0@.len() * size_of::<T>() == bytes.len(),
                Err(e) => r == Err::<Vec<T>, Error>(e),
            },
            self@.staging is None ==> r is Ok && r->Ok_0@ == Seq::<T>::empty(),
            final(fw)@ == match self@.staging {
                Some(staging) => old(fw)@.finish_read(staging).record(Op::Release { id: staging }),
                None => old(fw)@,
            },
    {
        proof {
            use_type_invariant(&self);
        }
        let has_staging = self.inner.staging().is_some();
        match self.resolve_bytes(fw, mapped) {
            Err(e) => Err(e),
            Ok(bytes) => {
                if !has_staging {
                    Ok(Vec::new())
                } else {
                    let values = from_bytes::<T>(bytes.as_slice());
                    proof {
                        let s = size_of::<T>() as int;
                        let n = bytes@.len() as int;
                        assert(n == self@.row_bytes * self@.rows);
                        assert(n % s == 0) by (nonlinear_arith)
                            requires
                                n == self@.row_bytes * self@.rows,
                                self@.rows <= 1,
                                self@.row_bytes % (s as nat) == 0,
                                s > 0,
                        ;
                        vstd::arithmetic::div_mod::lemma_fundamental_div_mod(n, s);
                        assert((n / s) * s == s * (n / s)) by (nonlinear_arith);
                    }
                    Ok(values)
                }
            },
        }
    }
}

} // verus!
