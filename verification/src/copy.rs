//! What a device asks of the sizes and offsets of buffer copies, uploads and
//! mappings, and how a driver meets it.
//!
//! The commands of the library carry sizes and offsets as they are. A device
//! takes them in whole words only: a driver gives every buffer, copy and
//! mapping the padded size, and pads an upload that ends with its buffer.
use crate::pitch::{align_up, lemma_align_up, round_up};
use crate::semantics::overwrite;
use vstd::prelude::*;

verus! {

/// The size, in bytes, of which offsets and sizes of buffer copies have to be
/// multiples.
pub open spec fn copy_alignment() -> nat {
    4
}

/// `n` zero bytes.
pub open spec fn zeros(n: nat) -> Seq<u8> {
    Seq::new(n, |i: int| 0u8)
}

/// What a device is handed for an upload of `bytes` at byte `offset` of a
/// buffer of `end` bytes. The upload has to begin at a whole word. It is
/// taken as it is where it also ends at one; where it ends with the buffer,
/// it is filled up with zero bytes, which fall behind the buffer's last byte.
/// Any other upload cannot be done without touching bytes next to it: `None`.
pub open spec fn padded_upload(bytes: Seq<u8>, offset: nat, end: nat) -> Option<Seq<u8>> {
    let padded = align_up(bytes.len(), copy_alignment());
    if offset % copy_alignment() != 0 {
        None
    } else if bytes.len() % copy_alignment() == 0 {
        Some(bytes)
    } else if offset + bytes.len() == end && padded <= usize::MAX {
        Some(bytes + zeros((padded - bytes.len()) as nat))
    } else {
        None
    }
}

/// `wgpu::COPY_BUFFER_ALIGNMENT`: the constant is 4.
#[verifier::external_body]
fn copy_buffer_alignment() -> (r: u64)
    ensures
        r == copy_alignment(),
{
    wgpu::COPY_BUFFER_ALIGNMENT
}

/// The size that a driver gives a buffer, a copy or a mapping of `size`
/// bytes: `size` rounded up to the copy alignment, or `None` where that does
/// not fit in `usize`.
pub fn padded_size(size: usize) -> (r: Option<usize>)
    ensures
        match r {
            Some(padded) => padded == align_up(size as nat, copy_alignment()),
            None => align_up(size as nat, copy_alignment()) > usize::MAX,
        },
{
    round_up(size, copy_buffer_alignment() as usize)
}

/// What a driver hands the device for an upload of `bytes` at byte `offset`
/// of a buffer of `end` bytes, or `None` where the device cannot take the
/// upload.
pub fn pad_upload(bytes: Vec<u8>, offset: usize, end: usize) -> (r: Option<Vec<u8>>)
    ensures
        match padded_upload(bytes@, offset as nat, end as nat) {
            Some(padded) => r is Some && r->Some_0@ == padded,
            None => r is None,
        },
{
    let alignment: usize = copy_buffer_alignment() as usize;
    let len: usize = bytes.len();
    if offset % alignment != 0 {
        return None;
    }
    if len % alignment == 0 {
        return Some(bytes);
    }
    if len > end || offset != end - len {
        return None;
    }
    match round_up(len, alignment) {
        None => None,
        Some(padded) => {
            proof {
                lemma_align_up(len as nat, alignment as nat);
            }
            let mut out = bytes;
            while out.len() < padded
                invariant
                    len <= out@.len() <= padded,
                    out@ == bytes@ + zeros((out@.len() - len) as nat),
                decreases padded - out@.len(),
            {
                out.push(0);
                assert(out@ =~= bytes@ + zeros((out@.len() - len) as nat));
            }
            Some(out)
        },
    }
}

/// A padded upload is made of whole words, stays inside the padded buffer,
/// and leaves every byte of the buffer as the upload itself would.
pub proof fn lemma_padded_upload(target: Seq<u8>, bytes: Seq<u8>, offset: nat, end: nat)
    requires
        padded_upload(bytes, offset, end) is Some,
        offset + bytes.len() <= end <= target.len(),
    ensures
        ({
            let padded = padded_upload(bytes, offset, end)->Some_0;
            &&& offset % copy_alignment() == 0
            &&& padded.len() % copy_alignment() == 0
            &&& offset + padded.len() <= align_up(end, copy_alignment())
            &&& overwrite(target, offset as int, padded).take(end as int) == overwrite(
                target,
                offset as int,
                bytes,
            ).take(end as int)
        }),
{
    let padded = padded_upload(bytes, offset, end)->Some_0;
    lemma_align_up(bytes.len(), copy_alignment());
    lemma_align_up(end, copy_alignment());
    if bytes.len() % copy_alignment() != 0 {
        // the upload ends with the buffer, which begins and is padded at
        // whole words: so is the end of the padded upload
        assert((offset + padded.len()) % 4 == 0);
    }
    assert(overwrite(target, offset as int, padded).take(end as int) =~= overwrite(
        target,
        offset as int,
        bytes,
    ).take(end as int));
}

/// A copy or a mapping of the padded size gives the bytes that one of the
/// size itself would give: the first `size` bytes are the same.
pub proof fn lemma_padded_copy(target: Seq<u8>, source: Seq<u8>, size: nat)
    requires
        align_up(size, copy_alignment()) <= source.len(),
        align_up(size, copy_alignment()) <= target.len(),
    ensures
        size <= align_up(size, copy_alignment()),
        align_up(size, copy_alignment()) % copy_alignment() == 0,
        overwrite(target, 0, source.take(align_up(size, copy_alignment()) as int)).take(
            size as int,
        ) == source.take(size as int),
{
    lemma_align_up(size, copy_alignment());
    assert(overwrite(target, 0, source.take(align_up(size, copy_alignment()) as int)).take(
        size as int,
    ) =~= source.take(size as int));
}

} // verus!
