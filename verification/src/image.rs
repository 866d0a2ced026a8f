//! Two-dimensional images in device memory.
use crate::command::{
    BufferDescriptor, Command, ImageView, Op, Region, ResourceKind, staging_usage,
};
use crate::error::Error;
use crate::format::{PixelFormat, bytes_per_pixel};
use crate::framework::{Framework, FrameworkState};
use crate::pitch::{
    align_up, holds_rows, lemma_align_up, lemma_strip_recovers_rows, padded_bytes_per_row,
    row_alignment,
};
use crate::read::{PendingRead, ReadPlan};
use vstd::prelude::*;
use vstd::slice::slice_to_vec;

verus! {

/// A [`GpuImage`] as a mathematical value.
pub struct ImageModel {
    /// Handle of the image in its framework.
    pub id: usize,
    /// Width in pixels.
    pub width: u32,
    /// Height in pixels.
    pub height: u32,
    pub format: PixelFormat,
}

impl ImageModel {
    /// Bytes in a tightly packed row of pixels.
    pub open spec fn row_bytes(self) -> nat {
        self.width as nat * bytes_per_pixel(self.format)
    }

    /// Bytes in all pixels, tightly packed.
    pub open spec fn byte_len(self) -> nat {
        self.row_bytes() * self.height as nat
    }

    /// Bytes from one row to the next in a staging buffer.
    pub open spec fn pitch(self) -> nat {
        align_up(self.row_bytes(), row_alignment())
    }

    /// Bytes in a staging buffer that holds the image.
    pub open spec fn staging_len(self) -> nat {
        self.pitch() * self.height as nat
    }

    /// The view of the whole image.
    pub open spec fn full_view(self) -> ImageView {
        ImageView {
            image: self.id,
            region: Region { x: 0, y: 0, width: self.width, height: self.height },
            format: self.format,
        }
    }

    /// Whether `region` holds a pixel and lies inside the image.
    pub open spec fn contains(self, region: Region) -> bool {
        &&& region.width > 0
        &&& region.height > 0
        &&& region.x + region.width <= self.width
        &&& region.y + region.height <= self.height
    }

    /// The plan of a read of the whole image through `staging`.
    pub open spec fn read_plan(self, staging: usize) -> ReadPlan {
        ReadPlan {
            staging: Some(staging),
            row_bytes: self.row_bytes(),
            pitch: self.pitch(),
            rows: self.height as nat,
        }
    }

    /// The state after a read of the whole image was asked for: a staging
    /// buffer with padded rows is created, filled from the image and mapped.
    pub open spec fn after_read_request(self, state: FrameworkState) -> FrameworkState {
        let staging = state.next_id() as usize;
        let size = self.staging_len() as usize;
        state.allocate(ResourceKind::Staging).record(
            Op::CreateBuffer {
                id: staging,
                desc: BufferDescriptor { size, usage: staging_usage(), mapped_at_creation: false },
            },
        ).record(
            Op::CopyImageToBuffer {
                image: self.id,
                staging,
                bytes_per_row: self.pitch() as usize,
                width: self.width,
                height: self.height,
            },
        ).record(Op::MapRead { staging, size }).await_read(staging)
    }
}

/// Whether an image of this size has a pixel, the pitch of its rows is a
/// number that a device takes (32 bits), and a staging buffer for it fits in
/// memory.
pub open spec fn valid_image(width: u32, height: u32, format: PixelFormat) -> bool {
    let model = ImageModel { id: 0, width, height, format };
    width > 0 && height > 0 && model.pitch() <= u32::MAX && model.staging_len() <= usize::MAX
}

/// Whether an image of this size has a pixel, the pitch of its rows is a
/// number that a device takes, and a staging buffer for it fits in memory:
/// what [`Framework::create_image`] asks of its arguments.
pub fn image_is_valid(width: u32, height: u32, format: PixelFormat) -> (r: bool)
    ensures
        r == valid_image(width, height, format),
{
    if width == 0 || height == 0 {
        return false;
    }
    let ghost model = ImageModel { id: 0, width, height, format };
    proof {
        lemma_align_up(model.row_bytes(), row_alignment());
        assert(model.pitch() <= model.pitch() * height as nat) by (nonlinear_arith)
            requires
                height >= 1,
        ;
    }
    match (width as usize).checked_mul(format.bytes_per_pixel()) {
        None => false,
        Some(row_bytes) => match padded_bytes_per_row(row_bytes) {
            None => false,
            Some(pitch) => pitch <= u32::MAX as usize && pitch.checked_mul(
                height as usize,
            ).is_some(),
        },
    }
}

/// An image of `width` by `height` pixels in device memory. Its format never
/// changes.
#[derive(Debug)]
pub struct GpuImage {
    id: usize,
    width: u32,
    height: u32,
    format: PixelFormat,
    row_bytes: usize,
    pitch: usize,
    byte_len: usize,
    staging_len: usize,
    full_view: ImageView,
}


/// The sizes of a valid image are ordered and fit in `usize`.
proof fn lemma_image_sizes(model: ImageModel)
    requires
        valid_image(model.width, model.height, model.format),
    ensures
        0 < model.row_bytes() <= model.pitch() <= model.staging_len() <= usize::MAX,
        model.byte_len() <= model.staging_len(),
{
    let bpp = bytes_per_pixel(model.format) as int;
    let w = model.width as int;
    let h = model.height as int;
    let row = model.row_bytes() as int;
    let pitch = model.pitch() as int;
    lemma_align_up(model.row_bytes(), row_alignment());
    assert(row > 0) by (nonlinear_arith)
        requires
            row == w * bpp,
            w > 0,
            bpp > 0,
    ;
    assert(pitch <= pitch * h && row * h <= pitch * h) by (nonlinear_arith)
        requires
            0 <= row <= pitch,
            h >= 1,
    ;
}

impl GpuImage {
    /// The image as a mathematical value.
    pub closed spec fn model(&self) -> ImageModel {
        ImageModel { id: self.id, width: self.width, height: self.height, format: self.format }
    }

    #[verifier::type_invariant]
    spec fn inv(self) -> bool {
        &&& valid_image(self.width, self.height, self.format)
        &&& self.row_bytes == self.model().row_bytes()
        &&& self.pitch == self.model().pitch()
        &&& self.byte_len == self.model().byte_len()
        &&& self.staging_len == self.model().staging_len()
        &&& self.full_view == self.model().full_view()
    }

    /// Whether the image has a pixel and fits in memory: holds of every image.
    pub open spec fn wf(&self) -> bool {
        valid_image(self.model().width, self.model().height, self.model().format)
    }

    /// An image with handle `id`.
    pub(crate) fn new(id: usize, width: u32, height: u32, format: PixelFormat) -> (image: GpuImage)
        requires
            valid_image(width, height, format),
        ensures
            image.model() == (ImageModel { id, width, height, format }),
            image.wf(),
    {
        let ghost model = ImageModel { id, width, height, format };
        proof {
            lemma_image_sizes(ImageModel { id: 0, width, height, format });
            assert(model.row_bytes() == (ImageModel { id: 0, width, height, format }).row_bytes());
        }
        let bpp: usize = format.bytes_per_pixel();
        let row_bytes: usize = width as usize * bpp;
        let pitch: usize = match padded_bytes_per_row(row_bytes) {
            Some(pitch) => pitch,
            None => row_bytes,
        };
        let full_view = ImageView {
            image: id,
            region: Region { x: 0, y: 0, width, height },
            format,
        };
        GpuImage {
            id,
            width,
            height,
            format,
            row_bytes,
            pitch,
            byte_len: row_bytes * height as usize,
            staging_len: pitch * height as usize,
            full_view,
        }
    }

    /// Handle of the image in its framework.
    pub fn id(&self) -> (r: usize)
        ensures
            r == self.model().id,
    {
        self.id
    }

    /// Width in pixels.
    pub fn width(&self) -> (r: u32)
        ensures
            r == self.model().width,
    {
        self.width
    }

    /// Height in pixels.
    pub fn height(&self) -> (r: u32)
        ensures
            r == self.model().height,
    {
        self.height
    }

    /// The pixel format.
    pub fn format(&self) -> (r: PixelFormat)
        ensures
            r == self.model().format,
    {
        self.format
    }

    /// Bytes in all pixels, tightly packed.
    pub fn byte_len(&self) -> (r: usize)
        ensures
            r == self.model().byte_len(),
    {
        proof {
            use_type_invariant(self);
        }
        self.byte_len
    }

    /// Bytes from one row to the next in a staging buffer: the bytes of a row
    /// rounded up to the row alignment of the device.
    pub fn padded_bytes_per_row(&self) -> (r: usize)
        ensures
            r == self.model().pitch(),
    {
        proof {
            use_type_invariant(self);
        }
        self.pitch
    }

    /// The view of the whole image, made when the image was created.
    pub fn full_view(&self) -> (view: ImageView)
        ensures
            view == self.model().full_view(),
    {
        proof {
            use_type_invariant(self);
        }
        self.full_view
    }

    /// A view for binding: the whole image for `None`, else `region`, which
    /// must hold a pixel and lie inside the image.
    pub fn view(&self, region: Option<Region>) -> (r: Result<ImageView, Error>)
        ensures
            r == match region {
                None => Ok::<ImageView, Error>(self.model().full_view()),
                Some(region) => if self.model().contains(region) {
                    Ok::<ImageView, Error>(
                        ImageView { image: self.model().id, region, format: self.model().format },
                    )
                } else {
                    Err::<ImageView, Error>(Error::OutOfBounds)
                },
            },
    {
        proof {
            use_type_invariant(self);
        }
        match region {
            None => Ok(self.full_view),
            Some(region) => {
                if region.width == 0 || region.height == 0 || region.x > self.width || region.width
                    > self.width - region.x || region.y > self.height || region.height > self.height
                    - region.y {
                    Err(Error::OutOfBounds)
                } else {
                    Ok(ImageView { image: self.id, region, format: self.format })
                }
            },
        }
    }

    /// Gives the image up: its memory is free once nothing on the device
    /// uses it. The handle is consumed, so nothing can be asked of the image
    /// afterwards.
    pub fn release(self, fw: &mut Framework)
        ensures
            final(fw)@ == old(fw)@.record(Op::Release { id: self.model().id }),
    {
        fw.record(Command::Release { id: self.id });
    }

    /// Uploads the pixels of the whole image. `data` holds exactly
    /// `width * height * bytes_per_pixel` bytes: more is out of bounds, less is
    /// a size mismatch, and either way nothing is recorded.
    pub fn write(&self, fw: &mut Framework, data: &[u8]) -> (r: Result<(), Error>)
        ensures
            r == if data@.len() > self.model().byte_len() {
                Err::<(), Error>(Error::OutOfBounds)
            } else if data@.len() < self.model().byte_len() {
                Err::<(), Error>(Error::SizeMismatch)
            } else {
                Ok::<(), Error>(())
            },
            final(fw)@ == if data@.len() != self.model().byte_len() {
                old(fw)@
            } else {
                old(fw)@.record(
                    Op::WriteImage {
                        image: self.model().id,
                        data: data@,
                        bytes_per_row: self.model().row_bytes() as usize,
                        width: self.model().width,
                        height: self.model().height,
                    },
                )
            },
    {
        proof {
            use_type_invariant(self);
        }
        if data.len() > self.byte_len {
            Err(Error::OutOfBounds)
        } else if data.len() < self.byte_len {
            Err(Error::SizeMismatch)
        } else {
            fw.record(
                Command::WriteImage {
                    image: self.id,
                    data: slice_to_vec(data),
                    bytes_per_row: self.row_bytes,
                    width: self.width,
                    height: self.height,
                },
            );
            Ok(())
        }
    }

    /// Begins a read of the whole image that does not block: a staging buffer
    /// with padded rows is created, filled from the image and mapped. The
    /// pixels are there once the device was polled and the read is resolved.
    pub fn read_async(&self, fw: &mut Framework) -> (pending: PendingRead)
        ensures
            final(fw)@ == self.model().after_read_request(old(fw)@),
            pending@ == self.model().read_plan(old(fw)@.next_id() as usize),
    {
        proof {
            use_type_invariant(self);
            lemma_image_sizes(ImageModel { id: 0, ..self.model() });
            assert(self.model().row_bytes() == (ImageModel { id: 0, ..self.model() }).row_bytes());
        }
        let staging: usize = fw.create_staging_buffer(self.staging_len);
        fw.record(
            Command::CopyImageToBuffer {
                image: self.id,
                staging,
                bytes_per_row: self.pitch,
                width: self.width,
                height: self.height,
            },
        );
        fw.record(Command::MapRead { staging, size: self.staging_len });
        fw.await_read(staging);
        PendingRead::new(Some(staging), self.row_bytes, self.pitch, self.height as usize)
    }

    /// Begins a blocking read of the whole image: as [`GpuImage::read_async`],
    /// followed by a blocking poll, so that every command recorded before has
    /// completed when the read is resolved.
    pub fn read(&self, fw: &mut Framework) -> (pending: PendingRead)
        ensures
            final(fw)@ == self.model().after_read_request(old(fw)@).blocking_poll(),
            pending@ == self.model().read_plan(old(fw)@.next_id() as usize),
    {
        let pending = self.read_async(fw);
        fw.blocking_poll();
        pending
    }
}

/// Reading an image gives back the pixels that its staging buffer holds row
/// by row, whatever the device left in the padding between the rows: also
/// where the pitch of a row is larger than the row.
pub proof fn lemma_read_recovers_pixels(
    image: ImageModel,
    staging: usize,
    pixels: Seq<u8>,
    mapped: Seq<u8>,
)
    requires
        valid_image(image.width, image.height, image.format),
        holds_rows(mapped, pixels, image.row_bytes(), image.pitch(), image.height as nat),
    ensures
        pixels.len() == image.byte_len(),
        image.read_plan(staging).outcome(Some(mapped)) == Ok::<Seq<u8>, Error>(pixels),
{
    lemma_strip_recovers_rows(mapped, pixels, image.row_bytes(), image.pitch(), image.height as nat);
}

} // verus!
