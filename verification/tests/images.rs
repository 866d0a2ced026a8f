use gpgpu::{
    image_is_valid, BufferDescriptor, BufferUsage, Command, Error, Framework, ImageView,
    PixelFormat, Region,
};

#[test]
fn image_sizes() {
    let mut fw = Framework::new();
    let image = fw.create_image(3, 2, PixelFormat::Rgba8Unorm);
    assert_eq!((image.width(), image.height()), (3, 2));
    assert_eq!(image.format(), PixelFormat::Rgba8Unorm);
    assert_eq!(image.byte_len(), 24);
    assert_eq!(image.padded_bytes_per_row(), 256);
    let wide = fw.create_image(100, 7, PixelFormat::Rgba32Uint);
    assert_eq!(wide.byte_len(), 11200);
    assert_eq!(wide.padded_bytes_per_row(), 1792);
    let exact = fw.create_image(64, 1, PixelFormat::R32Sint);
    assert_eq!(exact.byte_len(), 256);
    assert_eq!(exact.padded_bytes_per_row(), 256);
}

#[test]
fn images_without_pixels_are_not_valid() {
    assert!(image_is_valid(1, 1, PixelFormat::Rgba8Unorm));
    assert!(image_is_valid(4096, 4096, PixelFormat::Rgba32Sint));
    assert!(!image_is_valid(0, 4, PixelFormat::Rgba8Unorm));
    assert!(!image_is_valid(4, 0, PixelFormat::Rgba8Unorm));
    assert!(!image_is_valid(0, 0, PixelFormat::Rgba8Unorm));
}

#[test]
fn images_with_rows_beyond_32_bits_are_not_valid() {
    let widest = (1u32 << 28) - 16;
    assert!(image_is_valid(widest, 1, PixelFormat::Rgba32Uint));
    assert!(!image_is_valid(widest + 1, 1, PixelFormat::Rgba32Uint));
    assert!(!image_is_valid(1 << 28, 1, PixelFormat::Rgba32Uint));
    assert!(image_is_valid(1 << 28, 1, PixelFormat::Rgba16Uint));
    assert!(!image_is_valid(u32::MAX, 1, PixelFormat::Rgba8Unorm));
}

#[test]
fn images_beyond_the_address_space_are_not_valid() {
    let fits = (usize::MAX as u128) >= (u32::MAX as u128 * 16 + 255) / 256 * 256 * u32::MAX as u128;
    assert_eq!(image_is_valid(u32::MAX, u32::MAX, PixelFormat::Rgba32Uint), fits);
    assert!(!fits);
}

#[test]
fn writing_an_image_takes_exactly_its_bytes() {
    let mut fw = Framework::new();
    let image = fw.create_image(3, 2, PixelFormat::Rgba8Unorm);
    fw.take_commands();
    assert_eq!(image.write(&mut fw, &[0; 25]), Err(Error::OutOfBounds));
    assert_eq!(image.write(&mut fw, &[0; 23]), Err(Error::SizeMismatch));
    assert_eq!(image.write(&mut fw, &[]), Err(Error::SizeMismatch));
    assert_eq!(fw.command_count(), 0);
    let pixels: Vec<u8> = (0..24).collect();
    assert_eq!(image.write(&mut fw, &pixels), Ok(()));
    assert_eq!(
        fw.take_commands(),
        vec![Command::WriteImage {
            image: image.id(),
            data: pixels,
            bytes_per_row: 12,
            width: 3,
            height: 2,
        }]
    );
}

#[test]
fn reading_an_image_goes_through_padded_rows() {
    let mut fw = Framework::new();
    let image = fw.create_image(3, 2, PixelFormat::Rgba8Unorm);
    fw.take_commands();
    let pending = image.read_async(&mut fw);
    let staging = pending.staging().unwrap();
    assert_eq!(pending.mapped_len(), 512);
    assert_eq!(
        fw.take_commands(),
        vec![
            Command::CreateBuffer {
                id: staging,
                desc: BufferDescriptor {
                    size: 512,
                    usage: BufferUsage::for_staging(),
                    mapped_at_creation: false,
                },
            },
            Command::CopyImageToBuffer {
                image: image.id(),
                staging,
                bytes_per_row: 256,
                width: 3,
                height: 2,
            },
            Command::MapRead { staging, size: 512 },
        ]
    );
    let mut mapped = vec![0xeeu8; 512];
    for i in 0..12 {
        mapped[i] = i as u8;
        mapped[256 + i] = 100 + i as u8;
    }
    let pixels = pending.resolve(&mut fw, Some(&mapped)).unwrap();
    let expected: Vec<u8> = (0..12).chain(100..112).collect();
    assert_eq!(pixels, expected);
    assert_eq!(fw.take_commands(), vec![Command::Release { id: staging }]);
}

#[test]
fn a_blocking_image_read_ends_with_a_blocking_poll() {
    let mut fw = Framework::new();
    let image = fw.create_image(64, 2, PixelFormat::Rgba8Uint);
    fw.take_commands();
    let pending = image.read(&mut fw);
    let commands = fw.take_commands();
    assert_eq!(commands.len(), 4);
    assert_eq!(commands[3], Command::Poll { wait: true });
    assert!(!fw.has_pending_work() || fw.pending_reads() == 1);
    let mapped: Vec<u8> = (0..512).map(|i| (i % 251) as u8).collect();
    assert_eq!(pending.resolve(&mut fw, Some(&mapped)), Ok(mapped));
}

#[test]
fn a_failed_image_mapping_reaches_the_reader() {
    let mut fw = Framework::new();
    let image = fw.create_image(3, 2, PixelFormat::Rgba8Unorm);
    let pending = image.read_async(&mut fw);
    assert_eq!(pending.resolve(&mut fw, None), Err(Error::MapFailed));
    let again = image.read_async(&mut fw);
    assert_eq!(again.resolve(&mut fw, Some(&[0; 24])), Err(Error::SizeMismatch));
    assert_eq!(fw.pending_reads(), 0);
}

#[test]
fn the_full_view_covers_the_image() {
    let mut fw = Framework::new();
    let image = fw.create_image(8, 4, PixelFormat::Rgba16Sint);
    let full = ImageView {
        image: image.id(),
        region: Region { x: 0, y: 0, width: 8, height: 4 },
        format: PixelFormat::Rgba16Sint,
    };
    assert_eq!(image.full_view(), full);
    assert_eq!(image.view(None), Ok(full));
}

#[test]
fn a_view_lies_inside_its_image() {
    let mut fw = Framework::new();
    let image = fw.create_image(8, 4, PixelFormat::Rgba8Sint);
    let inside = Region { x: 2, y: 1, width: 6, height: 3 };
    assert_eq!(
        image.view(Some(inside)),
        Ok(ImageView { image: image.id(), region: inside, format: PixelFormat::Rgba8Sint })
    );
    for outside in [
        Region { x: 3, y: 1, width: 6, height: 3 },
        Region { x: 2, y: 2, width: 6, height: 3 },
        Region { x: 8, y: 0, width: 1, height: 1 },
        Region { x: 0, y: 0, width: 0, height: 4 },
        Region { x: 0, y: 0, width: 8, height: 0 },
        Region { x: u32::MAX, y: 0, width: 2, height: 1 },
        Region { x: 1, y: 0, width: u32::MAX, height: 1 },
    ] {
        assert_eq!(image.view(Some(outside)), Err(Error::OutOfBounds));
    }
}
