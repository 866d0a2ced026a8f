use gpgpu::{BufferDescriptor, BufferUsage, Command, Error, Framework};

fn ne_bytes(values: &[u32]) -> Vec<u8> {
    let mut bytes = Vec::new();
    for v in values {
        bytes.extend_from_slice(&v.to_ne_bytes());
    }
    bytes
}

#[test]
fn write_past_the_end_is_refused() {
    let mut fw = Framework::new();
    let buffer = fw.create_buffer::<u32>(4);
    fw.take_commands();
    assert_eq!(buffer.write(&mut fw, 2, &[1, 2, 3]), Err(Error::OutOfBounds));
    assert_eq!(buffer.write(&mut fw, 5, &[]), Err(Error::OutOfBounds));
    assert_eq!(buffer.write(&mut fw, 0, &[0; 5]), Err(Error::OutOfBounds));
    assert_eq!(buffer.write(&mut fw, usize::MAX, &[1]), Err(Error::OutOfBounds));
    assert_eq!(fw.command_count(), 0);
}

#[test]
fn write_inside_the_buffer_records_one_upload() {
    let mut fw = Framework::new();
    let buffer = fw.create_buffer::<u32>(4);
    fw.take_commands();
    assert_eq!(buffer.write(&mut fw, 2, &[7, 9]), Ok(()));
    assert_eq!(
        fw.take_commands(),
        vec![Command::WriteBuffer { buffer: buffer.id(), offset: 8, data: ne_bytes(&[7, 9]) }]
    );
    assert_eq!(buffer.write(&mut fw, 0, &[1, 2, 3, 4]), Ok(()));
    assert_eq!(
        fw.take_commands(),
        vec![Command::WriteBuffer {
            buffer: buffer.id(),
            offset: 0,
            data: ne_bytes(&[1, 2, 3, 4]),
        }]
    );
}

#[test]
fn write_of_nothing_records_nothing() {
    let mut fw = Framework::new();
    let buffer = fw.create_buffer::<u32>(4);
    fw.take_commands();
    assert_eq!(buffer.write(&mut fw, 4, &[]), Ok(()));
    assert_eq!(buffer.write(&mut fw, 0, &[]), Ok(()));
    assert_eq!(fw.command_count(), 0);
}

#[test]
fn a_buffer_without_elements_is_created_and_left_alone() {
    let mut fw = Framework::new();
    let buffer = fw.create_buffer::<u64>(0);
    assert_eq!((buffer.len(), buffer.size()), (0, 0));
    assert_eq!(fw.take_commands().len(), 1);
    assert_eq!(buffer.write(&mut fw, 0, &[]), Ok(()));
    assert_eq!(buffer.write(&mut fw, 0, &[1]), Err(Error::OutOfBounds));
    let pending = buffer.read(&mut fw);
    assert_eq!(pending.staging(), None);
    assert_eq!(pending.mapped_len(), 0);
    assert_eq!(fw.command_count(), 0);
    assert_eq!(fw.pending_reads(), 0);
    assert_eq!(pending.resolve(&mut fw, None), Ok(vec![]));
    assert_eq!(fw.command_count(), 0);
}

#[test]
fn size_in_bytes_is_length_times_element_size() {
    let mut fw = Framework::new();
    assert_eq!(fw.create_buffer::<u8>(5).size(), 5);
    assert_eq!(fw.create_buffer::<u16>(5).size(), 10);
    assert_eq!(fw.create_buffer::<f32>(5).size(), 20);
    assert_eq!(fw.create_buffer::<[f32; 4]>(5).size(), 80);
    let from_slice = fw.create_buffer_from_slice(&[1.5f64, 2.5, 3.5]);
    assert_eq!((from_slice.len(), from_slice.size()), (3, 24));
}

#[test]
fn a_buffer_from_a_slice_is_created_with_its_bytes() {
    let mut fw = Framework::new();
    let buffer = fw.create_buffer_from_slice(&[1u32, 0x0a0b0c0d, 3]);
    assert_eq!(buffer.len(), 3);
    assert_eq!(
        fw.take_commands(),
        vec![Command::CreateBufferInit {
            id: buffer.id(),
            usage: BufferUsage::for_storage(),
            contents: ne_bytes(&[1, 0x0a0b0c0d, 3]),
        }]
    );
}

#[test]
fn copy_between_buffers_of_one_size() {
    let mut fw = Framework::new();
    let source = fw.create_buffer::<u32>(4);
    let target = fw.create_buffer::<u32>(4);
    fw.take_commands();
    assert_eq!(target.copy_from(&mut fw, &source), Ok(()));
    assert_eq!(
        fw.take_commands(),
        vec![Command::CopyBuffer { source: source.id(), destination: target.id(), size: 16 }]
    );
}

#[test]
fn copy_between_buffers_of_different_size_is_refused() {
    let mut fw = Framework::new();
    let source = fw.create_buffer::<u32>(3);
    let target = fw.create_buffer::<u32>(4);
    fw.take_commands();
    assert_eq!(target.copy_from(&mut fw, &source), Err(Error::SizeMismatch));
    assert_eq!(source.copy_from(&mut fw, &target), Err(Error::SizeMismatch));
    assert_eq!(fw.command_count(), 0);
}

#[test]
fn copy_between_empty_buffers_records_nothing() {
    let mut fw = Framework::new();
    let source = fw.create_buffer::<u32>(0);
    let target = fw.create_buffer::<u32>(0);
    fw.take_commands();
    assert_eq!(target.copy_from(&mut fw, &source), Ok(()));
    assert_eq!(fw.command_count(), 0);
}

#[test]
fn a_read_goes_through_a_staging_buffer() {
    let mut fw = Framework::new();
    let buffer = fw.create_buffer::<u32>(3);
    fw.take_commands();
    let pending = buffer.read_async(&mut fw);
    let staging = pending.staging().unwrap();
    assert_eq!(staging, 1);
    assert_eq!(pending.mapped_len(), 12);
    assert_eq!(
        fw.take_commands(),
        vec![
            Command::CreateBuffer {
                id: staging,
                desc: BufferDescriptor {
                    size: 12,
                    usage: BufferUsage::for_staging(),
                    mapped_at_creation: false,
                },
            },
            Command::CopyBuffer { source: buffer.id(), destination: staging, size: 12 },
            Command::MapRead { staging, size: 12 },
        ]
    );
    assert!(fw.is_pending(staging));
}

#[test]
fn a_blocking_read_ends_with_a_blocking_poll() {
    let mut fw = Framework::new();
    let buffer = fw.create_buffer::<u32>(3);
    fw.take_commands();
    let pending = buffer.read(&mut fw);
    let commands = fw.take_commands();
    assert_eq!(commands.len(), 4);
    assert_eq!(commands[2], Command::MapRead { staging: pending.staging().unwrap(), size: 12 });
    assert_eq!(commands[3], Command::Poll { wait: true });
}

#[test]
fn resolving_a_read_gives_the_elements_and_releases_the_staging_buffer() {
    let mut fw = Framework::new();
    let buffer = fw.create_buffer::<u32>(3);
    let pending = buffer.read(&mut fw);
    let staging = pending.staging().unwrap();
    fw.take_commands();
    let mapped = ne_bytes(&[10, 20, 30]);
    assert_eq!(pending.resolve(&mut fw, Some(&mapped)), Ok(vec![10u32, 20, 30]));
    assert_eq!(fw.take_commands(), vec![Command::Release { id: staging }]);
    assert!(!fw.is_pending(staging));
    assert_eq!(fw.pending_reads(), 0);
}

#[test]
fn a_failed_mapping_reaches_the_reader() {
    let mut fw = Framework::new();
    let buffer = fw.create_buffer::<u32>(3);
    let pending = buffer.read_async(&mut fw);
    let staging = pending.staging().unwrap();
    fw.take_commands();
    assert_eq!(pending.resolve(&mut fw, None), Err(Error::MapFailed));
    assert_eq!(fw.take_commands(), vec![Command::Release { id: staging }]);
    assert_eq!(fw.pending_reads(), 0);
}

#[test]
fn mapped_bytes_of_the_wrong_length_are_refused() {
    let mut fw = Framework::new();
    let buffer = fw.create_buffer::<u32>(3);
    let pending = buffer.read_async(&mut fw);
    assert_eq!(pending.resolve(&mut fw, Some(&[0u8; 11])), Err(Error::SizeMismatch));
    let again = buffer.read_async(&mut fw);
    assert_eq!(again.resolve(&mut fw, Some(&[0u8; 13])), Err(Error::SizeMismatch));
    assert_eq!(fw.pending_reads(), 0);
}

#[test]
fn reads_are_resolved_one_by_one() {
    let mut fw = Framework::new();
    let buffer = fw.create_buffer::<u8>(2);
    let first = buffer.read_async(&mut fw);
    let second = buffer.read_async(&mut fw);
    let (a, b) = (first.staging().unwrap(), second.staging().unwrap());
    assert_eq!(fw.pending_reads(), 2);
    assert_eq!(second.resolve(&mut fw, Some(&[5, 6])), Ok(vec![5u8, 6]));
    assert!(fw.is_pending(a));
    assert!(!fw.is_pending(b));
    assert_eq!(first.resolve(&mut fw, Some(&[7, 8])), Ok(vec![7u8, 8]));
    assert_eq!(fw.pending_reads(), 0);
}

#[test]
fn releasing_a_buffer_records_its_release() {
    let mut fw = Framework::new();
    let buffer = fw.create_buffer::<u32>(3);
    let id = buffer.id();
    fw.take_commands();
    buffer.release(&mut fw);
    assert_eq!(fw.take_commands(), vec![Command::Release { id }]);
}

#[test]
fn an_upload_records_the_bytes_as_they_are() {
    let mut fw = Framework::new();
    let buffer = fw.create_buffer::<u32>(4);
    fw.take_commands();
    assert_eq!(buffer.upload(&mut fw, 4, vec![1, 2, 3, 4, 5, 6, 7, 8]), Ok(()));
    assert_eq!(
        fw.take_commands(),
        vec![Command::WriteBuffer {
            buffer: buffer.id(),
            offset: 4,
            data: vec![1, 2, 3, 4, 5, 6, 7, 8],
        }]
    );
    assert_eq!(buffer.upload(&mut fw, 16, vec![]), Ok(()));
    assert_eq!(buffer.upload(&mut fw, 0, vec![]), Ok(()));
    assert_eq!(fw.command_count(), 0);
}

#[test]
fn an_upload_past_the_end_is_refused() {
    let mut fw = Framework::new();
    let buffer = fw.create_buffer::<u32>(4);
    fw.take_commands();
    assert_eq!(buffer.upload(&mut fw, 9, vec![0; 8]), Err(Error::OutOfBounds));
    assert_eq!(buffer.upload(&mut fw, 0, vec![0; 17]), Err(Error::OutOfBounds));
    assert_eq!(buffer.upload(&mut fw, 17, vec![]), Err(Error::OutOfBounds));
    assert_eq!(buffer.upload(&mut fw, usize::MAX, vec![0]), Err(Error::OutOfBounds));
    assert_eq!(fw.command_count(), 0);
}

#[test]
fn a_buffer_from_bytes_holds_exactly_these_bytes() {
    let mut fw = Framework::new();
    let buffer = fw.create_buffer_from_bytes::<u16>(3, vec![1, 0, 2, 0, 3, 0]).unwrap();
    assert_eq!((buffer.id(), buffer.len(), buffer.size()), (0, 3, 6));
    assert_eq!(
        fw.take_commands(),
        vec![Command::CreateBufferInit {
            id: 0,
            usage: BufferUsage::for_storage(),
            contents: vec![1, 0, 2, 0, 3, 0],
        }]
    );
}

#[test]
fn a_buffer_from_bytes_of_another_length_is_refused() {
    let mut fw = Framework::new();
    assert_eq!(fw.create_buffer_from_bytes::<u16>(3, vec![0; 5]).err(), Some(Error::SizeMismatch));
    assert_eq!(fw.create_buffer_from_bytes::<u16>(3, vec![0; 7]).err(), Some(Error::SizeMismatch));
    assert_eq!(fw.create_buffer_from_bytes::<u16>(0, vec![0]).err(), Some(Error::SizeMismatch));
    assert_eq!(
        fw.create_buffer_from_bytes::<u64>(usize::MAX, vec![]).err(),
        Some(Error::SizeMismatch)
    );
    assert_eq!(fw.resource_count(), 0);
    assert_eq!(fw.command_count(), 0);
    assert!(fw.create_buffer_from_bytes::<u16>(0, vec![]).is_ok());
}

#[test]
fn a_read_resolved_to_bytes_gives_the_mapped_bytes() {
    let mut fw = Framework::new();
    let buffer = fw.create_buffer::<u32>(2);
    let pending = buffer.read(&mut fw);
    let staging = pending.staging().unwrap();
    fw.take_commands();
    assert_eq!(
        pending.resolve_bytes(&mut fw, Some(&[9, 8, 7, 6, 5, 4, 3, 2])),
        Ok(vec![9, 8, 7, 6, 5, 4, 3, 2])
    );
    assert_eq!(fw.take_commands(), vec![Command::Release { id: staging }]);
    let failed = buffer.read(&mut fw);
    assert_eq!(failed.resolve_bytes(&mut fw, None), Err(Error::MapFailed));
}

#[test]
fn a_buffer_of_elements_without_size_reads_as_empty() {
    let mut fw = Framework::new();
    let units = fw.create_buffer_from_slice(&[(), (), ()]);
    assert_eq!((units.len(), units.size()), (3, 0));
    assert_eq!(units.write(&mut fw, 1, &[(), ()]), Ok(()));
    assert_eq!(units.write(&mut fw, 2, &[(), ()]), Err(Error::OutOfBounds));
    fw.take_commands();
    let pending = units.read(&mut fw);
    assert_eq!(pending.staging(), None);
    assert_eq!(pending.resolve(&mut fw, None), Ok(vec![]));
    assert_eq!(fw.command_count(), 0);
    let empty = fw.create_buffer_from_slice::<u32>(&[]);
    let pending = empty.read(&mut fw);
    assert_eq!(pending.resolve(&mut fw, Some(&[1, 2, 3, 4])), Ok(vec![]));
}
