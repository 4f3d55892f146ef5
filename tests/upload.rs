use gpu_upload::command::{
    BufferCopy, BufferImageCopy, Command, Extent, ImageLayout, Offset, SubresourceLayers,
};
use gpu_upload::memory::{
    copy_into, update_cpu_visible_block, write_block, Block, Buffer, Image, Properties,
};
use gpu_upload::upload::{BufferUpload, Upload, UploadError};

fn device_local(id: u64, size: u64) -> Buffer {
    Buffer {
        id,
        size,
        block: Block {
            memory: 100 + id,
            start: 0,
            end: size,
            properties: Properties { cpu_visible: false, coherent: false },
        },
    }
}

fn host_visible(id: u64, start: u64, size: u64, coherent: bool) -> Buffer {
    Buffer {
        id,
        size,
        block: Block {
            memory: 200 + id,
            start,
            end: start + size,
            properties: Properties { cpu_visible: true, coherent },
        },
    }
}

fn recorded(u: &Upload) -> usize {
    match u.current() {
        Some(c) => c.commands().len(),
        None => 0,
    }
}

#[test]
fn new_context_is_empty() {
    let u = Upload::new(64, 3);
    assert_eq!(u.staging_threshold(), 64);
    assert_eq!(u.family(), 3);
    assert!(u.current().is_none());
    assert_eq!(u.free_len(), 0);
    assert_eq!(u.in_flight_len(), 0);
    assert_eq!(u.allocated(), 0);
    assert!(u.can_record());
}

#[test]
fn end_to_end_threshold_scenario() {
    let mut u = Upload::new(64, 0);
    let target = device_local(1, 256);

    let small = vec![7u8; 32];
    assert_eq!(u.upload_buffer(&target, 0, &small), Ok(BufferUpload::Recorded));
    assert_eq!(recorded(&u), 1);
    match &u.current().unwrap().commands()[0] {
        Command::UpdateBuffer { buffer, offset, data } => {
            assert_eq!(*buffer, 1);
            assert_eq!(*offset, 0);
            assert_eq!(data, &small);
        }
        other => panic!("unexpected command {:?}", other),
    }

    let big = vec![9u8; 128];
    let short = device_local(2, 200);
    assert_eq!(u.upload_buffer(&short, 100, &big), Err(UploadError::OutOfBounds));
    assert_eq!(recorded(&u), 1);

    assert_eq!(u.upload_buffer(&target, 0, &big), Ok(BufferUpload::NeedsStaging(128)));
    assert_eq!(recorded(&u), 1);
    let staging = host_visible(50, 4096, 128, true);
    let w = u.upload_staged(&staging, &target, 0, &big);
    assert_eq!(w.start, 4096);
    assert_eq!(w.end, 4096 + 128);
    assert_eq!(recorded(&u), 2);
    match &u.current().unwrap().commands()[1] {
        Command::CopyBuffer { src, dst, copy } => {
            assert_eq!(*src, 50);
            assert_eq!(*dst, 1);
            assert_eq!(*copy, BufferCopy { src: 0, dst: 0, size: 128 });
        }
        other => panic!("unexpected command {:?}", other),
    }
}

#[test]
fn out_of_bounds_records_nothing() {
    let mut u = Upload::new(64, 0);
    let target = device_local(1, 16);
    assert_eq!(u.upload_buffer(&target, 10, &[0u8; 7]), Err(UploadError::OutOfBounds));
    assert_eq!(u.upload_buffer(&target, 17, &[]), Err(UploadError::OutOfBounds));
    assert_eq!(u.upload_buffer(&target, u64::MAX, &[1u8]), Err(UploadError::OutOfBounds));
    assert!(u.current().is_none());
    assert_eq!(u.allocated(), 0);
    let visible = host_visible(2, 0, 16, true);
    assert_eq!(u.upload_buffer(&visible, 16, &[1u8]), Err(UploadError::OutOfBounds));
}

#[test]
fn exact_fit_is_accepted() {
    let mut u = Upload::new(64, 0);
    let target = device_local(1, 16);
    assert_eq!(u.upload_buffer(&target, 10, &[0u8; 6]), Ok(BufferUpload::Recorded));
    assert_eq!(u.upload_buffer(&target, 16, &[]), Ok(BufferUpload::Recorded));
    assert_eq!(recorded(&u), 2);
}

#[test]
fn coherent_target_is_written_directly() {
    let mut u = Upload::new(64, 0);
    let target = host_visible(1, 1000, 64, true);
    let data = [1u8, 2, 3, 4];
    let r = u.upload_buffer(&target, 8, &data);
    let w = match r {
        Ok(BufferUpload::Direct(w)) => w,
        other => panic!("unexpected {:?}", other),
    };
    assert_eq!(w.memory, 201);
    assert_eq!(w.start, 1008);
    assert_eq!(w.end, 1012);
    assert!(!w.invalidate);
    assert!(!w.flush);
    assert!(u.current().is_none());

    let mut block = vec![0u8; 64];
    let lo = (w.start - target.block.start) as usize;
    let hi = (w.end - target.block.start) as usize;
    copy_into(&mut block[lo..hi], &data);
    assert_eq!(&block[8..12], &data);
    assert!(block[..8].iter().all(|b| *b == 0));
    assert!(block[12..].iter().all(|b| *b == 0));
}

#[test]
fn non_coherent_target_is_invalidated_and_flushed() {
    let mut u = Upload::new(64, 0);
    let target = host_visible(1, 0, 64, false);
    match u.upload_buffer(&target, 0, &[5u8; 64]) {
        Ok(BufferUpload::Direct(w)) => {
            assert!(w.invalidate);
            assert!(w.flush);
            assert_eq!(w.end - w.start, 64);
        }
        other => panic!("unexpected {:?}", other),
    }
}

#[test]
fn memory_write_range() {
    let block = Block {
        memory: 9,
        start: 256,
        end: 512,
        properties: Properties { cpu_visible: true, coherent: false },
    };
    let w = update_cpu_visible_block(true, &block, 16, 32);
    assert_eq!(w.memory, 9);
    assert_eq!(w.start, 272);
    assert_eq!(w.end, 304);
    assert!(!w.invalidate && !w.flush);
    let w = update_cpu_visible_block(false, &block, 0, 256);
    assert_eq!((w.start, w.end), (256, 512));
    assert!(w.invalidate && w.flush);
}

#[test]
fn threshold_is_inclusive() {
    let mut u = Upload::new(4, 0);
    let target = device_local(1, 64);
    assert_eq!(u.upload_buffer(&target, 0, &[1u8; 4]), Ok(BufferUpload::Recorded));
    assert_eq!(u.upload_buffer(&target, 0, &[1u8; 5]), Ok(BufferUpload::NeedsStaging(5)));
    assert_eq!(recorded(&u), 1);
}

#[test]
fn image_upload_always_stages() {
    let mut u = Upload::new(1 << 20, 0);
    let image = Image { id: 77 };
    let staging = host_visible(5, 64, 3, false);
    let layers = SubresourceLayers { aspects: 1, level: 2, layer_start: 0, layer_end: 1 };
    let offset = Offset { x: 1, y: 2, z: 0 };
    let extent = Extent { width: 1, height: 1, depth: 1 };
    let w = u.upload_image(
        &staging,
        &image,
        &[1u8, 2, 3],
        ImageLayout::TransferDstOptimal,
        layers,
        offset,
        extent,
    );
    assert_eq!((w.start, w.end), (64, 67));
    assert!(w.invalidate && w.flush);
    assert_eq!(recorded(&u), 1);
    match &u.current().unwrap().commands()[0] {
        Command::CopyBufferToImage { src, dst, layout, region } => {
            assert_eq!(*src, 5);
            assert_eq!(*dst, 77);
            assert_eq!(*layout, ImageLayout::TransferDstOptimal);
            assert_eq!(
                *region,
                BufferImageCopy {
                    buffer_offset: 0,
                    buffer_width: 0,
                    buffer_height: 0,
                    image_layers: layers,
                    image_offset: offset,
                    image_extent: extent,
                }
            );
        }
        other => panic!("unexpected command {:?}", other),
    }
}

#[test]
fn uploads_twice_returns_none_second_time() {
    let mut u = Upload::new(64, 5);
    let target = device_local(1, 64);
    u.upload_buffer(&target, 0, &[1u8; 8]).unwrap();
    u.upload_buffer(&target, 8, &[2u8; 8]).unwrap();
    {
        let (cbuf, family) = u.uploads(10).expect("a buffer was recorded");
        assert_eq!(family, 5);
        assert_eq!(cbuf.commands().len(), 2);
        assert!(!cbuf.is_recording());
    }
    assert!(u.uploads(11).is_none());
    assert_eq!(u.in_flight_len(), 1);
    assert!(u.current().is_none());
}

#[test]
fn uploads_without_recording_is_none() {
    let mut u = Upload::new(64, 0);
    assert!(u.uploads(0).is_none());
    assert_eq!(u.in_flight_len(), 0);
}

fn submit(u: &mut Upload, target: &Buffer, frame: u64) -> u64 {
    u.upload_buffer(target, 0, &[frame as u8; 4]).unwrap();
    u.uploads(frame).unwrap().0.id()
}

#[test]
fn clear_recycles_only_retired_frames() {
    let mut u = Upload::new(64, 0);
    let target = device_local(1, 64);
    let a = submit(&mut u, &target, 1);
    let b = submit(&mut u, &target, 2);
    let c = submit(&mut u, &target, 2);
    let d = submit(&mut u, &target, 5);
    assert_eq!(u.allocated(), 4);
    assert_eq!(u.in_flight_len(), 4);

    u.clear(3);
    assert_eq!(u.free_len(), 3);
    assert_eq!(u.in_flight_len(), 1);
    let (left, frame) = u.in_flight(0);
    assert_eq!(left.id(), d);
    assert_eq!(frame, 3);

    // the next batch reuses the most recently freed buffer, reset
    u.upload_buffer(&target, 0, &[1u8]).unwrap();
    let cur = u.current().unwrap();
    assert_eq!(cur.id(), c);
    assert!(cur.is_recording());
    assert_eq!(cur.commands().len(), 1);
    assert_eq!(u.allocated(), 4);
    assert_ne!(a, b);
}

#[test]
fn clear_keeps_everything_at_or_above_watermark() {
    let mut u = Upload::new(64, 0);
    let target = device_local(1, 64);
    submit(&mut u, &target, 4);
    submit(&mut u, &target, 6);
    u.clear(4);
    assert_eq!(u.free_len(), 0);
    assert_eq!(u.in_flight_len(), 2);
    assert_eq!(u.in_flight(0).1, 4);
    assert_eq!(u.in_flight(1).1, 6);
    u.clear(0);
    assert_eq!(u.in_flight(0).1, 0);
    assert_eq!(u.in_flight(1).1, 6);
    u.clear(7);
    assert_eq!(u.in_flight_len(), 0);
    assert_eq!(u.free_len(), 2);
}

#[test]
fn clear_on_empty_queue_does_nothing() {
    let mut u = Upload::new(64, 0);
    u.clear(100);
    assert_eq!(u.free_len(), 0);
    assert_eq!(u.in_flight_len(), 0);
}

#[test]
fn error_context_messages() {
    assert_eq!(UploadError::OutOfBounds.context(), "Buffer upload failed");
    assert_eq!(UploadError::StagingAllocation.context(), "Failed to create staging buffer");
}

#[test]
fn direct_plan_written_into_block_reads_back() {
    let mut u = Upload::new(64, 0);
    let target = host_visible(3, 512, 16, true);
    let data = [9u8, 8, 7];
    let w = match u.upload_buffer(&target, 5, &data) {
        Ok(BufferUpload::Direct(w)) => w,
        other => panic!("unexpected {:?}", other),
    };
    let mut image = vec![1u8; 16];
    write_block(&mut image, &target.block, &w, &data);
    assert_eq!(image, vec![1, 1, 1, 1, 1, 9, 8, 7, 1, 1, 1, 1, 1, 1, 1, 1]);
}
