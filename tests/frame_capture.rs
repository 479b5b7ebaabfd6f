use spine_composite::frame::{
    capture_image, flip_rows, readback_len, CaptureError, FrameEnd, FrameLoop, FramePhase, FrameStart, FrameTarget,
    OutputSink,
};
use spine_composite::texture::DeleteQueue;

#[test]
fn flip_reverses_rows() {
    let mut px: Vec<u8> = (0u8..12).collect();
    flip_rows(&mut px, 4, 3);
    assert_eq!(px, vec![8, 9, 10, 11, 4, 5, 6, 7, 0, 1, 2, 3]);
}

#[test]
fn flip_even_row_count() {
    let mut px: Vec<u8> = vec![1, 2, 3, 4];
    flip_rows(&mut px, 2, 2);
    assert_eq!(px, vec![3, 4, 1, 2]);
}

#[test]
fn flip_twice_is_identity() {
    let original: Vec<u8> = (0..(5 * 7 * 4)).map(|i| (i * 31 % 251) as u8).collect();
    let mut px = original.clone();
    flip_rows(&mut px, 5 * 4, 7);
    assert_ne!(px, original);
    flip_rows(&mut px, 5 * 4, 7);
    assert_eq!(px, original);
}

#[test]
fn flip_empty_and_single_row() {
    let mut empty: Vec<u8> = vec![];
    flip_rows(&mut empty, 0, 5);
    assert!(empty.is_empty());
    let mut one = vec![1u8, 2, 3, 4];
    flip_rows(&mut one, 4, 1);
    assert_eq!(one, vec![1, 2, 3, 4]);
}

#[test]
fn capture_flips_exact_buffer() {
    let px: Vec<u8> = (0u8..16).collect();
    let img = capture_image(px, 2, 2).unwrap();
    assert_eq!(img, vec![8, 9, 10, 11, 12, 13, 14, 15, 0, 1, 2, 3, 4, 5, 6, 7]);
}

#[test]
fn capture_single_pixel_is_unchanged() {
    let img = capture_image(vec![200, 100, 50, 255], 1, 1).unwrap();
    assert_eq!(img, vec![200, 100, 50, 255]);
}

#[test]
fn capture_rejects_wrong_size() {
    match capture_image(vec![0; 15], 2, 2) {
        Err(CaptureError::BufferSize { expected, actual }) => {
            assert_eq!(expected, 16);
            assert_eq!(actual, 15);
        }
        Ok(_) => panic!("buffer is one byte short"),
    }
    assert!(capture_image(vec![0; 17], 2, 2).is_err());
}

#[test]
fn readback_length_is_four_bytes_per_pixel() {
    assert_eq!(readback_len(800, 600), Some(1_920_000));
    assert_eq!(readback_len(0, 600), Some(0));
    assert_eq!(readback_len(1, 1), Some(4));
}

#[test]
fn screen_sink_drains_and_grows_pool() {
    let mut frames = FrameLoop::new(OutputSink::Screen);
    let mut queue: DeleteQueue<u32> = DeleteQueue::new();
    queue.enqueue(4);
    queue.enqueue(8);
    match frames.begin_frame(&mut queue, 3) {
        FrameStart::Draw { target, to_delete, new_bindings } => {
            assert_eq!(target, FrameTarget::Surface);
            assert_eq!(to_delete, vec![4, 8]);
            assert_eq!(new_bindings, 3);
        }
        FrameStart::Finished => panic!("window keeps drawing"),
    }
    assert!(queue.is_empty());
    assert_eq!(frames.end_frame(), FrameEnd::Present);
    assert_eq!(frames.phase(), FramePhase::Idle);
    match frames.begin_frame(&mut queue, 2) {
        FrameStart::Draw { new_bindings, to_delete, .. } => {
            assert_eq!(new_bindings, 0);
            assert!(to_delete.is_empty());
        }
        FrameStart::Finished => panic!("window keeps drawing"),
    }
    assert_eq!(frames.bindings(), 3);
    assert_eq!(frames.end_frame(), FrameEnd::Present);
    match frames.begin_frame(&mut queue, 5) {
        FrameStart::Draw { new_bindings, .. } => assert_eq!(new_bindings, 2),
        FrameStart::Finished => panic!("window keeps drawing"),
    }
    assert_eq!(frames.bindings(), 5);
}

#[test]
fn file_sink_captures_once() {
    let mut frames = FrameLoop::new(OutputSink::File);
    let mut queue: DeleteQueue<u32> = DeleteQueue::new();
    match frames.begin_frame(&mut queue, 1) {
        FrameStart::Draw { target, .. } => assert_eq!(target, FrameTarget::Offscreen),
        FrameStart::Finished => panic!("first frame is drawn"),
    }
    assert_eq!(frames.end_frame(), FrameEnd::Capture);
    assert_eq!(frames.phase(), FramePhase::Done);
    queue.enqueue(3);
    assert!(matches!(frames.begin_frame(&mut queue, 1), FrameStart::Finished));
    assert_eq!(queue.len(), 1);
    assert_eq!(frames.sink(), OutputSink::File);
}
