use narcissus::exchange::msgs::{FacePosition, Luminosity};
use narcissus::exchange::worker::{
    faceposition, largest_face, locate_face, luma, luma_max, luma_min, luminosity,
    single_from_u8, BoundingBox, Pull, Stamped, Worker, PARK_MILLIS, RETRY_MILLIS,
};
use narcissus::exchange::SubscriberList;
use narcissus::videoq::videoq;

fn boxed(x: i32, y: i32, width: u32, height: u32) -> BoundingBox {
    BoundingBox { x, y, width, height }
}

#[test]
fn the_defaults_are_zero() {
    assert_eq!(
        FacePosition::default(),
        FacePosition { timestamp: 0, bottom_left: (0, 0), top_right: (0, 0) }
    );
    assert_eq!(
        Luminosity::default(),
        Luminosity { timestamp: 0, average: 0, standard_deviation: 0, max: 0, min: 0 }
    );
    assert_eq!(FacePosition::default().timestamp(), 0);
    assert_eq!(PARK_MILLIS, 1000);
    assert_eq!(RETRY_MILLIS, 20);
}

#[test]
fn luma_takes_every_other_byte() {
    assert_eq!(luma(&[]), Vec::<u8>::new());
    assert_eq!(luma(&[7]), vec![7]);
    assert_eq!(luma(&[10, 128, 20, 128]), vec![10, 20]);
    assert_eq!(luma(&[1, 2, 3, 4, 5]), vec![1, 3, 5]);
}

#[test]
fn luma_extremes() {
    assert_eq!(luma_max(&[]), None);
    assert_eq!(luma_min(&[]), None);
    assert_eq!(luma_max(&[3, 200, 17]), Some(200));
    assert_eq!(luma_min(&[3, 200, 17]), Some(3));
    assert_eq!(luma_max(&[5]), Some(5));
    assert_eq!(luma_min(&[5]), Some(5));
}

#[test]
fn the_largest_face_is_the_first_of_the_biggest() {
    assert_eq!(largest_face(&vec![]), None);
    assert_eq!(largest_face(&vec![boxed(0, 0, 0, 9), boxed(1, 1, 9, 0)]), None);
    let faces = vec![boxed(0, 0, 2, 2), boxed(5, 5, 4, 4), boxed(9, 9, 8, 2), boxed(1, 1, 3, 3)];
    assert_eq!(largest_face(&faces), Some(1));
    assert_eq!(largest_face(&vec![boxed(0, 0, u32::MAX, u32::MAX), boxed(0, 0, 1, 1)]), Some(0));
}

#[test]
fn a_face_is_located_by_its_clamped_corners() {
    let previous = FacePosition { timestamp: 5, bottom_left: (1, 2), top_right: (3, 4) };
    let faces = vec![boxed(10, 20, 30, 40), boxed(-5, 7, 100, 50), boxed(3, -3, 2, 2)];
    assert_eq!(
        locate_face(previous, 9, &faces),
        FacePosition { timestamp: 9, bottom_left: (0, 7), top_right: (100, 57) }
    );
    assert_eq!(
        locate_face(previous, 9, &vec![boxed(-1, -1, 4, 6)]),
        FacePosition { timestamp: 9, bottom_left: (0, 0), top_right: (4, 6) }
    );
}

#[test]
fn without_a_face_the_previous_position_and_timestamp_stay() {
    let previous = FacePosition { timestamp: 5, bottom_left: (1, 2), top_right: (3, 4) };
    assert_eq!(locate_face(previous, 9, &vec![]), previous);
}

#[test]
fn faces_without_area_move_only_the_timestamp() {
    let previous = FacePosition { timestamp: 5, bottom_left: (1, 2), top_right: (3, 4) };
    assert_eq!(
        locate_face(previous, 9, &vec![boxed(8, 8, 0, 3)]),
        FacePosition { timestamp: 9, bottom_left: (1, 2), top_right: (3, 4) }
    );
}

#[test]
fn a_box_fits_when_its_far_corner_is_a_coordinate() {
    assert!(boxed(-7, -7, u32::MAX, u32::MAX).is_representable());
    assert!(boxed(1, 0, u32::MAX - 1, 5).is_representable());
    assert!(!boxed(1, 0, u32::MAX, 5).is_representable());
    assert!(!boxed(0, i32::MAX, 5, u32::MAX).is_representable());
}

#[test]
fn a_worker_parks_until_it_has_subscribers() {
    let (_ring, _tx, rx) = videoq(2);
    let mut worker = Worker::new(rx, FacePosition::default());
    let mut list = SubscriberList::<FacePosition>::new();
    assert_eq!(worker.park_millis(), 1000);
    assert!(!worker.broadcast(&mut list));
    assert_eq!(worker.park_millis(), 1000);
    let reader = list.subscribe();
    assert!(worker.broadcast(&mut list));
    assert_eq!(worker.park_millis(), 0);
    assert_eq!(list.recv(&reader), Some(FacePosition::default()));
}

#[test]
fn a_worker_pulls_the_brightness_plane_of_a_new_frame() {
    let (mut ring, tx, rx) = videoq(4);
    let mut worker = Worker::new(rx, FacePosition::default());
    assert_eq!(worker.pull(&mut ring), Pull::Retry);
    tx.send(&mut ring, &[10, 128, 20, 128], 7);
    assert_eq!(worker.pull(&mut ring), Pull::Luma { timestamp: 7, plane: vec![10, 20] });
    // the frame was given back
    assert_eq!(ring.readers(0), 0);
    assert_eq!(ring.readers(1), 0);
    // the same frame is not handed out twice
    assert_eq!(worker.pull(&mut ring), Pull::Retry);
    tx.close(&mut ring);
    assert_eq!(worker.pull(&mut ring), Pull::Closed);
}

#[test]
fn a_frame_with_the_timestamp_of_the_last_output_is_skipped() {
    let (mut ring, tx, rx) = videoq(2);
    let mut worker = Worker::new(rx, FacePosition::default());
    tx.send(&mut ring, &[1, 2], 0);
    assert_eq!(worker.pull(&mut ring), Pull::Retry);
}

#[test]
fn the_face_worker_stamps_its_output_with_the_frame() {
    let (mut ring, tx, rx) = videoq(2);
    let mut worker = Worker::new(rx, FacePosition::default());
    tx.send(&mut ring, &[1, 2], 40);
    assert!(matches!(worker.pull(&mut ring), Pull::Luma { timestamp: 40, .. }));
    faceposition(&mut worker, &vec![boxed(-2, 3, 10, 10)]);
    assert_eq!(
        worker.last_output(),
        FacePosition { timestamp: 40, bottom_left: (0, 3), top_right: (10, 13) }
    );
    // without a frame under analysis nothing changes
    faceposition(&mut worker, &vec![boxed(50, 50, 60, 60)]);
    assert_eq!(worker.last_output().timestamp, 40);
    assert_eq!(worker.last_output().top_right, (10, 13));
    // no face in the next frame: the output keeps its timestamp
    tx.send(&mut ring, &[1, 2], 41);
    assert!(matches!(worker.pull(&mut ring), Pull::Luma { timestamp: 41, .. }));
    faceposition(&mut worker, &vec![]);
    assert_eq!(worker.last_output().timestamp, 40);
}

#[test]
fn small_numbers_as_single_precision() {
    for v in 0..=255u8 {
        assert_eq!(single_from_u8(v), (v as f32).to_bits());
    }
    assert_eq!(single_from_u8(1), 0x3f80_0000);
    assert_eq!(single_from_u8(255), 0x437f_0000);
}

#[test]
fn the_luminosity_worker_takes_the_extremes_of_the_plane() {
    let (mut ring, tx, rx) = videoq(6);
    let mut worker = Worker::new(rx, Luminosity::default());
    tx.send(&mut ring, &[9, 0, 200, 0, 17, 0], 3);
    let plane = match worker.pull(&mut ring) {
        Pull::Luma { plane, .. } => plane,
        _ => panic!("no frame"),
    };
    assert_eq!(plane, vec![9, 200, 17]);
    luminosity(&mut worker, &plane, 11, 12);
    assert_eq!(
        worker.last_output(),
        Luminosity {
            timestamp: 3,
            average: 11,
            standard_deviation: 12,
            max: 200f32.to_bits(),
            min: 9f32.to_bits(),
        }
    );
    // a plane without bytes leaves the extremes
    tx.send(&mut ring, &[1, 0, 1, 0, 1, 0], 4);
    assert!(matches!(worker.pull(&mut ring), Pull::Luma { .. }));
    luminosity(&mut worker, &[], 21, 22);
    assert_eq!(
        worker.last_output(),
        Luminosity {
            timestamp: 4,
            average: 21,
            standard_deviation: 22,
            max: 200f32.to_bits(),
            min: 9f32.to_bits(),
        }
    );
    // without a frame under analysis nothing changes
    luminosity(&mut worker, &[5], 31, 32);
    assert_eq!(worker.last_output().timestamp, 4);
    assert_eq!(worker.last_output().average, 21);
}

#[test]
fn a_closed_worker_gives_its_reading_end_back() {
    let (mut ring, _tx, rx) = videoq(2);
    let twin = rx.clone(&mut ring).unwrap();
    assert_eq!(ring.receivers(), 2);
    Worker::new(twin, FacePosition::default()).close(&mut ring);
    assert_eq!(ring.receivers(), 1);
}

#[test]
fn the_outputs_of_a_worker_never_go_back_in_time() {
    let (mut ring, tx, rx) = videoq(2);
    let mut worker = Worker::new(rx, FacePosition::default());
    let mut last = 0;
    for timestamp in [5u64, 3, 9, 9, 2, 12] {
        tx.send(&mut ring, &[0, 0], timestamp);
        if let Pull::Luma { .. } = worker.pull(&mut ring) {
            faceposition(&mut worker, &vec![boxed(0, 0, 1, 1)]);
        }
        assert!(worker.last_output().timestamp >= last);
        last = worker.last_output().timestamp;
    }
    assert_eq!(last, 12);
}
