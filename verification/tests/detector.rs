use narcissus::exchange::detector::{can_search, check_fit, record_faces};
use narcissus::exchange::msgs::FacePosition;
use narcissus::exchange::worker::{BoundingBox, Pull, Worker};
use narcissus::videoq::videoq;

#[test]
fn a_plane_with_one_byte_for_each_pixel_can_be_searched() {
    assert!(can_search(&[0; 64], 8, 8));
    assert!(can_search(&[0; 6], 3, 2));
    assert!(can_search(&[7], 1, 1));
}

#[test]
fn a_plane_that_is_no_image_cannot_be_searched() {
    assert!(!can_search(&[0; 64], 0, 8));
    assert!(!can_search(&[0; 64], 8, 0));
    assert!(!can_search(&[0; 63], 8, 8));
    assert!(!can_search(&[0; 65], 8, 8));
    assert!(!can_search(&[], 0, 0));
    // more pixels than a coordinate can count
    assert!(!can_search(&[], 65536, 65536));
    assert!(!can_search(&[0; 4], u32::MAX, u32::MAX));
}

#[test]
fn boxes_are_checked_for_fit() {
    assert!(check_fit(&vec![]));
    assert!(check_fit(&vec![BoundingBox { x: -3, y: 4, width: 10, height: 10 }]));
    assert!(!check_fit(&vec![
        BoundingBox { x: 0, y: 0, width: 1, height: 1 },
        BoundingBox { x: 5, y: 0, width: u32::MAX, height: 1 },
    ]));
}

#[test]
fn boxes_that_fit_are_taken_and_others_leave_the_worker_alone() {
    let (mut ring, tx, rx) = videoq(2);
    let mut worker = Worker::new(rx, FacePosition::default());
    tx.send(&mut ring, &[0, 0], 9);
    assert!(matches!(worker.pull(&mut ring), Pull::Luma { timestamp: 9, .. }));
    // one box cannot be written as frame coordinates: nothing is taken
    let misfit = vec![
        BoundingBox { x: 1, y: 1, width: 4, height: 4 },
        BoundingBox { x: 1, y: 1, width: u32::MAX, height: 1 },
    ];
    assert!(!record_faces(&mut worker, &misfit));
    assert_eq!(worker.last_output(), FacePosition::default());
    // the frame is still under analysis: boxes that fit close the pass
    let faces = vec![
        BoundingBox { x: -2, y: 3, width: 4, height: 4 },
        BoundingBox { x: 7, y: 8, width: 5, height: 5 },
    ];
    assert!(record_faces(&mut worker, &faces));
    assert_eq!(
        worker.last_output(),
        FacePosition { timestamp: 9, bottom_left: (7, 8), top_right: (12, 13) }
    );
    // the pass is closed: more boxes change nothing, and are taken all the same
    assert!(record_faces(&mut worker, &vec![BoundingBox { x: 0, y: 0, width: 9, height: 9 }]));
    assert_eq!(worker.last_output().top_right, (12, 13));
    // no box at all fits too, and keeps the output
    assert!(record_faces(&mut worker, &vec![]));
    assert_eq!(worker.last_output().timestamp, 9);
}
