use narcissus::exchange::msgs::{FacePosition, Luminosity};
use narcissus::exchange::worker::{faceposition, BoundingBox, Pull};
use narcissus::exchange::{Exchange, SubscriberList};
use narcissus::narcissus::Narcissus;
use narcissus::videoq::videoq;

fn face(timestamp: u64) -> FacePosition {
    FacePosition { timestamp, bottom_left: (1, 2), top_right: (3, 4) }
}

#[test]
fn a_new_list_is_empty() {
    let mut list = SubscriberList::<u64>::new();
    assert_eq!(list.len(), 0);
    assert!(list.has_room());
    assert!(!list.publish(1));
    assert_eq!(list.len(), 0);
}

#[test]
fn subscribers_get_keys_in_order() {
    let mut list = SubscriberList::<u64>::new();
    let a = list.subscribe();
    let b = list.subscribe();
    assert_eq!((a.key(), b.key()), (0, 1));
    assert_eq!(list.len(), 2);
    assert_eq!(list.find(0), Some(0));
    assert_eq!(list.find(1), Some(1));
    assert_eq!(list.find(2), None);
}

#[test]
fn publish_reaches_every_subscriber() {
    let mut list = SubscriberList::<u64>::new();
    let a = list.subscribe();
    let b = list.subscribe();
    assert_eq!(list.recv(&a), Some(0));
    assert!(list.publish(42));
    assert_eq!(list.recv(&a), Some(42));
    assert_eq!(list.recv(&b), Some(42));
    assert!(list.publish(43));
    assert_eq!(list.recv(&a), Some(43));
}

#[test]
fn publish_drops_the_channels_without_a_receiver() {
    let mut list = SubscriberList::<u64>::new();
    let a = list.subscribe();
    let b = list.subscribe();
    let c = list.subscribe();
    list.release(b);
    // the channel stays until the next publish
    assert_eq!(list.len(), 3);
    assert!(list.publish(1));
    assert_eq!(list.len(), 2);
    assert_eq!(list.find(1), None);
    assert_eq!(list.find(0), Some(0));
    assert_eq!(list.find(2), Some(1));
    assert_eq!(list.recv(&a), Some(1));
    assert_eq!(list.recv(&c), Some(1));
    list.release(a);
    list.release(c);
    assert!(list.publish(2));
    assert_eq!(list.len(), 0);
    assert!(!list.publish(3));
}

#[test]
fn a_receiver_whose_channel_is_gone_finds_nothing() {
    let mut list = SubscriberList::<u64>::new();
    let a = list.subscribe();
    let stale = narcissus::exchange::confchannel::confchannel::<u64>(a.key()).2;
    list.release(a);
    list.publish(5);
    assert_eq!(list.recv(&stale), None);
    // giving up an end of a channel that is gone changes nothing
    list.release(stale);
    assert_eq!(list.len(), 0);
}

#[test]
fn keys_are_not_used_again() {
    let mut list = SubscriberList::<u64>::new();
    let a = list.subscribe();
    list.release(a);
    list.publish(0);
    let b = list.subscribe();
    assert_eq!(b.key(), 1);
}

#[test]
fn the_exchange_starts_with_two_idle_workers() {
    let (mut ring, _tx, rx) = videoq(2);
    let (exchange, faces, light) = Exchange::new(Narcissus::new().unwrap(), rx, &mut ring);
    assert_eq!(ring.receivers(), 3);
    assert!(exchange.has_room());
    assert_eq!(faces.last_output(), FacePosition::default());
    assert_eq!(light.last_output(), Luminosity::default());
    assert_eq!(faces.park_millis(), 1000);
    assert_eq!(light.park_millis(), 1000);
}

#[test]
fn a_subscriber_sees_what_the_face_worker_publishes() {
    let (mut ring, tx, rx) = videoq(2);
    let (mut exchange, mut faces, _light) = Exchange::new(Narcissus::new().unwrap(), rx, &mut ring);
    assert!(!exchange.publish_faceposition(&mut faces));
    let reader = exchange.subscribe_faceposition();
    assert_eq!(exchange.recv_faceposition(&reader), Some(FacePosition::default()));
    tx.send(&mut ring, &[9, 9], 77);
    assert!(matches!(faces.pull(&mut ring), Pull::Luma { timestamp: 77, .. }));
    faceposition(&mut faces, &vec![BoundingBox { x: 1, y: 2, width: 2, height: 2 }]);
    assert!(exchange.publish_faceposition(&mut faces));
    assert_eq!(exchange.recv_faceposition(&reader), Some(face(77)));
}

#[test]
fn the_two_streams_do_not_touch_each_other() {
    let (mut ring, _tx, rx) = videoq(2);
    let (mut exchange, mut faces, mut light) =
        Exchange::new(Narcissus::new().unwrap(), rx, &mut ring);
    let f = exchange.subscribe_faceposition();
    let l = exchange.subscribe_luminosity();
    assert_eq!((f.key(), l.key()), (0, 0));
    exchange.release_faceposition(f);
    assert!(exchange.publish_faceposition(&mut faces));
    assert!(!exchange.publish_faceposition(&mut faces));
    assert!(exchange.publish_luminosity(&mut light));
    assert_eq!(exchange.recv_luminosity(&l), Some(Luminosity::default()));
    exchange.release_luminosity(l);
    assert!(exchange.publish_luminosity(&mut light));
    assert!(!exchange.publish_luminosity(&mut light));
}

#[test]
fn a_closed_exchange_gives_its_reading_end_back() {
    let (mut ring, _tx, rx) = videoq(2);
    let (exchange, faces, light) = Exchange::new(Narcissus::new().unwrap(), rx, &mut ring);
    assert_eq!(exchange.config().webcam_resolution, (640, 480));
    assert_eq!(ring.receivers(), 3);
    exchange.close(&mut ring);
    faces.close(&mut ring);
    light.close(&mut ring);
    assert_eq!(ring.receivers(), 0);
}
