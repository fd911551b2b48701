use zookeeper_client::error::Error;
use zookeeper_client::pipeline::{Pipeline, Route};

#[test]
fn replies_complete_in_send_order() {
    let mut pipeline = Pipeline::new();
    let x1 = pipeline.send(10);
    let x2 = pipeline.send(20);
    let x3 = pipeline.send(30);
    assert!(x1 > 0 && x2 > 0 && x3 > 0);
    assert!(x1 != x2 && x2 != x3);
    assert_eq!(pipeline.route(x1), Ok(Route::Response { ticket: 10 }));
    assert_eq!(pipeline.route(x2), Ok(Route::Response { ticket: 20 }));
    assert_eq!(pipeline.route(x3), Ok(Route::Response { ticket: 30 }));
}

#[test]
fn out_of_order_reply_is_a_protocol_error() {
    let mut pipeline = Pipeline::new();
    let _x1 = pipeline.send(1);
    let x2 = pipeline.send(2);
    assert_eq!(pipeline.route(x2), Err(Error::ProtocolError));
    assert_eq!(pipeline.route(12345), Err(Error::ProtocolError));
}

#[test]
fn reserved_xids_are_routed_apart() {
    let mut pipeline = Pipeline::new();
    let x1 = pipeline.send(7);
    assert_eq!(pipeline.route(-1), Ok(Route::Notification));
    assert_eq!(pipeline.route(-2), Ok(Route::Ping));
    assert_eq!(pipeline.route(-4), Ok(Route::Auth));
    assert_eq!(pipeline.route(-8), Ok(Route::SetWatches));
    assert_eq!(pipeline.route(x1), Ok(Route::Response { ticket: 7 }));
}

#[test]
fn drain_hands_back_everything_in_flight() {
    let mut pipeline = Pipeline::new();
    pipeline.send(1);
    pipeline.send(2);
    pipeline.send(3);
    assert_eq!(pipeline.drain(), vec![1, 2, 3]);
    assert!(pipeline.drain().is_empty());
}

#[test]
fn xids_count_up_from_one() {
    let mut pipeline = Pipeline::new();
    assert_eq!(pipeline.send(0), 1);
    assert_eq!(pipeline.send(0), 2);
}

#[test]
fn next_xid_counts_up() {
    let mut pipeline = Pipeline::new();
    assert_eq!(pipeline.next_xid(), 1);
    pipeline.send(0);
    assert_eq!(pipeline.next_xid(), 2);
}
