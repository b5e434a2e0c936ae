//! The lazy chunk sequence: pull order and materialization.

use leptos_wasi::body::{Body, ChunkItem, ChunkStream, StreamError};

#[test]
fn pull_yields_each_chunk_once_in_order() {
    let items = vec![
        ChunkItem::Data(b"ab".to_vec()),
        ChunkItem::Data(b"cd".to_vec()),
    ];
    let mut stream = ChunkStream::new(items);
    match stream.pull() {
        Some(ChunkItem::Data(bytes)) => assert_eq!(bytes, b"ab".to_vec()),
        _ => panic!("expected the first chunk"),
    }
    match stream.pull() {
        Some(ChunkItem::Data(bytes)) => assert_eq!(bytes, b"cd".to_vec()),
        _ => panic!("expected the second chunk"),
    }
    assert!(stream.pull().is_none());
    assert!(stream.pull().is_none());
}

#[test]
fn collect_remaining_concatenates_all_chunks() {
    let items = vec![
        ChunkItem::Data(b"hello ".to_vec()),
        ChunkItem::Data(b"lazy ".to_vec()),
        ChunkItem::Data(b"world".to_vec()),
    ];
    let mut stream = ChunkStream::new(items);
    let bytes = stream.collect_remaining().expect("all chunks are data");
    assert_eq!(bytes, b"hello lazy world".to_vec());
}

#[test]
fn collect_remaining_stops_at_first_error() {
    let items = vec![
        ChunkItem::Data(b"ok".to_vec()),
        ChunkItem::Failed(StreamError { message: b"disk gone".to_vec() }),
        ChunkItem::Data(b"never pulled".to_vec()),
    ];
    let mut stream = ChunkStream::new(items);
    let err = stream.collect_remaining().expect_err("the producer failed");
    assert_eq!(err.message, b"disk gone".to_vec());
}

#[test]
fn body_from_bytes_is_synchronous() {
    let body = Body::from(b"abc".to_vec());
    match body {
        Body::Sync(bytes) => assert_eq!(bytes, b"abc".to_vec()),
        Body::Async(_) => panic!("materialized bytes must become a synchronous body"),
    }
}
