//! Static-asset serving: read plans, file chunk streams, and the
//! not-found mapping.

use leptos_wasi::body::{Body, ChunkStream};
use leptos_wasi::handler::{route, RouteDecision};
use leptos_wasi::response::Headers;
use leptos_wasi::static_files::{asset_response, file_chunk_stream, read_plan};
use leptos_wasi::writer::{commit_response, HostOutput, ReadinessHandle, StreamEnd};

#[test]
fn read_plan_covers_the_stat_size_exactly() {
    let plan = read_plan(100, 64);
    assert_eq!(plan, vec![64, 36]);
    let sum: usize = plan.iter().sum();
    assert_eq!(sum, 100);
}

#[test]
fn read_plan_of_empty_file_is_empty() {
    assert_eq!(read_plan(0, 64), Vec::<usize>::new());
}

#[test]
fn read_plan_of_exact_multiple() {
    assert_eq!(read_plan(128, 64), vec![64, 64]);
}

#[test]
fn file_stream_totals_the_file_size() {
    // 100 bytes: not a multiple of the chunk size
    let content: Vec<u8> = (0u8..100).collect();
    let mut stream = file_chunk_stream(&content, 64);
    let streamed = stream.collect_remaining().expect("file chunks carry no error");
    assert_eq!(streamed.len(), 100);
    assert_eq!(streamed, content);
}

#[test]
fn absent_file_maps_to_not_found() {
    let resp = asset_response(None);
    assert_eq!(resp.status, 404);
    match resp.body {
        Body::Sync(bytes) => assert_eq!(bytes.len(), 0),
        Body::Async(_) => panic!("a missing file yields an empty synchronous body"),
    }
}

#[test]
fn present_file_is_served_with_ok_status() {
    let stream = file_chunk_stream(b"body { color: red }", 64);
    let resp = asset_response(Some(Body::Async(stream)));
    assert_eq!(resp.status, 200);
}

#[test]
fn css_request_streams_two_chunks_then_closes() {
    // GET /pkg/app.css; the file holds 100 bytes; the chunk size is 64
    let decision = route(b"/pkg/app.css", b"/pkg", &Vec::new());
    let suffix = match decision {
        RouteDecision::StaticAsset(suffix) => suffix,
        _ => panic!("a path under the static prefix is a static-asset lookup"),
    };
    assert_eq!(suffix, b"/app.css".to_vec());

    let content: Vec<u8> = (0u8..100).collect();
    let stream = file_chunk_stream(&content, 64);
    let resp = asset_response(Some(Body::Async(stream)));

    let mut out = HostOutput::new();
    let mut ready = ReadinessHandle::new(0);
    commit_response(&mut out, &mut ready, resp, 64).expect("commit succeeds");

    assert_eq!(out.writes.len(), 2);
    assert_eq!(out.writes[0].len(), 64);
    assert_eq!(out.writes[1].len(), 36);
    assert_eq!(out.writes.concat(), content);
    assert_eq!(out.end, StreamEnd::Clean);
}

#[test]
fn lazy_stream_cursor_never_rewinds() {
    let content = b"0123456789".to_vec();
    let mut stream = file_chunk_stream(&content, 4);
    let first = stream.pull();
    assert!(first.is_some());
    let rest = stream.collect_remaining().expect("no error elements");
    assert_eq!(rest, b"456789".to_vec());
    assert!(stream.pull().is_none());
}

#[test]
fn empty_headers_list_builds() {
    let headers = Headers { fields: Vec::new() };
    assert_eq!(headers.fields.len(), 0);
    let _ = ChunkStream::new(Vec::new());
}
