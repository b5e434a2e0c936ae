//! The header multimap, response overrides, and header translation.

use leptos_wasi::body::Body;
use leptos_wasi::headers::HeaderMap;
use leptos_wasi::response::{Response, ResponseError, ResponseOptions, ResponseParts};

fn names_and_values(map: &HeaderMap) -> Vec<(Vec<u8>, Vec<u8>)> {
    map.entries
        .iter()
        .map(|e| (e.name.clone(), e.value.clone()))
        .collect()
}

#[test]
fn append_keeps_existing_values() {
    let mut map = HeaderMap::new();
    map.append(b"set-cookie".to_vec(), b"a=1".to_vec());
    map.append(b"set-cookie".to_vec(), b"b=2".to_vec());
    assert_eq!(
        names_and_values(&map),
        vec![
            (b"set-cookie".to_vec(), b"a=1".to_vec()),
            (b"set-cookie".to_vec(), b"b=2".to_vec()),
        ]
    );
}

#[test]
fn insert_drops_previous_values_for_the_name() {
    let mut map = HeaderMap::new();
    map.append(b"x-trace".to_vec(), b"one".to_vec());
    map.append(b"accept".to_vec(), b"text/html".to_vec());
    map.append(b"x-trace".to_vec(), b"two".to_vec());
    map.insert(b"x-trace".to_vec(), b"final".to_vec());
    assert_eq!(
        names_and_values(&map),
        vec![
            (b"accept".to_vec(), b"text/html".to_vec()),
            (b"x-trace".to_vec(), b"final".to_vec()),
        ]
    );
}

#[test]
fn contains_name_finds_only_present_names() {
    let mut map = HeaderMap::new();
    map.append(b"content-type".to_vec(), b"text/css".to_vec());
    assert!(map.contains_name(b"content-type"));
    assert!(!map.contains_name(b"content-length"));
}

#[test]
fn headers_translation_keeps_order_and_pairs() {
    let mut resp = Response::new(Body::Sync(Vec::new()));
    resp.headers.append(b"content-type".to_vec(), b"text/html".to_vec());
    resp.headers.append(b"set-cookie".to_vec(), b"sid=9".to_vec());
    let translated = resp.headers().expect("all entries are representable");
    let pairs: Vec<(Vec<u8>, Vec<u8>)> = translated
        .fields
        .iter()
        .map(|e| (e.name.clone(), e.value.clone()))
        .collect();
    assert_eq!(
        pairs,
        vec![
            (b"content-type".to_vec(), b"text/html".to_vec()),
            (b"set-cookie".to_vec(), b"sid=9".to_vec()),
        ]
    );
}

#[test]
fn headers_translation_rejects_unrepresentable_entries() {
    let mut resp = Response::new(Body::Sync(Vec::new()));
    resp.headers.append(b"good".to_vec(), b"fine".to_vec());
    resp.headers.append(b"bad name".to_vec(), b"x".to_vec());
    let err = resp.headers().expect_err("a space cannot stand in a field name");
    match err {
        ResponseError::WasiHeaders(entry) => assert_eq!(entry.name, b"bad name".to_vec()),
        _ => panic!("the offending entry rides along with the error"),
    }
}

#[test]
fn headers_translation_rejects_control_bytes_in_values() {
    let mut resp = Response::new(Body::Sync(Vec::new()));
    resp.headers.append(b"x-note".to_vec(), b"line\nbreak".to_vec());
    assert!(resp.headers().is_err());
}

#[test]
fn set_default_content_type_only_fills_a_gap() {
    let mut resp = Response::new(Body::Sync(Vec::new()));
    resp.set_default_content_type(b"text/html".to_vec());
    assert_eq!(
        names_and_values(&resp.headers),
        vec![(b"content-type".to_vec(), b"text/html".to_vec())]
    );
    resp.set_default_content_type(b"text/plain".to_vec());
    assert_eq!(
        names_and_values(&resp.headers),
        vec![(b"content-type".to_vec(), b"text/html".to_vec())]
    );
}

#[test]
fn extend_response_applies_and_drains_overrides() {
    let mut resp = Response::new(Body::Sync(Vec::new()));
    resp.headers.append(b"x-trace".to_vec(), b"old".to_vec());
    resp.headers.append(b"server".to_vec(), b"wasi".to_vec());

    let mut opt = ResponseOptions::default();
    opt.set_status(201);
    opt.append_header(b"x-trace".to_vec(), b"new".to_vec());
    opt.append_header(b"set-cookie".to_vec(), b"sid=1".to_vec());

    resp.extend_response(&mut opt);

    assert_eq!(resp.status, 201);
    assert_eq!(
        names_and_values(&resp.headers),
        vec![
            (b"server".to_vec(), b"wasi".to_vec()),
            (b"x-trace".to_vec(), b"new".to_vec()),
            (b"set-cookie".to_vec(), b"sid=1".to_vec()),
        ]
    );
    assert_eq!(opt.parts.headers.len(), 0);
    assert_eq!(opt.parts.status, Some(201));
}

#[test]
fn extend_response_without_status_override_keeps_status() {
    let mut resp = Response::new(Body::Sync(Vec::new()));
    let mut opt = ResponseOptions::default();
    resp.extend_response(&mut opt);
    assert_eq!(resp.status, 200);
}

#[test]
fn overwrite_replaces_the_whole_override_cell() {
    let mut opt = ResponseOptions::default();
    opt.set_status(500);
    opt.append_header(b"x-old".to_vec(), b"1".to_vec());
    let mut fresh = HeaderMap::new();
    fresh.append(b"x-new".to_vec(), b"2".to_vec());
    opt.overwrite(ResponseParts { headers: fresh, status: None });
    assert_eq!(opt.parts.status, None);
    assert_eq!(
        names_and_values(&opt.parts.headers),
        vec![(b"x-new".to_vec(), b"2".to_vec())]
    );
}

#[test]
fn insert_header_on_options_overwrites() {
    let mut opt = ResponseOptions::default();
    opt.append_header(b"x-k".to_vec(), b"1".to_vec());
    opt.insert_header(b"x-k".to_vec(), b"2".to_vec());
    assert_eq!(
        names_and_values(&opt.parts.headers),
        vec![(b"x-k".to_vec(), b"2".to_vec())]
    );
}
