//! Chunking of materialized payloads.

use leptos_wasi::chunks::chunks_of;
use leptos_wasi::CHUNK_BYTE_SIZE;

#[test]
fn chunk_constant_is_sixty_four() {
    assert_eq!(CHUNK_BYTE_SIZE, 64);
}

#[test]
fn chunks_of_splits_exactly() {
    let data = vec![1u8, 2, 3, 4, 5];
    let pieces = chunks_of(&data, 2);
    assert_eq!(pieces, vec![vec![1u8, 2], vec![3, 4], vec![5]]);
}

#[test]
fn chunks_of_empty_payload_yields_no_pieces() {
    let data: Vec<u8> = Vec::new();
    let pieces = chunks_of(&data, 64);
    assert_eq!(pieces.len(), 0);
}

#[test]
fn chunks_of_exact_multiple_has_no_short_piece() {
    let data = vec![7u8; 128];
    let pieces = chunks_of(&data, 64);
    assert_eq!(pieces.len(), 2);
    assert_eq!(pieces[0].len(), 64);
    assert_eq!(pieces[1].len(), 64);
}

#[test]
fn chunks_concatenation_restores_payload() {
    let data: Vec<u8> = (0u8..=200).collect();
    let pieces = chunks_of(&data, 64);
    assert_eq!(pieces.len(), 4);
    let rebuilt: Vec<u8> = pieces.concat();
    assert_eq!(rebuilt, data);
    for (i, piece) in pieces.iter().enumerate() {
        assert!(piece.len() <= 64);
        if i + 1 < pieces.len() {
            assert_eq!(piece.len(), 64);
        }
    }
}
