use bao_integrity::digest::hash_blake3;
use bao_integrity::encode::{encoding_outcome, hash_bao_file_internal, hash_bao_memory, EncodeStep, TreeEncoder, ENCODE_BLOCK_LEN};
use bao_integrity::error::Error;
use bao_integrity::format::{outboard_len_of, read_declared_len};

fn counting_bytes(len: usize) -> Vec<u8> {
    (0..len).map(|i| i as u8).collect()
}

#[test]
fn empty_content_has_the_empty_tree() {
    let encoded = hash_bao_memory(Vec::new()).unwrap();
    assert_eq!(encoded.hash, hash_blake3(Vec::new()).unwrap());
    assert_eq!(encoded.outboard, vec![0u8; 8]);
    let streamed = hash_bao_file_internal(&vec![Vec::new()]).unwrap();
    assert_eq!(streamed.hash, encoded.hash);
    assert_eq!(streamed.outboard, encoded.outboard);
}

#[test]
fn one_chunk_has_a_header_and_no_parent() {
    let encoded = hash_bao_memory(counting_bytes(1024)).unwrap();
    assert_eq!(encoded.outboard, vec![0, 4, 0, 0, 0, 0, 0, 0]);
    assert_eq!(encoded.hash, hash_blake3(counting_bytes(1024)).unwrap());
}

#[test]
fn outboard_holds_the_length_and_one_parent_per_further_chunk() {
    let encoded = hash_bao_memory(counting_bytes(300000)).unwrap();
    assert_eq!(encoded.hash.len(), 32);
    assert_eq!(encoded.outboard.len(), 8 + 292 * 64);
    assert_eq!(encoded.outboard[..8].to_vec(), 300000u64.to_le_bytes().to_vec());
}

#[test]
fn buffer_and_stream_encode_alike() {
    let input = counting_bytes(300000);
    let from_buffer = hash_bao_memory(input.clone()).unwrap();
    for width in [ENCODE_BLOCK_LEN, 1 << 20, 1024, 1000, 4097] {
        let mut reads: Vec<Vec<u8>> = input.chunks(width).map(|c| c.to_vec()).collect();
        reads.push(Vec::new());
        let from_stream = hash_bao_file_internal(&reads).unwrap();
        assert_eq!(from_stream.hash, from_buffer.hash);
        assert_eq!(from_stream.outboard, from_buffer.outboard);
    }
}

#[test]
fn encoding_is_the_one_of_the_tree_hash_library() {
    let input = counting_bytes(300000);
    let encoded = hash_bao_memory(input.clone()).unwrap();
    let (outboard, root) = bao::encode::outboard(&input);
    assert_eq!(encoded.outboard, outboard);
    assert_eq!(encoded.hash, root.as_bytes().to_vec());
    assert_eq!(encoded.hash, hash_blake3(input).unwrap());
}

#[test]
fn stream_encoding_ends_at_the_first_empty_read() {
    let reads = vec![counting_bytes(2000), Vec::new(), counting_bytes(50)];
    let encoded = hash_bao_file_internal(&reads).unwrap();
    let expected = hash_bao_memory(counting_bytes(2000)).unwrap();
    assert_eq!(encoded.hash, expected.hash);
    assert_eq!(encoded.outboard, expected.outboard);
}

#[test]
fn encoder_state_takes_pieces_in_order() {
    let input = counting_bytes(5000);
    let state = TreeEncoder::new();
    let state = state.absorb(&input[..1]).unwrap();
    let state = state.absorb(&input[1..3000]).unwrap();
    let state = state.absorb(&[]).unwrap();
    let state = state.absorb(&input[3000..]).unwrap();
    let encoded = state.finish().unwrap();
    let expected = hash_bao_memory(input).unwrap();
    assert_eq!(encoded.hash, expected.hash);
    assert_eq!(encoded.outboard, expected.outboard);
}

#[test]
fn inputs_that_differ_in_the_last_byte_have_other_roots() {
    let first = counting_bytes(1 << 20);
    let mut second = first.clone();
    let last = second.len() - 1;
    second[last] ^= 0xff;
    let a = hash_bao_memory(first).unwrap();
    let b = hash_bao_memory(second).unwrap();
    assert_ne!(a.hash, b.hash);
    assert_ne!(a.outboard, b.outboard);
}

#[test]
fn a_finished_encoder_gives_its_pair() {
    let encoded = encoding_outcome(Ok((vec![1, 2, 3], vec![9; 32]))).unwrap();
    assert_eq!(encoded.outboard, vec![1, 2, 3]);
    assert_eq!(encoded.hash, vec![9; 32]);
}

#[test]
fn a_failed_last_step_is_an_encode_finalize_error() {
    let failed = std::io::Error::new(std::io::ErrorKind::Other, "sink failed");
    assert!(matches!(encoding_outcome(Err(failed)), Err(Error::EncodeFinalize)));
}

#[test]
fn a_read_with_bytes_is_encoded_and_an_empty_read_finalizes() {
    assert_eq!(ENCODE_BLOCK_LEN, 262144);
    let input = counting_bytes(3000);
    let state = TreeEncoder::new();
    let state = match state.step(&input[..2000]).unwrap() {
        EncodeStep::More(next) => next,
        EncodeStep::Done(_) => panic!("a read with bytes does not end the stream"),
    };
    let state = match state.step(&input[2000..]).unwrap() {
        EncodeStep::More(next) => next,
        EncodeStep::Done(_) => panic!("a read with bytes does not end the stream"),
    };
    match state.step(&[]).unwrap() {
        EncodeStep::More(_) => panic!("an empty read ends the stream"),
        EncodeStep::Done(encoded) => {
            let expected = hash_bao_memory(input).unwrap();
            assert_eq!(encoded.hash, expected.hash);
            assert_eq!(encoded.outboard, expected.outboard);
            assert_eq!(encoded.outboard.len(), 8 + 2 * 64);
        },
    }
}

#[test]
fn a_stream_without_reads_is_the_empty_content() {
    let encoded = hash_bao_file_internal(&Vec::new()).unwrap();
    let expected = hash_bao_memory(Vec::new()).unwrap();
    assert_eq!(encoded.hash, expected.hash);
    assert_eq!(encoded.outboard, expected.outboard);
}

#[test]
fn outboard_declares_its_content_and_has_the_length_of_its_tree() {
    for len in [0usize, 1, 10, 1023, 1024, 1025, 2047, 2048, 2049, 3072, 4096, 4097, 8192, 16385, 262144, 262145] {
        let input = counting_bytes(len);
        let encoded = hash_bao_memory(input.clone()).unwrap();
        assert_eq!(encoded.hash.len(), 32);
        assert_eq!(encoded.outboard.len() as u64, outboard_len_of(len as u64));
        assert_eq!(read_declared_len(&encoded.outboard), Some(len as u64));
        let (outboard, root) = bao::encode::outboard(&input);
        assert_eq!(encoded.outboard, outboard);
        assert_eq!(encoded.hash, root.as_bytes().to_vec());
    }
}

#[test]
fn a_stream_of_two_chunks_has_one_parent() {
    let reads = vec![vec![0u8; 1025], Vec::new()];
    let encoded = hash_bao_file_internal(&reads).unwrap();
    assert_eq!(encoded.hash.len(), 32);
    assert_eq!(encoded.outboard.len(), 72);
    assert_eq!(encoded.outboard[..8].to_vec(), vec![0x01, 0x04, 0, 0, 0, 0, 0, 0]);
}

#[test]
fn one_full_chunk_of_zeros_has_only_its_header() {
    let encoded = hash_bao_memory(vec![0u8; 1024]).unwrap();
    assert_eq!(encoded.hash.len(), 32);
    assert_eq!(encoded.outboard, vec![0, 4, 0, 0, 0, 0, 0, 0]);
}

#[test]
fn the_split_into_reads_does_not_matter() {
    let input = counting_bytes(5000);
    let mut one_by_one: Vec<Vec<u8>> = input.iter().map(|b| vec![*b]).collect();
    one_by_one.push(Vec::new());
    let at_once = vec![input.clone(), Vec::new()];
    let a = hash_bao_file_internal(&one_by_one).unwrap();
    let b = hash_bao_file_internal(&at_once).unwrap();
    assert_eq!(a.hash, b.hash);
    assert_eq!(a.outboard, b.outboard);
}

#[test]
fn streams_with_other_bytes_have_other_roots() {
    let input = counting_bytes(3000);
    let base = hash_bao_file_internal(&vec![input.clone()]).unwrap();
    let mut changed = input.clone();
    changed[1500] ^= 0x01;
    assert_ne!(hash_bao_file_internal(&vec![changed]).unwrap().hash, base.hash);
    assert_ne!(hash_bao_file_internal(&vec![input[..2999].to_vec()]).unwrap().hash, base.hash);
    let mut longer = input.clone();
    longer.push(0);
    assert_ne!(hash_bao_file_internal(&vec![longer]).unwrap().hash, base.hash);
}

#[test]
fn equal_buffers_encode_alike_on_every_call() {
    let input = counting_bytes(70000);
    let first = hash_bao_memory(input.clone()).unwrap();
    let _between = hash_bao_memory(counting_bytes(10)).unwrap();
    let second = hash_bao_memory(input).unwrap();
    assert_eq!(first.hash, second.hash);
    assert_eq!(first.outboard, second.outboard);
}

#[test]
fn empty_buffer_has_the_root_of_the_empty_tree() {
    let encoded = hash_bao_memory(Vec::new()).unwrap();
    let expected: Vec<u8> = vec![
        0xaf, 0x13, 0x49, 0xb9, 0xf5, 0xf9, 0xa1, 0xa6, 0xa0, 0x40, 0x4d, 0xea, 0x36, 0xdc, 0xc9, 0x49,
        0x9b, 0xcb, 0x25, 0xc9, 0xad, 0xc1, 0x12, 0xb7, 0xcc, 0x9a, 0x93, 0xca, 0xe4, 0x1f, 0x32, 0x62,
    ];
    assert_eq!(encoded.hash, expected);
    assert_eq!(encoded.outboard, vec![0u8; 8]);
}
