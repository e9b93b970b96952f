use diskann3_rest::fbin::{read_fbin, FbinError};

fn file(vectors: &[Vec<f32>], dim: u32) -> Vec<u8> {
    let mut b = Vec::new();
    b.extend_from_slice(&(vectors.len() as u32).to_le_bytes());
    b.extend_from_slice(&dim.to_le_bytes());
    for v in vectors {
        for x in v {
            b.extend_from_slice(&x.to_le_bytes());
        }
    }
    b
}

fn floats(vectors: &[Vec<u32>]) -> Vec<Vec<f32>> {
    vectors.iter().map(|v| v.iter().map(|x| f32::from_bits(*x)).collect()).collect()
}

#[test]
fn written_vectors_are_read_back() {
    let vectors = vec![vec![0.5f32, -1.25, 3.0e8], vec![0.0, -0.0, f32::MIN_POSITIVE]];
    let (read, dim) = read_fbin(&file(&vectors, 3)).unwrap();
    assert_eq!(dim, 3);
    assert_eq!(floats(&read), vectors);
    assert_eq!(read[1][1], 0x8000_0000);
}

#[test]
fn bytes_are_little_endian() {
    let b = vec![1, 0, 0, 0, 2, 0, 0, 0, 0x01, 0x02, 0x03, 0x04, 0xff, 0x00, 0x00, 0x80];
    assert_eq!(read_fbin(&b), Ok((vec![vec![0x0403_0201, 0x8000_00ff]], 2)));
}

#[test]
fn bytes_after_the_last_vector_are_ignored() {
    let mut b = file(&[vec![1.0f32]], 1);
    b.extend_from_slice(&[9, 9, 9, 9, 9]);
    assert_eq!(read_fbin(&b), Ok((vec![vec![1.0f32.to_bits()]], 1)));
}

#[test]
fn empty_files_of_vectors_are_read() {
    assert_eq!(read_fbin(&file(&[], 7)), Ok((vec![], 7)));
    assert_eq!(read_fbin(&file(&[vec![], vec![]], 0)), Ok((vec![vec![], vec![]], 0)));
}

#[test]
fn a_file_without_a_header_is_refused() {
    for n in 0..8 {
        let e = read_fbin(&vec![0; n]).unwrap_err();
        assert_eq!(e, FbinError::TooSmall);
        assert_eq!(e.message("q.fbin"), "q.fbin is too small to be an fbin file");
    }
}

#[test]
fn a_file_that_is_cut_short_is_refused() {
    let whole = file(&[vec![1.0f32, 2.0], vec![3.0, 4.0]], 2);
    for n in 8..whole.len() {
        let e = read_fbin(&whole[..n].to_vec()).unwrap_err();
        assert_eq!(e, FbinError::Truncated { num: 2, dim: 2, expected: 24, actual: n });
    }
    let e = read_fbin(&whole[..20].to_vec()).unwrap_err();
    assert_eq!(e.message("q.fbin"), "q.fbin: header says 2x2 (24 bytes) but file is 20");
}

#[test]
fn a_header_beyond_all_memory_is_refused() {
    let e = read_fbin(&vec![0xff; 8]).unwrap_err();
    assert_eq!(
        e.message("f"),
        "f: header says 4294967295x4294967295 (73786976260478468108 bytes) but file is 8"
    );
}
