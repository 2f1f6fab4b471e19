use firered_vad::cmvn::{parse_cmvn_header, CmvnError, CmvnLayout};

fn valid_header() -> Vec<u8> {
    let mut bytes = b"\x00BDM \x04\x02\x00\x00\x00\x04\x51\x00\x00\x00".to_vec();
    bytes.extend(vec![0u8; 2 * 81 * 8]);
    bytes
}

#[test]
fn features_rejects_truncated_input() {
    let bytes = b"\x00BDM ";
    assert!(matches!(parse_cmvn_header(bytes), Err(CmvnError::Truncated)));
}

#[test]
fn features_rejects_wrong_magic() {
    let mut bytes = b"\x00BDM \x04\x02\x00\x00\x00\x04\x51\x00\x00\x00".to_vec();
    bytes[0] = 0xFF;
    assert!(matches!(
        parse_cmvn_header(&bytes),
        Err(e) if e.reason().contains("magic")
    ));
}

#[test]
fn mod_rejects_truncated_input() {
    let bytes = b"\x00BDM ";
    assert!(matches!(parse_cmvn_header(bytes), Err(CmvnError::Truncated)));
}

#[test]
fn mod_rejects_wrong_magic() {
    let mut bytes = b"\x00BDM \x04\x02\x00\x00\x00\x04\x51\x00\x00\x00".to_vec();
    bytes[0] = 0xFF;
    assert!(matches!(
        parse_cmvn_header(&bytes),
        Err(e) if e.reason().contains("magic")
    ));
}

#[test]
fn accepts_a_complete_header() {
    assert_eq!(
        parse_cmvn_header(&valid_header()),
        Ok(CmvnLayout { data_offset: 15, rows: 2, cols: 81 })
    );
}

#[test]
fn header_without_matrix_is_truncated() {
    let bytes = valid_header();
    assert_eq!(parse_cmvn_header(&bytes[..15]), Err(CmvnError::Truncated));
    assert_eq!(parse_cmvn_header(&bytes[..bytes.len() - 1]), Err(CmvnError::Truncated));
    assert_eq!(parse_cmvn_header(&[]), Err(CmvnError::Truncated));
}

#[test]
fn every_defect_is_reported() {
    let good = valid_header();
    let mut b = good.clone();
    b[3] = b'X';
    assert_eq!(parse_cmvn_header(&b), Err(CmvnError::NotDoubleMatrix));
    let mut b = good.clone();
    b[5] = 8;
    assert_eq!(parse_cmvn_header(&b), Err(CmvnError::RowsSizeToken));
    let mut b = good.clone();
    b[6] = 3;
    assert_eq!(parse_cmvn_header(&b), Err(CmvnError::WrongRows));
    let mut b = good.clone();
    b[9] = 1;
    assert_eq!(parse_cmvn_header(&b), Err(CmvnError::WrongRows));
    let mut b = good.clone();
    b[10] = 2;
    assert_eq!(parse_cmvn_header(&b), Err(CmvnError::ColsSizeToken));
    let mut b = good.clone();
    b[11] = 80;
    assert_eq!(parse_cmvn_header(&b), Err(CmvnError::WrongCols));
    let mut b = good.clone();
    b[12] = 1;
    assert_eq!(parse_cmvn_header(&b), Err(CmvnError::WrongCols));
}

#[test]
fn the_first_defect_wins() {
    // Wrong magic and a truncated input: the magic is checked first.
    assert_eq!(parse_cmvn_header(b"AB"), Err(CmvnError::MissingMagic));
    assert_eq!(parse_cmvn_header(b"\x00B"), Err(CmvnError::Truncated));
}

#[test]
fn reasons_match_the_format() {
    assert_eq!(CmvnError::Truncated.reason(), "truncated header");
    assert_eq!(CmvnError::MissingMagic.reason(), "missing \\0B magic");
    assert_eq!(CmvnError::WrongCols.reason(), "expected NUM_MEL_BINS + 1 columns");
}

#[test]
fn statistics_are_read_from_their_matrix_positions() {
    let mut bytes = valid_header();
    // Entry (row, col) holds bytes [row, col, 0, 0, 0, 0, 0, 0].
    for row in 0..2usize {
        for col in 0..81usize {
            let p = 15 + (row * 81 + col) * 8;
            bytes[p] = row as u8;
            bytes[p + 1] = col as u8;
        }
    }
    let stats = firered_vad::cmvn::parse_cmvn_stats(&bytes).expect("valid statistics");
    assert_eq!(stats.sums.len(), 80);
    assert_eq!(stats.sum_squares.len(), 80);
    for d in 0..80usize {
        assert_eq!(stats.sums[d], [0, d as u8, 0, 0, 0, 0, 0, 0]);
        assert_eq!(stats.sum_squares[d], [1, d as u8, 0, 0, 0, 0, 0, 0]);
    }
    assert_eq!(stats.count, [0, 80, 0, 0, 0, 0, 0, 0]);
    assert_eq!(f64::from_le_bytes(stats.count), f64::from_le_bytes([0, 80, 0, 0, 0, 0, 0, 0]));
}

#[test]
fn statistics_fail_as_the_header_does() {
    let mut bytes = valid_header();
    bytes[1] = b'C';
    assert!(matches!(
        firered_vad::cmvn::parse_cmvn_stats(&bytes),
        Err(CmvnError::MissingMagic)
    ));
    assert!(matches!(
        firered_vad::cmvn::parse_cmvn_stats(&valid_header()[..100]),
        Err(CmvnError::Truncated)
    ));
}
