//! Validation of the Kaldi binary double-matrix header that carries the
//! CMVN statistics.
//!
//! Layout:
//!
//! ```text
//! \0B            (2 bytes, magic)
//! "DM "          (3 bytes, double-matrix marker, note the trailing space)
//! \x04 + i32_le  (5 bytes, rows)
//! \x04 + i32_le  (5 bytes, cols)
//! rows*cols*8 bytes of little-endian f64
//! ```
//!
//! `rows` must be 2 (sums, then sums of squares) and `cols` must be
//! `NUM_MEL_BINS + 1` (80 statistics plus the frame count).

use vstd::prelude::*;

verus! {

/// Number of Mel filterbank bins the model expects.
pub const NUM_MEL_BINS: usize = 80;

/// Rows of the statistics matrix: sums, then sums of squares.
pub const CMVN_ROWS: usize = 2;

/// Columns of the statistics matrix: one per Mel bin plus the count.
pub const CMVN_COLS: usize = 81;

/// Bytes of one matrix entry (a little-endian f64).
pub const CMVN_ENTRY_BYTES: usize = 8;

/// Offset of the first matrix entry: magic, marker and two size fields.
pub const CMVN_HEADER_BYTES: usize = 15;

/// Bytes of the whole matrix.
pub const CMVN_DATA_BYTES: usize = 1296;

/// Why a byte string is not a well-formed CMVN statistics header.
#[derive(Debug, Clone, Copy, PartialEq, Eq, Structural)]
pub enum CmvnError {
    /// The input ends before the header or the matrix it announces.
    Truncated,
    /// The first two bytes are not `\0B`.
    MissingMagic,
    /// The marker after the magic is not `DM `.
    NotDoubleMatrix,
    /// The byte before the row count is not the 4-byte size token.
    RowsSizeToken,
    /// The matrix does not have exactly two rows.
    WrongRows,
    /// The byte before the column count is not the 4-byte size token.
    ColsSizeToken,
    /// The matrix does not have `NUM_MEL_BINS + 1` columns.
    WrongCols,
}

impl CmvnError {
    /// Human-readable reason for the rejection.
    pub fn reason(&self) -> (r: &'static str)
        ensures
            r@ == cmvn_reason(*self),
    {
        match self {
            CmvnError::Truncated => "truncated header",
            CmvnError::MissingMagic => "missing \\0B magic",
            CmvnError::NotDoubleMatrix => "expected double-matrix marker 'DM '",
            CmvnError::RowsSizeToken => "expected 4-byte int32 size token before rows",
            CmvnError::WrongRows => "expected exactly 2 rows (sums, sum_sqs)",
            CmvnError::ColsSizeToken => "expected 4-byte int32 size token before cols",
            CmvnError::WrongCols => "expected NUM_MEL_BINS + 1 columns",
        }
    }
}

/// The reason text reported for each rejection.
pub open spec fn cmvn_reason(e: CmvnError) -> Seq<char> {
    match e {
        CmvnError::Truncated => "truncated header"@,
        CmvnError::MissingMagic => "missing \\0B magic"@,
        CmvnError::NotDoubleMatrix => "expected double-matrix marker 'DM '"@,
        CmvnError::RowsSizeToken => "expected 4-byte int32 size token before rows"@,
        CmvnError::WrongRows => "expected exactly 2 rows (sums, sum_sqs)"@,
        CmvnError::ColsSizeToken => "expected 4-byte int32 size token before cols"@,
        CmvnError::WrongCols => "expected NUM_MEL_BINS + 1 columns"@,
    }
}

/// Where the statistics matrix of a validated header lies.
#[derive(Debug, Clone, Copy, PartialEq, Eq, Structural)]
pub struct CmvnLayout {
    /// Byte offset of the first matrix entry.
    pub data_offset: usize,
    /// Number of matrix rows.
    pub rows: usize,
    /// Number of matrix columns.
    pub cols: usize,
}

/// The unsigned little-endian value of four bytes.
pub open spec fn le_u32(b0: u8, b1: u8, b2: u8, b3: u8) -> int {
    b0 + 256 * b1 + 65536 * b2 + 16777216 * b3
}

/// The 32-bit little-endian field starting at `i` holds `value`.
pub open spec fn le_field_is(bytes: Seq<u8>, i: int, value: int) -> bool {
    le_u32(bytes[i], bytes[i + 1], bytes[i + 2], bytes[i + 3]) == value
}

/// The verdict on a byte string, checking the header front to back and
/// reporting the first defect met.
pub open spec fn cmvn_header(bytes: Seq<u8>) -> Result<CmvnLayout, CmvnError> {
    let n = bytes.len();
    if n < 2 {
        Err(CmvnError::Truncated)
    } else if !(bytes[0] == 0 && bytes[1] == 66) {
        Err(CmvnError::MissingMagic)
    } else if n < 5 {
        Err(CmvnError::Truncated)
    } else if !(bytes[2] == 68 && bytes[3] == 77 && bytes[4] == 32) {
        Err(CmvnError::NotDoubleMatrix)
    } else if n < 6 {
        Err(CmvnError::Truncated)
    } else if bytes[5] != 4 {
        Err(CmvnError::RowsSizeToken)
    } else if n < 10 {
        Err(CmvnError::Truncated)
    } else if !le_field_is(bytes, 6, CMVN_ROWS as int) {
        Err(CmvnError::WrongRows)
    } else if n < 11 {
        Err(CmvnError::Truncated)
    } else if bytes[10] != 4 {
        Err(CmvnError::ColsSizeToken)
    } else if n < 15 {
        Err(CmvnError::Truncated)
    } else if !le_field_is(bytes, 11, CMVN_COLS as int) {
        Err(CmvnError::WrongCols)
    } else if n < CMVN_HEADER_BYTES + CMVN_DATA_BYTES {
        Err(CmvnError::Truncated)
    } else {
        Ok(CmvnLayout { data_offset: CMVN_HEADER_BYTES, rows: CMVN_ROWS, cols: CMVN_COLS })
    }
}

/// The unsigned little-endian value of `bytes[i..i + 4]`.
fn read_le_u32(bytes: &[u8], i: usize) -> (v: u32)
    requires
        i + 4 <= bytes@.len(),
    ensures
        v == le_u32(bytes@[i as int], bytes@[i + 1], bytes@[i + 2], bytes@[i + 3]),
{
    (bytes[i] as u32) + (bytes[i + 1] as u32) * 256 + (bytes[i + 2] as u32) * 65536 + (bytes[i
        + 3] as u32) * 16777216
}

/// Validate the header of Kaldi binary CMVN statistics and locate the
/// matrix; on success `bytes` holds the whole matrix past `data_offset`.
pub fn parse_cmvn_header(bytes: &[u8]) -> (r: Result<CmvnLayout, CmvnError>)
    ensures
        r == cmvn_header(bytes@),
        r matches Ok(l) ==> l.data_offset + l.rows * l.cols * CMVN_ENTRY_BYTES <= bytes@.len(),
{
    let n = bytes.len();
    if n < 2 {
        return Err(CmvnError::Truncated);
    }
    if !(bytes[0] == 0 && bytes[1] == 66) {
        return Err(CmvnError::MissingMagic);
    }
    if n < 5 {
        return Err(CmvnError::Truncated);
    }
    if !(bytes[2] == 68 && bytes[3] == 77 && bytes[4] == 32) {
        return Err(CmvnError::NotDoubleMatrix);
    }
    if n < 6 {
        return Err(CmvnError::Truncated);
    }
    if bytes[5] != 4 {
        return Err(CmvnError::RowsSizeToken);
    }
    if n < 10 {
        return Err(CmvnError::Truncated);
    }
    if read_le_u32(bytes, 6) != 2 {
        return Err(CmvnError::WrongRows);
    }
    if n < 11 {
        return Err(CmvnError::Truncated);
    }
    if bytes[10] != 4 {
        return Err(CmvnError::ColsSizeToken);
    }
    if n < 15 {
        return Err(CmvnError::Truncated);
    }
    if read_le_u32(bytes, 11) != 81 {
        return Err(CmvnError::WrongCols);
    }
    if n < CMVN_HEADER_BYTES + CMVN_DATA_BYTES {
        return Err(CmvnError::Truncated);
    }
    Ok(CmvnLayout { data_offset: CMVN_HEADER_BYTES, rows: CMVN_ROWS, cols: CMVN_COLS })
}

/// The matrix entry at `row`, `col`: its eight little-endian bytes.
pub open spec fn entry_bytes(bytes: Seq<u8>, row: int, col: int) -> Seq<u8> {
    let start = CMVN_HEADER_BYTES + (row * CMVN_COLS + col) * CMVN_ENTRY_BYTES;
    bytes.subrange(start, start + CMVN_ENTRY_BYTES)
}

/// The raw statistics of a CMVN file: each entry still as the eight
/// little-endian bytes of an f64.
#[derive(Debug)]
pub struct CmvnStats {
    /// Per-bin sums (first row, first `NUM_MEL_BINS` columns).
    pub sums: Vec<[u8; 8]>,
    /// Per-bin sums of squares (second row, first `NUM_MEL_BINS` columns).
    pub sum_squares: Vec<[u8; 8]>,
    /// Number of frames the statistics cover (first row, last column).
    pub count: [u8; 8],
}

/// The eight bytes of the entry at `row`, `col` of a validated matrix.
fn read_entry(bytes: &[u8], row: usize, col: usize) -> (e: [u8; 8])
    requires
        row < CMVN_ROWS,
        col < CMVN_COLS,
        CMVN_HEADER_BYTES + CMVN_DATA_BYTES <= bytes@.len(),
    ensures
        e@ == entry_bytes(bytes@, row as int, col as int),
{
    let p = CMVN_HEADER_BYTES + (row * CMVN_COLS + col) * CMVN_ENTRY_BYTES;
    let e = [
        bytes[p],
        bytes[p + 1],
        bytes[p + 2],
        bytes[p + 3],
        bytes[p + 4],
        bytes[p + 5],
        bytes[p + 6],
        bytes[p + 7],
    ];
    assert(e@ =~= bytes@.subrange(p as int, p + CMVN_ENTRY_BYTES));
    e
}

/// Validate the CMVN header and pick the statistics out of the matrix.
/// Fails exactly when the header does, with the same error.
pub fn parse_cmvn_stats(bytes: &[u8]) -> (r: Result<CmvnStats, CmvnError>)
    ensures
        r is Ok <==> cmvn_header(bytes@) is Ok,
        r matches Err(e) ==> cmvn_header(bytes@) == Err::<CmvnLayout, CmvnError>(e),
        r matches Ok(st) ==> {
            &&& st.sums@.len() == NUM_MEL_BINS
            &&& st.sum_squares@.len() == NUM_MEL_BINS
            &&& forall|d: int|
                0 <= d < NUM_MEL_BINS ==> (#[trigger] st.sums@[d])@ == entry_bytes(bytes@, 0, d)
            &&& forall|d: int|
                0 <= d < NUM_MEL_BINS ==> (#[trigger] st.sum_squares@[d])@ == entry_bytes(
                    bytes@,
                    1,
                    d,
                )
            &&& st.count@ == entry_bytes(bytes@, 0, NUM_MEL_BINS as int)
        },
{
    match parse_cmvn_header(bytes) {
        Err(e) => Err(e),
        Ok(_) => {
            let mut sums: Vec<[u8; 8]> = Vec::with_capacity(NUM_MEL_BINS);
            let mut sum_squares: Vec<[u8; 8]> = Vec::with_capacity(NUM_MEL_BINS);
            let mut d: usize = 0;
            while d < NUM_MEL_BINS
                invariant
                    CMVN_HEADER_BYTES + CMVN_DATA_BYTES <= bytes@.len(),
                    0 <= d <= NUM_MEL_BINS,
                    sums@.len() == d,
                    sum_squares@.len() == d,
                    forall|k: int| 0 <= k < d ==> (#[trigger] sums@[k])@ == entry_bytes(bytes@, 0, k),
                    forall|k: int|
                        0 <= k < d ==> (#[trigger] sum_squares@[k])@ == entry_bytes(bytes@, 1, k),
                decreases NUM_MEL_BINS - d,
            {
                sums.push(read_entry(bytes, 0, d));
                sum_squares.push(read_entry(bytes, 1, d));
                d = d + 1;
            }
            let count = read_entry(bytes, 0, NUM_MEL_BINS);
            Ok(CmvnStats { sums, sum_squares, count })
        },
    }
}

} // verus!
