//! Query files: little-endian `[u32 num][u32 dim][f32 num*dim]`.
//!
//! A vector's elements are held as the bit patterns of their `f32` values.

use crate::text::{decimal, push_decimal};
use vstd::prelude::*;

verus! {

/// The little-endian 32-bit word at position `at`.
pub open spec fn word(b: Seq<u8>, at: int) -> u32 {
    (b[at] + 0x100 * b[at + 1] + 0x1_0000 * b[at + 2] + 0x100_0000 * b[at + 3]) as u32
}

/// How many vectors the header announces.
pub open spec fn header_num(b: Seq<u8>) -> nat {
    word(b, 0) as nat
}

/// How many elements per vector the header announces.
pub open spec fn header_dim(b: Seq<u8>) -> nat {
    word(b, 4) as nat
}

/// The size of a file of `num` vectors of `dim` elements.
pub open spec fn file_size(num: nat, dim: nat) -> nat {
    8 + num * dim * 4
}

/// The position of element `col` of vector `row`.
pub open spec fn element_at(dim: nat, row: int, col: int) -> int {
    8 + (row * dim + col) * 4
}

/// Vector `row` of the file `b`.
pub open spec fn file_row(b: Seq<u8>, row: int) -> Seq<u32> {
    Seq::new(header_dim(b), |col: int| word(b, element_at(header_dim(b), row, col)))
}

/// All vectors of the file `b`.
pub open spec fn file_rows(b: Seq<u8>) -> Seq<Seq<u32>> {
    Seq::new(header_num(b), |row: int| file_row(b, row))
}

/// The contents of a list of vectors.
pub open spec fn rows(v: Seq<Vec<u32>>) -> Seq<Seq<u32>> {
    Seq::new(v.len(), |i: int| v[i]@)
}

/// Why a file is not a query file.
#[derive(Clone, Copy, Debug, PartialEq, Eq, Structural)]
pub enum FbinError {
    /// There is no room for the header.
    TooSmall,
    /// The file ends before the last vector that its header announces.
    Truncated { num: u32, dim: u32, expected: u128, actual: usize },
}

/// What the bytes of a query file hold, or why they are refused.
pub open spec fn file_contents(b: Seq<u8>) -> Result<(Seq<Seq<u32>>, nat), FbinError> {
    if b.len() < 8 {
        Err(FbinError::TooSmall)
    } else if b.len() < file_size(header_num(b), header_dim(b)) {
        Err(
            FbinError::Truncated {
                num: word(b, 0),
                dim: word(b, 4),
                expected: file_size(header_num(b), header_dim(b)) as u128,
                actual: b.len() as usize,
            },
        )
    } else {
        Ok((file_rows(b), header_dim(b)))
    }
}

/// Reads the word at position `at`.
fn read_word(buf: &Vec<u8>, at: usize) -> (w: u32)
    requires
        at + 4 <= buf.len(),
    ensures
        w == word(buf@, at as int),
{
    buf[at] as u32 + 0x100 * (buf[at + 1] as u32) + 0x1_0000 * (buf[at + 2] as u32) + 0x100_0000 * (
    buf[at + 3] as u32)
}

/// Reads the vectors, and their dimension, from the bytes of a query file.
/// Bytes after the last vector are ignored.
pub fn read_fbin(buf: &Vec<u8>) -> (r: Result<(Vec<Vec<u32>>, usize), FbinError>)
    ensures
        r matches Ok((vectors, dim)) ==> file_contents(buf@) == Ok::<
            (Seq<Seq<u32>>, nat),
            FbinError,
        >((rows(vectors@), dim as nat)),
        r matches Err(e) ==> file_contents(buf@) == Err::<(Seq<Seq<u32>>, nat), FbinError>(e),
{
    if buf.len() < 8 {
        return Err(FbinError::TooSmall);
    }
    let num = read_word(buf, 0);
    let dim = read_word(buf, 4);
    assert(num * dim <= 0xffff_ffff * 0xffff_ffff) by (nonlinear_arith)
        requires
            0 <= num <= 0xffff_ffff,
            0 <= dim <= 0xffff_ffff,
    ;
    let expected: u128 = 8 + (num as u128) * (dim as u128) * 4;
    if (buf.len() as u128) < expected {
        return Err(FbinError::Truncated { num, dim, expected, actual: buf.len() });
    }
    let mut vectors: Vec<Vec<u32>> = Vec::new();
    let mut off: usize = 8;
    let mut row: u32 = 0;
    while row < num
        invariant
            row <= num,
            buf.len() >= 8 + num * dim * 4,
            num == header_num(buf@),
            dim == header_dim(buf@),
            off == element_at(dim as nat, row as int, 0),
            vectors.len() == row,
            forall|r: int| 0 <= r < row ==> (#[trigger] vectors@[r])@ == file_row(buf@, r),
        decreases num - row,
    {
        let mut v: Vec<u32> = Vec::new();
        let mut col: u32 = 0;
        while col < dim
            invariant
                row < num,
                col <= dim,
                buf.len() >= 8 + num * dim * 4,
                dim == header_dim(buf@),
                off == element_at(dim as nat, row as int, col as int),
                v.len() == col,
                forall|c: int|
                    0 <= c < col ==> v@[c] == word(buf@, element_at(dim as nat, row as int, c)),
            decreases dim - col,
        {
            assert(row * dim + col + 1 <= num * dim) by (nonlinear_arith)
                requires
                    0 <= row < num,
                    0 <= col < dim,
            ;
            v.push(read_word(buf, off));
            off += 4;
            col += 1;
        }
        assert(v@ =~= file_row(buf@, row as int));
        assert((row + 1) * dim == row * dim + dim) by (nonlinear_arith);
        vectors.push(v);
        row += 1;
    }
    assert(rows(vectors@) =~= file_rows(buf@));
    Ok((vectors, dim as usize))
}

impl FbinError {
    /// The error in words, for the file at `path`.
    pub open spec fn in_words(self, path: Seq<char>) -> Seq<char> {
        match self {
            FbinError::TooSmall => path + " is too small to be an fbin file"@,
            FbinError::Truncated { num, dim, expected, actual } => path + ": header says "@
                + decimal(num as nat) + "x"@ + decimal(dim as nat) + " ("@ + decimal(
                expected as nat,
            ) + " bytes) but file is "@ + decimal(actual as nat),
        }
    }

    /// The error in words, for the file at `path`.
    pub fn message(&self, path: &str) -> (s: String)
        ensures
            s@ == self.in_words(path@),
    {
        let mut s = path.to_owned();
        match self {
            FbinError::TooSmall => {
                s.append(" is too small to be an fbin file");
            },
            FbinError::Truncated { num, dim, expected, actual } => {
                s.append(": header says ");
                push_decimal(&mut s, *num as u128);
                s.append("x");
                push_decimal(&mut s, *dim as u128);
                s.append(" (");
                push_decimal(&mut s, *expected);
                s.append(" bytes) but file is ");
                push_decimal(&mut s, *actual as u128);
            },
        }
        s
    }
}

/// The four bytes of a word, the lowest first.
pub open spec fn word_bytes(w: u32) -> Seq<u8> {
    seq![
        (w % 0x100) as u8,
        (w / 0x100 % 0x100) as u8,
        (w / 0x1_0000 % 0x100) as u8,
        (w / 0x100_0000) as u8,
    ]
}

/// The bytes of the query file that holds `vectors`, each of `dim` elements.
pub open spec fn file_bytes(vectors: Seq<Seq<u32>>, dim: nat) -> Seq<u8> {
    word_bytes(vectors.len() as u32) + word_bytes(dim as u32) + Seq::new(
        vectors.len() * dim * 4,
        |i: int| word_bytes(vectors[i / 4 / dim as int][i / 4 % dim as int])[i % 4],
    )
}

proof fn lemma_word_of_its_bytes(b: Seq<u8>, at: int, w: u32)
    requires
        0 <= at,
        at + 4 <= b.len(),
        b[at] == word_bytes(w)[0],
        b[at + 1] == word_bytes(w)[1],
        b[at + 2] == word_bytes(w)[2],
        b[at + 3] == word_bytes(w)[3],
    ensures
        word(b, at) == w,
{
}

/// A query file gives back the vectors that were written to it, whatever
/// follows them.
pub proof fn written_file_is_read_back(vectors: Seq<Seq<u32>>, dim: nat, tail: Seq<u8>)
    requires
        vectors.len() <= u32::MAX,
        dim <= u32::MAX,
        forall|i: int| 0 <= i < vectors.len() ==> (#[trigger] vectors[i]).len() == dim,
    ensures
        file_contents(file_bytes(vectors, dim) + tail) == Ok::<(Seq<Seq<u32>>, nat), FbinError>(
            (vectors, dim),
        ),
{
    let b = file_bytes(vectors, dim) + tail;
    let num = vectors.len();
    lemma_word_of_its_bytes(b, 0, num as u32);
    lemma_word_of_its_bytes(b, 4, dim as u32);
    assert forall|row: int| 0 <= row < num implies file_row(b, row) == vectors[row] by {
        assert forall|col: int| 0 <= col < dim implies #[trigger] file_row(b, row)[col]
            == vectors[row][col] by {
            let i = row * dim + col;
            assert(0 <= i < num * dim) by (nonlinear_arith)
                requires
                    0 <= row < num,
                    0 <= col < dim,
                    i == row * dim + col,
            ;
            vstd::arithmetic::div_mod::lemma_fundamental_div_mod_converse(
                i,
                dim as int,
                row,
                col,
            );
            let at = element_at(dim, row, col);
            assert((4 * i) / 4 == i && (4 * i + 1) / 4 == i && (4 * i + 2) / 4 == i && (4 * i + 3)
                / 4 == i);
            lemma_word_of_its_bytes(b, at, vectors[row][col]);
        }
        assert(file_row(b, row) =~= vectors[row]);
    }
    assert(file_rows(b) =~= vectors);
}

/// A query file that is cut short anywhere is refused.
pub proof fn cut_file_is_refused(vectors: Seq<Seq<u32>>, dim: nat, n: int)
    requires
        vectors.len() <= u32::MAX,
        dim <= u32::MAX,
        0 <= n < file_bytes(vectors, dim).len(),
    ensures
        file_contents(file_bytes(vectors, dim).take(n)) is Err,
{
    let b = file_bytes(vectors, dim).take(n);
    if n >= 8 {
        lemma_word_of_its_bytes(b, 0, vectors.len() as u32);
        lemma_word_of_its_bytes(b, 4, dim as u32);
    }
}

/// A query file is taken just when it is as long as its header says, or longer.
/// It then gives as many vectors as the header says, each with as many elements
/// as the header says, and the elements are the words after the header, row by
/// row, the lowest byte of a word first.
pub proof fn query_files_hold_their_vectors(
    buf: Vec<u8>,
    r: Result<(Vec<Vec<u32>>, usize), FbinError>,
)
    requires
        call_ensures(read_fbin, (&buf,), r),
    ensures
        buf@.len() < 8 <==> r == Err::<(Vec<Vec<u32>>, usize), FbinError>(FbinError::TooSmall),
        buf@.len() >= 8 ==> {
            let num = buf@[0] + 0x100 * buf@[1] + 0x1_0000 * buf@[2] + 0x100_0000 * buf@[3];
            let dim = buf@[4] + 0x100 * buf@[5] + 0x1_0000 * buf@[6] + 0x100_0000 * buf@[7];
            &&& r is Ok <==> buf@.len() >= 8 + num * dim * 4
            &&& r matches Ok((vectors, d)) ==> {
                &&& d == dim
                &&& vectors@.len() == num
                &&& forall|row: int|
                    0 <= row < num ==> (#[trigger] vectors@[row])@.len() == dim
                &&& forall|row: int, col: int|
                    0 <= row < num && 0 <= col < dim ==> {
                        let at = 8 + (row * dim + col) * 4;
                        #[trigger] vectors@[row]@[col] == buf@[at] + 0x100 * buf@[at + 1] + 0x1_0000
                            * buf@[at + 2] + 0x100_0000 * buf@[at + 3]
                    }
            }
            &&& r matches Err(e) ==> e matches FbinError::Truncated { num: n, dim: d, expected, actual }
                && n == num && d == dim && expected == 8 + num * dim * 4 && actual == buf@.len()
        },
{
    if buf@.len() >= 8 {
        let b = buf@;
        let num = b[0] + 0x100 * b[1] + 0x1_0000 * b[2] + 0x100_0000 * b[3];
        let dim = b[4] + 0x100 * b[5] + 0x1_0000 * b[6] + 0x100_0000 * b[7];
        assert(num == header_num(b) && dim == header_dim(b));
        assert(0 <= num * dim <= 0xffff_ffff * 0xffff_ffff) by (nonlinear_arith)
            requires
                0 <= num <= 0xffff_ffff,
                0 <= dim <= 0xffff_ffff,
        ;
        assert(buf.len() == b.len());
        if let Ok((vectors, d)) = r {
            assert(rows(vectors@) == file_rows(b));
            assert(rows(vectors@).len() == file_rows(b).len());
            assert forall|row: int| 0 <= row < num implies (#[trigger] vectors@[row])@.len()
                == dim by {
                assert(rows(vectors@)[row] == file_rows(b)[row]);
            }
            assert forall|row: int, col: int| 0 <= row < num && 0 <= col < dim implies {
                let at = 8 + (row * dim + col) * 4;
                #[trigger] vectors@[row]@[col] == b[at] + 0x100 * b[at + 1] + 0x1_0000 * b[at
                    + 2] + 0x100_0000 * b[at + 3]
            } by {
                assert(rows(vectors@)[row] == file_rows(b)[row]);
                assert(file_rows(b)[row][col] == word(b, element_at(dim as nat, row, col)));
            }
        }
    }
}

/// What the user is told of a file that is refused: its path, and the sizes
/// where the header and the file do not agree on them.
pub proof fn refused_files_are_told_of(e: FbinError, path: &str, s: String)
    requires
        call_ensures(FbinError::message, (&e, path), s),
    ensures
        e is TooSmall ==> s@ == path@ + " is too small to be an fbin file"@,
        e matches FbinError::Truncated { num, dim, expected, actual } ==> s@ == path@
            + ": header says "@ + decimal(num as nat) + "x"@ + decimal(dim as nat) + " ("@ + decimal(
            expected as nat,
        ) + " bytes) but file is "@ + decimal(actual as nat),
{
}

} // verus!
