pub mod csv;
pub mod tek_wfm;

use vstd::prelude::*;
use vstd::string::StringSliceAdditionalSpecFns;

verus! {

/// Trace formats that can be loaded.
#[derive(Debug, Clone, Copy, PartialEq, Eq, Structural)]
pub enum TraceFormat {
    Numpy,
    Csv,
    TekWfm,
}

/// The byte `b` with an upper-case ASCII letter turned into lower case.
pub open spec fn ascii_lower(b: u8) -> u8 {
    if 0x41 <= b <= 0x5a {
        (b + 0x20) as u8
    } else {
        b
    }
}

/// True when `ext` is the three bytes `a`, `b`, `c`, whatever the case of its
/// letters.
pub open spec fn is_extension(ext: Seq<u8>, a: u8, b: u8, c: u8) -> bool {
    &&& ext.len() == 3
    &&& ascii_lower(ext[0]) == a
    &&& ascii_lower(ext[1]) == b
    &&& ascii_lower(ext[2]) == c
}

/// The format that a file extension stands for: `npy`, `csv` or `wfm`, in any
/// case.
pub open spec fn format_of_extension(ext: Seq<u8>) -> Option<TraceFormat> {
    if is_extension(ext, 0x6e, 0x70, 0x79) {
        Some(TraceFormat::Numpy)
    } else if is_extension(ext, 0x63, 0x73, 0x76) {
        Some(TraceFormat::Csv)
    } else if is_extension(ext, 0x77, 0x66, 0x6d) {
        Some(TraceFormat::TekWfm)
    } else {
        None
    }
}

fn lower(b: u8) -> (r: u8)
    ensures
        r == ascii_lower(b),
{
    if 0x41 <= b && b <= 0x5a {
        b + 0x20
    } else {
        b
    }
}

impl TraceFormat {
    /// The format that the file extension `ext` stands for, if any.
    pub fn from_extension(ext: &[u8]) -> (r: Option<TraceFormat>)
        ensures
            r == format_of_extension(ext@),
    {
        if ext.len() != 3 {
            return None;
        }
        let a = lower(ext[0]);
        let b = lower(ext[1]);
        let c = lower(ext[2]);
        if a == 0x6e && b == 0x70 && c == 0x79 {
            Some(TraceFormat::Numpy)
        } else if a == 0x63 && b == 0x73 && c == 0x76 {
            Some(TraceFormat::Csv)
        } else if a == 0x77 && b == 0x66 && c == 0x6d {
            Some(TraceFormat::TekWfm)
        } else {
            None
        }
    }
}

/// True when `ext` stands in `bytes` directly behind the dot at position
/// `dot`, and holds no dot itself.
pub open spec fn follows_dot(bytes: Seq<u8>, dot: int, ext: Seq<u8>) -> bool {
    &&& 0 <= dot < bytes.len()
    &&& bytes[dot] == 0x2e
    &&& dot + 1 + ext.len() <= bytes.len()
    &&& bytes.subrange(dot + 1, dot + 1 + ext.len()) == ext
    &&& forall|j: int| 0 <= j < ext.len() ==> ext[j] != 0x2e
}

/// True when the three bytes behind the dot at position `dot` of `bytes`
/// are an extension of `format`.
pub open spec fn names_format(bytes: Seq<u8>, dot: int, format: TraceFormat) -> bool {
    &&& 0 <= dot < bytes.len()
    &&& bytes[dot] == 0x2e
    &&& dot + 4 <= bytes.len()
    &&& format_of_extension(bytes.subrange(dot + 1, dot + 4)) == Some(format)
}

/// Calls `std::path::Path::extension` on `path`.
///
/// The extension is the part of the last component of the path behind its
/// final dot. What splits a path into components is a matter of the
/// platform, so the contract claims only that the bytes that come back stand
/// in the path behind a dot and hold none; it does not say when there are
/// any.
#[verifier::external_body]
fn path_extension(path: &str) -> (r: Option<Vec<u8>>)
    ensures
        r matches Some(ext) ==> exists|dot: int| follows_dot(path.spec_bytes(), dot, ext@),
{
    std::path::Path::new(path).extension().map(|e| e.as_encoded_bytes().to_vec())
}

/// Guesses the format of a trace file from the extension of its path.
///
/// A format is returned only where the path holds a dot with an extension
/// of that format behind it: `npy`, `csv` or `wfm`, in any case. Which part
/// of a path is its extension is decided by the platform's rules for paths,
/// so nothing is promised of the paths that do hold one: the format of the
/// extension that the platform finds is [`TraceFormat::from_extension`] of
/// its bytes.
pub fn guess_format(path: &str) -> (r: Option<TraceFormat>)
    ensures
        r matches Some(format) ==> exists|dot: int|
            names_format(path.spec_bytes(), dot, format),
        (forall|i: int| 0 <= i < path.spec_bytes().len() ==> path.spec_bytes()[i] != 0x2e)
            ==> r.is_none(),
        path.spec_bytes().len() < 4 ==> r.is_none(),
{
    match path_extension(path) {
        Some(ext) => {
            let r = TraceFormat::from_extension(ext.as_slice());
            proof {
                if r.is_some() {
                    let dot = choose|dot: int| follows_dot(path.spec_bytes(), dot, ext@);
                    assert(ext@.len() == 3);
                    assert(names_format(path.spec_bytes(), dot, r.unwrap()));
                }
            }
            r
        },
        None => None,
    }
}

/// Cuts the values of a two-dimensional array, stored row by row, into its
/// rows of `columns` values each. Values after the last full row are left
/// out.
pub fn split_rows<T: Copy>(flat: &Vec<T>, columns: usize) -> (rows: Vec<Vec<T>>)
    requires
        columns > 0,
    ensures
        rows@.len() == (flat@.len() as int) / (columns as int),
        forall|k: int|
            0 <= k < rows@.len() ==> (#[trigger] rows@[k])@ == flat@.subrange(
                k * columns,
                k * columns + columns,
            ),
{
    let len: usize = flat.len();
    let count: usize = len / columns;
    proof {
        vstd::arithmetic::div_mod::lemma_fundamental_div_mod(flat@.len() as int, columns as int);
        vstd::arithmetic::div_mod::lemma_mod_bound(flat@.len() as int, columns as int);
    }
    let mut rows: Vec<Vec<T>> = Vec::new();
    let mut k: usize = 0;
    while k < count
        invariant
            k <= count,
            columns > 0,
            count == (flat@.len() as int) / (columns as int),
            columns * count <= flat@.len(),
            flat@.len() == len,
            rows@.len() == k,
            forall|j: int|
                0 <= j < k ==> (#[trigger] rows@[j])@ == flat@.subrange(
                    j * columns,
                    j * columns + columns,
                ),
        decreases count - k,
    {
        assert(0 <= k * columns && k * columns + columns <= columns * count) by (nonlinear_arith)
            requires
                0 <= k < count,
                columns > 0,
        ;
        let start: usize = k * columns;
        let mut row: Vec<T> = Vec::new();
        let mut i: usize = 0;
        while i < columns
            invariant
                i <= columns,
                flat@.len() == len,
                start + columns <= flat@.len(),
                row@ == flat@.subrange(start as int, start + i),
            decreases columns - i,
        {
            row.push(flat[start + i]);
            assert(flat@.subrange(start as int, start + i + 1) =~= flat@.subrange(
                start as int,
                start + i,
            ).push(flat@[start + i]));
            i += 1;
        }
        rows.push(row);
        k += 1;
    }
    rows
}

} // verus!
