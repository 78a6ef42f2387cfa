//! CSV files with one value per line: where the lines are, and where the
//! field of the chosen column lies in each.

use vstd::prelude::*;

verus! {

/// Why a CSV file cannot be read.
#[derive(Debug, Clone, Copy, PartialEq, Eq, Structural)]
pub enum CsvError {
    /// A line has fewer fields than the number of the column asks for.
    MissingColumn,
}

/// A line of a file and one of its fields, as positions in the file.
#[derive(Debug, Clone, Copy, PartialEq, Eq, Structural)]
pub struct CsvRow {
    /// Position of the first byte of the line.
    pub line_start: usize,
    /// Position after the last byte of the line, without its line ending.
    pub line_end: usize,
    /// Position of the first byte of the field.
    pub start: usize,
    /// Position after the last byte of the field.
    pub end: usize,
}

/// First position from `lo` on, and before `hi`, at which `b` holds `c`; `hi`
/// where there is none.
pub open spec fn find_byte(b: Seq<u8>, lo: int, hi: int, c: u8) -> int
    decreases hi - lo,
{
    if lo >= hi {
        hi
    } else if b[lo] == c {
        lo
    } else {
        find_byte(b, lo + 1, hi, c)
    }
}

/// `find_byte` returns a position between its bounds.
pub proof fn lemma_find_byte(b: Seq<u8>, lo: int, hi: int, c: u8)
    requires
        lo <= hi,
    ensures
        lo <= find_byte(b, lo, hi, c) <= hi,
        find_byte(b, lo, hi, c) < hi ==> b[find_byte(b, lo, hi, c)] == c,
    decreases hi - lo,
{
    if lo < hi && b[lo] != c {
        lemma_find_byte(b, lo + 1, hi, c);
    }
}

/// Position of the line feed that ends the line that starts at `start`, or
/// the length of the file for a last line without one.
pub open spec fn line_feed(b: Seq<u8>, start: int) -> int {
    find_byte(b, start, b.len() as int, 0x0a)
}

/// End of the line that starts at `start`, without its line ending: a line
/// feed, or a carriage return and a line feed.
pub open spec fn line_end(b: Seq<u8>, start: int) -> int {
    let feed = line_feed(b, start);
    if start < feed < b.len() && b[feed - 1] == 0x0d {
        feed - 1
    } else {
        feed
    }
}

/// Start of the line after the one that starts at `start`.
pub open spec fn next_line(b: Seq<u8>, start: int) -> int {
    let feed = line_feed(b, start);
    if feed < b.len() {
        feed + 1
    } else {
        feed
    }
}

/// The field number `column`, from 0, of the fields that commas separate
/// in `b[lo..hi]`; `None` where there are fewer fields.
pub open spec fn field_of(b: Seq<u8>, lo: int, hi: int, column: nat) -> Option<(int, int)>
    decreases column,
{
    let comma = find_byte(b, lo, hi, 0x2c);
    if column == 0 {
        Some((lo, comma))
    } else if comma >= hi {
        None
    } else {
        field_of(b, comma + 1, hi, (column - 1) as nat)
    }
}

/// The rows `acc` followed by what `rest` holds.
pub open spec fn rows_then(acc: Seq<CsvRow>, rest: Result<Seq<CsvRow>, CsvError>) -> Result<
    Seq<CsvRow>,
    CsvError,
> {
    match rest {
        Ok(r) => Ok(acc + r),
        Err(e) => Err(e),
    }
}

/// The rows of the lines of `b` from the line that starts at `start` on,
/// without the first `skip` lines. A file ends with its last line feed, or
/// with a last line without one.
pub open spec fn rows_from(b: Seq<u8>, start: int, skip: nat, column: nat) -> Result<
    Seq<CsvRow>,
    CsvError,
>
    decreases b.len() - start,
    when 0 <= start <= b.len()
    via rows_from_decreases
{
    if start >= b.len() {
        Ok(Seq::empty())
    } else if skip > 0 {
        rows_from(b, next_line(b, start), (skip - 1) as nat, column)
    } else {
        match field_of(b, start, line_end(b, start), column) {
            None => Err(CsvError::MissingColumn),
            Some(f) => rows_then(
                seq![
                    CsvRow {
                        line_start: start as usize,
                        line_end: line_end(b, start) as usize,
                        start: f.0 as usize,
                        end: f.1 as usize,
                    },
                ],
                rows_from(b, next_line(b, start), 0, column),
            ),
        }
    }
}

#[via_fn]
proof fn rows_from_decreases(b: Seq<u8>, start: int, skip: nat, column: nat) {
    lemma_find_byte(b, start, b.len() as int, 0x0a);
}

fn find(b: &[u8], lo: usize, hi: usize, c: u8) -> (r: usize)
    requires
        lo <= hi <= b@.len(),
    ensures
        r == find_byte(b@, lo as int, hi as int, c),
        lo <= r <= hi,
{
    let mut i: usize = lo;
    while i < hi && b[i] != c
        invariant
            lo <= i <= hi <= b@.len(),
            find_byte(b@, lo as int, hi as int, c) == find_byte(b@, i as int, hi as int, c),
        decreases hi - i,
    {
        i += 1;
    }
    i
}

fn field(b: &[u8], lo: usize, hi: usize, column: usize) -> (r: Option<(usize, usize)>)
    requires
        lo <= hi <= b@.len(),
    ensures
        r.is_some() == field_of(b@, lo as int, hi as int, column as nat).is_some(),
        r.is_some() ==> r.unwrap().0 == field_of(b@, lo as int, hi as int, column as nat).unwrap().0
            && r.unwrap().1 == field_of(b@, lo as int, hi as int, column as nat).unwrap().1,
        r.is_some() ==> lo <= r.unwrap().0 <= r.unwrap().1 <= hi,
{
    let mut at: usize = lo;
    let mut left: usize = column;
    loop
        invariant
            lo <= at <= hi <= b@.len(),
            field_of(b@, lo as int, hi as int, column as nat) == field_of(
                b@,
                at as int,
                hi as int,
                left as nat,
            ),
        decreases left,
    {
        let comma = find(b, at, hi, 0x2c);
        if left == 0 {
            return Some((at, comma));
        }
        if comma >= hi {
            return None;
        }
        at = comma + 1;
        left -= 1;
    }
}

/// Finds the field of the column `column`, from 0, in each line of `data`
/// but the first `skip` lines. Fails where a line has too few fields.
pub fn csv_rows(data: &[u8], skip: usize, column: usize) -> (r: Result<Vec<CsvRow>, CsvError>)
    ensures
        r.is_ok() == rows_from(data@, 0, skip as nat, column as nat).is_ok(),
        r.is_ok() ==> Ok::<Seq<CsvRow>, CsvError>(r.unwrap()@) == rows_from(
            data@,
            0,
            skip as nat,
            column as nat,
        ),
        r.is_err() ==> Err::<Seq<CsvRow>, CsvError>(r.unwrap_err()) == rows_from(
            data@,
            0,
            skip as nat,
            column as nat,
        ),
{
    let len = data.len();
    let mut rows: Vec<CsvRow> = Vec::new();
    let mut start: usize = 0;
    let mut left: usize = skip;
    while start < len
        invariant
            len == data@.len(),
            start <= len,
            rows_from(data@, 0, skip as nat, column as nat) == rows_then(
                rows@,
                rows_from(data@, start as int, left as nat, column as nat),
            ),
        decreases len - start,
    {
        let feed = find(data, start, len, 0x0a);
        let next: usize = if feed < len {
            feed + 1
        } else {
            feed
        };
        if left > 0 {
            left -= 1;
        } else {
            let end: usize = if start < feed && feed < len && data[feed - 1] == 0x0d {
                feed - 1
            } else {
                feed
            };
            let ghost before = rows@;
            match field(data, start, end, column) {
                Some((a, b)) => {
                    let row = CsvRow { line_start: start, line_end: end, start: a, end: b };
                    rows.push(row);
                    proof {
                        let rest = rows_from(data@, next as int, 0, column as nat);
                        match rest {
                            Ok(t) => {
                                assert(before + (seq![row] + t) =~= rows@ + t);
                            },
                            Err(_) => {},
                        }
                    }
                },
                None => {
                    return Err(CsvError::MissingColumn);
                },
            }
        }
        start = next;
    }
    proof {
        assert(rows@ + Seq::<CsvRow>::empty() =~= rows@);
    }
    Ok(rows)
}

} // verus!
