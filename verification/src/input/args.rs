use vstd::prelude::*;
use vstd::string::StrSliceExecFns;

verus! {

/// Why a frame selection cannot be read.
#[derive(Debug, Clone, Copy, PartialEq, Eq, Structural)]
pub enum FrameSelectionError {
    /// An item without `-` is not a number.
    InvalidIndex,
    /// What stands before the `-` of a range is not a number.
    InvalidRangeStart,
    /// What stands after the `-` of a range is not a number.
    InvalidRangeEnd,
    /// A range ends before it starts.
    InvertedRange,
}

/// White space, as `char::is_whitespace` has it.
pub open spec fn is_space(c: char) -> bool {
    let u = c as u32;
    (9 <= u <= 13) || u == 0x20 || u == 0x85 || u == 0xa0 || u == 0x1680 || (0x2000 <= u <= 0x200a)
        || u == 0x2028 || u == 0x2029 || u == 0x202f || u == 0x205f || u == 0x3000
}

/// A decimal digit.
pub open spec fn is_digit(c: char) -> bool {
    0x30 <= c as u32 <= 0x39
}

/// First position from `lo` on, and before `hi`, at which `s` holds `c`; `hi`
/// where there is none.
pub open spec fn find_char(s: Seq<char>, lo: int, hi: int, c: char) -> int
    decreases hi - lo,
{
    if lo >= hi {
        hi
    } else if s[lo] == c {
        lo
    } else {
        find_char(s, lo + 1, hi, c)
    }
}

/// Start of `s[lo..hi]` without the white space that it begins with.
pub open spec fn trim_start(s: Seq<char>, lo: int, hi: int) -> int
    decreases hi - lo,
{
    if lo < hi && is_space(s[lo]) {
        trim_start(s, lo + 1, hi)
    } else {
        lo
    }
}

/// End of `s[lo..hi]` without the white space that it ends with.
pub open spec fn trim_end(s: Seq<char>, lo: int, hi: int) -> int
    decreases hi - lo,
{
    if lo < hi && is_space(s[hi - 1]) {
        trim_end(s, lo, hi - 1)
    } else {
        hi
    }
}

/// Value of the decimal digits `s[lo..hi]`.
pub open spec fn digits_value(s: Seq<char>, lo: int, hi: int) -> int
    decreases hi - lo,
{
    if lo >= hi {
        0
    } else {
        digits_value(s, lo, hi - 1) * 10 + (s[hi - 1] as u32 - 0x30)
    }
}

/// True when `s[lo..hi]` holds digits only.
pub open spec fn all_digits(s: Seq<char>, lo: int, hi: int) -> bool {
    forall|i: int| lo <= i < hi ==> is_digit(#[trigger] s[i])
}

/// The number that `s[lo..hi]` spells: an optional `+`, then at least one
/// digit, with a value that fits in a `usize`.
pub open spec fn number_of(s: Seq<char>, lo: int, hi: int) -> Option<usize> {
    let first = if lo < hi && s[lo] == '+' {
        lo + 1
    } else {
        lo
    };
    if first < hi && all_digits(s, first, hi) && digits_value(s, first, hi) <= usize::MAX {
        Some(digits_value(s, first, hi) as usize)
    } else {
        None
    }
}

/// The number that `s[lo..hi]` spells between white space.
pub open spec fn trimmed_number(s: Seq<char>, lo: int, hi: int) -> Option<usize> {
    number_of(s, trim_start(s, lo, hi), trim_end(s, trim_start(s, lo, hi), hi))
}

/// The frames that the item `s[lo..hi]` names, as a first and a last frame.
/// An item is a number, or two numbers around the first `-`; white space
/// around the item and around the numbers of a range does not count.
pub open spec fn item_of(s: Seq<char>, lo: int, hi: int) -> Result<
    (usize, usize),
    FrameSelectionError,
> {
    let a = trim_start(s, lo, hi);
    let b = trim_end(s, a, hi);
    let d = find_char(s, a, b, '-');
    if d < b {
        match (trimmed_number(s, a, d), trimmed_number(s, d + 1, b)) {
            (None, _) => Err(FrameSelectionError::InvalidRangeStart),
            (Some(_), None) => Err(FrameSelectionError::InvalidRangeEnd),
            (Some(x), Some(y)) => if x <= y {
                Ok((x, y))
            } else {
                Err(FrameSelectionError::InvertedRange)
            },
        }
    } else {
        match number_of(s, a, b) {
            Some(x) => Ok((x, x)),
            None => Err(FrameSelectionError::InvalidIndex),
        }
    }
}

/// The ranges `acc` followed by what `rest` holds.
pub open spec fn followed_by(
    acc: Seq<(usize, usize)>,
    rest: Result<Seq<(usize, usize)>, FrameSelectionError>,
) -> Result<Seq<(usize, usize)>, FrameSelectionError> {
    match rest {
        Ok(r) => Ok(acc + r),
        Err(e) => Err(e),
    }
}

/// The ranges that the items of `s` from `start` on name, in their order; the
/// error of the first item that names none. Items are separated by commas.
pub open spec fn selection_from(s: Seq<char>, start: int) -> Result<
    Seq<(usize, usize)>,
    FrameSelectionError,
>
    decreases s.len() - start,
    when 0 <= start <= s.len()
    via selection_from_decreases
{
    let c = find_char(s, start, s.len() as int, ',');
    match item_of(s, start, c) {
        Err(e) => Err(e),
        Ok(r) => if c >= s.len() {
            Ok(seq![r])
        } else {
            followed_by(seq![r], selection_from(s, c + 1))
        },
    }
}

#[via_fn]
proof fn selection_from_decreases(s: Seq<char>, start: int) {
    lemma_find_char(s, start, s.len() as int, ',');
}

/// `find_char` returns a position between its bounds, the first one that
/// holds the character.
pub proof fn lemma_find_char(s: Seq<char>, lo: int, hi: int, c: char)
    requires
        lo <= hi,
    ensures
        lo <= find_char(s, lo, hi, c) <= hi,
        find_char(s, lo, hi, c) < hi ==> s[find_char(s, lo, hi, c)] == c,
        forall|i: int| lo <= i < find_char(s, lo, hi, c) ==> s[i] != c,
    decreases hi - lo,
{
    if lo < hi && s[lo] != c {
        lemma_find_char(s, lo + 1, hi, c);
    }
}

/// The frames that a selection names: the text read as items from its start.
pub open spec fn selection_of(s: Seq<char>) -> Result<Seq<(usize, usize)>, FrameSelectionError> {
    selection_from(s, 0)
}

/// True when one of the ranges holds the frame `i`.
pub open spec fn selects(ranges: Seq<(usize, usize)>, i: int) -> bool {
    exists|k: int| 0 <= k < ranges.len() && (#[trigger] ranges[k]).0 <= i <= ranges[k].1
}

/// The frames to load, as ranges of frames.
#[derive(Debug)]
pub struct FrameSelection {
    pub ranges: Vec<(usize, usize)>,
}

impl FrameSelection {
    /// True when the frame `i` is selected.
    pub fn contains(&self, i: usize) -> (b: bool)
        ensures
            b == selects(self.ranges@, i as int),
    {
        let mut k: usize = 0;
        while k < self.ranges.len()
            invariant
                k <= self.ranges@.len(),
                forall|j: int|
                    0 <= j < k ==> !((#[trigger] self.ranges@[j]).0 <= i <= self.ranges@[j].1),
            decreases self.ranges@.len() - k,
        {
            let r = self.ranges[k];
            if r.0 <= i && i <= r.1 {
                return true;
            }
            k += 1;
        }
        false
    }
}

fn space(c: char) -> (b: bool)
    ensures
        b == is_space(c),
{
    let u: u32 = c as u32;
    (9 <= u && u <= 13) || u == 0x20 || u == 0x85 || u == 0xa0 || u == 0x1680 || (0x2000 <= u && u
        <= 0x200a) || u == 0x2028 || u == 0x2029 || u == 0x202f || u == 0x205f || u == 0x3000
}

/// The characters of `s`.
fn chars_of(s: &str) -> (v: Vec<char>)
    ensures
        v@ == s@,
{
    let n = s.unicode_len();
    let mut v: Vec<char> = Vec::new();
    let mut i: usize = 0;
    while i < n
        invariant
            i <= n,
            n == s@.len(),
            v@ == s@.take(i as int),
        decreases n - i,
    {
        v.push(s.get_char(i));
        assert(s@.take(i + 1) =~= s@.take(i as int).push(s@[i as int]));
        i += 1;
    }
    assert(s@.take(n as int) =~= s@);
    v
}

fn find(s: &Vec<char>, lo: usize, hi: usize, c: char) -> (r: usize)
    requires
        lo <= hi <= s@.len(),
    ensures
        r == find_char(s@, lo as int, hi as int, c),
        lo <= r <= hi,
{
    let mut i: usize = lo;
    while i < hi && s[i] != c
        invariant
            lo <= i <= hi <= s@.len(),
            find_char(s@, lo as int, hi as int, c) == find_char(s@, i as int, hi as int, c),
        decreases hi - i,
    {
        i += 1;
    }
    i
}

fn skip_spaces(s: &Vec<char>, lo: usize, hi: usize) -> (r: usize)
    requires
        lo <= hi <= s@.len(),
    ensures
        r == trim_start(s@, lo as int, hi as int),
        lo <= r <= hi,
{
    let mut i: usize = lo;
    while i < hi && space(s[i])
        invariant
            lo <= i <= hi <= s@.len(),
            trim_start(s@, lo as int, hi as int) == trim_start(s@, i as int, hi as int),
        decreases hi - i,
    {
        i += 1;
    }
    i
}

fn drop_spaces(s: &Vec<char>, lo: usize, hi: usize) -> (r: usize)
    requires
        lo <= hi <= s@.len(),
    ensures
        r == trim_end(s@, lo as int, hi as int),
        lo <= r <= hi,
{
    let mut i: usize = hi;
    while lo < i && space(s[i - 1])
        invariant
            lo <= i <= hi <= s@.len(),
            trim_end(s@, lo as int, hi as int) == trim_end(s@, lo as int, i as int),
        decreases i - lo,
    {
        i -= 1;
    }
    i
}

/// The value of digits is never negative.
proof fn lemma_digits_nonneg(s: Seq<char>, lo: int, hi: int)
    requires
        0 <= lo,
        hi <= s.len(),
        all_digits(s, lo, hi),
    ensures
        0 <= digits_value(s, lo, hi),
    decreases hi - lo,
{
    if lo < hi {
        lemma_digits_nonneg(s, lo, hi - 1);
        assert(is_digit(s[hi - 1]));
    }
}

/// The value of digits grows with every digit.
proof fn lemma_digits_grow(s: Seq<char>, lo: int, mid: int, hi: int)
    requires
        0 <= lo <= mid <= hi <= s.len(),
        all_digits(s, lo, hi),
    ensures
        0 <= digits_value(s, lo, mid) <= digits_value(s, lo, hi),
    decreases hi - mid,
{
    lemma_digits_nonneg(s, lo, mid);
    if mid < hi {
        lemma_digits_grow(s, lo, mid, hi - 1);
        assert(is_digit(s[hi - 1]));
    }
}

fn number(s: &Vec<char>, lo: usize, hi: usize) -> (r: Option<usize>)
    requires
        lo <= hi <= s@.len(),
    ensures
        r == number_of(s@, lo as int, hi as int),
{
    let first: usize = if lo < hi && s[lo] == '+' {
        lo + 1
    } else {
        lo
    };
    if first >= hi {
        return None;
    }
    let mut value: usize = 0;
    let mut i: usize = first;
    while i < hi
        invariant
            lo <= first <= i <= hi <= s@.len(),
            first < hi,
            first == if lo < hi && s@[lo as int] == '+' {
                lo + 1
            } else {
                lo as int
            },
            all_digits(s@, first as int, i as int),
            value == digits_value(s@, first as int, i as int),
        decreases hi - i,
    {
        let u: u32 = s[i] as u32;
        if u < 0x30 || u > 0x39 {
            assert(!is_digit(s@[i as int]));
            return None;
        }
        let digit: usize = (u - 0x30) as usize;
        let next = match value.checked_mul(10) {
            Some(v) => v.checked_add(digit),
            None => None,
        };
        match next {
            Some(v) => {
                value = v;
            },
            None => {
                proof {
                    assert(digits_value(s@, first as int, i + 1) > usize::MAX);
                    if all_digits(s@, first as int, hi as int) {
                        lemma_digits_grow(s@, first as int, i + 1, hi as int);
                    }
                }
                return None;
            },
        }
        i += 1;
    }
    Some(value)
}

fn trimmed(s: &Vec<char>, lo: usize, hi: usize) -> (r: Option<usize>)
    requires
        lo <= hi <= s@.len(),
    ensures
        r == trimmed_number(s@, lo as int, hi as int),
{
    let a = skip_spaces(s, lo, hi);
    let b = drop_spaces(s, a, hi);
    number(s, a, b)
}

fn item(s: &Vec<char>, lo: usize, hi: usize) -> (r: Result<(usize, usize), FrameSelectionError>)
    requires
        lo <= hi <= s@.len(),
    ensures
        r == item_of(s@, lo as int, hi as int),
{
    let a = skip_spaces(s, lo, hi);
    let b = drop_spaces(s, a, hi);
    let d = find(s, a, b, '-');
    if d < b {
        let x = match trimmed(s, a, d) {
            Some(x) => x,
            None => {
                return Err(FrameSelectionError::InvalidRangeStart);
            },
        };
        let y = match trimmed(s, d + 1, b) {
            Some(y) => y,
            None => {
                return Err(FrameSelectionError::InvalidRangeEnd);
            },
        };
        if x <= y {
            Ok((x, y))
        } else {
            Err(FrameSelectionError::InvertedRange)
        }
    } else {
        match number(s, a, b) {
            Some(x) => Ok((x, x)),
            None => Err(FrameSelectionError::InvalidIndex),
        }
    }
}

/// Reads a selection of frames such as `1-3,6,7-8,12`: numbers and ranges of
/// numbers, separated by commas.
pub fn parse_frame_selection(spec: &str) -> (r: Result<FrameSelection, FrameSelectionError>)
    ensures
        r.is_ok() == selection_of(spec@).is_ok(),
        r.is_ok() ==> Ok::<Seq<(usize, usize)>, FrameSelectionError>(r.unwrap().ranges@)
            == selection_of(spec@),
        r.is_err() ==> Err::<Seq<(usize, usize)>, FrameSelectionError>(r.unwrap_err())
            == selection_of(spec@),
{
    let s = chars_of(spec);
    let n = s.len();
    let mut ranges: Vec<(usize, usize)> = Vec::new();
    let mut pos: usize = 0;
    loop
        invariant
            n == s@.len(),
            s@ == spec@,
            pos <= n,
            selection_of(spec@) == followed_by(ranges@, selection_from(s@, pos as int)),
        decreases n - pos,
    {
        let c = find(&s, pos, n, ',');
        let ghost before = ranges@;
        match item(&s, pos, c) {
            Ok(r) => {
                ranges.push(r);
                if c >= n {
                    assert(before + seq![r] =~= ranges@);
                    return Ok(FrameSelection { ranges });
                }
                proof {
                    let rest = selection_from(s@, c + 1);
                    match rest {
                        Ok(t) => {
                            assert(before + (seq![r] + t) =~= ranges@ + t);
                        },
                        Err(_) => {},
                    }
                }
                pos = c + 1;
            },
            Err(e) => {
                return Err(e);
            },
        }
    }
}

} // verus!
