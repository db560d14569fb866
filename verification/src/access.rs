//! The bounds-checked accessor: parse an index out of user-supplied text and
//! retrieve the element it names from a fixed collection, rejecting
//! unparsable text and out-of-range indices with typed errors before any
//! element is touched.

use vstd::prelude::*;

verus! {

use crate::Error;

/// A whitespace character (the Unicode `White_Space` set), removed by
/// trimming.
pub open spec fn is_space(c: char) -> bool {
    let v: int = c as int;
    v == 0x20 || (0x09 <= v && v <= 0x0D) || v == 0x85 || v == 0xA0 || v == 0x1680 || (0x2000 <= v
        && v <= 0x200A) || v == 0x2028 || v == 0x2029 || v == 0x202F || v == 0x205F || v == 0x3000
}

/// A decimal digit.
pub open spec fn is_digit(c: char) -> bool {
    '0' as int <= c as int && c as int <= '9' as int
}

/// The numeric value of a decimal digit.
pub open spec fn digit_value(c: char) -> nat {
    (c as int - '0' as int) as nat
}

/// Every character of `s` is a decimal digit.
pub open spec fn all_digits(s: Seq<char>) -> bool {
    forall|i: int| 0 <= i < s.len() ==> is_digit(s[i])
}

/// The number denoted by a sequence of decimal digits, most significant
/// digit first.
pub open spec fn digits_value(s: Seq<char>) -> nat
    decreases s.len(),
{
    if s.len() == 0 {
        0
    } else {
        digits_value(s.drop_last()) * 10 + digit_value(s.last())
    }
}

/// `s` with every leading and trailing whitespace character removed.
pub open spec fn trim_spec(s: Seq<char>) -> Seq<char>
    decreases s.len(),
{
    if s.len() == 0 {
        s
    } else if is_space(s.first()) {
        trim_spec(s.drop_first())
    } else if is_space(s.last()) {
        trim_spec(s.drop_last())
    } else {
        s
    }
}

/// The index text is accepted: once trimmed it is non-empty, all decimal
/// digits, and denotes a number no larger than `usize::MAX`.
pub open spec fn parses(s: Seq<char>) -> bool {
    trim_spec(s).len() > 0 && all_digits(trim_spec(s)) && digits_value(trim_spec(s)) <= usize::MAX
}

/// The index the text denotes (meaningful when `parses(s)` holds).
pub open spec fn parsed_index(s: Seq<char>) -> nat {
    digits_value(trim_spec(s))
}

/// What `parse_index` returns: the denoted index when the text is accepted,
/// and a parse error otherwise.
pub open spec fn parse_result(s: Seq<char>) -> Result<usize, Error> {
    if parses(s) {
        Ok(parsed_index(s) as usize)
    } else {
        Err(Error::ParseError)
    }
}

/// What `access` returns: the element at the denoted index, a parse error
/// when the text is rejected, and a range error naming the index and the
/// collection's length when the index is too large.
pub open spec fn access_result(collection: Seq<i32>, raw: Seq<char>) -> Result<i32, Error> {
    if !parses(raw) {
        Err(Error::ParseError)
    } else if parsed_index(raw) >= collection.len() {
        Err(
            Error::IndexOutOfRange {
                index: parsed_index(raw) as usize,
                len: collection.len() as usize,
            },
        )
    } else {
        Ok(collection[parsed_index(raw) as int])
    }
}

/// Whether `c` is whitespace, matching `is_space`.
fn is_space_char(c: char) -> (r: bool)
    ensures
        r == is_space(c),
{
    let v: u32 = c as u32;
    v == 0x20 || (0x09 <= v && v <= 0x0D) || v == 0x85 || v == 0xA0 || v == 0x1680 || (0x2000 <= v
        && v <= 0x200A) || v == 0x2028 || v == 0x2029 || v == 0x202F || v == 0x205F || v == 0x3000
}

/// Trimming ignores a prefix of whitespace: dropping any number of leading
/// whitespace characters leaves the trimmed text unchanged.
proof fn lemma_trim_skip_front(s: Seq<char>, i: int)
    requires
        0 <= i <= s.len(),
        forall|k: int| 0 <= k < i ==> is_space(s[k]),
    ensures
        trim_spec(s) == trim_spec(s.skip(i)),
    decreases i,
{
    if i == 0 {
        assert(s.skip(0) =~= s);
    } else {
        assert(s.drop_first() =~= s.skip(1));
        lemma_trim_skip_front(s.drop_first(), i - 1);
        assert(s.drop_first().skip(i - 1) =~= s.skip(i));
    }
}

/// Trimming ignores a suffix of whitespace: once the first character is not
/// whitespace, dropping any number of trailing whitespace characters leaves
/// the trimmed text unchanged.
proof fn lemma_trim_take_back(s: Seq<char>, j: int)
    requires
        1 <= j <= s.len(),
        !is_space(s[0]),
        forall|k: int| j <= k < s.len() ==> is_space(s[k]),
    ensures
        trim_spec(s) == trim_spec(s.take(j)),
    decreases s.len() - j,
{
    if j == s.len() {
        assert(s.take(j) =~= s);
    } else {
        assert(s.drop_last() =~= s.take(s.len() - 1));
        lemma_trim_take_back(s.drop_last(), j);
        assert(s.drop_last().take(j) =~= s.take(j));
    }
}

/// A text that neither starts nor ends with whitespace is its own trim.
proof fn lemma_trim_exact(s: Seq<char>)
    requires
        s.len() > 0 ==> !is_space(s[0]) && !is_space(s[s.len() - 1]),
    ensures
        trim_spec(s) == s,
{
}

/// The number denoted by a prefix of a digit text never exceeds the number
/// denoted by a longer prefix.
proof fn lemma_digits_value_take_le(s: Seq<char>, i: int, j: int)
    requires
        0 <= i <= j <= s.len(),
    ensures
        digits_value(s.take(i)) <= digits_value(s.take(j)),
    decreases j - i,
{
    if i < j {
        lemma_digits_value_take_le(s, i, j - 1);
        assert(s.take(j).drop_last() =~= s.take(j - 1));
    }
}

/// Parses `raw` as a `usize` index: trims surrounding whitespace, then reads
/// decimal digits. Returns `Error::ParseError` exactly when the trimmed text
/// is empty, holds a non-digit character, or denotes a number larger than
/// `usize::MAX`.
pub fn parse_index(raw: &str) -> (r: Result<usize, Error>)
    ensures
        r == parse_result(raw@),
{
    let n: usize = raw.unicode_len();
    let mut start: usize = 0;
    loop
        invariant
            n == raw@.len(),
            start <= n,
            forall|k: int| 0 <= k < start ==> is_space(raw@[k]),
        ensures
            n == raw@.len(),
            start <= n,
            forall|k: int| 0 <= k < start ==> is_space(raw@[k]),
            start < n ==> !is_space(raw@[start as int]),
        decreases n - start,
    {
        if start == n {
            break ;
        }
        if !is_space_char(raw.get_char(start)) {
            break ;
        }
        start = start + 1;
    }
    if start == n {
        proof {
            lemma_trim_skip_front(raw@, n as int);
            assert(raw@.skip(n as int) =~= Seq::<char>::empty());
        }
        return Err(Error::ParseError);
    }
    let mut end: usize = n;
    loop
        invariant
            n == raw@.len(),
            start < end <= n,
            !is_space(raw@[start as int]),
            forall|k: int| end <= k < n ==> is_space(raw@[k]),
        ensures
            n == raw@.len(),
            start < end <= n,
            !is_space(raw@[start as int]),
            forall|k: int| end <= k < n ==> is_space(raw@[k]),
            !is_space(raw@[end - 1]),
        decreases end,
    {
        if !is_space_char(raw.get_char(end - 1)) {
            break ;
        }
        end = end - 1;
    }
    let trimmed = raw.substring_char(start, end);
    proof {
        lemma_trim_skip_front(raw@, start as int);
        lemma_trim_take_back(raw@.skip(start as int), end - start);
        assert(raw@.skip(start as int).take(end - start) =~= raw@.subrange(
            start as int,
            end as int,
        ));
        lemma_trim_exact(raw@.subrange(start as int, end as int));
    }
    let m: usize = end - start;
    let mut i: usize = 0;
    let mut acc: usize = 0;
    while i < m
        invariant
            m == trimmed@.len(),
            trimmed@ == trim_spec(raw@),
            i <= m,
            all_digits(trimmed@.take(i as int)),
            acc == digits_value(trimmed@.take(i as int)),
        decreases m - i,
    {
        let c: char = trimmed.get_char(i);
        let v: u32 = c as u32;
        if v < 0x30 || v > 0x39 {
            proof {
                assert(!is_digit(trimmed@[i as int]));
            }
            return Err(Error::ParseError);
        }
        let d: usize = (v - 0x30) as usize;
        proof {
            assert(trimmed@.take(i + 1).drop_last() =~= trimmed@.take(i as int));
            assert(trimmed@.take(i + 1).last() == trimmed@[i as int]);
        }
        let next: usize = match acc.checked_mul(10) {
            Some(acc10) => {
                match acc10.checked_add(d) {
                    Some(x) => x,
                    None => {
                        proof {
                            lemma_digits_value_take_le(trimmed@, i + 1, m as int);
                            assert(trimmed@.take(m as int) =~= trimmed@);
                        }
                        return Err(Error::ParseError);
                    },
                }
            },
            None => {
                proof {
                    lemma_digits_value_take_le(trimmed@, i + 1, m as int);
                    assert(trimmed@.take(m as int) =~= trimmed@);
                }
                return Err(Error::ParseError);
            },
        };
        acc = next;
        i = i + 1;
    }
    proof {
        assert(trimmed@.take(m as int) =~= trimmed@);
    }
    Ok(acc)
}

/// Retrieves the element of `collection` named by the index text `raw`:
/// parses the index, validates it against the collection's length, and only
/// then reads the element. Fails with `Error::ParseError` exactly when the
/// text is rejected, and with `Error::IndexOutOfRange` naming the index and
/// the length exactly when the parsed index is not below the length.
pub fn access(collection: &[i32], raw: &str) -> (r: Result<i32, Error>)
    ensures
        r == access_result(collection@, raw@),
{
    let index: usize = match parse_index(raw) {
        Ok(i) => i,
        Err(e) => {
            return Err(e);
        },
    };
    let len: usize = collection.len();
    if index >= len {
        Err(Error::IndexOutOfRange { index: index, len: len })
    } else {
        Ok(collection[index])
    }
}

} // verus!
