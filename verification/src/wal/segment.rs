//! Segment files: how they are named and numbered.
//!
//! A segment is called `<prefix><seq>`, with `seq` in decimal, counted from
//! one. The segment with the highest number is the active one.

use crate::text::{decimal_string, decimal_text, digit_char};
use vstd::prelude::*;
use vstd::string::{StrSliceExecFns, StringExecFns};

verus! {

/// The value of a decimal digit, if the character is one.
pub open spec fn digit_value(c: char) -> Option<nat> {
    if c == '0' {
        Some(0)
    } else if c == '1' {
        Some(1)
    } else if c == '2' {
        Some(2)
    } else if c == '3' {
        Some(3)
    } else if c == '4' {
        Some(4)
    } else if c == '5' {
        Some(5)
    } else if c == '6' {
        Some(6)
    } else if c == '7' {
        Some(7)
    } else if c == '8' {
        Some(8)
    } else if c == '9' {
        Some(9)
    } else {
        None
    }
}

/// The number that a non-empty run of decimal digits writes; `None` for
/// anything else.
pub open spec fn digits_value(s: Seq<char>) -> Option<nat>
    decreases s.len(),
{
    if s.len() == 0 {
        None
    } else if s.len() == 1 {
        digit_value(s[0])
    } else {
        match (digits_value(s.drop_last()), digit_value(s.last())) {
            (Some(high), Some(low)) => Some(high * 10 + low),
            _ => None,
        }
    }
}

/// The sequence number in a file name: the name is the prefix followed by
/// decimal digits whose value fits a `u64`. Any other name is not a segment.
pub open spec fn segment_seq(name: Seq<char>, prefix: Seq<char>) -> Option<u64> {
    if prefix.is_prefix_of(name) {
        match digits_value(name.skip(prefix.len() as int)) {
            Some(v) => if v <= u64::MAX {
                Some(v as u64)
            } else {
                None
            },
            None => None,
        }
    } else {
        None
    }
}

/// The name of segment `seq`.
pub open spec fn segment_name(prefix: Seq<char>, seq: u64) -> Seq<char> {
    prefix + decimal_text(seq as nat)
}

fn digit_of(c: char) -> (d: Option<u64>)
    ensures
        match d {
            Some(v) => digit_value(c) == Some(v as nat) && v < 10,
            None => digit_value(c) is None,
        },
{
    if c == '0' {
        Some(0)
    } else if c == '1' {
        Some(1)
    } else if c == '2' {
        Some(2)
    } else if c == '3' {
        Some(3)
    } else if c == '4' {
        Some(4)
    } else if c == '5' {
        Some(5)
    } else if c == '6' {
        Some(6)
    } else if c == '7' {
        Some(7)
    } else if c == '8' {
        Some(8)
    } else if c == '9' {
        Some(9)
    } else {
        None
    }
}

/// The file name of segment `seq`.
pub fn segment_file_name(prefix: &str, seq: u64) -> (name: String)
    ensures
        name@ == segment_name(prefix@, seq),
{
    let mut name = prefix.to_owned();
    name.append(decimal_string(seq).as_str());
    name
}

/// Reads the sequence number out of a file name, if the name is a segment's.
pub fn parse_segment_seq(name: &str, prefix: &str) -> (r: Option<u64>)
    ensures
        r == segment_seq(name@, prefix@),
{
    let name_len: usize = name.unicode_len();
    let prefix_len: usize = prefix.unicode_len();
    if name_len < prefix_len {
        return None;
    }
    let mut i: usize = 0;
    while i < prefix_len
        invariant
            i <= prefix_len <= name_len,
            prefix_len == prefix@.len(),
            name_len == name@.len(),
            forall|j: int| 0 <= j < i ==> name@[j] == prefix@[j],
        decreases prefix_len - i,
    {
        if name.get_char(i) != prefix.get_char(i) {
            return None;
        }
        i = i + 1;
    }
    assert(prefix@.is_prefix_of(name@)) by {
        assert(name@.subrange(0, prefix@.len() as int) =~= prefix@);
    }
    let ghost digits = name@.skip(prefix_len as int);
    if name_len == prefix_len {
        return None;
    }
    let mut value: u64 = 0;
    let mut k: usize = prefix_len;
    while k < name_len
        invariant
            prefix_len <= k <= name_len,
            name_len == name@.len(),
            prefix_len == prefix@.len(),
            prefix@.is_prefix_of(name@),
            digits == name@.skip(prefix_len as int),
            k > prefix_len ==> digits_value(digits.take(k - prefix_len)) == Some(value as nat),
            k == prefix_len ==> value == 0,
        decreases name_len - k,
    {
        let ghost read = digits.take(k - prefix_len);
        let ghost more = digits.take(k + 1 - prefix_len);
        proof {
            assert(more.drop_last() =~= read);
            assert(more.last() == name@[k as int]);
        }
        let d: u64 = match digit_of(name.get_char(k)) {
            Some(d) => d,
            None => {
                proof {
                    lemma_prefix_not_digits(digits, k + 1 - prefix_len);
                }
                return None;
            },
        };
        if value > (u64::MAX - d) / 10 {
            proof {
                assert(digits_value(more) is Some ==> digits_value(more)->0 > u64::MAX);
                lemma_prefix_too_big(digits, k + 1 - prefix_len);
            }
            return None;
        }
        value = value * 10 + d;
        k = k + 1;
    }
    assert(digits.take(name_len - prefix_len) =~= digits);
    Some(value)
}

/// Once a front part of a string fails to be a number, so does the whole.
proof fn lemma_prefix_not_digits(s: Seq<char>, n: int)
    requires
        0 < n <= s.len(),
        digits_value(s.take(n)) is None,
    ensures
        digits_value(s) is None,
    decreases s.len() - n,
{
    if n < s.len() {
        assert(s.take(n + 1).drop_last() =~= s.take(n));
        lemma_prefix_not_digits(s, n + 1);
    } else {
        assert(s.take(n) =~= s);
    }
}

/// Once a front part of a string writes a number beyond `u64`, the whole
/// string writes none that fits.
proof fn lemma_prefix_too_big(s: Seq<char>, n: int)
    requires
        0 < n <= s.len(),
        digits_value(s.take(n)) is Some ==> digits_value(s.take(n))->0 > u64::MAX,
    ensures
        digits_value(s) is Some ==> digits_value(s)->0 > u64::MAX,
    decreases s.len() - n,
{
    if n < s.len() {
        assert(s.take(n + 1).drop_last() =~= s.take(n));
        lemma_prefix_too_big(s, n + 1);
    } else {
        assert(s.take(n) =~= s);
    }
}

/// A number written in decimal reads back as itself.
pub proof fn lemma_digits_of_decimal(n: nat)
    ensures
        digits_value(decimal_text(n)) == Some(n),
        decimal_text(n).len() > 0,
    decreases n,
{
    if n >= 10 {
        lemma_digits_of_decimal(n / 10);
        let t = decimal_text(n);
        assert(t.drop_last() =~= decimal_text(n / 10));
        assert(t.last() == digit_char(n % 10));
    }
}

/// A segment's file name gives back the segment's number.
pub proof fn lemma_segment_name_round_trip(prefix: Seq<char>, seq: u64)
    ensures
        segment_seq(segment_name(prefix, seq), prefix) == Some(seq),
{
    lemma_digits_of_decimal(seq as nat);
    let name = segment_name(prefix, seq);
    assert(name.skip(prefix.len() as int) =~= decimal_text(seq as nat));
    assert(name.subrange(0, prefix.len() as int) =~= prefix);
}

/// Among the names given, the highest segment number is at most `bound`, and
/// `bound` is either zero or the number of one of them.
pub open spec fn is_highest_seq(names: Seq<Seq<char>>, prefix: Seq<char>, bound: u64) -> bool {
    &&& forall|i: int|
        0 <= i < names.len() ==> (#[trigger] segment_seq(names[i], prefix) matches Some(s)
            ==> s <= bound)
    &&& (bound == 0 || exists|i: int|
        0 <= i < names.len() && #[trigger] segment_seq(names[i], prefix) == Some(bound))
}

/// The views of a list of names.
pub open spec fn name_views(names: Seq<String>) -> Seq<Seq<char>> {
    Seq::new(names.len(), |i: int| names[i]@)
}

/// The highest segment number among the files of the log directory; zero
/// where the directory holds no segment.
pub fn highest_segment_seq(names: &Vec<String>, prefix: &str) -> (max_seq: u64)
    ensures
        is_highest_seq(name_views(names@), prefix@, max_seq),
{
    let mut max_seq: u64 = 0;
    let mut i: usize = 0;
    while i < names.len()
        invariant
            i <= names@.len(),
            is_highest_seq(name_views(names@).take(i as int), prefix@, max_seq),
        decreases names@.len() - i,
    {
        let ghost seen = name_views(names@).take(i as int);
        let ghost next = name_views(names@).take(i + 1);
        let found = parse_segment_seq(names[i].as_str(), prefix);
        proof {
            assert(next[i as int] == names@[i as int]@);
            assert forall|j: int| 0 <= j < i implies next[j] == seen[j] by {}
        }
        match found {
            Some(seq) => {
                if seq > max_seq {
                    max_seq = seq;
                    assert(segment_seq(next[i as int], prefix@) == Some(max_seq));
                } else {
                    proof {
                        if max_seq != 0 {
                            let w = choose|j: int|
                                0 <= j < seen.len() && #[trigger] segment_seq(seen[j], prefix@)
                                    == Some(max_seq);
                            assert(segment_seq(next[w], prefix@) == Some(max_seq));
                        }
                    }
                }
            },
            None => {
                proof {
                    if max_seq != 0 {
                        let w = choose|j: int|
                            0 <= j < seen.len() && #[trigger] segment_seq(seen[j], prefix@) == Some(
                                max_seq,
                            );
                        assert(segment_seq(next[w], prefix@) == Some(max_seq));
                    }
                }
            },
        }
        i = i + 1;
    }
    assert(name_views(names@).take(i as int) =~= name_views(names@));
    max_seq
}

} // verus!
