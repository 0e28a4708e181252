//! Cutting a string into the pieces between the occurrences of a delimiter.
//!
//! Offsets are byte offsets into the UTF-8 form of a string, as everywhere in
//! the standard library, and the contracts speak of strings by their bytes.

pub mod plain;

use vstd::prelude::*;
use vstd::string::*;
use vstd::utf8::*;

verus! {

/// Whether `needle` stands in `haystack` at byte offset `at`.
pub open spec fn occurs_at(haystack: Seq<u8>, needle: Seq<u8>, at: int) -> bool {
    &&& 0 <= at
    &&& at + needle.len() <= haystack.len()
    &&& haystack.subrange(at, at + needle.len()) == needle
}

/// Whether `needle` stands in `haystack` at `at` and nowhere before.
pub open spec fn is_first_occurrence(haystack: Seq<u8>, needle: Seq<u8>, at: int) -> bool {
    &&& occurs_at(haystack, needle, at)
    &&& forall|before: int| 0 <= before < at ==> !occurs_at(haystack, needle, before)
}

/// The byte offset at which `needle` first stands in `haystack`, if it does anywhere.
pub open spec fn first_occurrence(haystack: Seq<u8>, needle: Seq<u8>) -> Option<int> {
    if exists|at: int| is_first_occurrence(haystack, needle, at) {
        Some(choose|at: int| is_first_occurrence(haystack, needle, at))
    } else {
        None
    }
}

/// There is at most one first occurrence.
pub proof fn lemma_first_occurrence_is(haystack: Seq<u8>, needle: Seq<u8>, at: int)
    requires
        is_first_occurrence(haystack, needle, at),
    ensures
        first_occurrence(haystack, needle) == Some(at),
{
    let chosen = choose|at: int| is_first_occurrence(haystack, needle, at);
    if chosen < at {
        assert(!occurs_at(haystack, needle, chosen));
    } else if at < chosen {
        assert(!occurs_at(haystack, needle, at));
    }
}

/// Where nothing occurs, nothing occurs first.
pub proof fn lemma_no_occurrence(haystack: Seq<u8>, needle: Seq<u8>)
    requires
        forall|at: int| 0 <= at ==> !occurs_at(haystack, needle, at),
    ensures
        first_occurrence(haystack, needle) is None,
{
}

/// A string that stands at the front of another ends where a character of
/// the other ends.
proof fn lemma_front_ends_on_boundary(haystack: Seq<u8>, needle: Seq<u8>)
    requires
        valid_utf8(haystack),
        valid_utf8(needle),
        needle.len() <= haystack.len(),
        haystack.subrange(0, needle.len() as int) == needle,
    ensures
        is_char_boundary(haystack, needle.len() as int),
    decreases needle.len(),
{
    if needle.len() > 0 {
        let width = length_of_first_scalar(needle);
        assert(forall|i: int|
            0 <= i < needle.len() ==> haystack.subrange(0, needle.len() as int)[i] == haystack[i]);
        assert(haystack[0] == needle[0]);
        assert(length_of_first_scalar(haystack) == width);
        assert(1 <= width <= needle.len());
        let haystack_rest = pop_first_scalar(haystack);
        let needle_rest = pop_first_scalar(needle);
        assert(haystack_rest.subrange(0, needle_rest.len() as int) =~= needle_rest);
        lemma_front_ends_on_boundary(haystack_rest, needle_rest);
    }
}

/// A string with bytes in it that stands in another begins where a character
/// of the other begins, and ends where one ends.
pub proof fn lemma_occurrence_on_boundaries(haystack: Seq<u8>, needle: Seq<u8>, at: int)
    requires
        valid_utf8(haystack),
        valid_utf8(needle),
        needle.len() > 0,
        occurs_at(haystack, needle, at),
    ensures
        is_char_boundary(haystack, at),
        is_char_boundary(haystack, at + needle.len()),
{
    let end = at + needle.len();
    assert(haystack.subrange(at, end)[0] == haystack[at]);
    is_char_boundary_iff_not_is_continuation_byte(needle, 0);
    is_char_boundary_iff_not_is_continuation_byte(haystack, at);
    valid_utf8_split(haystack, at);
    let behind = haystack.subrange(at, haystack.len() as int);
    assert(behind.subrange(0, needle.len() as int) =~= needle);
    lemma_front_ends_on_boundary(behind, needle);
    if end < haystack.len() {
        is_char_boundary_iff_not_is_continuation_byte(behind, needle.len() as int);
        is_char_boundary_iff_not_is_continuation_byte(haystack, end);
    } else {
        is_char_boundary_start_end_of_seq(haystack);
    }
}

/// Something that can be looked for in a string.
pub trait Delimiter {
    /// Where the delimiter next occurs in a string with the bytes `haystack`:
    /// the byte offsets of its beginning and of its end.
    spec fn next_in(&self, haystack: Seq<u8>) -> Option<(int, int)>;

    /// Looks for the next occurrence of the delimiter in `s`. An occurrence
    /// lies within `s`, its end is not before its beginning, and the string
    /// can be cut at both.
    fn find_next(&self, s: &str) -> (found: Option<(usize, usize)>)
        ensures
            match found {
                Some((start, end)) => {
                    &&& self.next_in(s.spec_bytes()) == Some((start as int, end as int))
                    &&& start <= end <= s.spec_bytes().len()
                    &&& is_char_boundary(s.spec_bytes(), start as int)
                    &&& is_char_boundary(s.spec_bytes(), end as int)
                },
                None => self.next_in(s.spec_bytes()) is None,
            },
    ;
}

/// Whether `needle` stands in `haystack` at `at`, byte for byte.
fn stands_at(haystack: &[u8], needle: &[u8], at: usize) -> (stands: bool)
    requires
        at + needle@.len() <= haystack@.len(),
    ensures
        stands == (haystack@.subrange(at as int, at + needle@.len()) == needle@),
{
    let length = needle.len();
    let available = haystack.len();
    let mut i: usize = 0;
    while i < length
        invariant
            length == needle@.len(),
            available == haystack@.len(),
            at + length <= available,
            i <= length,
            forall|j: int| 0 <= j < i ==> haystack@[at + j] == needle@[j],
        decreases length - i,
    {
        if haystack[at + i] != needle[i] {
            assert(haystack@.subrange(at as int, at + length)[i as int] != needle@[i as int]);
            return false;
        }
        i = i + 1;
    }
    assert(haystack@.subrange(at as int, at + length) =~= needle@);
    true
}

impl Delimiter for &str {
    /// A string occurs where its bytes first stand in the haystack.
    open spec fn next_in(&self, haystack: Seq<u8>) -> Option<(int, int)> {
        match first_occurrence(haystack, self.spec_bytes()) {
            Some(at) => Some((at, at + self.spec_bytes().len())),
            None => None,
        }
    }

    fn find_next(&self, s: &str) -> (found: Option<(usize, usize)>) {
        let haystack = s.as_bytes();
        let needle = self.as_bytes();
        let length = needle.len();
        let available = haystack.len();
        if length > available {
            proof {
                lemma_no_occurrence(haystack@, needle@);
            }
            return None;
        }
        let last = available - length;
        let mut at: usize = 0;
        loop
            invariant
                haystack@ == s.spec_bytes(),
                needle@ == self.spec_bytes(),
                length == needle@.len(),
                available == haystack@.len(),
                last + length == available,
                at <= last,
                forall|before: int| 0 <= before < at ==> !occurs_at(haystack@, needle@, before),
            decreases last - at,
        {
            if stands_at(haystack, needle, at) {
                proof {
                    lemma_first_occurrence_is(haystack@, needle@, at as int);
                    encode_utf8_valid_utf8(s@);
                    encode_utf8_valid_utf8(self@);
                    if length > 0 {
                        lemma_occurrence_on_boundaries(haystack@, needle@, at as int);
                    } else {
                        assert(haystack@.subrange(0, 0) =~= needle@);
                        assert(occurs_at(haystack@, needle@, 0));
                        is_char_boundary_start_end_of_seq(haystack@);
                    }
                }
                return Some((at, at + length));
            }
            if at == last {
                proof {
                    lemma_no_occurrence(haystack@, needle@);
                }
                return None;
            }
            at = at + 1;
        }
    }
}

/// The pieces of a string between the occurrences of a delimiter, handed out
/// one by one from the left.
pub struct StrSplit<'haystack, D> {
    /// The part of the string that has not been cut yet; `None` once the last
    /// piece has been handed out.
    remainder: Option<&'haystack str>,
    /// What the string is cut at.
    delimiter: D,
}

impl<'haystack, D> StrSplit<'haystack, D> {
    /// The bytes of the part that has not been cut yet, if any is left.
    pub closed spec fn remainder(&self) -> Option<Seq<u8>> {
        match self.remainder {
            Some(rest) => Some(rest.spec_bytes()),
            None => None,
        }
    }

    /// What the string is cut at.
    pub closed spec fn delimiter(&self) -> D {
        self.delimiter
    }

    /// The pieces of `haystack` between the occurrences of `delimiter`. All
    /// of `haystack` is still to be cut.
    pub fn new(haystack: &'haystack str, delimiter: D) -> (split: Self)
        ensures
            split.remainder() == Some(haystack.spec_bytes()),
            split.delimiter() == delimiter,
    {
        Self { remainder: Some(haystack), delimiter }
    }
}

impl<'haystack, D: Delimiter> StrSplit<'haystack, D> {
    /// Hands out the next piece: what stands before the next occurrence of
    /// the delimiter, the rest beginning behind that occurrence; or, where
    /// the delimiter does not occur again, all that is left, which is the
    /// last piece. After the last piece there is `None`. A string that ends
    /// in the delimiter has an empty last piece.
    pub fn next(&mut self) -> (piece: Option<&'haystack str>)
        ensures
            final(self).delimiter() == old(self).delimiter(),
            match old(self).remainder() {
                None => piece is None && final(self).remainder() is None,
                Some(rest) => match old(self).delimiter().next_in(rest) {
                    Some((start, end)) => {
                        &&& piece is Some
                        &&& piece->0.spec_bytes() == rest.subrange(0, start)
                        &&& final(self).remainder() == Some(rest.subrange(end, rest.len() as int))
                    },
                    None => {
                        &&& piece is Some
                        &&& piece->0.spec_bytes() == rest
                        &&& final(self).remainder() is None
                    },
                },
            },
    {
        match self.remainder {
            None => None,
            Some(rest) => match self.delimiter.find_next(rest) {
                Some((start, end)) => {
                    let (head, _) = rest.split_at(start);
                    let (_, tail) = rest.split_at(end);
                    self.remainder = Some(tail);
                    Some(head)
                },
                None => {
                    self.remainder = None;
                    Some(rest)
                },
            },
        }
    }
}

/// The string that holds the one character `c`, made by `format!`, which
/// writes a character as itself.
#[verifier::external_body]
fn string_of(c: char) -> (s: String)
    ensures
        s@ == seq![c],
{
    format!("{}", c)
}

/// The part of `s` before the first occurrence of the character `c`, or all
/// of `s` where `c` does not occur.
pub fn until_first_occurance_of_char<'haystack>(s: &'haystack str, c: char) -> (prefix:
    &'haystack str)
    ensures
        match first_occurrence(s.spec_bytes(), encode_utf8(seq![c])) {
            Some(at) => prefix.spec_bytes() == s.spec_bytes().subrange(0, at),
            None => prefix.spec_bytes() == s.spec_bytes(),
        },
{
    let delimiter = string_of(c);
    let mut split = StrSplit::new(s, delimiter.as_str());
    split.next().unwrap()
}

} // verus!
