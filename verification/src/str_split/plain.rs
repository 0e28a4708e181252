//! The pieces of a string between the occurrences of another string, for
//! those who do not want an empty piece at the end: a string that ends in the
//! delimiter ends with the piece before it, and an empty string has no piece.

use crate::str_split::{first_occurrence, Delimiter};
use vstd::prelude::*;
use vstd::string::*;

verus! {

/// The pieces of a string between the occurrences of a delimiter, handed out
/// one by one from the left.
pub struct StrSplit<'a> {
    /// The part of the string that has not been cut yet.
    remainder: &'a str,
    /// What the string is cut at.
    delimiter: &'a str,
}

impl<'a> StrSplit<'a> {
    /// The bytes of the part that has not been cut yet.
    pub closed spec fn remainder(&self) -> Seq<u8> {
        self.remainder.spec_bytes()
    }

    /// The bytes of what the string is cut at.
    pub closed spec fn delimiter(&self) -> Seq<u8> {
        self.delimiter.spec_bytes()
    }

    /// The pieces of `haystack` between the occurrences of `delimiter`. All
    /// of `haystack` is still to be cut.
    pub fn new(haystack: &'a str, delimiter: &'a str) -> (split: Self)
        ensures
            split.remainder() == haystack.spec_bytes(),
            split.delimiter() == delimiter.spec_bytes(),
    {
        Self { remainder: haystack, delimiter }
    }

    /// Hands out the next piece: what stands before the next occurrence of
    /// the delimiter, the rest beginning behind that occurrence; or, where
    /// the delimiter does not occur again, all that is left, if anything is.
    /// Where nothing is left there is `None`.
    pub fn next(&mut self) -> (piece: Option<&'a str>)
        ensures
            final(self).delimiter() == old(self).delimiter(),
            match first_occurrence(old(self).remainder(), old(self).delimiter()) {
                Some(start) => {
                    &&& piece is Some
                    &&& piece->0.spec_bytes() == old(self).remainder().subrange(0, start)
                    &&& final(self).remainder() == old(self).remainder().subrange(
                        start + old(self).delimiter().len(),
                        old(self).remainder().len() as int,
                    )
                },
                None => {
                    &&& final(self).remainder() == Seq::<u8>::empty()
                    &&& if old(self).remainder().len() > 0 {
                        piece is Some && piece->0.spec_bytes() == old(self).remainder()
                    } else {
                        piece is None
                    }
                },
            },
    {
        match self.delimiter.find_next(self.remainder) {
            Some((start, end)) => {
                let (until_delimiter, _) = self.remainder.split_at(start);
                let (_, behind_delimiter) = self.remainder.split_at(end);
                self.remainder = behind_delimiter;
                Some(until_delimiter)
            },
            None => {
                let remaining_string = self.remainder;
                proof {
                    reveal_strlit("");
                    assert(""@ =~= Seq::<char>::empty());
                    assert("".spec_bytes() =~= Seq::<u8>::empty());
                }
                self.remainder = "";
                if remaining_string.as_bytes().len() > 0 {
                    Some(remaining_string)
                } else {
                    assert(remaining_string.spec_bytes() =~= Seq::<u8>::empty());
                    None
                }
            },
        }
    }
}

} // verus!
