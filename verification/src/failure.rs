//! Telling a rejected write apart from a storage that is down, by the text
//! with which the storage reported the failure.

use vstd::prelude::*;
use vstd::string::StrSliceExecFns;
use crate::model::EngineError;

verus! {

/// Whether `needle` stands in `hay` at the place `i`.
pub open spec fn occurs_at(needle: Seq<char>, hay: Seq<char>, i: int) -> bool {
    &&& 0 <= i
    &&& i + needle.len() <= hay.len()
    &&& hay.subrange(i, i + needle.len()) == needle
}

/// Whether `needle` stands somewhere in `hay`.
pub open spec fn occurs_in(needle: Seq<char>, hay: Seq<char>) -> bool {
    exists|i: int| occurs_at(needle, hay, i)
}

/// The words with which the storage reports a row whose key is taken.
pub open spec fn duplicate_key_text() -> Seq<char> {
    "duplicate key value violates unique constraint"@
}

/// Whether a failure text reports a key that is taken.
pub open spec fn is_duplicate_key(message: Seq<char>) -> bool {
    occurs_in(duplicate_key_text(), message)
}

/// The characters of `text`, one by one.
fn chars_of(text: &str) -> (chars: Vec<char>)
    ensures
        chars@ == text@,
{
    let n = text.unicode_len();
    let mut chars: Vec<char> = Vec::new();
    let mut i: usize = 0;
    while i < n
        invariant
            n == text@.len(),
            i <= n,
            chars@ == text@.subrange(0, i as int),
        decreases n - i,
    {
        let c = text.get_char(i);
        chars.push(c);
        assert(chars@ =~= text@.subrange(0, i + 1));
        i += 1;
    }
    assert(text@.subrange(0, n as int) =~= text@);
    chars
}

/// Whether `needle` stands in `hay` at the place `at`.
fn matches_at(needle: &Vec<char>, hay: &Vec<char>, at: usize) -> (same: bool)
    requires
        at + needle.len() <= hay.len(),
    ensures
        same == occurs_at(needle@, hay@, at as int),
{
    let mut j: usize = 0;
    while j < needle.len()
        invariant
            at + needle.len() <= hay.len(),
            j <= needle.len(),
            forall|k: int| 0 <= k < j ==> hay@[at + k] == needle@[k],
        decreases needle.len() - j,
    {
        if hay[at + j] != needle[j] {
            proof {
                let part = hay@.subrange(at as int, at + needle.len());
                assert(part[j as int] != needle@[j as int]);
            }
            return false;
        }
        j += 1;
    }
    assert(hay@.subrange(at as int, at + needle.len()) =~= needle@);
    true
}

/// Whether `needle` stands somewhere in `hay`, character for character.
pub fn contains_text(hay: &str, needle: &str) -> (found: bool)
    ensures
        found == occurs_in(needle@, hay@),
{
    let hay_chars = chars_of(hay);
    let needle_chars = chars_of(needle);
    if needle_chars.len() > hay_chars.len() {
        assert forall|i: int| !occurs_at(needle@, hay@, i) by {}
        return false;
    }
    let last = hay_chars.len() - needle_chars.len();
    let mut i: usize = 0;
    loop
        invariant
            hay_chars@ == hay@,
            needle_chars@ == needle@,
            last + needle_chars.len() == hay_chars.len(),
            i <= last,
            forall|k: int| 0 <= k < i ==> !occurs_at(needle@, hay@, k),
        decreases last - i,
    {
        if matches_at(&needle_chars, &hay_chars, i) {
            assert(occurs_at(needle@, hay@, i as int));
            return true;
        }
        if i == last {
            assert forall|k: int| !occurs_at(needle@, hay@, k) by {}
            return false;
        }
        i += 1;
    }
}

/// The failure that a refused insert stands for: `Conflict` where the
/// storage's text reports a key that is taken, `StorageUnavailable` for every
/// other text.
pub fn classify_write_failure(message: &str) -> (failure: EngineError)
    ensures
        failure == if is_duplicate_key(message@) {
            EngineError::Conflict
        } else {
            EngineError::StorageUnavailable
        },
{
    if contains_text(message, "duplicate key value violates unique constraint") {
        EngineError::Conflict
    } else {
        EngineError::StorageUnavailable
    }
}

} // verus!
