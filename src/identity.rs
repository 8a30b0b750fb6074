//! Session identity matching: the short name of a session identifier and the
//! case-insensitive substring test against the requested program name.

use vstd::prelude::*;
use vstd::string::*;
use crate::wide::{decode_wide, utf16_lossy};

verus! {

/// The part of `s` after its last `sep`; all of `s` when it holds no `sep`.
pub open spec fn suffix_after_last(s: Seq<char>, sep: char) -> Seq<char>
    decreases s.len(),
{
    if s.len() == 0 {
        s
    } else if s.last() == sep {
        Seq::empty()
    } else {
        suffix_after_last(s.drop_last(), sep).push(s.last())
    }
}

/// The short name of a session identifier: what follows the last backslash,
/// else what follows the last forward slash, else the identifier itself.
pub open spec fn short_name(identifier: Seq<char>) -> Seq<char> {
    if identifier.contains('\\') {
        suffix_after_last(identifier, '\\')
    } else {
        suffix_after_last(identifier, '/')
    }
}

/// `needle` stands in `hay` at position `i`.
pub open spec fn occurs_at(hay: Seq<char>, needle: Seq<char>, i: int) -> bool {
    &&& 0 <= i
    &&& i + needle.len() <= hay.len()
    &&& hay.subrange(i, i + needle.len()) == needle
}

/// `needle` stands somewhere in `hay`.
pub open spec fn is_substring(needle: Seq<char>, hay: Seq<char>) -> bool {
    exists|i: int| occurs_at(hay, needle, i)
}

/// The lower-case form of a text.
pub uninterp spec fn lower_of(s: Seq<char>) -> Seq<char>;

/// A session whose identifier is `identity` (UTF-16) is selected by a target
/// whose lower-case form is `folded_target`. A session with an empty
/// identifier has no identity to match and is never selected.
pub open spec fn session_matches(folded_target: Seq<char>, identity: Seq<u16>) -> bool {
    &&& identity.len() > 0
    &&& is_substring(folded_target, lower_of(short_name(utf16_lossy(identity))))
}

/// Relies on `str::to_lowercase`: the result depends on the characters
/// alone, and an empty text stays empty.
#[verifier::external_body]
fn lowercase(s: &str) -> (r: String)
    ensures
        r@ == lower_of(s@),
        s@.len() == 0 ==> r@.len() == 0,
{
    s.to_lowercase()
}

proof fn lemma_suffix_step(s: Seq<char>, sep: char, i: int)
    requires
        0 < i <= s.len(),
        s[i - 1] != sep,
    ensures
        suffix_after_last(s.subrange(0, i), sep) + s.subrange(i, s.len() as int)
            == suffix_after_last(s.subrange(0, i - 1), sep) + s.subrange(i - 1, s.len() as int),
{
    let p = s.subrange(0, i);
    assert(p.drop_last() =~= s.subrange(0, i - 1));
    assert(p.last() == s[i - 1]);
    assert(suffix_after_last(s.subrange(0, i - 1), sep).push(s[i - 1]) + s.subrange(i, s.len() as int)
        =~= suffix_after_last(s.subrange(0, i - 1), sep) + s.subrange(i - 1, s.len() as int));
}

/// Where the last segment of `s` begins: just after the last `sep`, or 0
/// when `s` holds no `sep`.
fn last_segment_start(s: &str, sep: char) -> (k: usize)
    ensures
        k <= s@.len(),
        suffix_after_last(s@, sep) == s@.subrange(k as int, s@.len() as int),
        k == 0 <==> !s@.contains(sep),
{
    let n = s.unicode_len();
    let mut i: usize = n;
    assert(s@.subrange(0, n as int) =~= s@);
    while i > 0
        invariant
            n == s@.len(),
            i <= n,
            forall|j: int| i <= j < n ==> s@[j] != sep,
            suffix_after_last(s@, sep) == suffix_after_last(s@.subrange(0, i as int), sep)
                + s@.subrange(i as int, n as int),
        decreases i,
    {
        let c = s.get_char(i - 1);
        if c == sep {
            proof {
                let p = s@.subrange(0, i as int);
                assert(p.last() == sep);
                assert(suffix_after_last(p, sep) =~= Seq::empty());
                assert(suffix_after_last(s@, sep) =~= s@.subrange(i as int, n as int));
                assert(s@[i - 1] == sep);
                assert(s@.contains(sep));
            }
            return i;
        }
        proof {
            lemma_suffix_step(s@, sep, i as int);
        }
        i = i - 1;
    }
    assert(suffix_after_last(s@, sep) =~= s@.subrange(0, n as int));
    assert(!s@.contains(sep)) by {
        if s@.contains(sep) {
            let j = choose|j: int| 0 <= j < s@.len() && s@[j] == sep;
            assert(s@[j] != sep);
        }
    }
    0
}

/// The file name at the end of a session identifier: the text after the last
/// backslash, else after the last forward slash, else the whole identifier.
pub fn extract_file_name_from_identifier(identifier: &str) -> (r: Option<String>)
    ensures
        r is Some,
        r->0@ == short_name(identifier@),
{
    let n = identifier.unicode_len();
    let k = last_segment_start(identifier, '\\');
    if k > 0 {
        Some(String::from_str(identifier.substring_char(k, n)))
    } else {
        let k2 = last_segment_start(identifier, '/');
        Some(String::from_str(identifier.substring_char(k2, n)))
    }
}

/// Tests whether `needle` stands in `hay` at position `i`.
fn occurs_at_exec(hay: &str, needle: &str, i: usize) -> (r: bool)
    requires
        i + needle@.len() <= hay@.len(),
        hay@.len() <= usize::MAX,
    ensures
        r == occurs_at(hay@, needle@, i as int),
{
    let m = needle.unicode_len();
    let mut j: usize = 0;
    while j < m
        invariant
            m == needle@.len(),
            i + m <= hay@.len(),
            hay@.len() <= usize::MAX,
            j <= m,
            forall|t: int| 0 <= t < j ==> hay@[i + t] == needle@[t],
        decreases m - j,
    {
        if hay.get_char(i + j) != needle.get_char(j) {
            assert(hay@.subrange(i as int, i + m)[j as int] != needle@[j as int]);
            return false;
        }
        j = j + 1;
    }
    assert(hay@.subrange(i as int, i + m) =~= needle@);
    true
}

/// Tests whether `needle` stands anywhere in `hay` (an empty `needle` stands
/// in every text).
pub fn contains_text(hay: &str, needle: &str) -> (r: bool)
    ensures
        r == is_substring(needle@, hay@),
{
    let h = hay.unicode_len();
    let m = needle.unicode_len();
    if m > h {
        assert(!is_substring(needle@, hay@)) by {
            assert forall|i: int| !occurs_at(hay@, needle@, i) by {}
        }
        return false;
    }
    if m == 0 {
        assert(occurs_at(hay@, needle@, 0)) by {
            assert(hay@.subrange(0, 0) =~= needle@);
        }
        return true;
    }
    let mut i: usize = 0;
    while i <= h - m
        invariant
            h == hay@.len(),
            m == needle@.len(),
            0 < m <= h,
            i <= h - m + 1,
            forall|t: int| 0 <= t < i ==> !occurs_at(hay@, needle@, t),
        decreases h - i,
    {
        if occurs_at_exec(hay, needle, i) {
            return true;
        }
        i = i + 1;
    }
    assert(!is_substring(needle@, hay@)) by {
        assert forall|t: int| !occurs_at(hay@, needle@, t) by {
            if 0 <= t < i {
            } else {
            }
        }
    }
    false
}

/// Case-insensitive substring match of a program name against a file name.
pub fn name_matches(file_name: &str, target: &str) -> (r: bool)
    ensures
        r == is_substring(lower_of(target@), lower_of(file_name@)),
{
    let name = lowercase(file_name);
    let wanted = lowercase(target);
    contains_text(name.as_str(), wanted.as_str())
}

/// The lower-case form of a wide program name, as the scan compares it.
pub fn fold_target(program_name: &[u16]) -> (r: String)
    ensures
        r@ == lower_of(utf16_lossy(program_name@)),
        program_name@.len() == 0 ==> r@.len() == 0,
{
    let text = decode_wide(program_name);
    lowercase(text.as_str())
}

/// Whether the session with wide identifier `identity` is selected by the
/// lower-case target `folded_target`; an empty identifier selects nothing.
pub fn identity_matches(identity: &[u16], folded_target: &str) -> (r: bool)
    ensures
        r == session_matches(folded_target@, identity@),
{
    if identity.len() == 0 {
        return false;
    }
    let text = decode_wide(identity);
    let name = extract_file_name_from_identifier(text.as_str());
    match name {
        Some(file_name) => {
            let folded = lowercase(file_name.as_str());
            contains_text(folded.as_str(), folded_target)
        },
        None => false,
    }
}

/// An empty target selects every session whose identifier could be read
/// and is not empty.
pub proof fn lemma_empty_target_matches_every_identity(identity: Seq<u16>)
    requires
        identity.len() > 0,
    ensures
        session_matches(Seq::empty(), identity),
{
    let hay = lower_of(short_name(utf16_lossy(identity)));
    assert(occurs_at(hay, Seq::empty(), 0)) by {
        assert(hay.subrange(0, 0) =~= Seq::<char>::empty());
    }
}

} // verus!
