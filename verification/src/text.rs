//! Byte-string helpers shared by the modules that compare C strings
//! against ASCII literals.

use vstd::prelude::*;

verus! {

/// The bytes of an ASCII string, one byte per character.
pub open spec fn ascii(s: Seq<char>) -> Seq<u8> {
    s.map_values(|c: char| c as u8)
}

/// Compares a byte string with the bytes of an ASCII string literal.
pub fn bytes_eq_str(bytes: &[u8], s: &str) -> (r: bool)
    requires
        vstd::utf8::is_ascii_chars(s@),
    ensures
        r == (bytes@ == ascii(s@)),
{
    let b = s.as_bytes();
    proof {
        vstd::string::is_ascii_spec_bytes(s);
    }
    assert(b@ =~= ascii(s@));
    if bytes.len() != b.len() {
        return false;
    }
    let mut i: usize = 0;
    while i < bytes.len()
        invariant
            0 <= i <= bytes.len(),
            bytes.len() == b@.len(),
            b@ == ascii(s@),
            forall|j: int| 0 <= j < i ==> bytes@[j] == b@[j],
        decreases bytes.len() - i,
    {
        if bytes[i] != b[i] {
            return false;
        }
        i = i + 1;
    }
    assert(bytes@ =~= b@);
    true
}

} // verus!

verus! {

/// Whether `needle` occurs in `haystack` starting at `i`.
pub open spec fn occurs_at(haystack: Seq<u8>, needle: Seq<u8>, i: int) -> bool {
    &&& 0 <= i
    &&& i + needle.len() <= haystack.len()
    &&& haystack.subrange(i, i + needle.len()) == needle
}

/// The first position at or after `from` where `needle` occurs in `haystack`.
pub open spec fn find_from(haystack: Seq<u8>, needle: Seq<u8>, from: nat) -> Option<nat>
    decreases haystack.len() + 1 - from,
{
    if from + needle.len() > haystack.len() {
        None
    } else if occurs_at(haystack, needle, from as int) {
        Some(from)
    } else {
        find_from(haystack, needle, from + 1)
    }
}

/// The first position where `needle` occurs in `haystack`.
pub open spec fn first_occurrence(haystack: Seq<u8>, needle: Seq<u8>) -> Option<nat> {
    find_from(haystack, needle, 0)
}

/// `find_from` gives the first occurrence at or after `from`, and `None`
/// exactly when there is none there.
pub proof fn lemma_find_from(haystack: Seq<u8>, needle: Seq<u8>, from: nat)
    ensures
        find_from(haystack, needle, from) matches Some(k) ==> {
            &&& from <= k
            &&& occurs_at(haystack, needle, k as int)
            &&& forall|j: int| from <= j < k ==> !occurs_at(haystack, needle, j)
        },
        find_from(haystack, needle, from) is None ==> forall|j: int|
            from <= j ==> !occurs_at(haystack, needle, j),
    decreases haystack.len() + 1 - from,
{
    if from + needle.len() <= haystack.len() && !occurs_at(haystack, needle, from as int) {
        lemma_find_from(haystack, needle, from + 1);
    }
}

/// The first occurrence is characterised by occurring and by no earlier
/// position occurring.
pub proof fn lemma_first_occurrence(haystack: Seq<u8>, needle: Seq<u8>)
    ensures
        first_occurrence(haystack, needle) matches Some(k) ==> {
            &&& occurs_at(haystack, needle, k as int)
            &&& forall|j: int| 0 <= j < k ==> !occurs_at(haystack, needle, j)
        },
        first_occurrence(haystack, needle) is None ==> forall|j: int|
            !occurs_at(haystack, needle, j),
{
    lemma_find_from(haystack, needle, 0);
}

/// `memchr::memmem::find`: the index of the first occurrence of `needle` in
/// `haystack`, as its documentation states; nothing else is claimed.
#[verifier::external_body]
pub(crate) fn memmem_find(haystack: &[u8], needle: &[u8]) -> (r: Option<usize>)
    ensures
        match r {
            Some(i) => first_occurrence(haystack@, needle@) == Some(i as nat),
            None => first_occurrence(haystack@, needle@) is None,
        },
{
    memchr::memmem::find(haystack, needle)
}

/// Whether `bytes` ends with `suffix`.
pub open spec fn has_suffix(bytes: Seq<u8>, suffix: Seq<u8>) -> bool {
    suffix.len() <= bytes.len() && bytes.subrange(bytes.len() - suffix.len(), bytes.len() as int)
        == suffix
}

/// `bytes` without `suffix` when it ends with it.
pub fn strip_suffix<'a>(bytes: &'a [u8], suffix: &[u8]) -> (r: Option<&'a [u8]>)
    ensures
        match r {
            Some(s) => has_suffix(bytes@, suffix@) && s@ == bytes@.subrange(
                0,
                bytes@.len() - suffix@.len(),
            ),
            None => !has_suffix(bytes@, suffix@),
        },
{
    if suffix.len() > bytes.len() {
        return None;
    }
    let start = bytes.len() - suffix.len();
    let mut i: usize = 0;
    while i < suffix.len()
        invariant
            start + suffix.len() == bytes.len(),
            0 <= i <= suffix.len(),
            forall|j: int| 0 <= j < i ==> bytes@[start + j] == suffix@[j],
        decreases suffix.len() - i,
    {
        if bytes[start + i] != suffix[i] {
            assert(bytes@.subrange(start as int, bytes.len() as int)[i as int] != suffix@[i as int]);
            return None;
        }
        i = i + 1;
    }
    assert(bytes@.subrange(start as int, bytes.len() as int) =~= suffix@);
    Some(&bytes[0..start])
}

} // verus!

verus! {

/// Compares two byte strings.
pub fn bytes_eq_bytes(a: &[u8], b: &[u8]) -> (r: bool)
    ensures
        r == (a@ == b@),
{
    if a.len() != b.len() {
        return false;
    }
    let mut i: usize = 0;
    while i < a.len()
        invariant
            0 <= i <= a.len(),
            a.len() == b.len(),
            forall|j: int| 0 <= j < i ==> a@[j] == b@[j],
        decreases a.len() - i,
    {
        if a[i] != b[i] {
            return false;
        }
        i = i + 1;
    }
    assert(a@ =~= b@);
    true
}

} // verus!

verus! {

/// An owned copy of a byte string.
pub fn copy_bytes(bytes: &[u8]) -> (r: Vec<u8>)
    ensures
        r@ == bytes@,
{
    let mut v: Vec<u8> = Vec::with_capacity(bytes.len());
    let mut i: usize = 0;
    while i < bytes.len()
        invariant
            0 <= i <= bytes.len(),
            v@ == bytes@.take(i as int),
        decreases bytes.len() - i,
    {
        v.push(bytes[i]);
        i = i + 1;
        assert(v@ =~= bytes@.take(i as int));
    }
    assert(bytes@.take(bytes.len() as int) =~= bytes@);
    v
}

} // verus!

verus! {

/// Compares a byte string with the UTF-8 bytes of a string.
pub fn bytes_eq_utf8(bytes: &[u8], s: &str) -> (r: bool)
    ensures
        r == (bytes@ == vstd::utf8::encode_utf8(s@)),
{
    bytes_eq_bytes(bytes, s.as_bytes())
}

} // verus!
