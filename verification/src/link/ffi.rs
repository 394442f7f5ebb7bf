//! C strings handed to the dynamic loader.

use vstd::prelude::*;

verus! {

/// The index of the first NUL byte of `bytes`, if it holds one.
pub open spec fn first_nul(bytes: Seq<u8>) -> Option<nat> {
    if exists|i: int| 0 <= i < bytes.len() && bytes[i] == 0 {
        let i = choose|i: int|
            0 <= i < bytes.len() && bytes[i] == 0 && forall|j: int| 0 <= j < i ==> bytes[j] != 0;
        Some(i as nat)
    } else {
        None
    }
}

/// The C string that `bytes` stands for: the bytes up to and including the
/// first NUL, or, where there is none, all of them with a NUL added.
pub open spec fn spec_cstr(bytes: Seq<u8>) -> Seq<u8> {
    match first_nul(bytes) {
        Some(i) => bytes.take(i as int + 1),
        None => bytes.push(0),
    }
}

/// The position of the first NUL, as a loop finds it.
fn find_nul(bytes: &[u8]) -> (r: Option<usize>)
    ensures
        match r {
            Some(i) => i < bytes@.len() && bytes@[i as int] == 0 && forall|j: int|
                0 <= j < i ==> bytes@[j] != 0,
            None => forall|j: int| 0 <= j < bytes@.len() ==> bytes@[j] != 0,
        },
{
    let mut i: usize = 0;
    while i < bytes.len()
        invariant
            0 <= i <= bytes.len(),
            forall|j: int| 0 <= j < i ==> bytes@[j] != 0,
        decreases bytes.len() - i,
    {
        if bytes[i] == 0 {
            return Some(i);
        }
        i = i + 1;
    }
    None
}

/// Whether `bytes` holds a NUL, so that it cannot be made into a C string
/// as it is.
pub fn has_nul(bytes: &[u8]) -> (r: bool)
    ensures
        r == bytes@.contains(0u8),
{
    match find_nul(bytes) {
        Some(i) => {
            assert(bytes@[i as int] == 0u8);
            true
        },
        None => false,
    }
}

/// The first NUL found by a scan is the one `first_nul` names.
pub proof fn lemma_first_nul(bytes: Seq<u8>, i: int)
    requires
        0 <= i < bytes.len(),
        bytes[i] == 0,
        forall|j: int| 0 <= j < i ==> bytes[j] != 0,
    ensures
        first_nul(bytes) == Some(i as nat),
{
    let k = choose|k: int|
        0 <= k < bytes.len() && bytes[k] == 0 && forall|j: int| 0 <= j < k ==> bytes[j] != 0;
    assert(0 <= k < bytes.len() && bytes[k] == 0 && forall|j: int| 0 <= j < k ==> bytes[j] != 0);
    if k < i {
        assert(bytes[k] != 0);
    } else if k > i {
        assert(bytes[i] != 0);
    }
}

/// Where `bytes` holds a NUL before `n`, it holds a first one.
proof fn lemma_some_first_nul(bytes: Seq<u8>, n: int)
    requires
        0 <= n <= bytes.len(),
        exists|i: int| 0 <= i < n && bytes[i] == 0,
    ensures
        exists|k: int|
            0 <= k < bytes.len() && bytes[k] == 0 && forall|j: int| 0 <= j < k ==> bytes[j] != 0,
    decreases n,
{
    if exists|i: int| 0 <= i < n - 1 && bytes[i] == 0 {
        lemma_some_first_nul(bytes, n - 1);
    } else {
        let k = n - 1;
        assert(0 <= k < bytes.len() && bytes[k] == 0 && forall|j: int| 0 <= j < k ==> bytes[j] != 0);
    }
}

/// A C string ends in its only NUL, and making a C string of one gives it
/// back unchanged.
pub proof fn law_cstr_terminated(bytes: Seq<u8>)
    ensures
        spec_cstr(bytes).len() > 0,
        spec_cstr(bytes).last() == 0,
        forall|i: int| 0 <= i < spec_cstr(bytes).len() - 1 ==> spec_cstr(bytes)[i] != 0,
        spec_cstr(spec_cstr(bytes)) == spec_cstr(bytes),
{
    let c = spec_cstr(bytes);
    match first_nul(bytes) {
        Some(k) => {
            lemma_some_first_nul(bytes, bytes.len() as int);
        },
        None => {
            assert forall|i: int| 0 <= i < c.len() - 1 implies c[i] != 0 by {
                assert(c[i] == bytes[i]);
            }
        },
    }
    lemma_first_nul(c, c.len() - 1);
    assert(c.take(c.len() as int) =~= c);
}

/// The NUL-terminated form of `bytes`: its prefix through the first NUL, or
/// the bytes followed by a NUL where they hold none.
pub fn cstr(bytes: &[u8]) -> (r: Vec<u8>)
    ensures
        r@ == spec_cstr(bytes@),
{
    match find_nul(bytes) {
        Some(i) => {
            proof {
                lemma_first_nul(bytes@, i as int);
            }
            let mut v: Vec<u8> = Vec::new();
            let mut k: usize = 0;
            while k <= i
                invariant
                    i < bytes@.len(),
                    0 <= k <= i + 1,
                    v@ == bytes@.take(k as int),
                decreases i + 1 - k,
            {
                v.push(bytes[k]);
                k = k + 1;
                assert(v@ =~= bytes@.take(k as int));
            }
            v
        },
        None => {
            let mut v = crate::text::copy_bytes(bytes);
            v.push(0);
            v
        },
    }
}

} // verus!
