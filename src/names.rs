use vstd::prelude::*;
use crate::graph::{GraphError, ERROR_EXTENSION_NOT_PRESENT};

verus! {

/// What UTF-8 decoding makes of a byte string: `None` where it is not
/// valid UTF-8.
pub uninterp spec fn utf8_decode(b: Seq<u8>) -> Option<Seq<char>>;

pub open spec fn all_ascii(b: Seq<u8>) -> bool {
    forall|i: int| 0 <= i < b.len() ==> #[trigger] b[i] < 128
}

pub open spec fn ascii_chars(b: Seq<u8>) -> Seq<char> {
    b.map(|i: int, c: u8| c as char)
}

pub open spec fn text_view(t: Option<String>) -> Option<Seq<char>> {
    match t {
        Some(s) => Some(s@),
        None => None,
    }
}

/// Relies on `String::from_utf8`: it accepts exactly the valid UTF-8 byte
/// strings, and ASCII bytes decode one character each.
#[verifier::external_body]
pub(crate) fn decode_utf8(b: Vec<u8>) -> (r: Option<String>)
    ensures
        text_view(r) == utf8_decode(b@),
        all_ascii(b@) ==> text_view(r) == Some(ascii_chars(b@)),
{
    String::from_utf8(b).ok()
}

/// The bytes of a fixed-size, NUL-terminated buffer up to the first NUL;
/// `None` when the buffer holds no NUL.
pub open spec fn until_nul(b: Seq<u8>) -> Option<Seq<u8>> {
    if exists|k: int| 0 <= k < b.len() && b[k] == 0 {
        let k = choose|k: int| 0 <= k < b.len() && b[k] == 0 && forall|j: int| 0 <= j < k ==> b[j] != 0;
        Some(b.take(k))
    } else {
        None
    }
}

proof fn lemma_until_nul_at(b: Seq<u8>, k: int)
    requires
        0 <= k < b.len(),
        b[k] == 0,
        forall|j: int| 0 <= j < k ==> b[j] != 0,
    ensures
        until_nul(b) == Some(b.take(k)),
{
    let c = choose|c: int| 0 <= c < b.len() && b[c] == 0 && forall|j: int| 0 <= j < c ==> b[j] != 0;
    if c < k {
        assert(b[c] != 0);
    } else if c > k {
        assert(b[k] != 0);
    }
}

/// Reads a name out of a NUL-terminated buffer as a foreign listing fills it.
pub fn name_from_buf(buf: &[u8]) -> (r: Option<Vec<u8>>)
    ensures
        r matches Some(v) ==> until_nul(buf@) == Some(v@),
        r is None ==> until_nul(buf@) is None,
{
    let mut out: Vec<u8> = Vec::new();
    let mut k: usize = 0;
    while k < buf.len()
        invariant
            k <= buf@.len(),
            out@ == buf@.take(k as int),
            forall|j: int| 0 <= j < k ==> buf@[j] != 0,
        decreases buf@.len() - k,
    {
        if buf[k] == 0 {
            proof {
                lemma_until_nul_at(buf@, k as int);
            }
            return Some(out);
        }
        out.push(buf[k]);
        k = k + 1;
        proof {
            assert(out@ =~= buf@.take(k as int));
        }
    }
    None
}

/// The text of a NUL-terminated name buffer, if it has one.
pub open spec fn buf_text(b: Seq<u8>) -> Option<Seq<char>> {
    match until_nul(b) {
        Some(bytes) => utf8_decode(bytes),
        None => None,
    }
}

/// Reads a name out of a NUL-terminated buffer and decodes it as UTF-8.
pub fn text_from_buf(buf: &[u8]) -> (r: Option<String>)
    ensures
        text_view(r) == buf_text(buf@),
{
    match name_from_buf(buf) {
        Some(bytes) => decode_utf8(bytes),
        None => None,
    }
}

/// Reads the names of a listing, one NUL-terminated buffer per entry, in
/// listing order; `None` when a buffer holds no NUL.
pub fn names_from_listing(entries: &Vec<Vec<u8>>) -> (r: Option<Vec<Vec<u8>>>)
    ensures
        r matches Some(v) ==> v@.len() == entries@.len() && forall|i: int|
            0 <= i < v@.len() ==> until_nul(entries@[i]@) == Some((#[trigger] v@[i])@),
        r is None <==> exists|i: int| 0 <= i < entries@.len() && until_nul((#[trigger] entries@[i])@) is None,
{
    let mut out: Vec<Vec<u8>> = Vec::new();
    let mut k: usize = 0;
    while k < entries.len()
        invariant
            k <= entries@.len(),
            out@.len() == k,
            forall|i: int| 0 <= i < k ==> until_nul(entries@[i]@) == Some((#[trigger] out@[i])@),
        decreases entries@.len() - k,
    {
        match name_from_buf(entries[k].as_slice()) {
            Some(name) => out.push(name),
            None => return None,
        }
        k = k + 1;
    }
    proof {
        assert forall|i: int| 0 <= i < entries@.len() implies until_nul((#[trigger] entries@[i])@) is Some by {
            assert(until_nul(entries@[i]@) == Some(out@[i]@));
        }
    }
    Some(out)
}

/// Byte-for-byte, case-sensitive comparison of two names.
pub fn same_name(a: &Vec<u8>, b: &Vec<u8>) -> (r: bool)
    ensures
        r == (a@ == b@),
{
    if a.len() != b.len() {
        return false;
    }
    let mut k: usize = 0;
    while k < a.len()
        invariant
            a@.len() == b@.len(),
            k <= a@.len(),
            forall|j: int| 0 <= j < k ==> a@[j] == b@[j],
        decreases a@.len() - k,
    {
        if a[k] != b[k] {
            return false;
        }
        k = k + 1;
    }
    proof {
        assert(a@ =~= b@);
    }
    true
}

pub open spec fn listed(names: Seq<Vec<u8>>, name: Seq<u8>) -> bool {
    exists|i: int| 0 <= i < names.len() && (#[trigger] names[i])@ == name
}

/// Whether `name` is among `names`.
pub fn contains_name(names: &Vec<Vec<u8>>, name: &Vec<u8>) -> (r: bool)
    ensures
        r == listed(names@, name@),
{
    let mut k: usize = 0;
    while k < names.len()
        invariant
            k <= names@.len(),
            forall|j: int| 0 <= j < k ==> (#[trigger] names@[j])@ != name@,
        decreases names@.len() - k,
    {
        if same_name(&names[k], name) {
            return true;
        }
        k = k + 1;
    }
    false
}

/// The position of the first required name that `available` does not list.
pub fn missing_capability(required: &Vec<Vec<u8>>, available: &Vec<Vec<u8>>) -> (r: Option<usize>)
    ensures
        r matches Some(i) ==> i < required@.len() && !listed(available@, required@[i as int]@)
            && forall|j: int| 0 <= j < i ==> listed(available@, (#[trigger] required@[j])@),
        r is None ==> forall|j: int|
            0 <= j < required@.len() ==> listed(available@, (#[trigger] required@[j])@),
{
    let mut k: usize = 0;
    while k < required.len()
        invariant
            k <= required@.len(),
            forall|j: int| 0 <= j < k ==> listed(available@, (#[trigger] required@[j])@),
        decreases required@.len() - k,
    {
        if !contains_name(available, &required[k]) {
            return Some(k);
        }
        k = k + 1;
    }
    None
}

/// Decides whether a context that requires these capabilities may be
/// created: every one must be among those the foreign subsystem lists.
pub fn check_capabilities(required: &Vec<Vec<u8>>, available: &Vec<Vec<u8>>) -> (r: Result<
    (),
    GraphError,
>)
    ensures
        r is Ok <==> forall|j: int|
            0 <= j < required@.len() ==> listed(available@, (#[trigger] required@[j])@),
        r is Err ==> r == Err::<(), GraphError>(GraphError::CreationFailed(ERROR_EXTENSION_NOT_PRESENT)),
{
    match missing_capability(required, available) {
        Some(_) => Err(GraphError::CreationFailed(ERROR_EXTENSION_NOT_PRESENT)),
        None => Ok(()),
    }
}

} // verus!
