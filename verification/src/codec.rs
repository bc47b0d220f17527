//! Byte-level codecs: base64 (through the `base64` crate), UTF-8 checks,
//! decimal rendering and quote trimming.

use vstd::prelude::*;
use vstd::utf8::*;
use vstd::string::StrSliceExecFns;
use base64::Engine;

verus! {

#[verifier::external_type_specification]
#[verifier::external_body]
pub struct ExDecodeError(base64::DecodeError);

/// What `STANDARD_NO_PAD.encode` gives for the given bytes.
pub uninterp spec fn base64_encoded(input: Seq<u8>) -> Seq<char>;

/// What `STANDARD_NO_PAD.decode` gives for the given bytes (`None` for an error).
pub uninterp spec fn base64_decoded(input: Seq<u8>) -> Option<Seq<u8>>;

/// Length of an unpadded base64 encoding of `n` bytes.
pub open spec fn unpadded_len(n: nat) -> nat {
    4 * (n / 3) + if n % 3 == 0 { 0nat } else if n % 3 == 1 { 2nat } else { 3nat }
}

/// Calls `base64::engine::general_purpose::STANDARD_NO_PAD.encode`.
/// Claimed of it: the result is the named encoding of the input, its length is
/// `encoded_len(n, false)` as the crate computes it, and decoding it with the
/// same engine gives the input back.
#[verifier::external_body]
pub(crate) fn b64_encode(input: &[u8]) -> (r: String)
    requires
        unpadded_len(input@.len()) <= usize::MAX,
    ensures
        r@ == base64_encoded(input@),
        r@.len() == unpadded_len(input@.len()),
        base64_decoded(encode_utf8(r@)) == Some(input@),
{
    base64::engine::general_purpose::STANDARD_NO_PAD.encode(input)
}

/// Calls `base64::engine::general_purpose::STANDARD_NO_PAD.decode`.
/// Claimed of it: it succeeds exactly when the named decoding exists, and then
/// returns it.
#[verifier::external_body]
pub(crate) fn b64_decode(input: &[u8]) -> (r: Result<Vec<u8>, base64::DecodeError>)
    ensures
        match r {
            Ok(v) => base64_decoded(input@) == Some(v@),
            Err(_) => base64_decoded(input@) is None,
        },
{
    base64::engine::general_purpose::STANDARD_NO_PAD.decode(input)
}

#[verifier::external_type_specification]
#[verifier::external_body]
pub struct ExFromUtf8Error(std::string::FromUtf8Error);

/// Calls `String::from_utf8`: `Err` exactly on bytes that are not UTF-8, else
/// the string those bytes encode.
#[verifier::external_body]
pub(crate) fn string_from_utf8(bytes: Vec<u8>) -> (r: Result<String, std::string::FromUtf8Error>)
    ensures
        r is Ok <==> valid_utf8(bytes@),
        r matches Ok(s) ==> s@ == decode_utf8(bytes@),
{
    String::from_utf8(bytes)
}

/// `s` without the copies of `b` it starts with.
pub open spec fn trim_start(s: Seq<u8>, b: u8) -> Seq<u8>
    decreases s.len(),
{
    if s.len() > 0 && s[0] == b {
        trim_start(s.drop_first(), b)
    } else {
        s
    }
}

/// `s` without the copies of `b` it ends with.
pub open spec fn trim_end(s: Seq<u8>, b: u8) -> Seq<u8>
    decreases s.len(),
{
    if s.len() > 0 && s.last() == b {
        trim_end(s.drop_last(), b)
    } else {
        s
    }
}

/// `s` without the copies of `b` at either end.
pub open spec fn trim_both(s: Seq<u8>, b: u8) -> Seq<u8> {
    trim_end(trim_start(s, b), b)
}

/// Trimming removes exactly the copies of `b` at the two ends: the result
/// is a contiguous part of `s`, everything cut off before and after it is
/// `b`, and the result neither starts nor ends with `b`.
pub proof fn lemma_trim_both_cuts_only_the_byte(s: Seq<u8>, b: u8)
    ensures
        exists|i: int, j: int| {
            &&& 0 <= i <= j <= s.len()
            &&& #[trigger] s.subrange(i, j) == trim_both(s, b)
            &&& forall|k: int| 0 <= k < i ==> s[k] == b
            &&& forall|k: int| j <= k < s.len() ==> s[k] == b
            &&& i < j ==> s[i] != b && s[j - 1] != b
        },
{
    let (i, t) = lemma_trim_start_shape(s, b);
    let (j, u) = lemma_trim_end_shape(t, b);
    assert(s.subrange(i, i + j) =~= u);
    assert(forall|k: int| i + j <= k < s.len() ==> s[k] == t[k - i]);
    assert(s.subrange(i, i + j) == trim_both(s, b));
}

proof fn lemma_trim_start_shape(s: Seq<u8>, b: u8) -> (r: (int, Seq<u8>))
    ensures
        0 <= r.0 <= s.len(),
        r.1 == trim_start(s, b),
        r.1 =~= s.subrange(r.0, s.len() as int),
        forall|k: int| 0 <= k < r.0 ==> s[k] == b,
        r.1.len() > 0 ==> r.1[0] != b,
    decreases s.len(),
{
    if s.len() > 0 && s[0] == b {
        let (i, t) = lemma_trim_start_shape(s.drop_first(), b);
        assert forall|k: int| 0 <= k < i + 1 implies s[k] == b by {
            if k > 0 {
                assert(s[k] == s.drop_first()[k - 1]);
            }
        }
        (i + 1, t)
    } else {
        (0, s)
    }
}

proof fn lemma_trim_end_shape(s: Seq<u8>, b: u8) -> (r: (int, Seq<u8>))
    ensures
        0 <= r.0 <= s.len(),
        r.1 == trim_end(s, b),
        r.1 =~= s.subrange(0, r.0),
        forall|k: int| r.0 <= k < s.len() ==> s[k] == b,
        r.1.len() > 0 ==> r.1.last() != b,
        r.1.len() > 0 ==> r.1[0] == s[0],
    decreases s.len(),
{
    if s.len() > 0 && s.last() == b {
        let (j, t) = lemma_trim_end_shape(s.drop_last(), b);
        assert forall|k: int| j <= k < s.len() implies s[k] == b by {
            if k < s.len() - 1 {
                assert(s[k] == s.drop_last()[k]);
            }
        }
        (j, t)
    } else {
        (s.len() as int, s)
    }
}

/// Removes every leading and trailing `b` from `s` (what `str::trim_matches`
/// does with an ASCII character, which never occurs inside a multi-byte
/// UTF-8 sequence).
pub fn trim_byte(s: &[u8], b: u8) -> (r: Vec<u8>)
    ensures
        r@ == trim_both(s@, b),
{
    let n: usize = s.len();
    let mut i: usize = 0;
    assert(s@.subrange(0, n as int) =~= s@);
    while i < n && s[i] == b
        invariant
            i <= n,
            n == s@.len(),
            trim_start(s@, b) == trim_start(s@.subrange(i as int, n as int), b),
        decreases n - i,
    {
        assert(s@.subrange(i as int, n as int).drop_first() =~= s@.subrange(i + 1, n as int));
        i = i + 1;
    }
    let ghost front = s@.subrange(i as int, n as int);
    assert(trim_start(s@, b) == front);
    let mut j: usize = n;
    while j > i && s[j - 1] == b
        invariant
            i <= j <= n,
            n == s@.len(),
            front == s@.subrange(i as int, n as int),
            trim_end(front, b) == trim_end(s@.subrange(i as int, j as int), b),
        decreases j - i,
    {
        assert(s@.subrange(i as int, j as int).drop_last() =~= s@.subrange(i as int, j - 1));
        j = j - 1;
    }
    let r = vstd::slice::slice_to_vec(vstd::slice::slice_subrange(s, i, j));
    r
}

/// Whether two strings hold the same characters.
pub fn str_equals(a: &str, b: &str) -> (r: bool)
    ensures
        r == (a@ == b@),
{
    let n: usize = a.unicode_len();
    if n != b.unicode_len() {
        return false;
    }
    let mut i: usize = 0;
    while i < n
        invariant
            i <= n,
            n == a@.len(),
            n == b@.len(),
            forall|k: int| 0 <= k < i ==> a@[k] == b@[k],
        decreases n - i,
    {
        if a.get_char(i) != b.get_char(i) {
            return false;
        }
        i = i + 1;
    }
    assert(a@ =~= b@);
    true
}

} // verus!
