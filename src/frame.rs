//! The line-framed protocol spoken with a child process.
//!
//! A request is the payload followed by one newline. A response is every byte
//! the child writes until the accumulated output contains the sentinel token;
//! the logical response is that output with the sentinel removed, decoded as
//! text and trimmed of surrounding whitespace.

use vstd::prelude::*;
use vstd::utf8::{decode_utf8, encode_utf8, valid_utf8};

verus! {

/// The newline that ends a request line.
pub const NEWLINE: u8 = 10;

/// The bytes of the token `__AETHER_DONE__` that ends every response.
pub open spec fn sentinel() -> Seq<u8> {
    seq![95u8, 95, 65, 69, 84, 72, 69, 82, 95, 68, 79, 78, 69, 95, 95]
}

/// Whether `pat` occurs in `s` starting at index `i`.
pub open spec fn occurs_at(s: Seq<u8>, pat: Seq<u8>, i: int) -> bool {
    0 <= i && i + pat.len() <= s.len() && s.subrange(i, i + pat.len()) == pat
}

/// Whether `pat` occurs anywhere in `s`.
pub open spec fn contains_seq(s: Seq<u8>, pat: Seq<u8>) -> bool {
    exists|i: int| occurs_at(s, pat, i)
}

/// `s` with every occurrence of the non-empty `pat` removed, scanning from the
/// left and never letting two removed occurrences overlap.
pub open spec fn strip_all(s: Seq<u8>, pat: Seq<u8>) -> Seq<u8>
    decreases s.len(),
{
    if pat.len() == 0 || s.len() < pat.len() {
        s
    } else if s.subrange(0, pat.len() as int) == pat {
        strip_all(s.subrange(pat.len() as int, s.len() as int), pat)
    } else {
        seq![s[0]] + strip_all(s.subrange(1, s.len() as int), pat)
    }
}

/// The bytes written to a child for one request: the payload in UTF-8 and a
/// newline.
pub open spec fn request_line(payload: Seq<char>) -> Seq<u8> {
    encode_utf8(payload).push(NEWLINE)
}

/// What decoding `b` as UTF-8 gives, each invalid sequence replaced by U+FFFD.
pub uninterp spec fn lossy_text(b: Seq<u8>) -> Seq<char>;

/// The text with its leading and trailing whitespace removed.
pub uninterp spec fn trimmed(s: Seq<char>) -> Seq<char>;

/// The logical response carried by the accumulated output `buf`.
pub open spec fn response_text(buf: Seq<u8>) -> Seq<char> {
    trimmed(lossy_text(strip_all(buf, sentinel())))
}

/// Relies on `String::from_utf8_lossy`: valid UTF-8 is decoded as it stands,
/// and the result depends on the bytes alone.
#[verifier::external_body]
fn decode_lossy(b: &[u8]) -> (r: String)
    ensures
        r@ == lossy_text(b@),
        valid_utf8(b@) ==> r@ == decode_utf8(b@),
{
    String::from_utf8_lossy(b).into_owned()
}

/// Relies on `str::trim`: the result depends on the text alone.
#[verifier::external_body]
fn trim_text(s: &str) -> (r: String)
    ensures
        r@ == trimmed(s@),
{
    s.trim().to_owned()
}

/// The sentinel token as bytes.
pub fn sentinel_bytes() -> (r: Vec<u8>)
    ensures
        r@ == sentinel(),
{
    let r = vec![95u8, 95, 65, 69, 84, 72, 69, 82, 95, 68, 79, 78, 69, 95, 95];
    assert(r@ =~= sentinel());
    r
}

/// Whether `pat` occurs in `s` at index `i`.
pub fn occurs_at_index(s: &[u8], pat: &[u8], i: usize) -> (r: bool)
    ensures
        r == occurs_at(s@, pat@, i as int),
{
    if i > s.len() || pat.len() > s.len() - i {
        return false;
    }
    let n = s.len();
    let mut k: usize = 0;
    while k < pat.len()
        invariant
            n == s@.len(),
            i + pat@.len() <= s@.len(),
            k <= pat@.len(),
            forall|j: int| 0 <= j < k ==> s@[i + j] == pat@[j],
        decreases pat@.len() - k,
    {
        if s[i + k] != pat[k] {
            assert(s@.subrange(i as int, i + pat@.len())[k as int] != pat@[k as int]);
            return false;
        }
        k = k + 1;
    }
    assert(s@.subrange(i as int, i + pat@.len()) =~= pat@);
    true
}

/// Whether `pat` occurs anywhere in `s`.
pub fn contains_bytes(s: &[u8], pat: &[u8]) -> (r: bool)
    ensures
        r == contains_seq(s@, pat@),
{
    if pat.len() == 0 {
        assert(s@.subrange(0, 0) =~= pat@);
        assert(occurs_at(s@, pat@, 0));
        return true;
    }
    let mut i: usize = 0;
    while i < s.len()
        invariant
            pat@.len() > 0,
            i <= s@.len(),
            forall|j: int| 0 <= j < i ==> !occurs_at(s@, pat@, j),
        decreases s@.len() - i,
    {
        if occurs_at_index(s, pat, i) {
            return true;
        }
        i = i + 1;
    }
    false
}

/// Whether the accumulated output holds the sentinel.
pub fn has_sentinel(buf: &[u8]) -> (r: bool)
    ensures
        r == contains_seq(buf@, sentinel()),
{
    let pat = sentinel_bytes();
    contains_bytes(buf, pat.as_slice())
}

/// `s` with every occurrence of the non-empty `pat` removed, left to right.
pub fn strip_bytes(s: &[u8], pat: &[u8]) -> (r: Vec<u8>)
    requires
        pat@.len() > 0,
    ensures
        r@ == strip_all(s@, pat@),
{
    let mut out: Vec<u8> = Vec::new();
    let mut i: usize = 0;
    assert(s@.subrange(0, s@.len() as int) =~= s@);
    while i < s.len()
        invariant
            pat@.len() > 0,
            i <= s@.len(),
            out@ + strip_all(s@.subrange(i as int, s@.len() as int), pat@) == strip_all(s@, pat@),
        decreases s@.len() - i,
    {
        let ghost rest = s@.subrange(i as int, s@.len() as int);
        if pat.len() <= s.len() - i && occurs_at_index(s, pat, i) {
            assert(rest.subrange(0, pat@.len() as int) =~= s@.subrange(i as int, i + pat@.len()));
            assert(rest.subrange(pat@.len() as int, rest.len() as int) =~= s@.subrange(
                i + pat@.len(),
                s@.len() as int,
            ));
            i = i + pat.len();
        } else if pat.len() > s.len() - i {
            // Too little is left for another occurrence: the rest is kept as it is.
            proof {
                assert(strip_all(rest, pat@) == rest);
            }
            let mut k: usize = i;
            while k < s.len()
                invariant
                    i <= k <= s@.len(),
                    out@ + s@.subrange(k as int, s@.len() as int) == strip_all(s@, pat@),
                decreases s@.len() - k,
            {
                proof {
                    assert(s@.subrange(k as int, s@.len() as int) =~= seq![s@[k as int]]
                        + s@.subrange(k + 1, s@.len() as int));
                }
                out.push(s[k]);
                k = k + 1;
            }
            assert(s@.subrange(k as int, s@.len() as int) =~= Seq::<u8>::empty());
            assert(out@ =~= out@ + Seq::<u8>::empty());
            return out;
        } else {
            assert(rest.subrange(0, pat@.len() as int) =~= s@.subrange(i as int, i + pat@.len()));
            assert(rest.subrange(1, rest.len() as int) =~= s@.subrange(i + 1, s@.len() as int));
            assert(out@.push(s@[i as int]) + strip_all(s@.subrange(i + 1, s@.len() as int), pat@)
                =~= out@ + (seq![s@[i as int]] + strip_all(
                s@.subrange(i + 1, s@.len() as int),
                pat@,
            )));
            out.push(s[i]);
            i = i + 1;
        }
    }
    assert(s@.subrange(i as int, s@.len() as int) =~= Seq::<u8>::empty());
    assert(out@ =~= out@ + Seq::<u8>::empty());
    out
}

/// The bytes to write to a child for `payload`: the payload and one newline.
pub fn encode_request(payload: &str) -> (r: Vec<u8>)
    ensures
        r@ == request_line(payload@),
{
    let bytes = payload.as_bytes();
    let mut line: Vec<u8> = Vec::new();
    let mut i: usize = 0;
    while i < bytes.len()
        invariant
            i <= bytes@.len(),
            line@ == bytes@.subrange(0, i as int),
        decreases bytes@.len() - i,
    {
        line.push(bytes[i]);
        i = i + 1;
        assert(line@ =~= bytes@.subrange(0, i as int));
    }
    assert(bytes@.subrange(0, i as int) =~= bytes@);
    line.push(NEWLINE);
    line
}

/// The logical response carried by the accumulated output `buf`: the output
/// without the sentinel, decoded and trimmed.
pub fn extract_response(buf: &[u8]) -> (r: String)
    ensures
        r@ == response_text(buf@),
{
    let pat = sentinel_bytes();
    let body = strip_bytes(buf, pat.as_slice());
    let text = decode_lossy(body.as_slice());
    trim_text(text.as_str())
}

/// The text of one unframed read from a child: the bytes decoded and trimmed,
/// with no sentinel expected.
pub fn unframed_response(chunk: &[u8]) -> (r: String)
    ensures
        r@ == trimmed(lossy_text(chunk@)),
{
    let text = decode_lossy(chunk);
    trim_text(text.as_str())
}

} // verus!
