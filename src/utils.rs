//! Fixed-width text fields: strings written NUL-padded, read up to the first NUL.

use vstd::prelude::*;
use vstd::slice::slice_subrange;
use vstd::string::*;
use vstd::utf8::*;

verus! {

/// `b` cut or zero-padded to exactly `n` bytes.
pub open spec fn fixed_field(b: Seq<u8>, n: nat) -> Seq<u8> {
    Seq::new(n, |i: int| if i < b.len() { b[i] } else { 0u8 })
}

/// The bytes of `b` before its first NUL (all of `b` if it has none).
pub open spec fn until_nul(b: Seq<u8>) -> Seq<u8>
    decreases b.len(),
{
    if b.len() == 0 || b[0] == 0 {
        Seq::<u8>::empty()
    } else {
        seq![b[0]] + until_nul(b.drop_first())
    }
}

/// The text `String::from_utf8_lossy` makes of `b`.
pub uninterp spec fn lossy_text(b: Seq<u8>) -> Seq<char>;

/// The text of a NUL-padded field.
pub open spec fn field_text(b: Seq<u8>) -> Seq<char> {
    lossy_text(until_nul(b))
}

/// Relies on String::from_utf8_lossy: valid UTF-8 decodes to its characters;
/// otherwise the text depends on the bytes alone.
#[verifier::external_body]
fn utf8_lossy(b: &[u8]) -> (r: String)
    ensures
        r@ == lossy_text(b@),
        valid_utf8(b@) ==> r@ == decode_utf8(b@),
{
    String::from_utf8_lossy(b).into_owned()
}

/// The bytes of `s`, cut or zero-padded to `n`.
pub fn str_to_bytes(s: &str, n: usize) -> (r: Vec<u8>)
    ensures
        r@ == fixed_field(s.spec_bytes(), n as nat),
{
    let b = s.as_bytes();
    let mut out: Vec<u8> = Vec::new();
    let mut i: usize = 0;
    while i < n
        invariant
            i <= n,
            b@ == s.spec_bytes(),
            out@ == fixed_field(b@, n as nat).subrange(0, i as int),
        decreases n - i,
    {
        if i < b.len() {
            out.push(b[i]);
        } else {
            out.push(0);
        }
        i = i + 1;
        assert(out@ =~= fixed_field(b@, n as nat).subrange(0, i as int));
    }
    assert(out@ =~= fixed_field(b@, n as nat));
    out
}

/// When `b[..i]` holds no NUL and `b[i]` is one (or `i` is the end), the
/// text before the first NUL is `b[..i]`.
proof fn lemma_until_nul_at(b: Seq<u8>, i: int)
    requires
        0 <= i <= b.len(),
        forall|j: int| 0 <= j < i ==> b[j] != 0,
        i < b.len() ==> b[i] == 0,
    ensures
        until_nul(b) == b.subrange(0, i),
    decreases i,
{
    if i > 0 {
        lemma_until_nul_at(b.drop_first(), i - 1);
        assert(b.subrange(0, i) =~= seq![b[0]] + b.drop_first().subrange(0, i - 1));
    } else {
        assert(b.subrange(0, i) =~= Seq::<u8>::empty());
    }
}

/// The text of a NUL-padded field.
pub fn bytes_to_str(b: &[u8]) -> (r: String)
    ensures
        r@ == field_text(b@),
{
    let mut i: usize = 0;
    while i < b.len() && b[i] != 0
        invariant
            i <= b@.len(),
            forall|j: int| 0 <= j < i ==> b@[j] != 0,
        decreases b.len() - i,
    {
        i = i + 1;
    }
    proof {
        lemma_until_nul_at(b@, i as int);
    }
    utf8_lossy(slice_subrange(b, 0, i))
}

} // verus!
