//! UTF-8 and code points, and the standard library's conversions of them.
use vstd::prelude::*;
use vstd::utf8::*;
use vstd::string::StrSliceExecFns;

verus! {

/// `v` is a Unicode scalar value, i.e. the value of some `char`.
pub open spec fn is_code_point(v: u32) -> bool {
    v <= 0xD7FF || (0xE000 <= v && v <= 0x10FFFF)
}

/// The length of the longest valid UTF-8 prefix of `bytes` among its first `k` bytes.
pub open spec fn utf8_valid_prefix(bytes: Seq<u8>, k: nat) -> nat
    decreases k,
{
    if k == 0 {
        0
    } else if valid_utf8(bytes.take(k as int)) {
        k
    } else {
        utf8_valid_prefix(bytes, (k - 1) as nat)
    }
}

/// The largest index up to which `bytes` is valid UTF-8.
pub open spec fn utf8_valid_up_to(bytes: Seq<u8>) -> nat {
    utf8_valid_prefix(bytes, bytes.len())
}

pub proof fn lemma_utf8_valid_prefix_bound(bytes: Seq<u8>, k: nat)
    ensures
        utf8_valid_prefix(bytes, k) <= k,
    decreases k,
{
    if k > 0 {
        lemma_utf8_valid_prefix_bound(bytes, (k - 1) as nat);
    }
}

/// Invalid UTF-8 goes wrong at an index within it.
pub proof fn lemma_utf8_valid_up_to_bound(bytes: Seq<u8>)
    requires
        !valid_utf8(bytes),
    ensures
        utf8_valid_up_to(bytes) < bytes.len(),
{
    assert(bytes.take(bytes.len() as int) =~= bytes);
    if bytes.len() > 0 {
        lemma_utf8_valid_prefix_bound(bytes, (bytes.len() - 1) as nat);
    }
}

/// Converts a code point into a character, where it is one (`char::from_u32`).
#[verifier::external_body]
pub(crate) fn char_from_u32(v: u32) -> (r: Option<char>)
    ensures
        r == (if is_code_point(v) {
            Some(v as char)
        } else {
            None
        }),
{
    char::from_u32(v)
}

/// Checks that `bytes` is UTF-8 (`core::str::from_utf8`).
///
/// On success the string whose bytes are `bytes` is returned; otherwise the index up to which
/// the bytes are valid UTF-8.
#[verifier::external_body]
pub(crate) fn str_from_utf8(bytes: &[u8]) -> (r: Result<&str, usize>)
    ensures
        r is Ok <==> valid_utf8(bytes@),
        r matches Ok(s) ==> encode_utf8(s@) == bytes@,
        r matches Err(i) ==> i == utf8_valid_up_to(bytes@),
{
    match core::str::from_utf8(bytes) {
        Ok(s) => Ok(s),
        Err(e) => Err(e.valid_up_to()),
    }
}


/// Encoding a concatenation of characters concatenates their encodings.
pub proof fn lemma_encode_utf8_append(a: Seq<char>, b: Seq<char>)
    ensures
        encode_utf8(a + b) == encode_utf8(a) + encode_utf8(b),
    decreases a.len(),
{
    if a.len() == 0 {
        assert(a + b =~= b);
        assert(encode_utf8(a) + encode_utf8(b) =~= encode_utf8(b));
    } else {
        lemma_encode_utf8_append(a.drop_first(), b);
        assert((a + b).drop_first() =~= a.drop_first() + b);
        assert((a + b)[0] == a[0]);
        assert(encode_utf8(a + b) =~= encode_utf8(a) + encode_utf8(b));
    }
}

/// Decoding a concatenation of valid UTF-8 concatenates the decoded characters.
pub proof fn lemma_decode_utf8_append(a: Seq<u8>, b: Seq<u8>)
    requires
        valid_utf8(a),
        valid_utf8(b),
    ensures
        valid_utf8(a + b),
        decode_utf8(a + b) == decode_utf8(a) + decode_utf8(b),
{
    decode_utf8_encode_utf8(a);
    decode_utf8_encode_utf8(b);
    lemma_encode_utf8_append(decode_utf8(a), decode_utf8(b));
    encode_utf8_decode_utf8(decode_utf8(a) + decode_utf8(b));
    encode_utf8_valid_utf8(decode_utf8(a) + decode_utf8(b));
}

/// Valid UTF-8 whose bytes after the first are all continuation bytes holds exactly one
/// character.
pub proof fn lemma_single_scalar(b: Seq<u8>)
    requires
        valid_utf8(b),
        b.len() > 0,
        forall|j: int| 1 <= j < b.len() ==> is_continuation_byte(#[trigger] b[j]),
    ensures
        decode_utf8(b).len() == 1,
{
    let k = length_of_first_scalar(b);
    assert(1 <= k <= b.len());
    if k < b.len() {
        reveal_with_fuel(is_char_boundary, 2);
        assert(is_char_boundary(pop_first_scalar(b), 0));
        assert(is_char_boundary(b, k));
        is_char_boundary_iff_not_is_continuation_byte(b, k);
        assert(false);
    }
    assert(pop_first_scalar(b).len() == 0);
    assert(decode_utf8(pop_first_scalar(b)) =~= Seq::<char>::empty());
}

/// Converts a character into the string holding it alone (`String::from`).
#[verifier::external_body]
pub(crate) fn string_of_char(c: char) -> (r: String)
    ensures
        r@ == seq![c],
{
    String::from(c)
}


/// The characters of `s`, each with the index of its first octet.
pub open spec fn indexed_chars(s: Seq<char>) -> Seq<(usize, char)> {
    Seq::new(s.len(), |i: int| (encode_utf8(s.take(i)).len() as usize, s[i]))
}

/// Lists the characters of a string along with their positions.
pub fn char_indices_of(s: &str) -> (r: Vec<(usize, char)>)
    ensures
        r@ == indexed_chars(s@),
{
    let bytes = s.as_bytes();
    let len = bytes.len();
    let mut r: Vec<(usize, char)> = Vec::new();
    let mut p: usize = 0;
    let ghost mut chars: Seq<char> = Seq::empty();
    proof {
        encode_utf8_valid_utf8(s@);
        encode_utf8_decode_utf8(s@);
        assert(bytes@.take(0) =~= Seq::<u8>::empty());
        assert(bytes@.skip(0) =~= bytes@);
    }
    while p < len
        invariant
            len == bytes@.len(),
            bytes@ == encode_utf8(s@),
            p <= len,
            valid_utf8(bytes@.take(p as int)),
            valid_utf8(bytes@.skip(p as int)),
            chars == decode_utf8(bytes@.take(p as int)),
            r@.len() == chars.len(),
            forall|i: int|
                0 <= i < chars.len() ==> #[trigger] r@[i] == (
                    encode_utf8(chars.take(i)).len() as usize,
                    chars[i],
                ),
        decreases len - p,
    {
        let ghost rest = bytes@.skip(p as int);
        let mut q: usize = p + 1;
        while q < len && 0x80 <= bytes[q] && bytes[q] <= 0xBF
            invariant
                p < q <= len,
                len == bytes@.len(),
                rest == bytes@.skip(p as int),
                forall|j: int| p < j < q ==> is_continuation_byte(#[trigger] bytes@[j]),
            decreases len - q,
        {
            q = q + 1;
        }
        let ghost k: int = q - p;
        proof {
            is_char_boundary_start_end_of_seq(rest);
            if q < len {
                assert(rest[k] == bytes@[q as int]);
                is_char_boundary_iff_not_is_continuation_byte(rest, k);
            }
            assert(is_char_boundary(rest, k));
            valid_utf8_split(rest, k);
            let one = rest.subrange(0, k);
            assert forall|j: int| 1 <= j < one.len() implies is_continuation_byte(#[trigger] one[j]) by {
                assert(one[j] == bytes@[p + j]);
            }
            lemma_single_scalar(one);
            assert(one =~= bytes@.subrange(p as int, q as int));
            assert(rest.subrange(k, rest.len() as int) =~= bytes@.skip(q as int));
            lemma_decode_utf8_append(bytes@.take(p as int), one);
            assert(bytes@.take(p as int) + one =~= bytes@.take(q as int));
            decode_utf8_encode_utf8(bytes@.take(p as int));
        }
        let piece = vstd::slice::slice_subrange(bytes, p, q);
        match str_from_utf8(piece) {
            Ok(t) => {
                proof {
                    encode_utf8_decode_utf8(t@);
                }
                let c = t.get_char(0);
                r.push((p, c));
                proof {
                    let old_chars = chars;
                    chars = chars.push(c);
                    assert forall|i: int| 0 <= i < chars.len() implies #[trigger] r@[i] == (
                        encode_utf8(chars.take(i)).len() as usize,
                        chars[i],
                    ) by {
                        if i < old_chars.len() {
                            assert(chars.take(i) =~= old_chars.take(i));
                        } else {
                            assert(chars.take(i) =~= old_chars);
                        }
                    }
                }
                p = q;
            },
            Err(_) => {
                proof {
                    assert(false);
                }
                return r;
            },
        }
    }
    proof {
        assert(bytes@.take(len as int) =~= bytes@);
        assert(r@ =~= indexed_chars(s@));
    }
    r
}


/// Allocates an empty string that can hold `n` octets without reallocating
/// (`String::with_capacity`).
#[verifier::external_body]
pub(crate) fn string_with_capacity(n: usize) -> (r: String)
    ensures
        r@ == Seq::<char>::empty(),
{
    String::with_capacity(n)
}

/// Appends a string slice to a string (`String::push_str`).
#[verifier::external_body]
pub(crate) fn string_push_str(s: &mut String, t: &str)
    ensures
        final(s)@ == old(s)@ + t@,
{
    s.push_str(t)
}


/// Tests if `i` is a character boundary of the valid UTF-8 `bytes`: its start, its end, or the
/// index of an octet that is not a continuation octet.
pub fn is_boundary(bytes: &[u8], i: usize) -> (r: bool)
    requires
        valid_utf8(bytes@),
        i <= bytes@.len(),
    ensures
        r == is_char_boundary(bytes@, i as int),
{
    proof {
        is_char_boundary_start_end_of_seq(bytes@);
        if i < bytes@.len() {
            is_char_boundary_iff_not_is_continuation_byte(bytes@, i as int);
        }
    }
    if i == bytes.len() {
        true
    } else {
        !(0x80 <= bytes[i] && bytes[i] <= 0xBF)
    }
}

} // verus!
