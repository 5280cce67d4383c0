//! Byte-level text helpers: comparing and appending byte strings, decimal
//! rendering of integers, and turning a request body into trimmed text.

use vstd::prelude::*;
use vstd::string::StringSliceAdditionalSpecFns;
use vstd::utf8::*;

verus! {

broadcast use vstd::utf8::encode_utf8_decode_utf8;

/// The ASCII digits of `n`, most significant first, without leading zeros.
pub open spec fn digits(n: nat) -> Seq<u8>
    decreases n,
{
    if n < 10 {
        seq![(48 + n) as u8]
    } else {
        digits(n / 10).push((48 + n % 10) as u8)
    }
}

/// The decimal text of an integer, as `Display` writes it: a `-` sign for
/// negative values, then the digits of the magnitude.
pub open spec fn decimal(i: int) -> Seq<u8> {
    if i < 0 {
        seq![45u8] + digits((-i) as nat)
    } else {
        digits(i as nat)
    }
}

/// Whether `c` has the Unicode property White_Space, the definition of
/// white space that `str::trim` follows.
pub open spec fn is_white_space(c: char) -> bool {
    let u = c as u32;
    ||| 0x09 <= u <= 0x0D
    ||| u == 0x20
    ||| u == 0x85
    ||| u == 0xA0
    ||| u == 0x1680
    ||| 0x2000 <= u <= 0x200A
    ||| u == 0x2028
    ||| u == 0x2029
    ||| u == 0x202F
    ||| u == 0x205F
    ||| u == 0x3000
}

/// A text without its leading white space.
pub open spec fn trim_start(s: Seq<char>) -> Seq<char>
    decreases s.len(),
{
    if s.len() > 0 && is_white_space(s[0]) {
        trim_start(s.drop_first())
    } else {
        s
    }
}

/// A text without its trailing white space.
pub open spec fn trim_end(s: Seq<char>) -> Seq<char>
    decreases s.len(),
{
    if s.len() > 0 && is_white_space(s.last()) {
        trim_end(s.drop_last())
    } else {
        s
    }
}

/// What `str::trim` leaves of a text: the text without its leading and
/// trailing white space.
pub open spec fn trimmed(s: Seq<char>) -> Seq<char> {
    trim_end(trim_start(s))
}

/// Whether `part` is a contiguous run of the bytes of `whole`.
pub open spec fn is_slice_of(part: Seq<u8>, whole: Seq<u8>) -> bool {
    exists|i: int, j: int| 0 <= i <= j <= whole.len() && part == #[trigger] whole.subrange(i, j)
}

/// The text carried by a request body: the body decoded as UTF-8, or the
/// empty text when the body is not valid UTF-8.
pub open spec fn body_text(body: Seq<u8>) -> Seq<char> {
    if valid_utf8(body) {
        decode_utf8(body)
    } else {
        Seq::empty()
    }
}

/// Wraps `core::str::from_utf8`: it succeeds exactly on valid UTF-8, and the
/// text it returns is a view of the same bytes.
#[verifier::external_body]
fn utf8_str(bytes: &[u8]) -> (r: Option<&str>)
    ensures
        r is Some <==> valid_utf8(bytes@),
        r matches Some(s) ==> s.spec_bytes() == bytes@,
{
    core::str::from_utf8(bytes).ok()
}

/// Wraps `str::trim`: the result is the text with leading and trailing white
/// space (the Unicode property White_Space) removed, and it is a contiguous
/// slice of the argument's bytes.
#[verifier::external_body]
fn trim_text(s: &str) -> (r: &str)
    ensures
        r@ == trimmed(s@),
        is_slice_of(r.spec_bytes(), s.spec_bytes()),
{
    s.trim()
}

/// Decodes a request body as UTF-8 (an undecodable body counts as empty) and
/// trims white space from both ends.
pub fn request_text(body: &[u8]) -> (r: &str)
    ensures
        r@ == trimmed(body_text(body@)),
        valid_utf8(body@) ==> r@ == trimmed(decode_utf8(body@)),
        !valid_utf8(body@) ==> r@.len() == 0,
        r.spec_bytes().len() <= body@.len(),
{
    let decoded = utf8_str(body);
    let text: &str = match decoded {
        Some(s) => s,
        None => "",
    };
    proof {
        reveal_strlit("");
        if valid_utf8(body@) {
            assert(text@ == decode_utf8(text.spec_bytes()));
        } else {
            assert(text@ =~= Seq::<char>::empty());
            assert(text.spec_bytes() =~= Seq::<u8>::empty());
        }
        assert(text@ == body_text(body@));
    }
    let r = trim_text(text);
    proof {
        let (i, j) = choose|i: int, j: int|
            0 <= i <= j <= text.spec_bytes().len() && r.spec_bytes() == #[trigger] text.spec_bytes().subrange(i, j);
        assert(r.spec_bytes().len() == j - i);
        if !valid_utf8(body@) {
            reveal_with_fuel(trim_start, 1);
            reveal_with_fuel(trim_end, 1);
            assert(trim_start(Seq::<char>::empty()) == Seq::<char>::empty());
            assert(trim_end(Seq::<char>::empty()) == Seq::<char>::empty());
        }
    }
    r
}

/// A text that neither starts nor ends with white space is left whole by
/// trimming.
pub proof fn law_trim_keeps_clean_text(t: Seq<char>)
    requires
        t.len() == 0 || (!is_white_space(t[0]) && !is_white_space(t.last())),
    ensures
        trimmed(t) == t,
{
}

/// Trimming removes only white space at the ends: what it leaves is a
/// contiguous part of the text that neither starts nor ends with white space,
/// and every character it dropped is white space.
pub proof fn law_trim_drops_only_white_space(t: Seq<char>)
    ensures
        exists|i: int, j: int|
            0 <= i <= j <= t.len() && trimmed(t) == #[trigger] t.subrange(i, j) && (forall|k: int|
                0 <= k < i ==> is_white_space(t[k])) && (forall|k: int|
                j <= k < t.len() ==> is_white_space(t[k])),
        trimmed(t).len() == 0 || (!is_white_space(trimmed(t)[0]) && !is_white_space(
            trimmed(t).last(),
        )),
{
    let i = lemma_trim_start(t);
    let u = trim_start(t);
    let j = lemma_trim_end(u);
    assert(trimmed(t) == t.subrange(i, i + j));
    assert forall|k: int| i + j <= k < t.len() implies is_white_space(t[k]) by {
        assert(t[k] == u[k - i]);
    }
}

proof fn lemma_trim_start(t: Seq<char>) -> (i: int)
    ensures
        0 <= i <= t.len(),
        trim_start(t) == t.subrange(i, t.len() as int),
        forall|k: int| 0 <= k < i ==> is_white_space(t[k]),
        trim_start(t).len() == 0 || !is_white_space(trim_start(t)[0]),
    decreases t.len(),
{
    if t.len() > 0 && is_white_space(t[0]) {
        let rest = t.drop_first();
        let i0 = lemma_trim_start(rest);
        assert(rest.subrange(i0, rest.len() as int) =~= t.subrange(i0 + 1, t.len() as int));
        assert forall|k: int| 0 <= k < i0 + 1 implies is_white_space(t[k]) by {
            if k > 0 {
                assert(t[k] == rest[k - 1]);
            }
        }
        i0 + 1
    } else {
        assert(t.subrange(0, t.len() as int) =~= t);
        0
    }
}

proof fn lemma_trim_end(t: Seq<char>) -> (j: int)
    ensures
        0 <= j <= t.len(),
        trim_end(t) == t.subrange(0, j),
        forall|k: int| j <= k < t.len() ==> is_white_space(t[k]),
        trim_end(t).len() == 0 || !is_white_space(trim_end(t).last()),
        t.len() == 0 || !is_white_space(t[0]) ==> trim_end(t).len() == 0 || !is_white_space(
            trim_end(t)[0],
        ),
    decreases t.len(),
{
    if t.len() > 0 && is_white_space(t.last()) {
        let rest = t.drop_last();
        let j0 = lemma_trim_end(rest);
        assert(rest.subrange(0, j0) =~= t.subrange(0, j0));
        assert forall|k: int| j0 <= k < t.len() implies is_white_space(t[k]) by {
            if k < t.len() - 1 {
                assert(t[k] == rest[k]);
            }
        }
        if t.len() == 0 || !is_white_space(t[0]) {
            if trim_end(t).len() > 0 {
                assert(trim_end(t)[0] == t[0]);
            }
        }
        j0
    } else {
        assert(t.subrange(0, t.len() as int) =~= t);
        t.len() as int
    }
}

/// A valid UTF-8 body whose text neither starts nor ends with white space
/// is read back byte for byte; an invalid body reads as the empty text.
pub proof fn law_request_text_of_clean_body(body: Seq<u8>)
    ensures
        valid_utf8(body) && (decode_utf8(body).len() == 0 || (!is_white_space(decode_utf8(body)[0])
            && !is_white_space(decode_utf8(body).last()))) ==> encode_utf8(trimmed(body_text(body)))
            == body,
        !valid_utf8(body) ==> trimmed(body_text(body)).len() == 0,
{
    if valid_utf8(body) {
        let t = decode_utf8(body);
        if t.len() == 0 || (!is_white_space(t[0]) && !is_white_space(t.last())) {
            law_trim_keeps_clean_text(t);
        }
        decode_utf8_encode_utf8(body);
    } else {
        assert(trim_start(Seq::<char>::empty()) == Seq::<char>::empty());
    }
}

/// Whether two byte strings are equal.
pub fn bytes_eq(a: &[u8], b: &[u8]) -> (r: bool)
    ensures
        r == (a@ == b@),
{
    if a.len() != b.len() {
        return false;
    }
    let n = a.len();
    let mut i: usize = 0;
    while i < n
        invariant
            n == a@.len(),
            n == b@.len(),
            i <= n,
            forall|k: int| 0 <= k < i ==> a@[k] == b@[k],
        decreases n - i,
    {
        if a[i] != b[i] {
            return false;
        }
        i = i + 1;
    }
    assert(a@ =~= b@);
    true
}

/// Whether two texts are equal, compared by their bytes.
pub fn same_text(a: &str, b: &str) -> (r: bool)
    ensures
        r == (a.spec_bytes() == b.spec_bytes()),
{
    bytes_eq(a.as_bytes(), b.as_bytes())
}

/// Appends the bytes of `s` to `out`.
pub fn push_bytes(out: &mut Vec<u8>, s: &[u8])
    ensures
        final(out)@ == old(out)@ + s@,
{
    let n = s.len();
    let mut i: usize = 0;
    while i < n
        invariant
            n == s@.len(),
            i <= n,
            out@ == old(out)@ + s@.subrange(0, i as int),
        decreases n - i,
    {
        out.push(s[i]);
        i = i + 1;
        assert(out@ =~= old(out)@ + s@.subrange(0, i as int));
    }
    assert(s@.subrange(0, n as int) =~= s@);
}

/// Appends the UTF-8 bytes of `s` to `out`.
pub fn push_text(out: &mut Vec<u8>, s: &str)
    ensures
        final(out)@ == old(out)@ + s.spec_bytes(),
{
    push_bytes(out, s.as_bytes());
}

/// Appends the decimal digits of `n` to `out`.
fn push_digits(out: &mut Vec<u8>, n: u32)
    ensures
        final(out)@ == old(out)@ + digits(n as nat),
    decreases n,
{
    if n >= 10 {
        push_digits(out, n / 10);
    }
    let d: u8 = (n % 10) as u8;
    out.push(48 + d);
    assert(out@ =~= old(out)@ + digits(n as nat));
}

/// Appends the decimal text of `v` to `out`, as `Display` for `i32` writes it.
pub fn push_decimal(out: &mut Vec<u8>, v: i32)
    ensures
        final(out)@ == old(out)@ + decimal(v as int),
{
    if v < 0 {
        out.push(45);
        let wide: i64 = v as i64;
        let magnitude: u32 = (-wide) as u32;
        push_digits(out, magnitude);
        assert(out@ =~= old(out)@ + decimal(v as int));
    } else {
        push_digits(out, v as u32);
    }
}

} // verus!
