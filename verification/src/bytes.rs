//! Byte strings: the text of specials, of font names and of what is drawn.

use vstd::prelude::*;
use vstd::utf8::{decode_utf8, valid_utf8};

verus! {

/// The decimal digits of a natural number, in ASCII.
pub open spec fn digits_of(n: nat) -> Seq<u8>
    decreases n,
{
    if n < 10 {
        seq![(48 + n) as u8]
    } else {
        digits_of(n / 10).push((48 + n % 10) as u8)
    }
}

/// A number in decimal notation, in ASCII, with a minus sign if negative.
pub open spec fn decimal(n: int) -> Seq<u8> {
    if n < 0 {
        seq![45u8] + digits_of((-n) as nat)
    } else {
        digits_of(n as nat)
    }
}

/// Whether `text` begins with `prefix`.
pub open spec fn has_prefix(text: Seq<u8>, prefix: Seq<u8>) -> bool {
    text.len() >= prefix.len() && text.subrange(0, prefix.len() as int) == prefix
}

/// Whether `pattern` stands in `text` at offset `at`.
pub open spec fn occurs_at(text: Seq<u8>, at: int, pattern: Seq<u8>) -> bool {
    0 <= at && at + pattern.len() <= text.len() && text.subrange(at, at + pattern.len())
        == pattern
}

/// `text` with every occurrence of `pattern` replaced by `with`. The
/// occurrences are found from the left and do not overlap. An empty pattern
/// occurs nowhere.
pub open spec fn replaced(text: Seq<u8>, pattern: Seq<u8>, with: Seq<u8>) -> Seq<u8>
    decreases text.len(),
{
    if pattern.len() == 0 || text.len() < pattern.len() {
        text
    } else if occurs_at(text, 0, pattern) {
        with + replaced(text.skip(pattern.len() as int), pattern, with)
    } else {
        seq![text[0]] + replaced(text.skip(1), pattern, with)
    }
}

/// How often `pattern` occurs in `text`. The occurrences are found from the
/// left and do not overlap. An empty pattern occurs nowhere.
pub open spec fn occurrences(text: Seq<u8>, pattern: Seq<u8>) -> nat
    decreases text.len(),
{
    if pattern.len() == 0 || text.len() < pattern.len() {
        0
    } else if occurs_at(text, 0, pattern) {
        1 + occurrences(text.skip(pattern.len() as int), pattern)
    } else {
        occurrences(text.skip(1), pattern)
    }
}

/// The decimal digits of a number.
pub fn digits(n: u64) -> (text: Vec<u8>)
    ensures
        text@ == digits_of(n as nat),
    decreases n,
{
    if n < 10 {
        let mut text: Vec<u8> = Vec::new();
        text.push(48 + n as u8);
        assert(text@ =~= digits_of(n as nat));
        text
    } else {
        let mut text = digits(n / 10);
        text.push(48 + (n % 10) as u8);
        text
    }
}

/// Appends `bytes` to `out`.
pub fn push_all(out: &mut Vec<u8>, bytes: &[u8])
    ensures
        final(out)@ == old(out)@ + bytes@,
{
    let mut i: usize = 0;
    while i < bytes.len()
        invariant
            i <= bytes@.len(),
            out@ == old(out)@ + bytes@.subrange(0, i as int),
        decreases bytes.len() - i,
    {
        out.push(bytes[i]);
        i += 1;
        assert(out@ =~= old(out)@ + bytes@.subrange(0, i as int));
    }
    assert(bytes@.subrange(0, i as int) =~= bytes@);
}

/// The bytes of `text` from `from` up to `to`.
pub fn slice_of(text: &[u8], from: usize, to: usize) -> (part: Vec<u8>)
    requires
        from <= to <= text@.len(),
    ensures
        part@ == text@.subrange(from as int, to as int),
{
    let mut part: Vec<u8> = Vec::new();
    let mut i: usize = from;
    while i < to
        invariant
            from <= i <= to <= text@.len(),
            part@ == text@.subrange(from as int, i as int),
        decreases to - i,
    {
        part.push(text[i]);
        i += 1;
        assert(part@ =~= text@.subrange(from as int, i as int));
    }
    part
}

/// Whether `pattern` stands in `text` at offset `at`.
pub fn matches_at(text: &[u8], at: usize, pattern: &[u8]) -> (found: bool)
    ensures
        found == occurs_at(text@, at as int, pattern@),
{
    let size = text.len();
    let len = pattern.len();
    if at > size || size - at < len {
        return false;
    }
    let mut i: usize = 0;
    while i < len
        invariant
            i <= len,
            len == pattern@.len(),
            size == text@.len(),
            at + len <= size,
            forall|j: int| 0 <= j < i ==> text@[at + j] == pattern@[j],
        decreases len - i,
    {
        if text[at + i] != pattern[i] {
            assert(text@.subrange(at as int, at + len)[i as int] != pattern@[i as int]);
            return false;
        }
        i += 1;
    }
    assert(text@.subrange(at as int, at + len) =~= pattern@);
    true
}

/// Whether `text` begins with `prefix`.
pub fn starts_with(text: &[u8], prefix: &[u8]) -> (found: bool)
    ensures
        found == has_prefix(text@, prefix@),
{
    matches_at(text, 0, prefix)
}

/// Whether two byte strings are the same.
pub fn same_bytes(a: &[u8], b: &[u8]) -> (same: bool)
    ensures
        same == (a@ == b@),
{
    let same = a.len() == b.len() && matches_at(a, 0, b);
    proof {
        if a@.len() == b@.len() {
            assert(a@.subrange(0, a@.len() as int) =~= a@);
        }
    }
    same
}

/// `text` with every occurrence of `pattern` replaced by `with`.
pub fn replace(text: &[u8], pattern: &[u8], with: &[u8]) -> (out: Vec<u8>)
    ensures
        out@ == replaced(text@, pattern@, with@),
{
    let size = text.len();
    let len = pattern.len();
    let mut out: Vec<u8> = Vec::new();
    if len == 0 {
        push_all(&mut out, text);
        assert(out@ =~= text@);
        return out;
    }
    let mut at: usize = 0;
    assert(text@.skip(0) =~= text@);
    while size - at >= len
        invariant
            at <= size,
            size == text@.len(),
            len == pattern@.len(),
            len > 0,
            out@ + replaced(text@.skip(at as int), pattern@, with@) == replaced(
                text@,
                pattern@,
                with@,
            ),
        decreases size - at,
    {
        let ghost rest = text@.skip(at as int);
        if matches_at(text, at, pattern) {
            assert(rest.subrange(0, len as int) =~= text@.subrange(at as int, at + len));
            assert(rest.skip(len as int) =~= text@.skip(at + len));
            let ghost before = out@;
            push_all(&mut out, with);
            at += len;
            assert(out@ + replaced(text@.skip(at as int), pattern@, with@) =~= before + (with@
                + replaced(text@.skip(at as int), pattern@, with@)));
        } else {
            assert(rest.subrange(0, len as int) =~= text@.subrange(at as int, at + len));
            assert(rest.skip(1) =~= text@.skip(at + 1));
            let ghost before = out@;
            out.push(text[at]);
            at += 1;
            assert(out@ + replaced(text@.skip(at as int), pattern@, with@) =~= before + (
            seq![rest[0]] + replaced(text@.skip(at as int), pattern@, with@)));
        }
    }
    let rest = slice_of(text, at, size);
    push_all(&mut out, rest.as_slice());
    assert(rest@ =~= text@.skip(at as int));
    out
}

/// How often `pattern` occurs in `text`.
pub fn count(text: &[u8], pattern: &[u8]) -> (found: usize)
    ensures
        found == occurrences(text@, pattern@),
{
    let size = text.len();
    let len = pattern.len();
    if len == 0 {
        return 0;
    }
    let mut found: usize = 0;
    let mut at: usize = 0;
    assert(text@.skip(0) =~= text@);
    while size - at >= len
        invariant
            at <= size,
            found <= at,
            size == text@.len(),
            len == pattern@.len(),
            len > 0,
            found + occurrences(text@.skip(at as int), pattern@) == occurrences(text@, pattern@),
        decreases size - at,
    {
        let ghost rest = text@.skip(at as int);
        assert(rest.subrange(0, len as int) =~= text@.subrange(at as int, at + len));
        if matches_at(text, at, pattern) {
            assert(rest.skip(len as int) =~= text@.skip(at + len));
            found += 1;
            at += len;
        } else {
            assert(rest.skip(1) =~= text@.skip(at + 1));
            at += 1;
        }
    }
    found
}

/// `String::from_utf8` of the standard library: the text that bytes encode,
/// which there is if and only if the bytes are UTF-8.
#[verifier::external_body]
pub(crate) fn text_of_bytes(bytes: Vec<u8>) -> (text: Option<String>)
    ensures
        text is Some <==> valid_utf8(bytes@),
        text is Some ==> text->0@ == decode_utf8(bytes@),
{
    String::from_utf8(bytes).ok()
}

} // verus!
