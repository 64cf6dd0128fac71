//! Normalization of the file names that the engine hands to the host.

use crate::filesystem::same_text;
use vstd::prelude::*;
use vstd::string::StrSliceExecFns;

verus! {

/// Whether a character is white space, as Unicode defines it.
pub open spec fn is_space(c: char) -> bool {
    let code = c as u32;
    ||| 0x09 <= code <= 0x0D
    ||| code == 0x20
    ||| code == 0x85
    ||| code == 0xA0
    ||| code == 0x1680
    ||| 0x2000 <= code <= 0x200A
    ||| code == 0x2028
    ||| code == 0x2029
    ||| code == 0x202F
    ||| code == 0x205F
    ||| code == 0x3000
}

/// The index of the first character at or after `from` that is no white
/// space, or the length of `text`.
pub open spec fn leading_spaces(text: Seq<char>, from: int) -> int
    decreases text.len() - from,
{
    if from < 0 || from >= text.len() {
        text.len() as int
    } else if !is_space(text[from]) {
        from
    } else {
        leading_spaces(text, from + 1)
    }
}

/// The length of what is left of the first `to` characters of `text` when the
/// white space at their end is taken away.
pub open spec fn trailing_end(text: Seq<char>, to: int) -> int
    decreases to,
{
    if to <= 0 || to > text.len() {
        0
    } else if !is_space(text[to - 1]) {
        to
    } else {
        trailing_end(text, to - 1)
    }
}

/// `text` without the white space at its start and at its end.
pub open spec fn trimmed(text: Seq<char>) -> Seq<char> {
    let start = leading_spaces(text, 0);
    let end = trailing_end(text, text.len() as int);
    if start >= end {
        Seq::empty()
    } else {
        text.subrange(start, end)
    }
}

/// The index of the last occurrence of `c` among the first `to` characters of
/// `text`, or -1.
pub open spec fn last_index_of(text: Seq<char>, c: char, to: int) -> int
    decreases to,
{
    if to <= 0 || to > text.len() {
        -1
    } else if text[to - 1] == c {
        to - 1
    } else {
        last_index_of(text, c, to - 1)
    }
}

/// `text` without the pair of delimiters around it. Text that does not begin
/// with `open` is left as it is. Otherwise the result begins behind `open` and
/// ends before the last `close` behind it; where there is no such `close` it
/// reaches to the end.
pub open spec fn undelimited(text: Seq<char>, open: char, close: char) -> Seq<char> {
    if text.len() > 0 && text[0] == open {
        let last = last_index_of(text, close, text.len() as int);
        if last > 0 {
            text.subrange(1, last)
        } else {
            text.subrange(1, text.len() as int)
        }
    } else {
        text
    }
}

/// The name of the string pool, as the engine asks for it.
pub open spec fn pool_request() -> Seq<char> {
    "TeXformats:TEX.POOL"@
}

/// The name of the string pool in the file system.
pub open spec fn pool_name() -> Seq<char> {
    "tex.pool"@
}

/// The normal form of a file name: white space is trimmed, a pair of quotes
/// and then a pair of braces around the name are taken away, white space is
/// trimmed again, and the request for the string pool becomes the name of the
/// pool file.
pub open spec fn clean_name(name: Seq<char>) -> Seq<char> {
    let bare = trimmed(undelimited(undelimited(trimmed(name), '"', '"'), '{', '}'));
    if bare == pool_request() {
        pool_name()
    } else {
        bare
    }
}

/// Whether a character is white space.
pub fn is_whitespace(c: char) -> (space: bool)
    ensures
        space == is_space(c),
{
    let code: u32 = c as u32;
    (0x09 <= code && code <= 0x0D) || code == 0x20 || code == 0x85 || code == 0xA0 || code
        == 0x1680 || (0x2000 <= code && code <= 0x200A) || code == 0x2028 || code == 0x2029
        || code == 0x202F || code == 0x205F || code == 0x3000
}

/// `text` without the white space at its start and at its end.
pub fn trim<'a>(text: &'a str) -> (inner: &'a str)
    ensures
        inner@ == trimmed(text@),
{
    let len = text.unicode_len();
    let mut start: usize = 0;
    while start < len && is_whitespace(text.get_char(start))
        invariant
            start <= len,
            len == text@.len(),
            leading_spaces(text@, 0) == leading_spaces(text@, start as int),
        decreases len - start,
    {
        start += 1;
    }
    let mut end: usize = len;
    while end > 0 && is_whitespace(text.get_char(end - 1))
        invariant
            end <= len,
            len == text@.len(),
            trailing_end(text@, len as int) == trailing_end(text@, end as int),
        decreases end,
    {
        end -= 1;
    }
    if start >= end {
        let inner = text.substring_char(0, 0);
        assert(inner@ =~= Seq::empty());
        inner
    } else {
        text.substring_char(start, end)
    }
}

/// The index of the last occurrence of `c` in `text`.
fn find_last(text: &str, c: char) -> (found: Option<usize>)
    ensures
        match found {
            Some(at) => at == last_index_of(text@, c, text@.len() as int) && at < text@.len(),
            None => last_index_of(text@, c, text@.len() as int) == -1,
        },
{
    let len = text.unicode_len();
    let mut end: usize = len;
    while end > 0
        invariant
            end <= len,
            len == text@.len(),
            last_index_of(text@, c, len as int) == last_index_of(text@, c, end as int),
        decreases end,
    {
        if text.get_char(end - 1) == c {
            return Some(end - 1);
        }
        end -= 1;
    }
    None
}

/// `text` without the pair of delimiters around it.
pub fn strip_delimiters<'a>(text: &'a str, open: char, close: char) -> (inner: &'a str)
    ensures
        inner@ == undelimited(text@, open, close),
{
    let len = text.unicode_len();
    if len > 0 && text.get_char(0) == open {
        match find_last(text, close) {
            Some(last) => {
                if last > 0 {
                    text.substring_char(1, last)
                } else {
                    text.substring_char(1, len)
                }
            },
            None => text.substring_char(1, len),
        }
    } else {
        text
    }
}

/// Cleans up a file name by
///  - Trimming any white space around it
///  - If the string is quoted, take just the contents of the quotes.
///  - If the string is in curly braces "{...}", take just the contents of the
///    braces.
///  - Trimming once more, and naming the pool file where the pool is asked
///    for.
pub fn clean_filename(file_name: &str) -> (cleaned: &str)
    ensures
        cleaned@ == clean_name(file_name@),
{
    let outer = trim(file_name);
    let unquoted = strip_delimiters(outer, '"', '"');
    let unbraced = strip_delimiters(unquoted, '{', '}');
    let bare = trim(unbraced);
    // TeXformats:TEX.POOL is a special file where all of TeX's internal
    // strings are supposed to be stored. It is kept as `tex.pool`.
    if same_text(bare, "TeXformats:TEX.POOL") {
        "tex.pool"
    } else {
        bare
    }
}

/// The first character of trimmed text, and its last, are no white space.
pub proof fn lemma_trimmed_has_no_margin(text: Seq<char>)
    ensures
        trimmed(text).len() > 0 ==> !is_space(trimmed(text).first()) && !is_space(
            trimmed(text).last(),
        ),
        trimmed(text).len() <= text.len(),
{
    lemma_leading_spaces(text, 0);
    lemma_trailing_end(text, text.len() as int);
}

proof fn lemma_leading_spaces(text: Seq<char>, from: int)
    requires
        0 <= from <= text.len(),
    ensures
        from <= leading_spaces(text, from) <= text.len(),
        leading_spaces(text, from) < text.len() ==> !is_space(text[leading_spaces(text, from)]),
    decreases text.len() - from,
{
    if from < text.len() && is_space(text[from]) {
        lemma_leading_spaces(text, from + 1);
    }
}

proof fn lemma_trailing_end(text: Seq<char>, to: int)
    requires
        0 <= to <= text.len(),
    ensures
        0 <= trailing_end(text, to) <= to,
        trailing_end(text, to) > 0 ==> !is_space(text[trailing_end(text, to) - 1]),
    decreases to,
{
    if to > 0 && is_space(text[to - 1]) {
        lemma_trailing_end(text, to - 1);
    }
}

/// Text without white space at its start and at its end is its own trimmed
/// form.
pub proof fn lemma_trimmed_of_bare(text: Seq<char>)
    requires
        text.len() > 0 ==> !is_space(text.first()) && !is_space(text.last()),
    ensures
        trimmed(text) == text,
{
    if text.len() > 0 {
        assert(text.subrange(0, text.len() as int) =~= text);
    } else {
        assert(trimmed(text) =~= text);
    }
}

/// Trimming twice is trimming once.
pub proof fn law_trim_is_idempotent(text: Seq<char>)
    ensures
        trimmed(trimmed(text)) == trimmed(text),
{
    lemma_trimmed_has_no_margin(text);
    lemma_trimmed_of_bare(trimmed(text));
}

/// Normalizing a file name twice is normalizing it once, for every name whose
/// normal form does not itself begin with a quote or an opening brace. (A
/// normal form that begins with one of them, as that of a name in two pairs
/// of quotes does, loses it when it is normalized again.)
pub proof fn law_clean_name_is_idempotent(name: Seq<char>)
    requires
        clean_name(name).len() > 0 ==> clean_name(name).first() != '"' && clean_name(
            name,
        ).first() != '{',
    ensures
        clean_name(clean_name(name)) == clean_name(name),
{
    let bare = trimmed(undelimited(undelimited(trimmed(name), '"', '"'), '{', '}'));
    let cleaned = clean_name(name);
    reveal_strlit("TeXformats:TEX.POOL");
    reveal_strlit("tex.pool");
    if bare == pool_request() {
        assert(cleaned == pool_name());
        assert(cleaned.first() == 't');
        assert(cleaned.last() == 'l');
    } else {
        lemma_trimmed_has_no_margin(
            undelimited(undelimited(trimmed(name), '"', '"'), '{', '}'),
        );
    }
    lemma_trimmed_of_bare(cleaned);
    assert(undelimited(cleaned, '"', '"') == cleaned);
    assert(undelimited(cleaned, '{', '}') == cleaned);
}

/// The normal form of a name is never the request for the string pool, and
/// has no white space at its start or at its end.
pub proof fn law_clean_name_is_bare(name: Seq<char>)
    ensures
        clean_name(name) != pool_request(),
        clean_name(name).len() > 0 ==> !is_space(clean_name(name).first()) && !is_space(
            clean_name(name).last(),
        ),
{
    reveal_strlit("TeXformats:TEX.POOL");
    reveal_strlit("tex.pool");
    lemma_trimmed_has_no_margin(undelimited(undelimited(trimmed(name), '"', '"'), '{', '}'));
    if clean_name(name) == pool_name() {
        assert(clean_name(name).first() == 't');
        assert(clean_name(name).last() == 'l');
    }
}

} // verus!
