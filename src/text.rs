//! Character and text predicates used to classify the text before the cursor
//! and to order completion items.
use vstd::prelude::*;
use vstd::string::StrSliceExecFns;

verus! {

/// Whether `c` is alphabetic or numeric in the Unicode sense.
pub uninterp spec fn is_alphanumeric(c: char) -> bool;

/// Relies on `char::is_alphanumeric`: whether the character has the Unicode
/// `Alphabetic` or `Numeric` property, which depends on the character alone.
#[verifier::external_body]
fn alphanumeric(c: char) -> (r: bool)
    ensures
        r == is_alphanumeric(c),
{
    c.is_alphanumeric()
}

/// A character that may be part of a word.
pub open spec fn is_word_char(c: char) -> bool {
    is_alphanumeric(c) || c == '_'
}

pub fn char_is_word(c: char) -> (r: bool)
    ensures
        r == is_word_char(c),
{
    alphanumeric(c) || c == '_'
}

/// Whether `suffix` is a suffix of `text`.
pub open spec fn is_suffix(text: Seq<char>, suffix: Seq<char>) -> bool {
    suffix.len() <= text.len() && text.subrange(text.len() - suffix.len(), text.len() as int) == suffix
}

/// Whether the text before the cursor ends with `suffix`.
pub fn ends_with(text: &[char], suffix: &str) -> (r: bool)
    ensures
        r == is_suffix(text@, suffix@),
{
    let n = suffix.unicode_len();
    if n > text.len() {
        return false;
    }
    let len = text.len();
    let start: usize = len - n;
    let mut i: usize = 0;
    while i < n
        invariant
            n == suffix@.len(),
            len == text@.len(),
            start + n == len,
            i <= n,
            forall|k: int| 0 <= k < i ==> text@[start + k] == suffix@[k],
        decreases n - i,
    {
        assert(start + i < text@.len());
        if text[start + i] != suffix.get_char(i) {
            assert(text@.subrange(start as int, text@.len() as int)[i as int] != suffix@[i as int]);
            return false;
        }
        i = i + 1;
    }
    assert(text@.subrange(start as int, text@.len() as int) =~= suffix@);
    true
}

/// Whether every one of the last `n` characters of `text` (all of them, when
/// there are fewer) is a word character.
pub open spec fn ends_in_word(text: Seq<char>, n: nat) -> bool {
    forall|k: int| text.len() - n <= k < text.len() && 0 <= k ==> is_word_char(#[trigger] text[k])
}

pub fn last_chars_are_word(text: &[char], n: usize) -> (r: bool)
    ensures
        r == ends_in_word(text@, n as nat),
{
    let len = text.len();
    let start: usize = if n < len { len - n } else { 0 };
    let mut i: usize = start;
    while i < len
        invariant
            len == text@.len(),
            start <= i <= len,
            start as int == if (n as int) < (len as int) { len - n } else { 0 },
            forall|k: int| start <= k < i ==> is_word_char(#[trigger] text@[k]),
        decreases len - i,
    {
        if !char_is_word(text[i]) {
            return false;
        }
        i = i + 1;
    }
    true
}

/// Lexicographic order of two texts by code point: -1, 0 or 1.
pub open spec fn text_cmp(a: Seq<char>, b: Seq<char>) -> int
    decreases a.len(),
{
    if a.len() == 0 {
        if b.len() == 0 { 0 } else { -1 }
    } else if b.len() == 0 {
        1
    } else if a[0] < b[0] {
        -1
    } else if a[0] > b[0] {
        1
    } else {
        text_cmp(a.drop_first(), b.drop_first())
    }
}

/// Texts compare equal exactly when they are the same text.
pub proof fn lemma_text_cmp_zero(a: Seq<char>, b: Seq<char>)
    ensures
        (text_cmp(a, b) == 0) == (a == b),
    decreases a.len(),
{
    if a.len() == 0 || b.len() == 0 {
        if a.len() != b.len() {
            assert(a != b);
        } else {
            assert(a =~= b);
        }
    } else if a[0] == b[0] {
        lemma_text_cmp_zero(a.drop_first(), b.drop_first());
        assert(text_cmp(a, b) == text_cmp(a.drop_first(), b.drop_first()));
        assert(a =~= seq![a[0]] + a.drop_first());
        assert(b =~= seq![b[0]] + b.drop_first());
    } else {
        assert(a[0] < b[0] || a[0] > b[0]);
        assert(text_cmp(a, b) != 0);
        assert(a != b);
    }
}

/// Swapping the texts reverses the order.
pub proof fn lemma_text_cmp_antisymmetric(a: Seq<char>, b: Seq<char>)
    ensures
        text_cmp(b, a) == -text_cmp(a, b),
    decreases a.len(),
{
    if a.len() > 0 && b.len() > 0 && a[0] == b[0] {
        lemma_text_cmp_antisymmetric(a.drop_first(), b.drop_first());
    } else if a.len() > 0 && b.len() > 0 {
        assert(a[0] < b[0] || a[0] > b[0]);
    }
}

pub fn compare_text(a: &str, b: &str) -> (r: i8)
    ensures
        r as int == text_cmp(a@, b@),
{
    let na = a.unicode_len();
    let nb = b.unicode_len();
    let mut i: usize = 0;
    assert(a@.skip(0) =~= a@);
    assert(b@.skip(0) =~= b@);
    while i < na && i < nb
        invariant
            na == a@.len(),
            nb == b@.len(),
            i <= na,
            i <= nb,
            text_cmp(a@, b@) == text_cmp(a@.skip(i as int), b@.skip(i as int)),
        decreases na - i,
    {
        let ca = a.get_char(i);
        let cb = b.get_char(i);
        assert(a@.skip(i as int)[0] == ca);
        assert(b@.skip(i as int)[0] == cb);
        if ca < cb {
            return -1;
        }
        if ca > cb {
            return 1;
        }
        assert(a@.skip(i as int).drop_first() =~= a@.skip(i + 1));
        assert(b@.skip(i as int).drop_first() =~= b@.skip(i + 1));
        i = i + 1;
    }
    if i < na {
        1
    } else if i < nb {
        -1
    } else {
        0
    }
}

} // verus!
