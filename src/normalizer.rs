//! Input normalization: Unicode NFC, whitespace collapse, trim.

use vstd::prelude::*;
use unicode_normalization::UnicodeNormalization;
use crate::error::AnonymizeError;
use crate::text::{byte_len, bytes_of, chars_of, push_char};

verus! {

broadcast use vstd::string::group_string_axioms;

/// The default limit on the input, in bytes: 100 MiB.
pub const MAX_INPUT_SIZE: usize = 104857600;

/// Text after normalization, with what was done to it.
pub struct NormalizedText {
    pub content: String,
    pub original_len: usize,
    pub transformations_applied: Vec<NormalizationType>,
}

/// The transformations, in the order they are applied.
#[derive(Clone, Copy, Debug, PartialEq, Eq, Structural)]
pub enum NormalizationType {
    UnicodeNfc,
    WhitespaceCollapse,
    Trim,
}

/// The Unicode canonical composition (NFC) of a character sequence.
pub uninterp spec fn nfc_of(s: Seq<char>) -> Seq<char>;

/// Whether a character has the Unicode White_Space property: U+0009 to
/// U+000D, U+0020, U+0085, U+00A0, U+1680, U+2000 to U+200A, U+2028,
/// U+2029, U+202F, U+205F and U+3000.
pub open spec fn white_space(c: char) -> bool {
    let u = c as u32;
    ||| 0x09 <= u <= 0x0d
    ||| u == 0x20
    ||| u == 0x85
    ||| u == 0xa0
    ||| u == 0x1680
    ||| 0x2000 <= u <= 0x200a
    ||| u == 0x2028
    ||| u == 0x2029
    ||| u == 0x202f
    ||| u == 0x205f
    ||| u == 0x3000
}

/// Relies on `unicode_normalization::UnicodeNormalization::nfc`: the NFC
/// form depends on the characters alone.
#[verifier::external_body]
fn compose_nfc(s: &str) -> (r: String)
    ensures
        r@ == nfc_of(s@),
{
    s.nfc().collect()
}

/// Relies on `char::is_whitespace`, which tests the White_Space property
/// of the Unicode Character Database.
#[verifier::external_body]
fn is_white_space(c: char) -> (r: bool)
    ensures
        r == white_space(c),
{
    c.is_whitespace()
}

/// `s` with every maximal run of whitespace replaced by one ASCII space.
pub open spec fn collapse_ws(s: Seq<char>) -> Seq<char>
    decreases s.len(),
{
    if s.len() == 0 {
        seq![]
    } else {
        let p = collapse_ws(s.drop_last());
        if !white_space(s.last()) {
            p.push(s.last())
        } else if s.len() >= 2 && white_space(s[s.len() - 2]) {
            p
        } else {
            p.push(' ')
        }
    }
}

/// `s` without its trailing whitespace.
pub open spec fn trim_end_ws(s: Seq<char>) -> Seq<char>
    decreases s.len(),
{
    if s.len() > 0 && white_space(s.last()) {
        trim_end_ws(s.drop_last())
    } else {
        s
    }
}

/// `s` without its leading whitespace.
pub open spec fn trim_start_ws(s: Seq<char>) -> Seq<char>
    decreases s.len(),
{
    if s.len() > 0 && white_space(s[0]) {
        trim_start_ws(s.drop_first())
    } else {
        s
    }
}

/// `s` without leading and trailing whitespace.
pub open spec fn trim_ws(s: Seq<char>) -> Seq<char> {
    trim_start_ws(trim_end_ws(s))
}

/// The normalized form of `s`: NFC, then whitespace collapse, then trim.
pub open spec fn normalized(s: Seq<char>) -> Seq<char> {
    trim_ws(collapse_ws(nfc_of(s)))
}

fn collapse_whitespace(s: &str) -> (r: String)
    ensures
        r@ == collapse_ws(s@),
{
    let chars = chars_of(s);
    let mut out = String::new();
    let mut prev_white = false;
    let mut i: usize = 0;
    while i < chars.len()
        invariant
            i <= chars@.len(),
            chars@ == s@,
            out@ == collapse_ws(chars@.take(i as int)),
            prev_white == (i > 0 && white_space(chars@[i - 1])),
        decreases chars@.len() - i,
    {
        let c = chars[i];
        let w = is_white_space(c);
        let ghost t = chars@.take(i + 1);
        assert(t.drop_last() =~= chars@.take(i as int));
        assert(t.last() == c);
        if i > 0 {
            assert(t[t.len() - 2] == chars@[i - 1]);
        }
        if !w {
            push_char(&mut out, c);
        } else if !prev_white {
            push_char(&mut out, ' ');
        }
        prev_white = w;
        i += 1;
    }
    assert(chars@.take(chars@.len() as int) =~= chars@);
    out
}

fn trim_whitespace(s: &str) -> (r: String)
    ensures
        r@ == trim_ws(s@),
{
    let chars = chars_of(s);
    let mut hi = chars.len();
    assert(chars@.take(chars@.len() as int) =~= chars@);
    while hi > 0 && is_white_space(chars[hi - 1])
        invariant
            hi <= chars@.len(),
            chars@ == s@,
            trim_end_ws(s@) == trim_end_ws(chars@.take(hi as int)),
        decreases hi,
    {
        assert(chars@.take(hi as int).drop_last() =~= chars@.take(hi - 1));
        hi -= 1;
    }
    let ghost t = chars@.take(hi as int);
    assert(chars@.take(chars@.len() as int) =~= chars@);
    assert(trim_end_ws(s@) == t);
    let mut lo: usize = 0;
    assert(t.skip(0) =~= t);
    while lo < hi && is_white_space(chars[lo])
        invariant
            lo <= hi <= chars@.len(),
            t == chars@.take(hi as int),
            trim_start_ws(t) == trim_start_ws(t.skip(lo as int)),
        decreases hi - lo,
    {
        assert(t.skip(lo as int).drop_first() =~= t.skip(lo + 1));
        lo += 1;
    }
    let mut out = String::new();
    let mut k = lo;
    while k < hi
        invariant
            lo <= k <= hi <= chars@.len(),
            t == chars@.take(hi as int),
            out@ == t.subrange(lo as int, k as int),
        decreases hi - k,
    {
        push_char(&mut out, chars[k]);
        assert(t.subrange(lo as int, k + 1) =~= t.subrange(lo as int, k as int).push(chars@[k as int]));
        k += 1;
    }
    assert(t.subrange(lo as int, hi as int) =~= t.skip(lo as int));
    out
}

/// Normalizes `text`, rejecting it when it holds more than `max` bytes.
pub fn normalize_with_limit(text: &str, max: usize) -> (r: Result<NormalizedText, AnonymizeError>)
    ensures
        bytes_of(text@).len() > max <==> r is Err,
        r is Err ==> r == Err::<NormalizedText, AnonymizeError>(
            AnonymizeError::InputTooLarge { size: bytes_of(text@).len() as usize, max },
        ),
        r is Ok ==> r->Ok_0.content@ == normalized(text@) && r->Ok_0.original_len == bytes_of(
            text@,
        ).len() && r->Ok_0.transformations_applied@ == seq![
            NormalizationType::UnicodeNfc,
            NormalizationType::WhitespaceCollapse,
            NormalizationType::Trim,
        ],
{
    let size = byte_len(text);
    if size > max {
        return Err(AnonymizeError::InputTooLarge { size, max });
    }
    let mut transformations: Vec<NormalizationType> = Vec::new();
    let composed = compose_nfc(text);
    transformations.push(NormalizationType::UnicodeNfc);
    let collapsed = collapse_whitespace(composed.as_str());
    transformations.push(NormalizationType::WhitespaceCollapse);
    let trimmed = trim_whitespace(collapsed.as_str());
    transformations.push(NormalizationType::Trim);
    assert(transformations@ =~= seq![
        NormalizationType::UnicodeNfc,
        NormalizationType::WhitespaceCollapse,
        NormalizationType::Trim,
    ]);
    Ok(NormalizedText { content: trimmed, original_len: size, transformations_applied: transformations })
}

/// Normalizes `text` under the default limit of 100 MiB.
pub fn normalize(text: &str) -> (r: Result<NormalizedText, AnonymizeError>)
    ensures
        bytes_of(text@).len() > MAX_INPUT_SIZE <==> r is Err,
        r is Err ==> r == Err::<NormalizedText, AnonymizeError>(
            AnonymizeError::InputTooLarge { size: bytes_of(text@).len() as usize, max: MAX_INPUT_SIZE },
        ),
        r is Ok ==> r->Ok_0.content@ == normalized(text@) && r->Ok_0.original_len == bytes_of(
            text@,
        ).len() && r->Ok_0.transformations_applied@ == seq![
            NormalizationType::UnicodeNfc,
            NormalizationType::WhitespaceCollapse,
            NormalizationType::Trim,
        ],
{
    normalize_with_limit(text, MAX_INPUT_SIZE)
}

} // verus!
