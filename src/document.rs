//! Plain-value helpers of the document adapters: file type, output file
//! names, PDF page text and base64.

use vstd::prelude::*;
use vstd::string::StringExecFns;
use crate::text::{chars_of, push_char};

verus! {

broadcast use vstd::string::group_string_axioms;

/// Document types that the adapters handle.
#[derive(Clone, Copy, Debug, PartialEq, Eq, Structural)]
pub enum DocumentType {
    Docx,
}

/// The result of processing a document.
pub struct ProcessedDocument {
    pub content: Vec<u8>,
    pub content_type: String,
    pub filename: String,
}

/// Unicode lower-casing of a character sequence.
pub uninterp spec fn lower_of(s: Seq<char>) -> Seq<char>;

/// Relies on `str::to_lowercase`: the Unicode lower-case mapping, which
/// depends on the characters alone.
#[verifier::external_body]
fn to_lowercase(s: &str) -> (r: String)
    ensures
        r@ == lower_of(s@),
{
    s.to_lowercase()
}

pub open spec fn ends_with(s: Seq<char>, suffix: Seq<char>) -> bool {
    s.len() >= suffix.len() && s.subrange(s.len() - suffix.len(), s.len() as int) == suffix
}

fn chars_end_with(s: &Vec<char>, suffix: &str) -> (r: bool)
    ensures
        r == ends_with(s@, suffix@),
{
    let suf = chars_of(suffix);
    if suf.len() > s.len() {
        return false;
    }
    let n = s.len();
    let off = n - suf.len();
    let mut i: usize = 0;
    while i < suf.len()
        invariant
            n == s@.len(),
            suf@ == suffix@,
            off + suf@.len() == s@.len(),
            i <= suf@.len(),
            forall|j: int| 0 <= j < i ==> s@[off + j] == suf@[j],
        decreases suf@.len() - i,
    {
        if s[off + i] != suf[i] {
            assert(s@.subrange(off as int, s@.len() as int)[i as int] != suffix@[i as int]);
            return false;
        }
        i += 1;
    }
    assert(s@.subrange(off as int, s@.len() as int) =~= suffix@);
    true
}

impl DocumentType {
    /// The type of a file, by its extension in any case.
    pub fn from_filename(filename: &str) -> (r: Option<DocumentType>)
        ensures
            r is Some <==> ends_with(lower_of(filename@), ".docx"@),
            r is Some ==> r == Some(DocumentType::Docx),
    {
        let lower = to_lowercase(filename);
        let chars = chars_of(lower.as_str());
        if chars_end_with(&chars, ".docx") {
            Some(DocumentType::Docx)
        } else {
            None
        }
    }
}

/// `s` with every trailing repetition of `suffix` removed.
pub open spec fn strip_all(s: Seq<char>, suffix: Seq<char>) -> Seq<char>
    decreases s.len(),
{
    if suffix.len() > 0 && ends_with(s, suffix) {
        strip_all(s.subrange(0, s.len() - suffix.len()), suffix)
    } else {
        s
    }
}

fn strip_trailing(s: Vec<char>, suffix: &str) -> (r: Vec<char>)
    ensures
        r@ == strip_all(s@, suffix@),
{
    let suf = chars_of(suffix);
    let mut cur = s;
    let ghost target = strip_all(s@, suffix@);
    while suf.len() > 0 && chars_end_with(&cur, suffix)
        invariant
            suf@ == suffix@,
            strip_all(cur@, suffix@) == target,
        decreases cur@.len(),
    {
        let keep = cur.len() - suf.len();
        cur.truncate(keep);
    }
    cur
}

fn string_of(chars: &Vec<char>) -> (r: String)
    ensures
        r@ == chars@,
{
    let mut out = String::new();
    let mut i: usize = 0;
    while i < chars.len()
        invariant
            i <= chars@.len(),
            out@ == chars@.take(i as int),
        decreases chars@.len() - i,
    {
        push_char(&mut out, chars[i]);
        assert(chars@.take(i + 1) =~= chars@.take(i as int).push(chars@[i as int]));
        i += 1;
    }
    assert(chars@.take(chars@.len() as int) =~= chars@);
    out
}

/// The name of an anonymized file: the original name without trailing
/// `lower` then `upper` extensions, followed by `_anonymized` and `lower`.
pub open spec fn output_name(original: Seq<char>, lower: Seq<char>, upper: Seq<char>) -> Seq<char> {
    strip_all(strip_all(original, lower), upper) + "_anonymized"@ + lower
}

fn output_filename(original: &str, lower: &str, upper: &str) -> (r: String)
    ensures
        r@ == output_name(original@, lower@, upper@),
{
    let chars = chars_of(original);
    let stem = strip_trailing(strip_trailing(chars, lower), upper);
    let mut r = string_of(&stem);
    r.append("_anonymized");
    r.append(lower);
    r
}

/// The output name of an anonymized DOCX file.
pub fn docx_output_filename(original: &str) -> (r: String)
    ensures
        r@ == output_name(original@, ".docx"@, ".DOCX"@),
{
    output_filename(original, ".docx", ".DOCX")
}

/// The output name of an anonymized PDF file.
pub fn pdf_output_filename(original: &str) -> (r: String)
    ensures
        r@ == output_name(original@, ".pdf"@, ".PDF"@),
{
    output_filename(original, ".pdf", ".PDF")
}

/// One character of PDF string text: `\`, `(` and `)` escaped, carriage
/// returns dropped.
pub open spec fn pdf_escaped_char(c: char) -> Seq<char> {
    if c == '\\' {
        seq!['\\', '\\']
    } else if c == '(' {
        seq!['\\', '(']
    } else if c == ')' {
        seq!['\\', ')']
    } else if c == '\r' {
        seq![]
    } else {
        seq![c]
    }
}

pub open spec fn pdf_escaped(s: Seq<char>) -> Seq<char>
    decreases s.len(),
{
    if s.len() == 0 {
        seq![]
    } else {
        pdf_escaped(s.drop_last()) + pdf_escaped_char(s.last())
    }
}

/// Escapes text for a PDF string literal.
pub fn escape_pdf_text(text: &str) -> (r: String)
    ensures
        r@ == pdf_escaped(text@),
{
    let chars = chars_of(text);
    let mut out = String::new();
    let mut i: usize = 0;
    while i < chars.len()
        invariant
            i <= chars@.len(),
            chars@ == text@,
            out@ == pdf_escaped(chars@.take(i as int)),
        decreases chars@.len() - i,
    {
        let c = chars[i];
        assert(chars@.take(i + 1).drop_last() =~= chars@.take(i as int));
        let ghost before = out@;
        if c == '\\' {
            push_char(&mut out, '\\');
            push_char(&mut out, '\\');
        } else if c == '(' {
            push_char(&mut out, '\\');
            push_char(&mut out, '(');
        } else if c == ')' {
            push_char(&mut out, '\\');
            push_char(&mut out, ')');
        } else if c != '\r' {
            push_char(&mut out, c);
        }
        assert(out@ =~= before + pdf_escaped_char(c));
        i += 1;
    }
    assert(chars@.take(chars@.len() as int) =~= chars@);
    out
}

/// The text operators of one page: each line shown in Courier 10 with
/// 12-point leading, starting at (50, 800).
pub open spec fn page_content(lines: Seq<Seq<char>>) -> Seq<char> {
    "BT\n/F1 10 Tf\n50 800 Td\n12 TL\n"@ + page_lines(lines) + "ET\n"@
}

pub open spec fn page_lines(lines: Seq<Seq<char>>) -> Seq<char>
    decreases lines.len(),
{
    if lines.len() == 0 {
        seq![]
    } else {
        page_lines(lines.drop_last()) + "("@ + pdf_escaped(lines.last()) + ") Tj T*\n"@
    }
}

/// The content stream of a PDF page showing `lines`.
pub fn create_page_content(lines: &Vec<String>, _page_num: usize) -> (r: String)
    ensures
        r@ == page_content(lines@.map_values(|l: String| l@)),
{
    let ghost views = lines@.map_values(|l: String| l@);
    let mut content = "BT\n/F1 10 Tf\n50 800 Td\n12 TL\n".to_string();
    let mut i: usize = 0;
    while i < lines.len()
        invariant
            i <= lines@.len(),
            views == lines@.map_values(|l: String| l@),
            content@ == "BT\n/F1 10 Tf\n50 800 Td\n12 TL\n"@ + page_lines(views.take(i as int)),
        decreases lines@.len() - i,
    {
        let escaped = escape_pdf_text(lines[i].as_str());
        content.append("(");
        content.append(escaped.as_str());
        content.append(") Tj T*\n");
        assert(views.take(i + 1).drop_last() =~= views.take(i as int));
        assert(views.take(i + 1).last() == lines@[i as int]@);
        i += 1;
    }
    content.append("ET\n");
    assert(views.take(lines@.len() as int) =~= views);
    content
}

/// The base64 alphabet.
pub open spec fn base64_alphabet() -> Seq<char> {
    seq!['A', 'B', 'C', 'D', 'E', 'F', 'G', 'H', 'I', 'J', 'K', 'L', 'M', 'N', 'O', 'P', 'Q', 'R', 'S', 'T', 'U', 'V', 'W', 'X', 'Y', 'Z', 'a', 'b', 'c', 'd', 'e', 'f', 'g', 'h', 'i', 'j', 'k', 'l', 'm', 'n', 'o', 'p', 'q', 'r', 's', 't', 'u', 'v', 'w', 'x', 'y', 'z', '0', '1', '2', '3', '4', '5', '6', '7', '8', '9', '+', '/']
}

/// Standard base64 (RFC 4648) with `=` padding.
pub open spec fn base64_of(b: Seq<u8>) -> Seq<char>
    decreases b.len(),
{
    let a = base64_alphabet();
    let x0 = if b.len() > 0 { b[0] as int } else { 0 };
    let x1 = if b.len() > 1 { b[1] as int } else { 0 };
    let x2 = if b.len() > 2 { b[2] as int } else { 0 };
    if b.len() == 0 {
        seq![]
    } else if b.len() == 1 {
        seq![a[x0 / 4], a[(x0 % 4) * 16], '=', '=']
    } else if b.len() == 2 {
        seq![a[x0 / 4], a[(x0 % 4) * 16 + x1 / 16], a[(x1 % 16) * 4], '=']
    } else {
        seq![a[x0 / 4], a[(x0 % 4) * 16 + x1 / 16], a[(x1 % 16) * 4 + x2 / 64], a[x2 % 64]]
            + base64_of(b.subrange(3, b.len() as int))
    }
}

fn base64_char(i: u8) -> (c: char)
    requires
        i < 64,
    ensures
        c == base64_alphabet()[i as int],
{
    let table: [char; 64] = ['A', 'B', 'C', 'D', 'E', 'F', 'G', 'H', 'I', 'J', 'K', 'L', 'M', 'N', 'O', 'P', 'Q', 'R', 'S', 'T', 'U', 'V', 'W', 'X', 'Y', 'Z', 'a', 'b', 'c', 'd', 'e', 'f', 'g', 'h', 'i', 'j', 'k', 'l', 'm', 'n', 'o', 'p', 'q', 'r', 's', 't', 'u', 'v', 'w', 'x', 'y', 'z', '0', '1', '2', '3', '4', '5', '6', '7', '8', '9', '+', '/'];
    assert(table@ == base64_alphabet());
    table[i as usize]
}

/// Encodes bytes as standard base64.
pub fn base64_encode(bytes: &[u8]) -> (r: String)
    ensures
        r@ == base64_of(bytes@),
{
    let n = bytes.len();
    let mut out = String::new();
    let mut i: usize = 0;
    assert(out@ + base64_of(bytes@.subrange(0, n as int)) =~= base64_of(bytes@)) by {
        assert(bytes@.subrange(0, n as int) =~= bytes@);
    }
    while n - i >= 3
        invariant
            n == bytes@.len(),
            i <= n,
            out@ + base64_of(bytes@.subrange(i as int, n as int)) == base64_of(bytes@),
        decreases n - i,
    {
        let b0 = bytes[i];
        let b1 = bytes[i + 1];
        let b2 = bytes[i + 2];
        let ghost rest = bytes@.subrange(i as int, n as int);
        assert(rest.subrange(3, rest.len() as int) =~= bytes@.subrange(i + 3, n as int));
        let ghost before = out@;
        push_char(&mut out, base64_char(b0 / 4));
        push_char(&mut out, base64_char((b0 % 4) * 16 + b1 / 16));
        push_char(&mut out, base64_char((b1 % 16) * 4 + b2 / 64));
        push_char(&mut out, base64_char(b2 % 64));
        assert(out@ =~= before + base64_of(rest).subrange(0, 4));
        assert(base64_of(rest) =~= base64_of(rest).subrange(0, 4) + base64_of(bytes@.subrange(i + 3, n as int)));
        i += 3;
    }
    let ghost rest = bytes@.subrange(i as int, n as int);
    let ghost before = out@;
    if n - i == 1 {
        let b0 = bytes[i];
        push_char(&mut out, base64_char(b0 / 4));
        push_char(&mut out, base64_char((b0 % 4) * 16));
        push_char(&mut out, '=');
        push_char(&mut out, '=');
        assert(out@ =~= before + base64_of(rest));
    } else if n - i == 2 {
        let b0 = bytes[i];
        let b1 = bytes[i + 1];
        push_char(&mut out, base64_char(b0 / 4));
        push_char(&mut out, base64_char((b0 % 4) * 16 + b1 / 16));
        push_char(&mut out, base64_char((b1 % 16) * 4));
        push_char(&mut out, '=');
        assert(out@ =~= before + base64_of(rest));
    } else {
        assert(rest.len() == 0);
        assert(out@ =~= before + base64_of(rest));
    }
    out
}

} // verus!
