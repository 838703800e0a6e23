//! Escaping text for PDF string literals, XML text and markdown table cells.
use crate::text::{chars_of, is_ascii_char, is_control_char, string_from_chars};
use vstd::prelude::*;

verus! {

/// The escape of one character inside the proof PDF's `/Title (...)`.
pub open spec fn pdf_text_char(c: char) -> Seq<char> {
    if c == '\\' || c == '(' || c == ')' {
        seq!['\\', c]
    } else if c == '\r' || c == '\n' {
        seq![' ']
    } else if is_ascii_char(c) {
        seq![c]
    } else {
        seq!['?']
    }
}

/// The escape of one character inside the plant-ready PDF's literal strings.
pub open spec fn pdf_string_char(c: char) -> Seq<char> {
    if c == '(' {
        seq!['\\', '(']
    } else if c == ')' {
        seq!['\\', ')']
    } else if c == '\\' {
        seq!['\\', '\\']
    } else if c == '\n' || c == '\r' || c == '\t' {
        seq![' ']
    } else if is_control_char(c) {
        Seq::empty()
    } else if is_ascii_char(c) {
        seq![c]
    } else {
        seq!['?']
    }
}

/// The escape of one character in XML text.
pub open spec fn xml_text_char(c: char) -> Seq<char> {
    if c == '&' {
        seq!['&', 'a', 'm', 'p', ';']
    } else if c == '<' {
        seq!['&', 'l', 't', ';']
    } else if c == '>' {
        seq!['&', 'g', 't', ';']
    } else if c == '"' {
        seq!['&', 'q', 'u', 'o', 't', ';']
    } else if c == '\'' {
        seq!['&', 'a', 'p', 'o', 's', ';']
    } else if c == '\n' || c == '\r' || c == '\t' {
        seq![' ']
    } else if is_control_char(c) {
        Seq::empty()
    } else if is_ascii_char(c) {
        seq![c]
    } else {
        seq!['?']
    }
}

/// The escape of one character in a markdown table cell.
pub open spec fn markdown_cell_char(c: char) -> Seq<char> {
    if c == '|' {
        seq!['\\', '|']
    } else if c == '\n' || c == '\r' {
        seq![' ']
    } else {
        seq![c]
    }
}

pub open spec fn spec_escape_pdf_text(s: Seq<char>) -> Seq<char>
    decreases s.len(),
{
    if s.len() == 0 {
        Seq::empty()
    } else {
        spec_escape_pdf_text(s.drop_last()) + pdf_text_char(s.last())
    }
}

pub open spec fn spec_escape_pdf_string(s: Seq<char>) -> Seq<char>
    decreases s.len(),
{
    if s.len() == 0 {
        Seq::empty()
    } else {
        spec_escape_pdf_string(s.drop_last()) + pdf_string_char(s.last())
    }
}

pub open spec fn spec_escape_xml_text(s: Seq<char>) -> Seq<char>
    decreases s.len(),
{
    if s.len() == 0 {
        Seq::empty()
    } else {
        spec_escape_xml_text(s.drop_last()) + xml_text_char(s.last())
    }
}

pub open spec fn spec_markdown_cell(s: Seq<char>) -> Seq<char>
    decreases s.len(),
{
    if s.len() == 0 {
        Seq::empty()
    } else {
        spec_markdown_cell(s.drop_last()) + markdown_cell_char(s.last())
    }
}

fn is_ascii_exec(c: char) -> (b: bool)
    ensures
        b == is_ascii_char(c),
{
    (c as u32) < 0x80
}

fn is_control_exec(c: char) -> (b: bool)
    ensures
        b == is_control_char(c),
{
    let u = c as u32;
    u <= 0x1f || (0x7f <= u && u <= 0x9f)
}

/// Escapes text for the proof PDF's title string: backslash and parentheses
/// get a backslash, line breaks become spaces, non-ASCII becomes `?`.
pub fn escape_pdf_text_chars(value: &str) -> (out: Vec<char>)
    ensures
        out@ == spec_escape_pdf_text(value@),
{
    let chars = chars_of(value);
    let value = chars.as_slice();
    let mut out: Vec<char> = Vec::new();
    let mut i: usize = 0;
    while i < value.len()
        invariant
            i <= value@.len(),
            out@ == spec_escape_pdf_text(value@.take(i as int)),
        decreases value@.len() - i,
    {
        assert(value@.take(i + 1).drop_last() == value@.take(i as int));
        let c = value[i];
        let ghost before = out@;
        if c == '\\' || c == '(' || c == ')' {
            out.push('\\');
            out.push(c);
        } else if c == '\r' || c == '\n' {
            out.push(' ');
        } else if is_ascii_exec(c) {
            out.push(c);
        } else {
            out.push('?');
        }
        assert(out@ =~= before + pdf_text_char(c));
        i = i + 1;
    }
    assert(value@.take(value@.len() as int) == value@);
    out
}

/// Escapes text for the proof PDF's title string.
pub fn escape_pdf_text(value: &str) -> (out: String)
    ensures
        out@ == spec_escape_pdf_text(value@),
{
    let v = escape_pdf_text_chars(value);
    string_from_chars(v.as_slice())
}

/// Escapes text for a literal string of the plant-ready PDF: parentheses and
/// backslash get a backslash, tabs and line breaks become spaces, other
/// control characters are dropped, non-ASCII becomes `?`.
pub fn escape_pdf_string_chars(value: &[char]) -> (out: Vec<char>)
    ensures
        out@ == spec_escape_pdf_string(value@),
{
    let mut out: Vec<char> = Vec::new();
    let mut i: usize = 0;
    while i < value.len()
        invariant
            i <= value@.len(),
            out@ == spec_escape_pdf_string(value@.take(i as int)),
        decreases value@.len() - i,
    {
        assert(value@.take(i + 1).drop_last() == value@.take(i as int));
        let c = value[i];
        let ghost before = out@;
        if c == '(' {
            out.push('\\');
            out.push('(');
        } else if c == ')' {
            out.push('\\');
            out.push(')');
        } else if c == '\\' {
            out.push('\\');
            out.push('\\');
        } else if c == '\n' || c == '\r' || c == '\t' {
            out.push(' ');
        } else if is_control_exec(c) {
        } else if is_ascii_exec(c) {
            out.push(c);
        } else {
            out.push('?');
        }
        assert(out@ =~= before + pdf_string_char(c));
        i = i + 1;
    }
    assert(value@.take(value@.len() as int) == value@);
    out
}

/// Escapes text for XML character data and attribute values: the five
/// markup characters become entities, tabs and line breaks become spaces,
/// other control characters are dropped, non-ASCII becomes `?`.
pub fn escape_xml_text_chars(value: &[char]) -> (out: Vec<char>)
    ensures
        out@ == spec_escape_xml_text(value@),
{
    let mut out: Vec<char> = Vec::new();
    let mut i: usize = 0;
    while i < value.len()
        invariant
            i <= value@.len(),
            out@ == spec_escape_xml_text(value@.take(i as int)),
        decreases value@.len() - i,
    {
        assert(value@.take(i + 1).drop_last() == value@.take(i as int));
        let c = value[i];
        let ghost before = out@;
        if c == '&' {
            out.push('&');
            out.push('a');
            out.push('m');
            out.push('p');
            out.push(';');
        } else if c == '<' {
            out.push('&');
            out.push('l');
            out.push('t');
            out.push(';');
        } else if c == '>' {
            out.push('&');
            out.push('g');
            out.push('t');
            out.push(';');
        } else if c == '"' {
            out.push('&');
            out.push('q');
            out.push('u');
            out.push('o');
            out.push('t');
            out.push(';');
        } else if c == '\'' {
            out.push('&');
            out.push('a');
            out.push('p');
            out.push('o');
            out.push('s');
            out.push(';');
        } else if c == '\n' || c == '\r' || c == '\t' {
            out.push(' ');
        } else if is_control_exec(c) {
        } else if is_ascii_exec(c) {
            out.push(c);
        } else {
            out.push('?');
        }
        assert(out@ =~= before + xml_text_char(c));
        i = i + 1;
    }
    assert(value@.take(value@.len() as int) == value@);
    out
}

/// Keeps a check's text inside one markdown table cell: pipes are escaped,
/// line breaks become spaces.
pub fn markdown_cell_chars(value: &[char]) -> (out: Vec<char>)
    ensures
        out@ == spec_markdown_cell(value@),
{
    let mut out: Vec<char> = Vec::new();
    let mut i: usize = 0;
    while i < value.len()
        invariant
            i <= value@.len(),
            out@ == spec_markdown_cell(value@.take(i as int)),
        decreases value@.len() - i,
    {
        assert(value@.take(i + 1).drop_last() == value@.take(i as int));
        let c = value[i];
        let ghost before = out@;
        if c == '|' {
            out.push('\\');
            out.push('|');
        } else if c == '\n' || c == '\r' {
            out.push(' ');
        } else {
            out.push(c);
        }
        assert(out@ =~= before + markdown_cell_char(c));
        i = i + 1;
    }
    assert(value@.take(value@.len() as int) == value@);
    out
}

/// Escapes text for a literal string of the plant-ready PDF.
pub fn escape_pdf_string(value: &str) -> (out: String)
    ensures
        out@ == spec_escape_pdf_string(value@),
{
    let v = chars_of(value);
    string_from_chars(escape_pdf_string_chars(v.as_slice()).as_slice())
}

/// Escapes text for XML character data and attribute values.
pub fn escape_xml_text(value: &str) -> (out: String)
    ensures
        out@ == spec_escape_xml_text(value@),
{
    let v = chars_of(value);
    string_from_chars(escape_xml_text_chars(v.as_slice()).as_slice())
}

/// Keeps a check's text inside one markdown table cell.
pub fn pack_markdown_cell(value: &str) -> (out: String)
    ensures
        out@ == spec_markdown_cell(value@),
{
    let v = chars_of(value);
    string_from_chars(markdown_cell_chars(v.as_slice()).as_slice())
}

} // verus!
