//! Token scanners: runs of a byte class, numbers and quoted strings.
use vstd::prelude::*;
use crate::bytes::{
    digit, hex, ident, is_digit, is_hex, is_ident, is_snake, snake, BACKSLASH, DOT, MINUS, PLUS,
    QUOTE,
};

verus! {

/// The byte classes that tokens are made of.
#[derive(Clone, Copy, Debug, PartialEq, Eq, Structural)]
pub enum ByteClass {
    Digit,
    Hex,
    Snake,
    Ident,
}

/// Whether `b` belongs to `class`.
pub open spec fn in_class(class: ByteClass, b: u8) -> bool {
    match class {
        ByteClass::Digit => is_digit(b),
        ByteClass::Hex => is_hex(b),
        ByteClass::Snake => is_snake(b),
        ByteClass::Ident => is_ident(b),
    }
}

pub fn class_has(class: ByteClass, b: u8) -> (r: bool)
    ensures
        r == in_class(class, b),
{
    match class {
        ByteClass::Digit => digit(b),
        ByteClass::Hex => hex(b),
        ByteClass::Snake => snake(b),
        ByteClass::Ident => ident(b),
    }
}

/// The offset just behind the longest run of bytes of `class` that starts at `pos`.
pub open spec fn run_end(s: Seq<u8>, pos: int, class: ByteClass) -> int
    decreases s.len() - pos,
{
    if 0 <= pos < s.len() && in_class(class, s[pos]) {
        run_end(s, pos + 1, class)
    } else {
        pos
    }
}

/// A run ends inside the input, holds only bytes of its class, and stops at
/// the first byte that is not of the class.
pub proof fn lemma_run_end(s: Seq<u8>, pos: int, class: ByteClass)
    requires
        0 <= pos <= s.len(),
    ensures
        pos <= run_end(s, pos, class) <= s.len(),
        forall|i: int| pos <= i < run_end(s, pos, class) ==> in_class(class, #[trigger] s[i]),
        run_end(s, pos, class) < s.len() ==> !in_class(class, s[run_end(s, pos, class)]),
        (run_end(s, pos, class) > pos) == (pos < s.len() && in_class(class, s[pos])),
    decreases s.len() - pos,
{
    if pos < s.len() && in_class(class, s[pos]) {
        lemma_run_end(s, pos + 1, class);
    }
}

/// Scans the longest run of bytes of `class` that starts at `pos`.
pub fn scan_run(data: &[u8], pos: usize, class: ByteClass) -> (r: usize)
    requires
        pos <= data@.len(),
    ensures
        r == run_end(data@, pos as int, class),
        pos <= r <= data@.len(),
{
    let mut end: usize = pos;
    while end < data.len() && class_has(class, data[end])
        invariant
            pos <= end <= data@.len(),
            run_end(data@, pos as int, class) == run_end(data@, end as int, class),
        decreases data@.len() - end,
    {
        end += 1;
    }
    end
}

/// Whether a byte of `class` stands at `pos`.
pub open spec fn class_at(s: Seq<u8>, pos: int, class: ByteClass) -> bool {
    0 <= pos < s.len() && in_class(class, s[pos])
}

pub fn has_class_at(data: &[u8], pos: usize, class: ByteClass) -> (r: bool)
    ensures
        r == class_at(data@, pos as int, class),
{
    pos < data.len() && class_has(class, data[pos])
}

/// Whether the byte `b` stands at `pos`.
pub open spec fn byte_at(s: Seq<u8>, pos: int, b: u8) -> bool {
    0 <= pos < s.len() && s[pos] == b
}

pub fn has_byte_at(data: &[u8], pos: usize, b: u8) -> (r: bool)
    ensures
        r == byte_at(data@, pos as int, b),
{
    pos < data.len() && data[pos] == b
}

/// Whether a number starts at `pos`: a digit, or `-` and a digit.
pub open spec fn is_number_start(s: Seq<u8>, pos: int) -> bool {
    class_at(s, pos, ByteClass::Digit) || (byte_at(s, pos, MINUS) && class_at(
        s,
        pos + 1,
        ByteClass::Digit,
    ))
}

/// The end of the fraction that may follow the integer digits ending at `pos`:
/// `.` and at least one digit.
pub open spec fn fraction_end(s: Seq<u8>, pos: int) -> int {
    if byte_at(s, pos, DOT) && class_at(s, pos + 1, ByteClass::Digit) {
        run_end(s, pos + 1, ByteClass::Digit)
    } else {
        pos
    }
}

/// The end of the exponent that may follow at `pos`: `e` or `E`, an optional
/// sign, and at least one digit.
pub open spec fn exponent_end(s: Seq<u8>, pos: int) -> int {
    if byte_at(s, pos, 101) || byte_at(s, pos, 69) {
        let digits = if byte_at(s, pos + 1, PLUS) || byte_at(s, pos + 1, MINUS) {
            pos + 2
        } else {
            pos + 1
        };
        if class_at(s, digits, ByteClass::Digit) {
            run_end(s, digits, ByteClass::Digit)
        } else {
            pos
        }
    } else {
        pos
    }
}

/// The end of the number that starts at `pos`: an optional `-`, digits, an
/// optional fraction and an optional exponent.
pub open spec fn number_end(s: Seq<u8>, pos: int) -> int {
    let digits = if byte_at(s, pos, MINUS) {
        pos + 1
    } else {
        pos
    };
    exponent_end(s, fraction_end(s, run_end(s, digits, ByteClass::Digit)))
}

/// A number is not empty and ends inside the input.
pub proof fn lemma_number_end(s: Seq<u8>, pos: int)
    requires
        is_number_start(s, pos),
    ensures
        pos < number_end(s, pos) <= s.len(),
        forall|i: int| pos <= i < number_end(s, pos) ==> #[trigger] s[i] < 128,
{
    let digits = if byte_at(s, pos, MINUS) {
        pos + 1
    } else {
        pos
    };
    lemma_run_end(s, digits, ByteClass::Digit);
    let a = run_end(s, digits, ByteClass::Digit);
    if byte_at(s, a, DOT) && class_at(s, a + 1, ByteClass::Digit) {
        lemma_run_end(s, a + 1, ByteClass::Digit);
    }
    let b = fraction_end(s, a);
    if byte_at(s, b, 101) || byte_at(s, b, 69) {
        let d = if byte_at(s, b + 1, PLUS) || byte_at(s, b + 1, MINUS) {
            b + 2
        } else {
            b + 1
        };
        if class_at(s, d, ByteClass::Digit) {
            lemma_run_end(s, d, ByteClass::Digit);
        }
    }
}

/// Scans the number that starts at `pos`.
pub fn scan_number(data: &[u8], pos: usize) -> (r: usize)
    requires
        is_number_start(data@, pos as int),
    ensures
        r == number_end(data@, pos as int),
        pos < r <= data@.len(),
{
    proof {
        lemma_number_end(data@, pos as int);
    }
    let len = data.len();
    assert(len == data@.len());
    let digits = if has_byte_at(data, pos, MINUS) {
        pos + 1
    } else {
        pos
    };
    let mut end = scan_run(data, digits, ByteClass::Digit);
    if has_byte_at(data, end, DOT) && has_class_at(data, end + 1, ByteClass::Digit) {
        end = scan_run(data, end + 1, ByteClass::Digit);
    }
    if has_byte_at(data, end, 101) || has_byte_at(data, end, 69) {
        let exp = if has_byte_at(data, end + 1, PLUS) || has_byte_at(data, end + 1, MINUS) {
            end + 2
        } else {
            end + 1
        };
        if has_class_at(data, exp, ByteClass::Digit) {
            end = scan_run(data, exp, ByteClass::Digit);
        }
    }
    end
}

/// The bytes that may follow a backslash inside a quoted string:
/// `"`, `\`, `n`, `r` and `t`.
pub open spec fn is_escape(b: u8) -> bool {
    b == QUOTE || b == BACKSLASH || b == 110 || b == 114 || b == 116
}

/// The byte that an escape stands for.
pub open spec fn escape_value(b: u8) -> u8 {
    if b == 110 {
        10
    } else if b == 114 {
        13
    } else if b == 116 {
        9
    } else {
        b
    }
}

/// The offset of the quote that closes the string whose content starts at
/// `pos`, or `None` where the string is not closed or holds a backslash that
/// no escape follows.
pub open spec fn string_end(s: Seq<u8>, pos: int) -> Option<int>
    decreases s.len() - pos,
{
    if pos < 0 || pos >= s.len() {
        None
    } else if s[pos] == QUOTE {
        Some(pos)
    } else if s[pos] == BACKSLASH {
        if pos + 1 < s.len() && is_escape(s[pos + 1]) {
            string_end(s, pos + 2)
        } else {
            None
        }
    } else {
        string_end(s, pos + 1)
    }
}

/// The closing quote lies inside the input, at or after the start of the content.
pub proof fn lemma_string_end(s: Seq<u8>, pos: int)
    requires
        0 <= pos <= s.len(),
    ensures
        string_end(s, pos) matches Some(end) ==> pos <= end < s.len() && s[end] == QUOTE,
    decreases s.len() - pos,
{
    if pos < s.len() && s[pos] != QUOTE {
        if s[pos] == BACKSLASH {
            if pos + 1 < s.len() && is_escape(s[pos + 1]) {
                lemma_string_end(s, pos + 2);
            }
        } else {
            lemma_string_end(s, pos + 1);
        }
    }
}

/// Scans the content of a quoted string that starts at `pos`.
pub fn scan_string(data: &[u8], pos: usize) -> (r: Option<usize>)
    requires
        pos <= data@.len(),
    ensures
        match r {
            Some(end) => string_end(data@, pos as int) == Some(end as int) && pos <= end
                < data@.len(),
            None => string_end(data@, pos as int) is None,
        },
{
    proof {
        lemma_string_end(data@, pos as int);
    }
    let mut at: usize = pos;
    loop
        invariant
            pos <= at <= data@.len(),
            string_end(data@, pos as int) == string_end(data@, at as int),
        decreases data@.len() - at,
    {
        if at >= data.len() {
            return None;
        }
        let b = data[at];
        if b == QUOTE {
            return Some(at);
        } else if b == BACKSLASH {
            if at + 1 < data.len() && escape(data[at + 1]) {
                at += 2;
            } else {
                return None;
            }
        } else {
            at += 1;
        }
    }
}

pub fn escape(b: u8) -> (r: bool)
    ensures
        r == is_escape(b),
{
    b == QUOTE || b == BACKSLASH || b == 110 || b == 114 || b == 116
}

/// The bytes that the content `raw` of a quoted string stands for: each
/// escape gives one byte, every other byte stands for itself.
pub open spec fn unescaped(raw: Seq<u8>) -> Seq<u8>
    decreases raw.len(),
{
    if raw.len() == 0 {
        Seq::empty()
    } else if raw[0] == BACKSLASH && raw.len() >= 2 {
        seq![escape_value(raw[1])] + unescaped(raw.subrange(2, raw.len() as int))
    } else {
        seq![raw[0]] + unescaped(raw.subrange(1, raw.len() as int))
    }
}

/// The content of a quoted string that stands for `text`: `"` and `\` get a
/// backslash, a line feed, a carriage return and a tab become `\n`, `\r` and
/// `\t`, every other byte stands for itself.
pub open spec fn escaped(text: Seq<u8>) -> Seq<u8>
    decreases text.len(),
{
    if text.len() == 0 {
        Seq::empty()
    } else {
        escaped_byte(text[0]) + escaped(text.drop_first())
    }
}

pub open spec fn escaped_byte(b: u8) -> Seq<u8> {
    if b == QUOTE || b == BACKSLASH {
        seq![BACKSLASH, b]
    } else if b == 10 {
        seq![BACKSLASH, 110u8]
    } else if b == 13 {
        seq![BACKSLASH, 114u8]
    } else if b == 9 {
        seq![BACKSLASH, 116u8]
    } else {
        seq![b]
    }
}

/// Removes the escapes from the content of a quoted string.
pub fn unescape(raw: &[u8]) -> (r: Vec<u8>)
    ensures
        r@ == unescaped(raw@),
{
    let mut out: Vec<u8> = Vec::new();
    let mut i: usize = 0;
    proof {
        assert(raw@.subrange(0, raw@.len() as int) =~= raw@);
    }
    while i < raw.len()
        invariant
            0 <= i <= raw@.len(),
            unescaped(raw@) == out@ + unescaped(raw@.subrange(i as int, raw@.len() as int)),
        decreases raw@.len() - i,
    {
        let ghost rest = raw@.subrange(i as int, raw@.len() as int);
        let ghost before = out@;
        if raw[i] == BACKSLASH && raw.len() - i >= 2 {
            let v = if raw[i + 1] == 110 {
                10
            } else if raw[i + 1] == 114 {
                13
            } else if raw[i + 1] == 116 {
                9
            } else {
                raw[i + 1]
            };
            out.push(v);
            proof {
                assert(rest.subrange(2, rest.len() as int) =~= raw@.subrange(
                    i + 2,
                    raw@.len() as int,
                ));
                assert(before + (seq![v] + unescaped(rest.subrange(2, rest.len() as int)))
                    =~= out@ + unescaped(raw@.subrange(i + 2, raw@.len() as int)));
            }
            i += 2;
        } else {
            out.push(raw[i]);
            proof {
                assert(rest.subrange(1, rest.len() as int) =~= raw@.subrange(
                    i + 1,
                    raw@.len() as int,
                ));
                assert(before + (seq![raw@[i as int]] + unescaped(
                    rest.subrange(1, rest.len() as int),
                )) =~= out@ + unescaped(raw@.subrange(i + 1, raw@.len() as int)));
            }
            i += 1;
        }
    }
    proof {
        assert(unescaped(raw@.subrange(raw@.len() as int, raw@.len() as int)) =~= Seq::<
            u8,
        >::empty());
        assert(out@ + Seq::<u8>::empty() =~= out@);
    }
    out
}

/// Writes `text` as the content of a quoted string.
pub fn escape_text(text: &[u8]) -> (r: Vec<u8>)
    ensures
        r@ == escaped(text@),
{
    let mut out: Vec<u8> = Vec::new();
    let mut i: usize = 0;
    proof {
        assert(text@.subrange(0, text@.len() as int) =~= text@);
        assert(out@ + escaped(text@) =~= escaped(text@));
    }
    while i < text.len()
        invariant
            0 <= i <= text@.len(),
            escaped(text@) == out@ + escaped(text@.subrange(i as int, text@.len() as int)),
        decreases text@.len() - i,
    {
        let b = text[i];
        let ghost before = out@;
        let ghost rest = text@.subrange(i as int, text@.len() as int);
        if b == QUOTE || b == BACKSLASH {
            out.push(BACKSLASH);
            out.push(b);
        } else if b == 10 {
            out.push(BACKSLASH);
            out.push(110);
        } else if b == 13 {
            out.push(BACKSLASH);
            out.push(114);
        } else if b == 9 {
            out.push(BACKSLASH);
            out.push(116);
        } else {
            out.push(b);
        }
        proof {
            assert(rest[0] == b);
            assert(rest.drop_first() =~= text@.subrange(i + 1, text@.len() as int));
            assert(out@ =~= before + escaped_byte(b));
            assert(before + (escaped_byte(b) + escaped(rest.drop_first())) =~= out@ + escaped(
                rest.drop_first(),
            ));
        }
        i += 1;
    }
    proof {
        assert(escaped(text@.subrange(text@.len() as int, text@.len() as int)) =~= Seq::<
            u8,
        >::empty());
        assert(out@ + Seq::<u8>::empty() =~= out@);
    }
    out
}

/// Removing the escapes from escaped text gives the text back.
pub proof fn lemma_unescape_escaped(text: Seq<u8>)
    ensures
        unescaped(escaped(text)) == text,
    decreases text.len(),
{
    if text.len() == 0 {
        assert(unescaped(escaped(text)) =~= text);
    } else {
        let b = text[0];
        let rest = escaped(text.drop_first());
        lemma_unescape_escaped(text.drop_first());
        let whole = escaped_byte(b) + rest;
        assert(escaped(text) == whole);
        if b == QUOTE || b == BACKSLASH || b == 10 || b == 13 || b == 9 {
            assert(whole[0] == BACKSLASH && whole.len() >= 2);
            assert(whole.subrange(2, whole.len() as int) =~= rest);
            assert(escape_value(whole[1]) == b);
            assert(unescaped(whole) == seq![b] + unescaped(rest));
        } else {
            assert(whole[0] == b);
            assert(whole.subrange(1, whole.len() as int) =~= rest);
            assert(unescaped(whole) == seq![b] + unescaped(rest));
        }
        assert(seq![b] + text.drop_first() =~= text);
    }
}

} // verus!
