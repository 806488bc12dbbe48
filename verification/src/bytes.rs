//! Byte classes and small byte-slice helpers shared by the tokenizers.
use vstd::prelude::*;

verus! {

pub const NEWLINE: u8 = 10;
pub const SPACE: u8 = 32;
pub const QUOTE: u8 = 34;
pub const HASH: u8 = 35;
pub const PERCENT: u8 = 37;
pub const LPAREN: u8 = 40;
pub const RPAREN: u8 = 41;
pub const PLUS: u8 = 43;
pub const COMMA: u8 = 44;
pub const MINUS: u8 = 45;
pub const DOT: u8 = 46;
pub const SLASH: u8 = 47;
pub const COLON: u8 = 58;
pub const LBRACKET: u8 = 91;
pub const BACKSLASH: u8 = 92;
pub const RBRACKET: u8 = 93;
pub const UNDERSCORE: u8 = 95;
pub const LBRACE: u8 = 123;
pub const RBRACE: u8 = 125;

/// `0`..`9`.
pub open spec fn is_digit(b: u8) -> bool {
    48 <= b <= 57
}

/// `a`..`z`.
pub open spec fn is_lower(b: u8) -> bool {
    97 <= b <= 122
}

/// `A`..`Z`.
pub open spec fn is_upper(b: u8) -> bool {
    65 <= b <= 90
}

/// A byte that may continue an identifier: a letter, a digit or `_`.
pub open spec fn is_ident(b: u8) -> bool {
    is_lower(b) || is_upper(b) || is_digit(b) || b == UNDERSCORE
}

/// A byte that may continue a snake-case identifier: a lower-case letter, a digit or `_`.
pub open spec fn is_snake(b: u8) -> bool {
    is_lower(b) || is_digit(b) || b == UNDERSCORE
}

/// `0`..`9` or `A`..`F`.
pub open spec fn is_hex(b: u8) -> bool {
    is_digit(b) || 65 <= b <= 70
}

pub fn digit(b: u8) -> (r: bool)
    ensures
        r == is_digit(b),
{
    48 <= b && b <= 57
}

pub fn lower(b: u8) -> (r: bool)
    ensures
        r == is_lower(b),
{
    97 <= b && b <= 122
}

pub fn upper(b: u8) -> (r: bool)
    ensures
        r == is_upper(b),
{
    65 <= b && b <= 90
}

pub fn ident(b: u8) -> (r: bool)
    ensures
        r == is_ident(b),
{
    lower(b) || upper(b) || digit(b) || b == UNDERSCORE
}

pub fn snake(b: u8) -> (r: bool)
    ensures
        r == is_snake(b),
{
    lower(b) || digit(b) || b == UNDERSCORE
}

pub fn hex(b: u8) -> (r: bool)
    ensures
        r == is_hex(b),
{
    digit(b) || (65 <= b && b <= 70)
}

/// Whether `lit` stands in `s` at `pos`.
pub open spec fn has_at(s: Seq<u8>, pos: int, lit: Seq<u8>) -> bool {
    0 <= pos && pos + lit.len() <= s.len() && s.subrange(pos, pos + lit.len()) == lit
}

/// Tests whether `lit` stands in `data` at `pos`.
pub fn starts_at(data: &[u8], pos: usize, lit: &[u8]) -> (r: bool)
    requires
        pos <= data@.len(),
    ensures
        r == has_at(data@, pos as int, lit@),
{
    if lit.len() > data.len() - pos {
        return false;
    }
    assert(data@.len() == data.len());
    let mut i: usize = 0;
    while i < lit.len()
        invariant
            0 <= i <= lit@.len(),
            pos + lit@.len() <= data@.len() <= usize::MAX,
            forall|j: int| 0 <= j < i ==> data@[pos + j] == lit@[j],
        decreases lit@.len() - i,
    {
        if data[pos + i] != lit[i] {
            proof {
                assert(data@.subrange(pos as int, pos + lit@.len())[i as int] == data@[pos + i]);
            }
            return false;
        }
        i += 1;
    }
    proof {
        assert(data@.subrange(pos as int, pos + lit@.len()) =~= lit@);
    }
    true
}

/// Copies `data[from..to]` into a new vector.
pub fn copy_range(data: &[u8], from: usize, to: usize) -> (r: Vec<u8>)
    requires
        from <= to <= data@.len(),
    ensures
        r@ == data@.subrange(from as int, to as int),
{
    let mut out: Vec<u8> = Vec::new();
    let mut i: usize = from;
    while i < to
        invariant
            from <= i <= to <= data@.len(),
            out@ == data@.subrange(from as int, i as int),
        decreases to - i,
    {
        out.push(data[i]);
        proof {
            assert(out@ =~= data@.subrange(from as int, i + 1));
        }
        i += 1;
    }
    out
}

/// Copies the whole of `data` into a new vector.
pub fn copy_all(data: &[u8]) -> (r: Vec<u8>)
    ensures
        r@ == data@,
{
    let r = copy_range(data, 0, data.len());
    proof {
        assert(data@.subrange(0, data@.len() as int) =~= data@);
    }
    r
}

/// Appends `bytes` to `out`.
pub fn append(out: &mut Vec<u8>, bytes: &[u8])
    ensures
        final(out)@ == old(out)@ + bytes@,
{
    let mut i: usize = 0;
    while i < bytes.len()
        invariant
            0 <= i <= bytes@.len(),
            out@ == old(out)@ + bytes@.subrange(0, i as int),
        decreases bytes@.len() - i,
    {
        out.push(bytes[i]);
        proof {
            assert(out@ =~= old(out)@ + bytes@.subrange(0, i + 1));
        }
        i += 1;
    }
    proof {
        assert(bytes@.subrange(0, bytes@.len() as int) =~= bytes@);
    }
}

} // verus!
