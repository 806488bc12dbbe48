//! Fill: the whitespace, separator commas and line comments between tokens.
//!
//! Fill carries no meaning, but it is kept with the node that follows it so
//! that a document can be written back exactly as it was read.
use vstd::prelude::*;
use vstd::string::StringSliceAdditionalSpecFns;
use crate::bytes::{append, copy_all, copy_range, COMMA, NEWLINE, SLASH, SPACE};
use crate::span::Span;

verus! {

/// One piece of fill.
#[derive(Debug, Clone, PartialEq, Eq)]
pub enum CafFillSegment {
    /// One space.
    Space,
    /// One line feed.
    Newline,
    /// One separator comma.
    Comma,
    /// A line comment: `//` and what follows it on the line, without the line feed.
    Comment(Vec<u8>),
}

/// The mathematical model of a [`CafFillSegment`].
pub enum FillSegmentModel {
    Space,
    Newline,
    Comma,
    Comment(Seq<u8>),
}

impl View for CafFillSegment {
    type V = FillSegmentModel;

    open spec fn view(&self) -> FillSegmentModel {
        match self {
            CafFillSegment::Space => FillSegmentModel::Space,
            CafFillSegment::Newline => FillSegmentModel::Newline,
            CafFillSegment::Comma => FillSegmentModel::Comma,
            CafFillSegment::Comment(text) => FillSegmentModel::Comment(text@),
        }
    }
}

/// The bytes that a segment stands for.
pub open spec fn segment_text(seg: FillSegmentModel) -> Seq<u8> {
    match seg {
        FillSegmentModel::Space => seq![SPACE],
        FillSegmentModel::Newline => seq![NEWLINE],
        FillSegmentModel::Comma => seq![COMMA],
        FillSegmentModel::Comment(text) => text,
    }
}

/// The bytes that a sequence of segments stands for: their texts, in order.
pub open spec fn fill_text(segs: Seq<FillSegmentModel>) -> Seq<u8>
    decreases segs.len(),
{
    if segs.len() == 0 {
        Seq::empty()
    } else {
        fill_text(segs.drop_last()) + segment_text(segs.last())
    }
}

/// A segment as the parser makes it: a comment starts with `//`, holds no line
/// feed, and so is never empty.
pub open spec fn segment_wf(seg: FillSegmentModel) -> bool {
    match seg {
        FillSegmentModel::Comment(text) => {
            &&& text.len() >= 2
            &&& text[0] == SLASH
            &&& text[1] == SLASH
            &&& forall|i: int| 0 <= i < text.len() ==> text[i] != NEWLINE
        },
        _ => true,
    }
}

/// Every segment is well formed.
pub open spec fn fill_wf(segs: Seq<FillSegmentModel>) -> bool {
    forall|i: int| 0 <= i < segs.len() ==> segment_wf(#[trigger] segs[i])
}

/// Whether a line comment starts at `pos`.
pub open spec fn is_comment_start(s: Seq<u8>, pos: int) -> bool {
    0 <= pos && pos + 1 < s.len() && s[pos] == SLASH && s[pos + 1] == SLASH
}

/// Whether fill starts at `pos`.
pub open spec fn is_fill_start(s: Seq<u8>, pos: int) -> bool {
    0 <= pos < s.len() && (s[pos] == SPACE || s[pos] == NEWLINE || s[pos] == COMMA
        || is_comment_start(s, pos))
}

/// The end of the line that `pos` stands in: the offset of the next line feed
/// at or after `pos`, or the end of the input.
pub open spec fn line_end(s: Seq<u8>, pos: int) -> int
    decreases s.len() - pos,
{
    if pos < 0 || pos >= s.len() {
        s.len() as int
    } else if s[pos] == NEWLINE {
        pos
    } else {
        line_end(s, pos + 1)
    }
}

/// The offset just behind the longest run of fill that starts at `pos`.
pub open spec fn fill_end(s: Seq<u8>, pos: int) -> int
    decreases s.len() - pos,
{
    if !is_fill_start(s, pos) {
        pos
    } else if is_comment_start(s, pos) {
        let end = line_end(s, pos + 2);
        if pos < end <= s.len() {
            fill_end(s, end)
        } else {
            pos
        }
    } else {
        fill_end(s, pos + 1)
    }
}

/// The segments of the longest run of fill that starts at `pos`: one for each
/// space, line feed and comma, and one for each comment.
pub open spec fn fill_segments(s: Seq<u8>, pos: int) -> Seq<FillSegmentModel>
    decreases s.len() - pos,
{
    if !is_fill_start(s, pos) {
        Seq::empty()
    } else if is_comment_start(s, pos) {
        let end = line_end(s, pos + 2);
        if pos < end <= s.len() {
            seq![FillSegmentModel::Comment(s.subrange(pos, end))] + fill_segments(s, end)
        } else {
            Seq::empty()
        }
    } else if s[pos] == SPACE {
        seq![FillSegmentModel::Space] + fill_segments(s, pos + 1)
    } else if s[pos] == NEWLINE {
        seq![FillSegmentModel::Newline] + fill_segments(s, pos + 1)
    } else {
        seq![FillSegmentModel::Comma] + fill_segments(s, pos + 1)
    }
}

/// `line_end` stays inside the input and passes no line feed.
pub proof fn lemma_line_end(s: Seq<u8>, pos: int)
    requires
        0 <= pos <= s.len(),
    ensures
        pos <= line_end(s, pos) <= s.len(),
        line_end(s, pos) < s.len() ==> s[line_end(s, pos)] == NEWLINE,
        forall|i: int| pos <= i < line_end(s, pos) ==> s[i] != NEWLINE,
    decreases s.len() - pos,
{
    if pos < s.len() && s[pos] != NEWLINE {
        lemma_line_end(s, pos + 1);
    }
}

/// The text of two runs of segments, one after the other, is the text of the
/// first followed by the text of the second.
pub proof fn lemma_fill_text_concat(a: Seq<FillSegmentModel>, b: Seq<FillSegmentModel>)
    ensures
        fill_text(a + b) == fill_text(a) + fill_text(b),
    decreases b.len(),
{
    if b.len() == 0 {
        assert(a + b =~= a);
        assert(fill_text(b) =~= Seq::<u8>::empty());
        assert(fill_text(a) + fill_text(b) =~= fill_text(a));
    } else {
        lemma_fill_text_concat(a, b.drop_last());
        assert((a + b).drop_last() =~= a + b.drop_last());
        assert((a + b).last() == b.last());
        assert(fill_text(a + b) == fill_text(a + b.drop_last()) + segment_text(b.last()));
        assert(fill_text(b) == fill_text(b.drop_last()) + segment_text(b.last()));
        assert(fill_text(a + b) =~= fill_text(a) + fill_text(b));
    }
}

/// The text of a single segment.
pub proof fn lemma_fill_text_one(seg: FillSegmentModel)
    ensures
        fill_text(seq![seg]) == segment_text(seg),
{
    let one = seq![seg];
    assert(one.drop_last() =~= Seq::<FillSegmentModel>::empty());
    assert(fill_text(one.drop_last()) =~= Seq::<u8>::empty());
    assert(fill_text(one) == fill_text(one.drop_last()) + segment_text(one.last()));
    assert(fill_text(one) =~= segment_text(seg));
}

/// What parsing fill gives: the segments found are well formed, their text is
/// exactly the bytes passed over, and no fill starts where the run ends.
pub proof fn lemma_fill_parse(s: Seq<u8>, pos: int)
    requires
        0 <= pos <= s.len(),
    ensures
        pos <= fill_end(s, pos) <= s.len(),
        fill_text(fill_segments(s, pos)) == s.subrange(pos, fill_end(s, pos)),
        fill_wf(fill_segments(s, pos)),
        !is_fill_start(s, fill_end(s, pos)),
        (fill_segments(s, pos).len() == 0) == (fill_end(s, pos) == pos),
    decreases s.len() - pos,
{
    if !is_fill_start(s, pos) {
        assert(fill_text(fill_segments(s, pos)) =~= s.subrange(pos, pos));
    } else {
        let (head, next) = if is_comment_start(s, pos) {
            lemma_line_end(s, pos + 2);
            let end = line_end(s, pos + 2);
            (FillSegmentModel::Comment(s.subrange(pos, end)), end)
        } else if s[pos] == SPACE {
            (FillSegmentModel::Space, pos + 1)
        } else if s[pos] == NEWLINE {
            (FillSegmentModel::Newline, pos + 1)
        } else {
            (FillSegmentModel::Comma, pos + 1)
        };
        lemma_fill_parse(s, next);
        let rest = fill_segments(s, next);
        assert(fill_segments(s, pos) == seq![head] + rest);
        assert(fill_end(s, pos) == fill_end(s, next));
        lemma_fill_text_concat(seq![head], rest);
        lemma_fill_text_one(head);
        assert(segment_text(head) =~= s.subrange(pos, next));
        assert(s.subrange(pos, next) + s.subrange(next, fill_end(s, next)) =~= s.subrange(
            pos,
            fill_end(s, pos),
        ));
        assert(segment_wf(head));
        assert forall|i: int| 0 <= i < (seq![head] + rest).len() implies segment_wf(
            #[trigger] (seq![head] + rest)[i],
        ) by {
            if i > 0 {
                assert((seq![head] + rest)[i] == rest[i - 1]);
            }
        }
    }
}

/// Whether the byte at `i` belongs to fill when the fill starts at `base`: it
/// is a space, a line feed or a comma, or a comment that starts at or after
/// `base` reaches it on its line.
pub open spec fn is_fill_byte(s: Seq<u8>, base: int, i: int) -> bool {
    ||| s[i] == SPACE
    ||| s[i] == NEWLINE
    ||| s[i] == COMMA
    ||| exists|j: int|
        base <= j <= i && #[trigger] is_comment_start(s, j) && forall|k: int|
            j <= k <= i ==> s[k] != NEWLINE
}

/// An input that holds nothing but spaces, line feeds, commas and line
/// comments from `pos` on is fill to its end.
pub proof fn lemma_fill_is_exhaustive(s: Seq<u8>, pos: int)
    requires
        0 <= pos <= s.len(),
        forall|i: int| pos <= i < s.len() ==> #[trigger] is_fill_byte(s, pos, i),
    ensures
        fill_end(s, pos) == s.len(),
        fill_text(fill_segments(s, pos)) == s.subrange(pos, s.len() as int),
    decreases s.len() - pos,
{
    lemma_fill_parse(s, pos);
    if pos < s.len() {
        assert(is_fill_byte(s, pos, pos));
        if s[pos] == SPACE || s[pos] == NEWLINE || s[pos] == COMMA {
            assert(!is_comment_start(s, pos));
            assert forall|i: int| pos + 1 <= i < s.len() implies #[trigger] is_fill_byte(s, pos + 1, i) by {
                assert(is_fill_byte(s, pos, i));
            }
            lemma_fill_is_exhaustive(s, pos + 1);
        } else {
            assert(is_comment_start(s, pos));
            lemma_line_end(s, pos + 2);
            let end = line_end(s, pos + 2);
            assert forall|i: int| end <= i < s.len() implies #[trigger] is_fill_byte(s, end, i) by {
                assert(is_fill_byte(s, pos, i));
                if !(s[i] == SPACE || s[i] == NEWLINE || s[i] == COMMA) {
                    let j = choose|j: int|
                        pos <= j <= i && #[trigger] is_comment_start(s, j) && forall|k: int|
                            j <= k <= i ==> s[k] != NEWLINE;
                    if j < end {
                        assert(s[end] == NEWLINE);
                    }
                }
            }
            lemma_fill_is_exhaustive(s, end);
        }
    }
}

impl CafFillSegment {
    pub fn space() -> (r: Self)
        ensures
            r@ == FillSegmentModel::Space,
    {
        CafFillSegment::Space
    }

    pub fn newline() -> (r: Self)
        ensures
            r@ == FillSegmentModel::Newline,
    {
        CafFillSegment::Newline
    }

    pub fn comma() -> (r: Self)
        ensures
            r@ == FillSegmentModel::Comma,
    {
        CafFillSegment::Comma
    }

    /// A comment segment that holds the bytes of `text`.
    pub fn comment(text: &str) -> (r: Self)
        ensures
            r@ == FillSegmentModel::Comment(text.spec_bytes()),
    {
        CafFillSegment::Comment(copy_all(text.as_bytes()))
    }

    /// A copy of this segment.
    pub fn duplicate(&self) -> (r: Self)
        ensures
            r@ == self@,
    {
        match self {
            CafFillSegment::Space => CafFillSegment::Space,
            CafFillSegment::Newline => CafFillSegment::Newline,
            CafFillSegment::Comma => CafFillSegment::Comma,
            CafFillSegment::Comment(text) => CafFillSegment::Comment(copy_all(text.as_slice())),
        }
    }

    /// Appends the segment's bytes to `out`.
    pub fn write_to(&self, out: &mut Vec<u8>)
        ensures
            final(out)@ == old(out)@ + segment_text(self@),
    {
        match self {
            CafFillSegment::Space => out.push(SPACE),
            CafFillSegment::Newline => out.push(NEWLINE),
            CafFillSegment::Comma => out.push(COMMA),
            CafFillSegment::Comment(text) => append(out, text.as_slice()),
        }
        proof {
            assert(final(out)@ =~= old(out)@ + segment_text(self@));
        }
    }
}

/// The fill in front of a token: its segments in the order of the source.
#[derive(Debug, Clone, PartialEq, Eq)]
pub struct CafFill {
    pub segments: Vec<CafFillSegment>,
}

/// The same fill under the name that the native dialect uses.
pub type CobFill = CafFill;

impl View for CafFill {
    type V = Seq<FillSegmentModel>;

    open spec fn view(&self) -> Seq<FillSegmentModel> {
        self.segments@.map_values(|seg: CafFillSegment| seg@)
    }
}

impl Default for CafFill {
    fn default() -> (r: Self)
        ensures
            r@ == Seq::<FillSegmentModel>::empty(),
    {
        CafFill::new()
    }
}

impl CafFill {
    /// The bytes that this fill stands for.
    pub open spec fn text(&self) -> Seq<u8> {
        fill_text(self@)
    }

    /// No fill.
    pub fn new() -> (r: Self)
        ensures
            r@ == Seq::<FillSegmentModel>::empty(),
    {
        let r = CafFill { segments: Vec::new() };
        proof {
            assert(r@ =~= Seq::<FillSegmentModel>::empty());
        }
        r
    }

    /// `n` copies of one segment.
    fn repeat(seg: &CafFillSegment, n: usize) -> (r: Self)
        ensures
            r@ == Seq::new(n as nat, |i: int| seg@),
    {
        let mut segments: Vec<CafFillSegment> = Vec::new();
        let mut i: usize = 0;
        while i < n
            invariant
                0 <= i <= n,
                segments@.len() == i,
                forall|j: int| 0 <= j < i ==> (#[trigger] segments@[j])@ == seg@,
            decreases n - i,
        {
            segments.push(seg.duplicate());
            i += 1;
        }
        let r = CafFill { segments };
        proof {
            assert(r@ =~= Seq::new(n as nat, |i: int| seg@));
        }
        r
    }

    /// One space.
    pub fn space() -> (r: Self)
        ensures
            r@ == seq![FillSegmentModel::Space],
    {
        let r = Self::repeat(&CafFillSegment::Space, 1);
        proof {
            assert(r@ =~= seq![FillSegmentModel::Space]);
        }
        r
    }

    /// `n` spaces.
    pub fn spaces(n: usize) -> (r: Self)
        ensures
            r@ == Seq::new(n as nat, |i: int| FillSegmentModel::Space),
    {
        Self::repeat(&CafFillSegment::Space, n)
    }

    /// One line feed.
    pub fn newline() -> (r: Self)
        ensures
            r@ == seq![FillSegmentModel::Newline],
    {
        let r = Self::repeat(&CafFillSegment::Newline, 1);
        proof {
            assert(r@ =~= seq![FillSegmentModel::Newline]);
        }
        r
    }

    /// `n` line feeds.
    pub fn newlines(n: usize) -> (r: Self)
        ensures
            r@ == Seq::new(n as nat, |i: int| FillSegmentModel::Newline),
    {
        Self::repeat(&CafFillSegment::Newline, n)
    }

    /// One comment that holds the bytes of `text`.
    pub fn comment(text: &str) -> (r: Self)
        ensures
            r@ == seq![FillSegmentModel::Comment(text.spec_bytes())],
    {
        let mut segments: Vec<CafFillSegment> = Vec::new();
        segments.push(CafFillSegment::comment(text));
        let r = CafFill { segments };
        proof {
            assert(r@ =~= seq![FillSegmentModel::Comment(text.spec_bytes())]);
        }
        r
    }

    /// Whether there is no segment.
    pub fn is_empty(&self) -> (r: bool)
        ensures
            r == (self@.len() == 0),
    {
        self.segments.len() == 0
    }

    /// A copy of this fill.
    pub fn duplicate(&self) -> (r: Self)
        ensures
            r@ == self@,
    {
        let mut segments: Vec<CafFillSegment> = Vec::new();
        let mut i: usize = 0;
        while i < self.segments.len()
            invariant
                0 <= i <= self.segments@.len(),
                segments@.len() == i,
                forall|j: int| 0 <= j < i ==> (#[trigger] segments@[j])@ == self.segments@[j]@,
            decreases self.segments@.len() - i,
        {
            segments.push(self.segments[i].duplicate());
            i += 1;
        }
        let r = CafFill { segments };
        proof {
            assert(r@ =~= self@);
        }
        r
    }

    /// Takes over the formatting of `other`.
    pub fn recover(&mut self, other: &Self)
        ensures
            final(self)@ == other@,
    {
        *self = other.duplicate();
    }

    /// Appends the fill's bytes to `out`, exactly as they were read.
    pub fn write_to(&self, out: &mut Vec<u8>)
        ensures
            final(out)@ == old(out)@ + self.text(),
    {
        let mut i: usize = 0;
        proof {
            assert(self@.subrange(0, 0) =~= Seq::<FillSegmentModel>::empty());
            assert(out@ =~= old(out)@ + fill_text(self@.subrange(0, 0)));
        }
        while i < self.segments.len()
            invariant
                0 <= i <= self.segments@.len(),
                out@ == old(out)@ + fill_text(self@.subrange(0, i as int)),
            decreases self.segments@.len() - i,
        {
            self.segments[i].write_to(out);
            proof {
                let next = self@.subrange(0, i + 1);
                assert(next.drop_last() =~= self@.subrange(0, i as int));
                assert(next.last() == self.segments@[i as int]@);
                assert(fill_text(next) == fill_text(next.drop_last()) + segment_text(next.last()));
                assert(out@ =~= old(out)@ + fill_text(next));
            }
            i += 1;
        }
        proof {
            assert(self@.subrange(0, self@.len() as int) =~= self@);
        }
    }

    /// Appends the fill's bytes to `out`, or the bytes of `space` where there
    /// is no fill.
    pub fn write_to_or_else(&self, out: &mut Vec<u8>, space: &str)
        ensures
            final(out)@ == old(out)@ + fill_text_or(self@, space.spec_bytes()),
    {
        self.write_or(out, space.as_bytes());
    }

    /// Appends the fill's bytes to `out`, or `space` where there is no fill.
    pub fn write_or(&self, out: &mut Vec<u8>, space: &[u8])
        ensures
            final(out)@ == old(out)@ + fill_text_or(self@, space@),
    {
        if self.is_empty() {
            append(out, space);
        } else {
            self.write_to(out);
        }
    }

    /// Reads the longest run of fill at the front of `content`. Never fails:
    /// where no fill starts, the fill is empty and nothing is read.
    pub fn parse<'a>(content: Span<'a>) -> (r: (Self, Span<'a>))
        requires
            content.wf(),
        ensures
            r.0@ == fill_segments(content.data@, content.offset as int),
            r.1.data == content.data,
            r.1.offset == fill_end(content.data@, content.offset as int),
            r.1.wf(),
            fill_wf(r.0@),
            r.0.text() == content.data@.subrange(content.offset as int, r.1.offset as int),
    {
        proof {
            lemma_fill_parse(content.data@, content.offset as int);
        }
        let data = content.data;
        let len = data.len();
        assert(len == data@.len());
        let mut segments: Vec<CafFillSegment> = Vec::new();
        let mut pos: usize = content.offset;
        let ghost s = data@;
        let ghost start = content.offset as int;
        let ghost mut found: Seq<FillSegmentModel> = Seq::empty();
        proof {
            assert(found + fill_segments(s, pos as int) =~= fill_segments(s, start));
        }
        loop
            invariant
                s == data@,
                start <= pos <= s.len(),
                found == segments@.map_values(|seg: CafFillSegment| seg@),
                fill_segments(s, start) == found + fill_segments(s, pos as int),
                fill_end(s, start) == fill_end(s, pos as int),
            ensures
                !is_fill_start(s, pos as int),
            decreases s.len() - pos,
        {
            if pos >= data.len() {
                break ;
            }
            let b = data[pos];
            let ghost before = found;
            let ghost tail = fill_segments(s, pos as int);
            if b == SLASH {
                if pos + 1 < data.len() && data[pos + 1] == SLASH {
                    let mut end: usize = pos + 2;
                    while end < data.len() && data[end] != NEWLINE
                        invariant
                            s == data@,
                            pos + 2 <= end <= s.len(),
                            line_end(s, pos + 2) == line_end(s, end as int),
                        decreases s.len() - end,
                    {
                        end += 1;
                    }
                    segments.push(CafFillSegment::Comment(copy_range(data, pos, end)));
                    proof {
                        assert(end == line_end(s, pos + 2));
                        let seg = FillSegmentModel::Comment(s.subrange(pos as int, end as int));
                        found = found.push(seg);
                        assert(tail == seq![seg] + fill_segments(s, end as int));
                        assert(before + tail =~= found + fill_segments(s, end as int));
                    }
                    pos = end;
                } else {
                    break ;
                }
            } else if b == SPACE || b == NEWLINE || b == COMMA {
                let seg = if b == SPACE {
                    CafFillSegment::Space
                } else if b == NEWLINE {
                    CafFillSegment::Newline
                } else {
                    CafFillSegment::Comma
                };
                proof {
                    found = found.push(seg@);
                    assert(tail == seq![seg@] + fill_segments(s, pos + 1));
                    assert(before + tail =~= found + fill_segments(s, pos + 1));
                }
                segments.push(seg);
                pos += 1;
            } else {
                break ;
            }
            proof {
                assert(found =~= segments@.map_values(|seg: CafFillSegment| seg@));
            }
        }
        let fill = CafFill { segments };
        proof {
            assert(fill_segments(s, pos as int) =~= Seq::<FillSegmentModel>::empty());
            assert(fill@ =~= fill_segments(s, start));
        }
        (fill, Span { data, offset: pos })
    }
}

/// The text of `segs`, or `space` where there is no segment.
pub open spec fn fill_text_or(segs: Seq<FillSegmentModel>, space: Seq<u8>) -> Seq<u8> {
    if segs.len() == 0 {
        space
    } else {
        fill_text(segs)
    }
}

} // verus!
