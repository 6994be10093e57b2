//! The concatenation source: an ordered sequence of text segments, some of
//! them with a source map, that is flattened once into one text and, where
//! any segment carries a map, one composed source map.
//!
//! Flattening joins the segments' texts in order and adds nothing between
//! them. Every segment starts where the one before it ended: at the line
//! that the earlier segments' line counts add up to, and at the column that
//! follows the last character before it.

use crate::sourcemap::{SourceMap, SourceMapView};
use crate::text::{
    lemma_newline_count_concat, lemma_tail_len_concat, measure, newline_count, tail_len,
};
use std::collections::VecDeque;
use vstd::prelude::*;

verus! {

/// One unit of text of a chunk.
#[derive(Debug)]
pub enum Segment {
    /// Text that maps to nothing.
    Raw { text: String },
    /// Text with the source map that describes it, and the number of lines
    /// the text is declared to occupy.
    Mapped { text: String, map: SourceMap, lines: u32 },
}

/// The mathematical value of a segment.
pub enum SegmentView {
    Raw { text: Seq<char> },
    Mapped { text: Seq<char>, map: SourceMapView, lines: nat },
}

impl SegmentView {
    /// The segment's text.
    pub open spec fn text(self) -> Seq<char> {
        match self {
            SegmentView::Raw { text } => text,
            SegmentView::Mapped { text, .. } => text,
        }
    }

    /// The number of lines by which the segment moves what follows it: the
    /// line feeds of a raw segment, the declared count of a mapped one.
    pub open spec fn lines(self) -> nat {
        match self {
            SegmentView::Raw { text } => newline_count(text),
            SegmentView::Mapped { lines, .. } => lines,
        }
    }

    /// The column at which the text after this segment starts, when the
    /// segment itself starts at `column`.
    pub open spec fn column_after(self, column: nat) -> nat {
        if self.lines() == 0 {
            column + self.text().len()
        } else {
            tail_len(self.text())
        }
    }

    /// A mapped segment whose declared line count is the number of line
    /// feeds in its text; every raw segment.
    pub open spec fn counts_its_newlines(self) -> bool {
        self.lines() == newline_count(self.text())
    }
}

impl View for Segment {
    type V = SegmentView;

    open spec fn view(&self) -> SegmentView {
        match self {
            Segment::Raw { text } => SegmentView::Raw { text: text@ },
            Segment::Mapped { text, map, lines } => SegmentView::Mapped {
                text: text@,
                map: map@,
                lines: *lines as nat,
            },
        }
    }
}

impl Segment {
    /// A segment of unmapped text.
    pub fn raw(text: String) -> (s: Segment)
        ensures
            s@ == (SegmentView::Raw { text: text@ }),
    {
        Segment::Raw { text }
    }

    /// The segment's text.
    pub fn text(&self) -> (t: &str)
        ensures
            t@ == self@.text(),
    {
        match self {
            Segment::Raw { text } => text.as_str(),
            Segment::Mapped { text, .. } => text.as_str(),
        }
    }

    /// A segment of text described by `map`, declared to occupy `lines` lines.
    pub fn mapped(text: String, map: SourceMap, lines: u32) -> (s: Segment)
        ensures
            s@ == (SegmentView::Mapped { text: text@, map: map@, lines: lines as nat }),
    {
        Segment::Mapped { text, map, lines }
    }
}

/// The segments' texts, joined in order with nothing between them.
pub open spec fn joined_text(segments: Seq<SegmentView>) -> Seq<char>
    decreases segments.len(),
{
    if segments.len() == 0 {
        Seq::empty()
    } else {
        joined_text(segments.drop_last()) + segments.last().text()
    }
}

/// The sum of the segments' line counts: the line at which text after them
/// starts.
pub open spec fn line_total(segments: Seq<SegmentView>) -> nat
    decreases segments.len(),
{
    if segments.len() == 0 {
        0
    } else {
        line_total(segments.drop_last()) + segments.last().lines()
    }
}

/// The column at which text after the segments starts.
pub open spec fn column_total(segments: Seq<SegmentView>) -> nat
    decreases segments.len(),
{
    if segments.len() == 0 {
        0
    } else {
        segments.last().column_after(column_total(segments.drop_last()))
    }
}

/// The line at which segment `k` starts.
pub open spec fn line_offset(segments: Seq<SegmentView>, k: int) -> nat {
    line_total(segments.take(k))
}

/// The column at which segment `k` starts.
pub open spec fn column_offset(segments: Seq<SegmentView>, k: int) -> nat {
    column_total(segments.take(k))
}

/// At least one segment carries a source map.
pub open spec fn carries_map(segments: Seq<SegmentView>) -> bool {
    exists|i: int| 0 <= i < segments.len() && #[trigger] segments[i] is Mapped
}

/// The maps of the mapped segments, composed in order: each is placed at the
/// line and column at which its segment starts. Raw segments add nothing to
/// it; they only move what follows them.
pub open spec fn composed_map(segments: Seq<SegmentView>) -> SourceMapView
    decreases segments.len(),
{
    if segments.len() == 0 {
        SourceMapView::empty()
    } else {
        let before = segments.drop_last();
        match segments.last() {
            SegmentView::Raw { .. } => composed_map(before),
            SegmentView::Mapped { map, .. } => composed_map(before).extended(
                map,
                line_total(before),
                column_total(before),
            ),
        }
    }
}

/// Every segment starts at a position within 32 bits, and every record of
/// the composed map can be written down.
pub open spec fn positions_fit(segments: Seq<SegmentView>) -> bool
    decreases segments.len(),
{
    segments.len() == 0 || {
        let before = segments.drop_last();
        &&& positions_fit(before)
        &&& line_total(segments) <= u32::MAX
        &&& column_total(segments) <= u32::MAX
        &&& (segments.last() matches SegmentView::Mapped { map, .. } ==> composed_map(
            before,
        ).admits(map, line_total(before), column_total(before)))
    }
}

/// A sequence whose positions fit keeps that when cut short.
pub proof fn lemma_fit_of_prefix(segments: Seq<SegmentView>, k: int)
    requires
        0 <= k <= segments.len(),
        positions_fit(segments),
    ensures
        positions_fit(segments.take(k)),
    decreases segments.len(),
{
    if k == segments.len() {
        assert(segments.take(k) =~= segments);
    } else {
        assert(segments.drop_last().take(k) =~= segments.take(k));
        lemma_fit_of_prefix(segments.drop_last(), k);
    }
}

/// What a source map can address. A sequence without a mapped segment is
/// always within the limits: positions are only counted for the sake of a
/// map.
pub open spec fn within_limits(segments: Seq<SegmentView>) -> bool {
    carries_map(segments) ==> positions_fit(segments)
}

/// An ordered sequence of segments, built by appending, and by putting one
/// segment in front; nothing is removed from it or moved within it.
pub struct ConcatSource {
    segments: VecDeque<Segment>,
}

impl View for ConcatSource {
    type V = Seq<SegmentView>;

    closed spec fn view(&self) -> Seq<SegmentView> {
        Seq::new(self.segments@.len(), |i: int| self.segments@[i]@)
    }
}

impl Default for ConcatSource {
    /// The empty sequence.
    fn default() -> (c: ConcatSource)
        ensures
            c@ == Seq::<SegmentView>::empty(),
    {
        ConcatSource::new()
    }
}

impl ConcatSource {
    /// The empty sequence.
    pub fn new() -> (c: ConcatSource)
        ensures
            c@ == Seq::<SegmentView>::empty(),
    {
        let c = ConcatSource { segments: VecDeque::new() };
        c
    }

    /// Number of segments.
    pub fn len(&self) -> (n: usize)
        ensures
            n == self@.len(),
    {
        self.segments.len()
    }

    /// Puts `segment` behind all the others.
    pub fn add_source(&mut self, segment: Segment)
        ensures
            final(self)@ == old(self)@.push(segment@),
    {
        self.segments.push_back(segment);
    }

    /// Puts `segment` in front of all the others.
    pub fn add_prepend_source(&mut self, segment: Segment)
        ensures
            final(self)@ == seq![segment@] + old(self)@,
    {
        self.segments.push_front(segment);
    }

    /// Whether a segment carries a source map.
    pub fn has_map(&self) -> (r: bool)
        ensures
            r == carries_map(self@),
    {
        let n = self.segments.len();
        let mut k: usize = 0;
        while k < n
            invariant
                n == self.segments@.len(),
                n == self@.len(),
                k <= n,
                forall|i: int| 0 <= i < k ==> !(#[trigger] self@[i] is Mapped),
            decreases n - k,
        {
            match &self.segments[k] {
                Segment::Mapped { .. } => {
                    assert(self@[k as int] is Mapped);
                    return true;
                },
                Segment::Raw { .. } => {},
            }
            k = k + 1;
        }
        false
    }

    /// The segments' texts, joined in order.
    pub fn content(&self) -> (code: String)
        ensures
            code@ == joined_text(self@),
    {
        let n = self.segments.len();
        let mut code = String::new();
        let mut k: usize = 0;
        while k < n
            invariant
                n == self.segments@.len(),
                n == self@.len(),
                k <= n,
                code@ == joined_text(self@.take(k as int)),
            decreases n - k,
        {
            proof {
                assert(self@.take(k + 1).drop_last() =~= self@.take(k as int));
            }
            code.append(self.segments[k].text());
            k = k + 1;
        }
        proof {
            assert(self@.take(n as int) =~= self@);
        }
        code
    }

    /// Flattens the sequence into its text and, where a segment carries a
    /// map, the composed map. Returns `None` where the result would leave
    /// what a source map can address.
    pub fn try_content_and_sourcemap(self) -> (r: Option<(String, Option<SourceMap>)>)
        ensures
            r is Some <==> within_limits(self@),
            r matches Some((code, map)) ==> {
                &&& code@ == joined_text(self@)
                &&& map is Some <==> carries_map(self@)
                &&& map matches Some(m) ==> m@ == composed_map(self@)
            },
    {
        if !self.has_map() {
            return Some((self.content(), None));
        }
        let n = self.segments.len();
        let mut code = String::new();
        let mut composed = SourceMap::new();
        let mut line: u32 = 0;
        let mut column: u32 = 0;
        let mut k: usize = 0;
        while k < n
            invariant
                n == self@.len(),
                n == self.segments@.len(),
                k <= n,
                carries_map(self@),
                positions_fit(self@.take(k as int)),
                code@ == joined_text(self@.take(k as int)),
                composed@ == composed_map(self@.take(k as int)),
                line == line_total(self@.take(k as int)),
                column == column_total(self@.take(k as int)),
            decreases n - k,
        {
            let ghost before = self@.take(k as int);
            let ghost upto = self@.take(k + 1);
            proof {
                assert(upto.drop_last() =~= before);
                if positions_fit(self@) {
                    lemma_fit_of_prefix(self@, k + 1);
                }
            }
            let extent;
            let lines: usize;
            match &self.segments[k] {
                Segment::Raw { text } => {
                    code.append(text.as_str());
                    extent = measure(text.as_str());
                    lines = extent.newlines;
                },
                Segment::Mapped { text, map, lines: declared } => {
                    code.append(text.as_str());
                    if !composed.extend(map, line, column) {
                        return None;
                    }
                    extent = measure(text.as_str());
                    lines = *declared as usize;
                },
            }
            if lines > (u32::MAX - line) as usize {
                return None;
            }
            let next_column = if lines == 0 {
                if extent.chars > (u32::MAX - column) as usize {
                    return None;
                }
                column + extent.chars as u32
            } else {
                if extent.tail > u32::MAX as usize {
                    return None;
                }
                extent.tail as u32
            };
            line = line + lines as u32;
            column = next_column;
            k = k + 1;
        }
        proof {
            assert(self@.take(n as int) =~= self@);
        }
        Some((code, Some(composed)))
    }

    /// Flattens the sequence into its text and, where a segment carries a
    /// map, the composed map.
    pub fn content_and_sourcemap(self) -> (r: (String, Option<SourceMap>))
        requires
            within_limits(self@),
        ensures
            r.0@ == joined_text(self@),
            r.1 is Some <==> carries_map(self@),
            r.1 matches Some(m) ==> m@ == composed_map(self@),
    {
        match self.try_content_and_sourcemap() {
            Some(r) => r,
            None => vstd::pervasive::unreached(),
        }
    }
}

/// The text of a sequence followed by another is the text of the first
/// followed by the text of the second.
pub proof fn lemma_joined_text_concat(a: Seq<SegmentView>, b: Seq<SegmentView>)
    ensures
        joined_text(a + b) == joined_text(a) + joined_text(b),
    decreases b.len(),
{
    if b.len() > 0 {
        assert((a + b).drop_last() =~= a + b.drop_last());
        lemma_joined_text_concat(a, b.drop_last());
    }
}

/// Where every mapped segment declares the number of
/// line feeds its text has, the flattened text has as many line feeds as the
/// segments' line counts add up to, and its last line is as long as the
/// column reached after the last segment.
pub proof fn lemma_line_accounting(segments: Seq<SegmentView>)
    requires
        forall|i: int| 0 <= i < segments.len() ==> (#[trigger] segments[i]).counts_its_newlines(),
    ensures
        newline_count(joined_text(segments)) == line_total(segments),
        tail_len(joined_text(segments)) == column_total(segments),
    decreases segments.len(),
{
    if segments.len() > 0 {
        let before = segments.drop_last();
        lemma_line_accounting(before);
        lemma_newline_count_concat(joined_text(before), segments.last().text());
        lemma_tail_len_concat(joined_text(before), segments.last().text());
    }
}

/// The composed map has a record, a source or a name only where a segment
/// carries a map: raw segments alone compose the empty map.
pub proof fn lemma_raw_segments_compose_nothing(segments: Seq<SegmentView>)
    requires
        !carries_map(segments),
    ensures
        composed_map(segments) == SourceMapView::empty(),
    decreases segments.len(),
{
    if segments.len() > 0 {
        let before = segments.drop_last();
        lemma_raw_segments_compose_nothing(before);
    }
}

/// What is composed of a prefix stays in place when segments follow: the
/// map of the whole starts with the records, sources and names of the map of
/// the prefix.
pub proof fn lemma_composed_prefix(segments: Seq<SegmentView>, k: int)
    requires
        0 <= k <= segments.len(),
    ensures
        composed_map(segments.take(k)).tokens.is_prefix_of(composed_map(segments).tokens),
        composed_map(segments.take(k)).sources.is_prefix_of(composed_map(segments).sources),
        composed_map(segments.take(k)).names.is_prefix_of(composed_map(segments).names),
    decreases segments.len(),
{
    if k == segments.len() {
        assert(segments.take(k) =~= segments);
    } else {
        let before = segments.drop_last();
        assert(before.take(k) =~= segments.take(k));
        lemma_composed_prefix(before, k);
    }
}

/// Every record of the map of segment `k` stands in the composed map,
/// behind the records of the segments before it, with its
/// generated line moved down by the line at which segment `k` starts, its
/// column moved right by the column at which it starts where the record is
/// on the segment's first line, and its source and name counted from the
/// sources and names of the segments before it.
pub proof fn lemma_records_of_segment(segments: Seq<SegmentView>, k: int, j: int)
    requires
        0 <= k < segments.len(),
        segments[k] is Mapped,
        0 <= j < segments[k]->map.tokens.len(),
    ensures
        ({
            let earlier = composed_map(segments.take(k));
            let whole = composed_map(segments);
            &&& earlier.tokens.len() + j < whole.tokens.len()
            &&& whole.tokens[earlier.tokens.len() + j] == segments[k]->map.tokens[j].placed(
                line_offset(segments, k),
                column_offset(segments, k),
                earlier.sources.len(),
                earlier.names.len(),
            )
        }),
{
    let upto = segments.take(k + 1);
    let earlier = composed_map(segments.take(k));
    assert(upto.drop_last() =~= segments.take(k));
    lemma_composed_prefix(segments, k + 1);
    assert(composed_map(segments).tokens[earlier.tokens.len() + j] == composed_map(
        upto,
    ).tokens[earlier.tokens.len() + j]);
}

/// The line at which a segment starts when one segment before it has lines
/// and the others have none: that segment's line count.
pub proof fn lemma_line_offset_single(segments: Seq<SegmentView>, i: int, j: int)
    requires
        0 <= i < j <= segments.len(),
        forall|k: int| 0 <= k < j && k != i ==> (#[trigger] segments[k]).lines() == 0,
    ensures
        line_offset(segments, j) == segments[i].lines(),
        line_offset(segments, i) == 0,
    decreases j,
{
    let upto = segments.take(j);
    assert(upto.drop_last() =~= segments.take(j - 1));
    if i < j - 1 {
        lemma_line_offset_single(segments, i, j - 1);
    } else {
        lemma_no_lines_before(segments, i);
    }
}

/// The line at which a segment starts when no segment before it has lines:
/// the first.
pub proof fn lemma_no_lines_before(segments: Seq<SegmentView>, i: int)
    requires
        0 <= i <= segments.len(),
        forall|k: int| 0 <= k < i ==> (#[trigger] segments[k]).lines() == 0,
    ensures
        line_offset(segments, i) == 0,
    decreases i,
{
    if i > 0 {
        let upto = segments.take(i);
        assert(upto.drop_last() =~= segments.take(i - 1));
        lemma_no_lines_before(segments, i - 1);
    }
}

/// A sequence followed by another carries a map where one of the two does.
pub proof fn lemma_carries_map_concat(a: Seq<SegmentView>, b: Seq<SegmentView>)
    ensures
        carries_map(a + b) <==> carries_map(a) || carries_map(b),
{
    let both = a + b;
    if carries_map(a) {
        let i = choose|i: int| 0 <= i < a.len() && #[trigger] a[i] is Mapped;
        assert(both[i] == a[i]);
    }
    if carries_map(b) {
        let i = choose|i: int| 0 <= i < b.len() && #[trigger] b[i] is Mapped;
        assert(both[a.len() + i] == b[i]);
    }
    if carries_map(both) {
        let i = choose|i: int| 0 <= i < both.len() && #[trigger] both[i] is Mapped;
        assert(i < a.len() ==> a[i] is Mapped);
        assert(i >= a.len() ==> b[i - a.len()] is Mapped);
    }
}

/// The number of records that the mapped segments bring.
pub open spec fn record_total(segments: Seq<SegmentView>) -> nat
    decreases segments.len(),
{
    if segments.len() == 0 {
        0
    } else {
        record_total(segments.drop_last()) + match segments.last() {
            SegmentView::Raw { .. } => 0nat,
            SegmentView::Mapped { map, .. } => map.tokens.len(),
        }
    }
}

/// The composed map holds the records of the mapped segments and no other:
/// no record is made for a raw segment, whatever stands around it.
pub proof fn lemma_records_come_from_mapped_segments(segments: Seq<SegmentView>)
    ensures
        composed_map(segments).tokens.len() == record_total(segments),
    decreases segments.len(),
{
    if segments.len() > 0 {
        lemma_records_come_from_mapped_segments(segments.drop_last());
    }
}

/// Of two mapped segments with nothing but segments without lines around
/// them, the records of the second stand in the composed map with their
/// generated line moved down by the line count of the first.
pub proof fn lemma_second_fragment_line(segments: Seq<SegmentView>, i: int, k: int, j: int)
    requires
        0 <= i < k < segments.len(),
        segments[i] is Mapped,
        segments[k] is Mapped,
        forall|q: int| 0 <= q < k && q != i ==> (#[trigger] segments[q]).lines() == 0,
        0 <= j < segments[k]->map.tokens.len(),
    ensures
        ({
            let earlier = composed_map(segments.take(k));
            let whole = composed_map(segments);
            &&& earlier.tokens.len() + j < whole.tokens.len()
            &&& whole.tokens[earlier.tokens.len() + j].dst_line
                == segments[k]->map.tokens[j].dst_line + segments[i]->lines
        }),
{
    lemma_records_of_segment(segments, k, j);
    lemma_line_offset_single(segments, i, k);
}

/// The composed map has one entry of embedded text for each of its
/// sources, whatever the maps of the segments had.
pub proof fn lemma_composed_contents_aligned(segments: Seq<SegmentView>)
    ensures
        composed_map(segments).source_contents.len() == composed_map(segments).sources.len(),
    decreases segments.len(),
{
    if segments.len() > 0 {
        lemma_composed_contents_aligned(segments.drop_last());
    }
}

} // verus!
