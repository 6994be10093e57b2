//! Source maps as plain data: the source files a piece of generated text
//! came from, and the mapping records that tie positions in the generated
//! text to positions in those sources.

use vstd::prelude::*;

verus! {

/// One mapping record: a position in the generated text (`dst_*`), the
/// position it came from (`src_*`), and the indices of the source and of the
/// name it refers to, in the lists of the map that holds it.
#[derive(Clone, Copy, Debug, PartialEq, Eq)]
pub struct Token {
    pub dst_line: u32,
    pub dst_col: u32,
    pub src_line: u32,
    pub src_col: u32,
    pub source_id: Option<u32>,
    pub name_id: Option<u32>,
}

/// The mathematical value of a mapping record, free of machine bounds.
pub struct Mapping {
    pub dst_line: nat,
    pub dst_col: nat,
    pub src_line: nat,
    pub src_col: nat,
    pub source_id: Option<nat>,
    pub name_id: Option<nat>,
}

/// An index moved up by the number of entries that precede its list.
pub open spec fn shifted_id(id: Option<nat>, by: nat) -> Option<nat> {
    match id {
        Some(i) => Some(i + by),
        None => None,
    }
}

impl Mapping {
    /// This record as it reads once the text it describes starts at line
    /// `line` and column `column` of a larger text, and its map's sources and
    /// names follow `sources` and `names` earlier entries. Every generated
    /// line moves down by `line`; only positions on the first line move right,
    /// by `column`, since later lines start at column 0 either way.
    pub open spec fn placed(self, line: nat, column: nat, sources: nat, names: nat) -> Mapping {
        Mapping {
            dst_line: self.dst_line + line,
            dst_col: if self.dst_line == 0 {
                self.dst_col + column
            } else {
                self.dst_col
            },
            src_line: self.src_line,
            src_col: self.src_col,
            source_id: shifted_id(self.source_id, sources),
            name_id: shifted_id(self.name_id, names),
        }
    }

    /// Every number of the record can be held in 32 bits.
    pub open spec fn representable(self) -> bool {
        &&& self.dst_line <= u32::MAX
        &&& self.dst_col <= u32::MAX
        &&& self.src_line <= u32::MAX
        &&& self.src_col <= u32::MAX
        &&& (self.source_id matches Some(i) ==> i <= u32::MAX)
        &&& (self.name_id matches Some(i) ==> i <= u32::MAX)
    }
}

impl View for Token {
    type V = Mapping;

    open spec fn view(&self) -> Mapping {
        Mapping {
            dst_line: self.dst_line as nat,
            dst_col: self.dst_col as nat,
            src_line: self.src_line as nat,
            src_col: self.src_col as nat,
            source_id: match self.source_id {
                Some(i) => Some(i as nat),
                None => None,
            },
            name_id: match self.name_id {
                Some(i) => Some(i as nat),
                None => None,
            },
        }
    }
}

/// Moves an index up by `by`, or reports that the result leaves 32 bits.
fn shift_id(id: Option<u32>, by: usize) -> (r: Option<Option<u32>>)
    ensures
        match r {
            Some(Some(j)) => id is Some && j == id->0 + by,
            Some(None) => id is None,
            None => id is Some && id->0 + by > u32::MAX,
        },
{
    match id {
        None => Some(None),
        Some(i) => {
            if by <= (u32::MAX - i) as usize {
                Some(Some(i + by as u32))
            } else {
                None
            }
        },
    }
}

impl Token {
    /// The record [`Mapping::placed`] describes, or `None` where one of its
    /// numbers does not fit in 32 bits.
    pub fn placed(&self, line: u32, column: u32, sources: usize, names: usize) -> (r: Option<Token>)
        ensures
            r is Some <==> self@.placed(
                line as nat,
                column as nat,
                sources as nat,
                names as nat,
            ).representable(),
            r matches Some(t) ==> t@ == self@.placed(
                line as nat,
                column as nat,
                sources as nat,
                names as nat,
            ),
    {
        if self.dst_line > u32::MAX - line {
            return None;
        }
        let dst_col = if self.dst_line == 0 {
            if self.dst_col > u32::MAX - column {
                return None;
            }
            self.dst_col + column
        } else {
            self.dst_col
        };
        let source_id = match shift_id(self.source_id, sources) {
            Some(id) => id,
            None => {
                return None;
            },
        };
        let name_id = match shift_id(self.name_id, names) {
            Some(id) => id,
            None => {
                return None;
            },
        };
        Some(
            Token {
                dst_line: self.dst_line + line,
                dst_col,
                src_line: self.src_line,
                src_col: self.src_col,
                source_id,
                name_id,
            },
        )
    }
}

/// A source map: the paths of the source files, their text where it is
/// embedded (indexed like `sources`), the names that records refer to, and
/// the mapping records in the order of the generated text.
#[derive(Debug)]
pub struct SourceMap {
    pub names: Vec<String>,
    pub sources: Vec<String>,
    pub source_contents: Vec<Option<String>>,
    pub tokens: Vec<Token>,
}

/// The mathematical value of a source map.
pub struct SourceMapView {
    pub names: Seq<Seq<char>>,
    pub sources: Seq<Seq<char>>,
    pub source_contents: Seq<Option<Seq<char>>>,
    pub tokens: Seq<Mapping>,
}

/// The text of an optional string.
pub open spec fn text_of(s: Option<String>) -> Option<Seq<char>> {
    match s {
        Some(t) => Some(t@),
        None => None,
    }
}

impl View for SourceMap {
    type V = SourceMapView;

    open spec fn view(&self) -> SourceMapView {
        SourceMapView {
            names: Seq::new(self.names@.len(), |i: int| self.names@[i]@),
            sources: Seq::new(self.sources@.len(), |i: int| self.sources@[i]@),
            source_contents: Seq::new(
                self.source_contents@.len(),
                |i: int| text_of(self.source_contents@[i]),
            ),
            tokens: Seq::new(self.tokens@.len(), |i: int| self.tokens@[i]@),
        }
    }
}

impl SourceMapView {
    /// The map with no source, no name and no record.
    pub open spec fn empty() -> SourceMapView {
        SourceMapView {
            names: Seq::empty(),
            sources: Seq::empty(),
            source_contents: Seq::empty(),
            tokens: Seq::empty(),
        }
    }

    /// The embedded texts of this map, one for each of its sources: where the
    /// map has no entry for a source, that source has no embedded text.
    pub open spec fn aligned_contents(self) -> Seq<Option<Seq<char>>> {
        Seq::new(
            self.sources.len(),
            |i: int|
                if i < self.source_contents.len() {
                    self.source_contents[i]
                } else {
                    None
                },
        )
    }

    /// The records of this map as [`Mapping::placed`] gives them.
    pub open spec fn placed_tokens(self, line: nat, column: nat, sources: nat, names: nat) -> Seq<
        Mapping,
    > {
        Seq::new(self.tokens.len(), |i: int| self.tokens[i].placed(line, column, sources, names))
    }

    /// This map followed by `fragment`, where the text that `fragment`
    /// describes starts at line `line` and column `column` of the text that
    /// the result describes. Sources, embedded texts and names of `fragment`
    /// follow those already present, and its records refer to them there.
    pub open spec fn extended(
        self,
        fragment: SourceMapView,
        line: nat,
        column: nat,
    ) -> SourceMapView {
        SourceMapView {
            names: self.names + fragment.names,
            sources: self.sources + fragment.sources,
            source_contents: self.source_contents + fragment.aligned_contents(),
            tokens: self.tokens + fragment.placed_tokens(
                line,
                column,
                self.sources.len(),
                self.names.len(),
            ),
        }
    }

    /// Every record of `fragment` can be written down once it is placed
    /// behind this map at the given position.
    pub open spec fn admits(self, fragment: SourceMapView, line: nat, column: nat) -> bool {
        forall|i: int|
            0 <= i < fragment.tokens.len() ==> (#[trigger] fragment.tokens[i]).placed(
                line,
                column,
                self.sources.len(),
                self.names.len(),
            ).representable()
    }
}

/// A copy of `s`.
fn copy_text(s: &Option<String>) -> (r: Option<String>)
    ensures
        text_of(r) == text_of(*s),
{
    match s {
        Some(t) => Some(t.clone()),
        None => None,
    }
}

impl SourceMap {
    /// The map with no source, no name and no record.
    pub fn new() -> (m: SourceMap)
        ensures
            m@ == SourceMapView::empty(),
    {
        let m = SourceMap {
            names: Vec::new(),
            sources: Vec::new(),
            source_contents: Vec::new(),
            tokens: Vec::new(),
        };
        assert(m@.sources =~= Seq::empty());
        assert(m@.source_contents =~= Seq::empty());
        assert(m@.tokens =~= Seq::empty());
        m
    }

    /// Appends `fragment` to this map as [`SourceMapView::extended`]
    /// describes. Returns `false`, and leaves the map as it was, where a
    /// record of the result would not fit in 32 bits.
    pub fn extend(&mut self, fragment: &SourceMap, line: u32, column: u32) -> (done: bool)
        ensures
            done <==> old(self)@.admits(fragment@, line as nat, column as nat),
            done ==> final(self)@ == old(self)@.extended(fragment@, line as nat, column as nat),
            !done ==> final(self)@ == old(self)@,
    {
        let ghost before = self@;
        let ghost target = before.extended(fragment@, line as nat, column as nat);
        let source_base = self.sources.len();
        let name_base = self.names.len();
        let token_base = self.tokens.len();
        let mut i: usize = 0;
        while i < fragment.tokens.len()
            invariant
                i <= fragment.tokens@.len(),
                before == old(self)@,
                target == before.extended(fragment@, line as nat, column as nat),
                source_base == before.sources.len(),
                name_base == before.names.len(),
                self.names == old(self).names,
                self.sources == old(self).sources,
                self.source_contents == old(self).source_contents,
                token_base == before.tokens.len(),
                self.tokens@.len() == before.tokens.len() + i,
                self.tokens@.subrange(0, token_base as int) == old(self).tokens@,
                forall|j: int|
                    0 <= j < before.tokens.len() + i ==> (#[trigger] self.tokens@[j])@
                        == target.tokens[j],
                forall|j: int|
                    0 <= j < i ==> (#[trigger] fragment@.tokens[j]).placed(
                        line as nat,
                        column as nat,
                        source_base as nat,
                        name_base as nat,
                    ).representable(),
            decreases fragment.tokens@.len() - i,
        {
            match fragment.tokens[i].placed(line, column, source_base, name_base) {
                Some(t) => {
                    self.tokens.push(t);
                },
                None => {
                    assert(!fragment@.tokens[i as int].placed(
                        line as nat,
                        column as nat,
                        before.sources.len(),
                        before.names.len(),
                    ).representable());
                    self.tokens.truncate(token_base);
                    return false;
                },
            }
            i = i + 1;
        }
        let mut k: usize = 0;
        while k < fragment.names.len()
            invariant
                k <= fragment.names@.len(),
                before == old(self)@,
                target == before.extended(fragment@, line as nat, column as nat),
                self.sources == old(self).sources,
                self.source_contents == old(self).source_contents,
                self@.tokens == target.tokens,
                self.names@.len() == before.names.len() + k,
                forall|j: int|
                    0 <= j < before.names.len() + k ==> (#[trigger] self.names@[j])@
                        == target.names[j],
            decreases fragment.names@.len() - k,
        {
            self.names.push(fragment.names[k].clone());
            k = k + 1;
        }
        let mut s: usize = 0;
        while s < fragment.sources.len()
            invariant
                s <= fragment.sources@.len(),
                before == old(self)@,
                target == before.extended(fragment@, line as nat, column as nat),
                self@.tokens == target.tokens,
                self@.names == target.names,
                self.sources@.len() == before.sources.len() + s,
                self.source_contents@.len() == before.source_contents.len() + s,
                forall|j: int|
                    0 <= j < before.sources.len() + s ==> (#[trigger] self.sources@[j])@
                        == target.sources[j],
                forall|j: int|
                    0 <= j < before.source_contents.len() + s ==> text_of(
                        #[trigger] self.source_contents@[j],
                    ) == target.source_contents[j],
            decreases fragment.sources@.len() - s,
        {
            self.sources.push(fragment.sources[s].clone());
            let content = if s < fragment.source_contents.len() {
                copy_text(&fragment.source_contents[s])
            } else {
                None
            };
            self.source_contents.push(content);
            s = s + 1;
        }
        assert(self@.sources =~= target.sources);
        assert(self@.source_contents =~= target.source_contents);
        true
    }
}

} // verus!
