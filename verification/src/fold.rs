//! Folding rendered modules into a chunk, in the order of the chunk's
//! module list.
//!
//! A module whose renderer produced nothing leaves no trace: no comment, no
//! text, no record. Every other module contributes a comment line naming it,
//! then its text, mapped where the renderer gave a source map.

use crate::concat_source::{carries_map, ConcatSource, Segment, SegmentView};
use crate::rendered::{
    no_modules, ModuleRenderOutput, ModuleRenderOutputView, RenderedModuleView, RenderedModules,
};
use vstd::prelude::*;

verus! {

/// The text that opens the comment above a module's text.
pub open spec fn comment_prefix() -> Seq<char> {
    seq!['/', '/', ' ']
}

/// The comment above a module's text: `// ` and the module's readable path.
pub open spec fn header_text(pretty_path: Seq<char>) -> Seq<char> {
    comment_prefix() + pretty_path
}

impl ModuleRenderOutputView {
    /// The raw segment that announces the module.
    pub open spec fn header(self) -> SegmentView {
        SegmentView::Raw { text: header_text(self.pretty_path) }
    }

    /// The segment that holds the module's text: mapped where the module has
    /// a source map, raw where it has none.
    pub open spec fn body(self) -> SegmentView {
        match self.sourcemap {
            Some(map) => SegmentView::Mapped {
                text: self.rendered_content,
                map,
                lines: self.lines_count,
            },
            None => SegmentView::Raw { text: self.rendered_content },
        }
    }
}

/// The segments that one module contributes.
pub open spec fn segments_of(output: Option<ModuleRenderOutputView>) -> Seq<SegmentView> {
    match output {
        Some(o) => seq![o.header(), o.body()],
        None => Seq::empty(),
    }
}

/// The segments that the modules contribute, in list order.
pub open spec fn module_segments(outputs: Seq<Option<ModuleRenderOutputView>>) -> Seq<SegmentView>
    decreases outputs.len(),
{
    if outputs.len() == 0 {
        Seq::empty()
    } else {
        module_segments(outputs.drop_last()) + segments_of(outputs.last())
    }
}

/// The record of the modules that produced output, by display path. Where
/// two modules share a path, the later one in list order is recorded.
pub open spec fn module_records(outputs: Seq<Option<ModuleRenderOutputView>>) -> Map<
    Seq<char>,
    RenderedModuleView,
>
    decreases outputs.len(),
{
    if outputs.len() == 0 {
        no_modules()
    } else {
        let earlier = module_records(outputs.drop_last());
        match outputs.last() {
            Some(o) => earlier.insert(o.display_path, o.rendered_module),
            None => earlier,
        }
    }
}

/// The views of a list of render results.
pub open spec fn output_views(outputs: Seq<Option<ModuleRenderOutput>>) -> Seq<
    Option<ModuleRenderOutputView>,
> {
    Seq::new(
        outputs.len(),
        |i: int|
            match outputs[i] {
                Some(o) => Some(o@),
                None => None,
            },
    )
}

/// Builds the comment line for a module.
fn header_for(pretty_path: &str) -> (text: String)
    ensures
        text@ == header_text(pretty_path@),
{
    let mut text = String::from_str("// ");
    proof {
        reveal_strlit("// ");
    }
    text.append(pretty_path);
    text
}

/// Appends to `concat` what the modules contribute, in list order, and
/// returns the record of those that produced output.
pub fn fold_modules(
    concat: &mut ConcatSource,
    outputs: Vec<Option<ModuleRenderOutput>>,
) -> (records: RenderedModules)
    ensures
        final(concat)@ == old(concat)@ + module_segments(output_views(outputs@)),
        records@ == module_records(output_views(outputs@)),
{
    let ghost all = output_views(outputs@);
    let mut records = RenderedModules::new();
    for output in it: outputs
        invariant
            all == output_views(outputs@),
            it.seq() == outputs@,
            concat@ == old(concat)@ + module_segments(all.take(it.index() as int)),
            records@ == module_records(all.take(it.index() as int)),
    {
        let ghost i = it.index() as int;
        proof {
            assert(all.take(i + 1).drop_last() =~= all.take(i));
        }
        match output {
            Some(o) => {
                let ModuleRenderOutput {
                    display_path,
                    pretty_path,
                    rendered_module,
                    rendered_content,
                    sourcemap,
                    lines_count,
                } = o;
                concat.add_source(Segment::raw(header_for(pretty_path.as_str())));
                match sourcemap {
                    Some(map) => {
                        concat.add_source(Segment::mapped(rendered_content, map, lines_count));
                    },
                    None => {
                        concat.add_source(Segment::raw(rendered_content));
                    },
                }
                records.insert(display_path, rendered_module);
            },
            None => {},
        }
    }
    proof {
        assert(all.take(all.len() as int) =~= all);
    }
    records
}

/// A module whose renderer produced nothing contributes no segment and no
/// record: the chunk is the same as if the module were not in
/// the list.
pub proof fn lemma_silent_module_leaves_no_trace(
    outputs: Seq<Option<ModuleRenderOutputView>>,
    i: int,
)
    requires
        0 <= i < outputs.len(),
        outputs[i] is None,
    ensures
        module_segments(outputs) == module_segments(outputs.remove(i)),
        module_records(outputs) == module_records(outputs.remove(i)),
    decreases outputs.len(),
{
    if i < outputs.len() - 1 {
        assert(outputs.remove(i).drop_last() =~= outputs.drop_last().remove(i));
        lemma_silent_module_leaves_no_trace(outputs.drop_last(), i);
    }
}

/// A module contributes a mapped segment exactly where its renderer gave a
/// source map.
pub proof fn lemma_mapped_segments(outputs: Seq<Option<ModuleRenderOutputView>>)
    ensures
        carries_map(module_segments(outputs)) <==> exists|i: int|
            0 <= i < outputs.len() && (#[trigger] outputs[i] matches Some(o) && o.sourcemap
                is Some),
    decreases outputs.len(),
{
    let segments = module_segments(outputs);
    if outputs.len() > 0 {
        let earlier = outputs.drop_last();
        let head = module_segments(earlier);
        let last = segments_of(outputs.last());
        lemma_mapped_segments(earlier);
        if exists|i: int|
            0 <= i < outputs.len() && (#[trigger] outputs[i] matches Some(o) && o.sourcemap
                is Some) {
            let i = choose|i: int|
                0 <= i < outputs.len() && (#[trigger] outputs[i] matches Some(o) && o.sourcemap
                    is Some);
            if i < outputs.len() - 1 {
                assert(earlier[i] == outputs[i]);
                let w = choose|w: int| 0 <= w < head.len() && #[trigger] head[w] is Mapped;
                assert(segments[w] is Mapped);
            } else {
                assert(segments[head.len() as int + 1] == last[1]);
            }
        }
        if carries_map(segments) {
            let w = choose|w: int| 0 <= w < segments.len() && #[trigger] segments[w] is Mapped;
            if w < head.len() {
                assert(head[w] is Mapped);
                let i = choose|i: int|
                    0 <= i < earlier.len() && (#[trigger] earlier[i] matches Some(o) && o.sourcemap
                        is Some);
                assert(outputs[i] == earlier[i]);
            } else {
                assert(last[w - head.len()] is Mapped);
            }
        }
    }
}

} // verus!
