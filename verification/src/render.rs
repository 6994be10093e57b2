//! Rendering a chunk in one call, from the results of everything that the
//! assembler would ask a driver for.

use crate::assembler::{
    conclusion, opening, optional_segment, outcome_text, Action, ActionView, AssemblerState,
    Chunk, ChunkAssembler, ChunkRenderReturn, ChunkRenderReturnView, ChunkView, Event, EventView,
    Hook, Violation,
};
use crate::concat_source::{
    joined_text, lemma_carries_map_concat, lemma_joined_text_concat, SegmentView,
};
use crate::fold::{
    header_text, lemma_mapped_segments, module_segments, output_views, segments_of,
};
use crate::rendered::{ModuleRenderOutput, ModuleRenderOutputView};
use crate::sourcemap::text_of;
use vstd::prelude::*;

verus! {

/// Everything that goes into a chunk besides the chunk itself: what the
/// renderers produced, the chunk's descriptor, and how the hooks ended.
pub struct ChunkParts<D, E> {
    /// The import statements of the chunk.
    pub imports: String,
    /// The result of rendering each module, in the order of the module list.
    pub outputs: Vec<Option<ModuleRenderOutput>>,
    /// The descriptor of the chunk.
    pub descriptor: D,
    /// The outcome of the banner hook.
    pub banner: Result<Option<String>, E>,
    /// The export statements of the chunk, if it has any.
    pub exports: Option<String>,
    /// The outcome of the footer hook.
    pub footer: Result<Option<String>, E>,
}

/// The mathematical value of [`ChunkParts`].
pub struct ChunkPartsView<D, E> {
    pub imports: Seq<char>,
    pub outputs: Seq<Option<ModuleRenderOutputView>>,
    pub descriptor: D,
    pub banner: Result<Option<Seq<char>>, E>,
    pub exports: Option<Seq<char>>,
    pub footer: Result<Option<Seq<char>>, E>,
}

impl<D, E> View for ChunkParts<D, E> {
    type V = ChunkPartsView<D, E>;

    open spec fn view(&self) -> ChunkPartsView<D, E> {
        ChunkPartsView {
            imports: self.imports@,
            outputs: output_views(self.outputs@),
            descriptor: self.descriptor,
            banner: outcome_text(self.banner),
            exports: text_of(self.exports),
            footer: outcome_text(self.footer),
        }
    }
}

/// Why a chunk was not rendered.
pub enum RenderError<E> {
    /// A precondition of rendering is broken.
    Violation { violation: Violation },
    /// A hook failed; `cause` is its error, as the hook gave it.
    Hook { hook: Hook, cause: E },
}

/// The segments of a chunk, in output order: banner, imports, what the
/// modules contribute, exports, footer.
pub open spec fn chunk_segments(
    banner: Option<Seq<char>>,
    imports: Seq<char>,
    outputs: Seq<Option<ModuleRenderOutputView>>,
    exports: Option<Seq<char>>,
    footer: Option<Seq<char>>,
) -> Seq<SegmentView> {
    optional_segment(banner) + seq![SegmentView::Raw { text: imports }] + module_segments(outputs)
        + optional_segment(exports) + optional_segment(footer)
}

/// What rendering `chunk` from `parts` yields. A chunk that cannot be
/// written comes before everything else, then a wrong number of render
/// results, the banner hook's failure before the footer hook's, and last
/// what only shows once all segments are in place.
pub open spec fn rendered<D, E>(
    chunk: ChunkView,
    cwd: Seq<char>,
    dir: Seq<char>,
    parts: ChunkPartsView<D, E>,
) -> Result<ChunkRenderReturnView<D>, RenderError<E>> {
    match opening::<D, E>(chunk, cwd, dir) {
        (AssemblerState::AwaitingModules { frame }, _) => {
            if parts.outputs.len() != frame.module_count {
                Err(RenderError::Violation { violation: Violation::ModuleCountMismatch })
            } else {
                match (parts.banner, parts.footer) {
                    (Err(cause), _) => Err(RenderError::Hook { hook: Hook::Banner, cause }),
                    (Ok(_), Err(cause)) => Err(RenderError::Hook { hook: Hook::Footer, cause }),
                    (Ok(banner), Ok(footer)) => {
                        let segments = chunk_segments(
                            banner,
                            parts.imports,
                            parts.outputs,
                            parts.exports,
                            footer,
                        );
                        match conclusion::<D, E>(frame, segments, parts.descriptor) {
                            ActionView::Emit { chunk } => Ok(chunk),
                            ActionView::Abort { violation } => Err(
                                RenderError::Violation { violation },
                            ),
                            _ => Err(
                                RenderError::Violation { violation: Violation::UnexpectedEvent },
                            ),
                        }
                    },
                }
            }
        },
        (_, ActionView::Abort { violation }) => Err(RenderError::Violation { violation }),
        _ => Err(RenderError::Violation { violation: Violation::UnexpectedEvent }),
    }
}

/// The value of a render result.
pub open spec fn result_view<D, E>(r: Result<ChunkRenderReturn<D>, RenderError<E>>) -> Result<
    ChunkRenderReturnView<D>,
    RenderError<E>,
> {
    match r {
        Ok(chunk) => Ok(chunk@),
        Err(e) => Err(e),
    }
}

/// How an action that ends rendering reads as a result.
pub open spec fn settled<D, E>(action: ActionView<D, E>) -> Result<
    ChunkRenderReturnView<D>,
    RenderError<E>,
> {
    match action {
        ActionView::Emit { chunk } => Ok(chunk),
        ActionView::Fail { hook, cause } => Err(RenderError::Hook { hook, cause }),
        ActionView::Abort { violation } => Err(RenderError::Violation { violation }),
        _ => Err(RenderError::Violation { violation: Violation::UnexpectedEvent }),
    }
}

/// How a finished assembly ends for the caller.
fn settle<D, E>(action: Action<D, E>) -> (r: Result<ChunkRenderReturn<D>, RenderError<E>>)
    ensures
        result_view(r) == settled(action@),
{
    match action {
        Action::Emit { chunk } => Ok(chunk),
        Action::Fail { hook, cause } => Err(RenderError::Hook { hook, cause }),
        Action::Abort { violation } => Err(RenderError::Violation { violation }),
        _ => Err(RenderError::Violation { violation: Violation::UnexpectedEvent }),
    }
}

/// Renders `chunk`, to be written under the output directory `dir` of the
/// working directory `cwd`, from `parts`.
///
/// The text is banner, imports, then for each module that produced output a
/// comment naming it and its text, exports, footer, with nothing added
/// between them. The map, present where a module brought one, composes the
/// modules' maps at the positions of their texts, with source paths leading
/// from the directory of the chunk's file.
pub fn render_chunk<D, E>(chunk: &Chunk, cwd: &str, dir: &str, parts: ChunkParts<D, E>) -> (r:
    Result<ChunkRenderReturn<D>, RenderError<E>>)
    ensures
        result_view(r) == rendered(chunk@, cwd@, dir@, parts@),
{
    let ChunkParts { imports, outputs, descriptor, banner, exports, footer } = parts;
    let (assembler, action) = ChunkAssembler::<D>::start::<E>(chunk, cwd, dir);
    if assembler.is_closed() {
        return settle(action);
    }
    let (assembler, action) = assembler.step::<E>(Event::ModulesRendered { imports, outputs });
    if assembler.is_closed() {
        return settle(action);
    }
    let (assembler, action) = assembler.step::<E>(Event::ChunkDescribed { descriptor });
    let (assembler, action) = assembler.step(Event::BannerResolved { outcome: banner });
    if assembler.is_closed() {
        return settle(action);
    }
    let (assembler, action) = assembler.step::<E>(Event::ExportsRendered { exports });
    let ghost footer_text = outcome_text(footer);
    let (assembler, action) = assembler.step(Event::FooterResolved { outcome: footer });
    proof {
        if let Ok(f) = footer_text {
            let b = parts@.banner->Ok_0;
            assert(chunk_segments(b, parts@.imports, parts@.outputs, parts@.exports, f) =~= (
            optional_segment(b) + (seq![SegmentView::Raw { text: parts@.imports }]
                + module_segments(parts@.outputs))) + optional_segment(parts@.exports)
                + optional_segment(f));
        }
    }
    settle(action)
}

/// The text of an optional part: nothing where the part is absent.
pub open spec fn optional_text(text: Option<Seq<char>>) -> Seq<char> {
    match text {
        Some(t) => t,
        None => Seq::empty(),
    }
}

/// The text that the modules contribute, in list order: for each module
/// that produced output, the comment naming it and then its text.
pub open spec fn modules_text(outputs: Seq<Option<ModuleRenderOutputView>>) -> Seq<char>
    decreases outputs.len(),
{
    if outputs.len() == 0 {
        Seq::empty()
    } else {
        modules_text(outputs.drop_last()) + match outputs.last() {
            Some(o) => header_text(o.pretty_path) + o.rendered_content,
            None => Seq::empty(),
        }
    }
}

/// The modules' segments flatten to the modules' text.
pub proof fn lemma_modules_text(outputs: Seq<Option<ModuleRenderOutputView>>)
    ensures
        joined_text(module_segments(outputs)) == modules_text(outputs),
    decreases outputs.len(),
{
    if outputs.len() > 0 {
        let last = segments_of(outputs.last());
        lemma_modules_text(outputs.drop_last());
        lemma_joined_text_concat(module_segments(outputs.drop_last()), last);
        lemma_optional_flat(last);
    }
}

/// A sequence of at most two segments flattens to their texts in order.
proof fn lemma_optional_flat(s: Seq<SegmentView>)
    requires
        s.len() <= 2,
    ensures
        s.len() == 0 ==> joined_text(s) == Seq::<char>::empty(),
        s.len() == 1 ==> joined_text(s) == s[0].text(),
        s.len() == 2 ==> joined_text(s) == s[0].text() + s[1].text(),
{
    if s.len() >= 1 {
        let none = Seq::<SegmentView>::empty();
        assert(s.take(1).drop_last() =~= none);
        assert(joined_text(none) =~= Seq::<char>::empty());
        assert(joined_text(s.take(1)) =~= s[0].text());
        if s.len() == 1 {
            assert(s.take(1) =~= s);
        }
    }
}

/// The text of a rendered chunk is, in this order and with
/// nothing between them: the banner, the imports, what the modules
/// contribute in list order, the exports, the footer. The banner comes first
/// although it is known last.
pub proof fn lemma_placement<D, E>(
    chunk: ChunkView,
    cwd: Seq<char>,
    dir: Seq<char>,
    parts: ChunkPartsView<D, E>,
)
    requires
        rendered(chunk, cwd, dir, parts) is Ok,
    ensures
        rendered(chunk, cwd, dir, parts)->Ok_0.code == optional_text(parts.banner->Ok_0)
            + parts.imports + modules_text(parts.outputs) + optional_text(parts.exports)
            + optional_text(parts.footer->Ok_0),
{
    let banner = optional_segment(parts.banner->Ok_0);
    let imports = seq![SegmentView::Raw { text: parts.imports }];
    let modules = module_segments(parts.outputs);
    let exports = optional_segment(parts.exports);
    let footer = optional_segment(parts.footer->Ok_0);
    lemma_joined_text_concat(banner, imports);
    lemma_joined_text_concat(banner + imports, modules);
    lemma_joined_text_concat(banner + imports + modules, exports);
    lemma_joined_text_concat(banner + imports + modules + exports, footer);
    lemma_optional_flat(banner);
    lemma_optional_flat(imports);
    lemma_optional_flat(exports);
    lemma_optional_flat(footer);
    lemma_modules_text(parts.outputs);
}

/// A rendered chunk has a source map exactly where the renderer of one of
/// its modules gave one.
pub proof fn lemma_map_presence<D, E>(
    chunk: ChunkView,
    cwd: Seq<char>,
    dir: Seq<char>,
    parts: ChunkPartsView<D, E>,
)
    requires
        rendered(chunk, cwd, dir, parts) is Ok,
    ensures
        rendered(chunk, cwd, dir, parts)->Ok_0.map is Some <==> exists|i: int|
            0 <= i < parts.outputs.len() && (#[trigger] parts.outputs[i] matches Some(o)
                && o.sourcemap is Some),
{
    let banner = optional_segment(parts.banner->Ok_0);
    let imports = seq![SegmentView::Raw { text: parts.imports }];
    let modules = module_segments(parts.outputs);
    let exports = optional_segment(parts.exports);
    let footer = optional_segment(parts.footer->Ok_0);
    lemma_carries_map_concat(banner, imports);
    lemma_carries_map_concat(banner + imports, modules);
    lemma_carries_map_concat(banner + imports + modules, exports);
    lemma_carries_map_concat(banner + imports + modules + exports, footer);
    lemma_mapped_segments(parts.outputs);
}

/// An assembler that is told, in turn, what it asks for ends as rendering in
/// one call does: whatever holds of the result of [`render_chunk`] holds of
/// the chunk that a driver gets from its assembler.
pub proof fn lemma_assembly_in_turn<D, E>(
    chunk: ChunkView,
    cwd: Seq<char>,
    dir: Seq<char>,
    parts: ChunkPartsView<D, E>,
)
    requires
        opening::<D, E>(chunk, cwd, dir).0 is AwaitingModules,
        parts.outputs.len() == chunk.modules.len(),
        parts.banner is Ok,
    ensures
        ({
            let start = opening::<D, E>(chunk, cwd, dir).0;
            let folded = start.after::<E>(
                EventView::ModulesRendered { imports: parts.imports, outputs: parts.outputs },
            );
            let described = folded.0.after::<E>(
                EventView::ChunkDescribed { descriptor: parts.descriptor },
            );
            let topped = described.0.after(EventView::BannerResolved { outcome: parts.banner });
            let closed = topped.0.after::<E>(EventView::ExportsRendered { exports: parts.exports });
            let ended = closed.0.after(EventView::FooterResolved { outcome: parts.footer });
            &&& folded.1 is DescribeChunk
            &&& described.1 is ResolveBanner
            &&& topped.1 is RenderExports
            &&& closed.1 is ResolveFooter
            &&& ended.0 is Closed
            &&& settled(ended.1) == rendered(chunk, cwd, dir, parts)
        }),
{
    if let Ok(footer) = parts.footer {
        let banner = parts.banner->Ok_0;
        assert(chunk_segments(banner, parts.imports, parts.outputs, parts.exports, footer) =~= (
        optional_segment(banner) + (seq![SegmentView::Raw { text: parts.imports }]
            + module_segments(parts.outputs))) + optional_segment(parts.exports)
            + optional_segment(footer));
    }
}

} // verus!
