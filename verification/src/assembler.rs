//! The chunk assembler: the decisions of rendering one chunk, as a state
//! machine.
//!
//! Rendering a chunk alternates work that only a driver can do (rendering
//! modules, possibly in parallel; awaiting the banner and footer hooks) with
//! decisions about what goes where. The decisions live here. A driver starts
//! an assembler, does what each [`Action`] asks, and reports back with the
//! matching [`Event`], until the assembler emits the chunk, fails on a hook,
//! or aborts.
//!
//! The order of the output is fixed by the order of the events and of the
//! module list, never by the order in which work completes: banner, imports,
//! then for each module that produced output a comment and its text,
//! exports, footer.

use crate::concat_source::{
    carries_map, composed_map, joined_text, within_limits, ConcatSource, Segment, SegmentView,
};
use crate::fold::{fold_modules, module_records, module_segments, output_views};
use crate::paths::{
    emission_dir, is_absolute_path, locate_emission_dir, relativized, try_relativize_sources,
};
use crate::rendered::{
    ModuleRenderOutput, ModuleRenderOutputView, RenderedModuleView, RenderedModules,
};
use crate::sourcemap::{text_of, SourceMap, SourceMapView};
use vstd::prelude::*;

verus! {

/// One output artifact in the making: its modules in output order, and the
/// file name an earlier stage gave it, relative to the output directory.
#[derive(Debug)]
pub struct Chunk {
    pub modules: Vec<usize>,
    pub preliminary_filename: Option<String>,
}

/// The mathematical value of a [`Chunk`].
pub struct ChunkView {
    pub modules: Seq<usize>,
    pub preliminary_filename: Option<Seq<char>>,
}

impl View for Chunk {
    type V = ChunkView;

    open spec fn view(&self) -> ChunkView {
        ChunkView {
            modules: self.modules@,
            preliminary_filename: text_of(self.preliminary_filename),
        }
    }
}

/// The two hooks that supply text around a chunk.
#[derive(Clone, Copy, Debug, PartialEq, Eq, Structural)]
pub enum Hook {
    Banner,
    Footer,
}

/// A broken precondition of rendering: a fault of the pipeline around the
/// assembler, not of its input. Rendering stops at once and yields nothing.
#[derive(Clone, Copy, Debug, PartialEq, Eq, Structural)]
pub enum Violation {
    /// The chunk has no preliminary file name.
    MissingFilename,
    /// The path the chunk is written to has no parent directory.
    NoParentDirectory,
    /// The chunk has a source map whose paths are to be rewritten, and the
    /// working directory to resolve them against is not an absolute path.
    RelativeWorkingDirectory,
    /// The driver reported something other than what it was asked for.
    UnexpectedEvent,
    /// The driver reported another number of render results than the chunk
    /// has modules.
    ModuleCountMismatch,
    /// The chunk has positions that a source map cannot address.
    LimitsExceeded,
}

/// What a driver reports to the assembler. `D` is the chunk descriptor that
/// the hooks are shown, `E` the error of a hook.
pub enum Event<D, E> {
    /// The import statements of the chunk, and the result of rendering each
    /// module, in the order of the chunk's module list.
    ModulesRendered { imports: String, outputs: Vec<Option<ModuleRenderOutput>> },
    /// The descriptor of the chunk.
    ChunkDescribed { descriptor: D },
    /// The outcome of the banner hook.
    BannerResolved { outcome: Result<Option<String>, E> },
    /// The export statements of the chunk, if it has any.
    ExportsRendered { exports: Option<String> },
    /// The outcome of the footer hook.
    FooterResolved { outcome: Result<Option<String>, E> },
}

/// The mathematical value of an [`Event`].
pub enum EventView<D, E> {
    ModulesRendered { imports: Seq<char>, outputs: Seq<Option<ModuleRenderOutputView>> },
    ChunkDescribed { descriptor: D },
    BannerResolved { outcome: Result<Option<Seq<char>>, E> },
    ExportsRendered { exports: Option<Seq<char>> },
    FooterResolved { outcome: Result<Option<Seq<char>>, E> },
}

/// The text of a hook's outcome.
pub open spec fn outcome_text<E>(outcome: Result<Option<String>, E>) -> Result<
    Option<Seq<char>>,
    E,
> {
    match outcome {
        Ok(text) => Ok(text_of(text)),
        Err(e) => Err(e),
    }
}

impl<D, E> View for Event<D, E> {
    type V = EventView<D, E>;

    open spec fn view(&self) -> EventView<D, E> {
        match self {
            Event::ModulesRendered { imports, outputs } => EventView::ModulesRendered {
                imports: imports@,
                outputs: output_views(outputs@),
            },
            Event::ChunkDescribed { descriptor } => EventView::ChunkDescribed {
                descriptor: *descriptor,
            },
            Event::BannerResolved { outcome } => EventView::BannerResolved {
                outcome: outcome_text(*outcome),
            },
            Event::ExportsRendered { exports } => EventView::ExportsRendered {
                exports: text_of(*exports),
            },
            Event::FooterResolved { outcome } => EventView::FooterResolved {
                outcome: outcome_text(*outcome),
            },
        }
    }
}

/// The result of rendering a chunk: its text, its source map where a module
/// brought one, and the descriptor the hooks were shown.
pub struct ChunkRenderReturn<D> {
    pub code: String,
    pub map: Option<SourceMap>,
    pub rendered_chunk: D,
}

/// The mathematical value of a [`ChunkRenderReturn`].
pub struct ChunkRenderReturnView<D> {
    pub code: Seq<char>,
    pub map: Option<SourceMapView>,
    pub rendered_chunk: D,
}

impl<D> View for ChunkRenderReturn<D> {
    type V = ChunkRenderReturnView<D>;

    open spec fn view(&self) -> ChunkRenderReturnView<D> {
        ChunkRenderReturnView {
            code: self.code@,
            map: match self.map {
                Some(m) => Some(m@),
                None => None,
            },
            rendered_chunk: self.rendered_chunk,
        }
    }
}

/// What the assembler asks of its driver, or how rendering ended.
pub enum Action<D, E> {
    /// Render the chunk's import statements and each of its modules, and
    /// report the results in the order of the module list.
    RenderModules,
    /// Describe the chunk, given the record of its rendered modules.
    DescribeChunk { modules: RenderedModules },
    /// Call the banner hook with the chunk's descriptor.
    ResolveBanner,
    /// Render the chunk's export statements.
    RenderExports,
    /// Call the footer hook with the chunk's descriptor.
    ResolveFooter,
    /// Rendering is done; this is the chunk.
    Emit { chunk: ChunkRenderReturn<D> },
    /// A hook failed; rendering yields its error and nothing else.
    Fail { hook: Hook, cause: E },
    /// A precondition of rendering is broken.
    Abort { violation: Violation },
}

/// The mathematical value of an [`Action`].
pub enum ActionView<D, E> {
    RenderModules,
    DescribeChunk { modules: Map<Seq<char>, RenderedModuleView> },
    ResolveBanner,
    RenderExports,
    ResolveFooter,
    Emit { chunk: ChunkRenderReturnView<D> },
    Fail { hook: Hook, cause: E },
    Abort { violation: Violation },
}

impl<D, E> View for Action<D, E> {
    type V = ActionView<D, E>;

    open spec fn view(&self) -> ActionView<D, E> {
        match self {
            Action::RenderModules => ActionView::RenderModules,
            Action::DescribeChunk { modules } => ActionView::DescribeChunk { modules: modules@ },
            Action::ResolveBanner => ActionView::ResolveBanner,
            Action::RenderExports => ActionView::RenderExports,
            Action::ResolveFooter => ActionView::ResolveFooter,
            Action::Emit { chunk } => ActionView::Emit { chunk: chunk@ },
            Action::Fail { hook, cause } => ActionView::Fail { hook: *hook, cause: *cause },
            Action::Abort { violation } => ActionView::Abort { violation: *violation },
        }
    }
}

/// What stays fixed while a chunk is assembled.
pub struct Frame {
    /// The working directory.
    pub cwd: Seq<char>,
    /// The directory that will hold the chunk's file.
    pub reference_dir: Seq<char>,
    /// The number of modules of the chunk.
    pub module_count: nat,
}

/// The state of an assembler: what it waits for, and what it holds.
pub enum AssemblerState<D> {
    AwaitingModules { frame: Frame },
    AwaitingDescription { frame: Frame, segments: Seq<SegmentView> },
    AwaitingBanner { frame: Frame, segments: Seq<SegmentView>, descriptor: D },
    AwaitingExports { frame: Frame, segments: Seq<SegmentView>, descriptor: D },
    AwaitingFooter { frame: Frame, segments: Seq<SegmentView>, descriptor: D },
    /// Rendering has ended, one way or another.
    Closed,
}

/// The raw segment of an optional text: none where there is no text.
pub open spec fn optional_segment(text: Option<Seq<char>>) -> Seq<SegmentView> {
    match text {
        Some(t) => seq![SegmentView::Raw { text: t }],
        None => Seq::empty(),
    }
}

/// The map of a finished chunk: the composed map of its segments, with every
/// source path rewritten to lead there from the directory of the chunk's
/// file; none where no segment carries a map.
pub open spec fn emitted_map(frame: Frame, segments: Seq<SegmentView>) -> Option<SourceMapView> {
    if carries_map(segments) {
        let composed = composed_map(segments);
        Some(composed.with_sources(relativized(composed.sources, frame.reference_dir, frame.cwd)))
    } else {
        None
    }
}

/// How rendering ends once every segment is in place. The working
/// directory matters only where there is a map to rewrite.
pub open spec fn conclusion<D, E>(
    frame: Frame,
    segments: Seq<SegmentView>,
    descriptor: D,
) -> ActionView<D, E> {
    if !within_limits(segments) {
        ActionView::Abort { violation: Violation::LimitsExceeded }
    } else if carries_map(segments) && !is_absolute_path(frame.cwd) {
        ActionView::Abort { violation: Violation::RelativeWorkingDirectory }
    } else {
        ActionView::Emit {
            chunk: ChunkRenderReturnView {
                code: joined_text(segments),
                map: emitted_map(frame, segments),
                rendered_chunk: descriptor,
            },
        }
    }
}

/// The first decision: whether the chunk can be rendered at all. It is
/// taken before any module is rendered.
pub open spec fn opening<D, E>(chunk: ChunkView, cwd: Seq<char>, dir: Seq<char>) -> (
    AssemblerState<D>,
    ActionView<D, E>,
) {
    match chunk.preliminary_filename {
        None => (
            AssemblerState::Closed,
            ActionView::Abort { violation: Violation::MissingFilename },
        ),
        Some(file_name) => match emission_dir(cwd, dir, file_name) {
            None => (
                AssemblerState::Closed,
                ActionView::Abort { violation: Violation::NoParentDirectory },
            ),
            Some(reference_dir) => (
                AssemblerState::AwaitingModules {
                    frame: Frame { cwd, reference_dir, module_count: chunk.modules.len() },
                },
                ActionView::RenderModules,
            ),
        },
    }
}

impl<D> AssemblerState<D> {
    /// The state after `event`, and what the assembler asks next. An event
    /// that the state does not wait for ends rendering.
    pub open spec fn after<E>(self, event: EventView<D, E>) -> (
        AssemblerState<D>,
        ActionView<D, E>,
    ) {
        match (self, event) {
            (
                AssemblerState::AwaitingModules { frame },
                EventView::ModulesRendered { imports, outputs },
            ) => {
                if outputs.len() == frame.module_count {
                    (
                        AssemblerState::AwaitingDescription {
                            frame,
                            segments: seq![SegmentView::Raw { text: imports }] + module_segments(
                                outputs,
                            ),
                        },
                        ActionView::DescribeChunk { modules: module_records(outputs) },
                    )
                } else {
                    (
                        AssemblerState::Closed,
                        ActionView::Abort { violation: Violation::ModuleCountMismatch },
                    )
                }
            },
            (
                AssemblerState::AwaitingDescription { frame, segments },
                EventView::ChunkDescribed { descriptor },
            ) => (
                AssemblerState::AwaitingBanner { frame, segments, descriptor },
                ActionView::ResolveBanner,
            ),
            (
                AssemblerState::AwaitingBanner { frame, segments, descriptor },
                EventView::BannerResolved { outcome },
            ) => match outcome {
                Ok(banner) => (
                    AssemblerState::AwaitingExports {
                        frame,
                        segments: optional_segment(banner) + segments,
                        descriptor,
                    },
                    ActionView::RenderExports,
                ),
                Err(cause) => (
                    AssemblerState::Closed,
                    ActionView::Fail { hook: Hook::Banner, cause },
                ),
            },
            (
                AssemblerState::AwaitingExports { frame, segments, descriptor },
                EventView::ExportsRendered { exports },
            ) => (
                AssemblerState::AwaitingFooter {
                    frame,
                    segments: segments + optional_segment(exports),
                    descriptor,
                },
                ActionView::ResolveFooter,
            ),
            (
                AssemblerState::AwaitingFooter { frame, segments, descriptor },
                EventView::FooterResolved { outcome },
            ) => match outcome {
                Ok(footer) => (
                    AssemblerState::Closed,
                    conclusion(frame, segments + optional_segment(footer), descriptor),
                ),
                Err(cause) => (
                    AssemblerState::Closed,
                    ActionView::Fail { hook: Hook::Footer, cause },
                ),
            },
            _ => (
                AssemblerState::Closed,
                ActionView::Abort { violation: Violation::UnexpectedEvent },
            ),
        }
    }
}

/// A chunk without a preliminary file name is never rendered: the assembler
/// is closed from the start, whatever the directories are.
pub proof fn lemma_no_filename_no_render<D, E>(chunk: ChunkView, cwd: Seq<char>, dir: Seq<char>)
    requires
        chunk.preliminary_filename is None,
    ensures
        opening::<D, E>(chunk, cwd, dir) == (
            AssemblerState::<D>::Closed,
            ActionView::<D, E>::Abort { violation: Violation::MissingFilename },
        ),
{
}

/// Modules are rendered once, at the start: no event makes the assembler
/// ask for them again. And once rendering has ended it stays ended.
pub proof fn lemma_modules_are_asked_for_once<D, E>(
    state: AssemblerState<D>,
    event: EventView<D, E>,
)
    ensures
        !(state.after(event).1 is RenderModules),
        state is Closed ==> state.after(event).0 is Closed,
{
}

/// The hooks are called in turn, each after what comes before it is in: the
/// banner hook only once the modules are folded and the chunk described, the
/// footer hook only once the banner and the exports are placed.
pub proof fn lemma_hooks_in_turn<D, E>(state: AssemblerState<D>, event: EventView<D, E>)
    ensures
        state.after(event).1 is ResolveBanner ==> state is AwaitingDescription && event
            is ChunkDescribed,
        state.after(event).1 is ResolveFooter ==> state is AwaitingExports && event
            is ExportsRendered,
        state.after(event).1 is Emit ==> state is AwaitingFooter && event is FooterResolved,
{
}

/// What an assembler waits for.
#[derive(Clone, Copy, Debug, PartialEq, Eq, Structural)]
enum Phase {
    Modules,
    Description,
    Banner,
    Exports,
    Footer,
    Closed,
}

/// The assembler of one chunk. It is owned by one render and shares nothing
/// with the assembler of another chunk.
pub struct ChunkAssembler<D> {
    phase: Phase,
    cwd: String,
    reference_dir: String,
    module_count: usize,
    concat: ConcatSource,
    descriptor: Option<D>,
}

impl<D> View for ChunkAssembler<D> {
    type V = AssemblerState<D>;

    closed spec fn view(&self) -> AssemblerState<D> {
        let frame = Frame {
            cwd: self.cwd@,
            reference_dir: self.reference_dir@,
            module_count: self.module_count as nat,
        };
        match self.phase {
            Phase::Modules => AssemblerState::AwaitingModules { frame },
            Phase::Description => AssemblerState::AwaitingDescription {
                frame,
                segments: self.concat@,
            },
            Phase::Banner => AssemblerState::AwaitingBanner {
                frame,
                segments: self.concat@,
                descriptor: self.descriptor->0,
            },
            Phase::Exports => AssemblerState::AwaitingExports {
                frame,
                segments: self.concat@,
                descriptor: self.descriptor->0,
            },
            Phase::Footer => AssemblerState::AwaitingFooter {
                frame,
                segments: self.concat@,
                descriptor: self.descriptor->0,
            },
            Phase::Closed => AssemblerState::Closed,
        }
    }
}

impl<D> ChunkAssembler<D> {
    /// No segment is held before the modules are in, and the descriptor is
    /// held from the moment the driver gave it.
    #[verifier::type_invariant]
    spec fn well_formed(self) -> bool {
        &&& self.phase == Phase::Modules ==> self.concat@ == Seq::<SegmentView>::empty()
        &&& (self.phase == Phase::Banner || self.phase == Phase::Exports || self.phase
            == Phase::Footer) ==> self.descriptor is Some
    }

    /// An assembler for which rendering has ended.
    fn retired() -> (a: ChunkAssembler<D>)
        ensures
            a@ == AssemblerState::<D>::Closed,
    {
        ChunkAssembler {
            phase: Phase::Closed,
            cwd: String::new(),
            reference_dir: String::new(),
            module_count: 0,
            concat: ConcatSource::new(),
            descriptor: None,
        }
    }

    /// Starts the assembly of `chunk`, to be written under the output
    /// directory `dir` of the working directory `cwd`. Nothing has been
    /// rendered when this decides whether rendering can go ahead.
    pub fn start<E>(chunk: &Chunk, cwd: &str, dir: &str) -> (r: (ChunkAssembler<D>, Action<D, E>))
        ensures
            (r.0@, r.1@) == opening::<D, E>(chunk@, cwd@, dir@),
    {
        let file_name = match &chunk.preliminary_filename {
            Some(name) => name,
            None => {
                return (Self::retired(), Action::Abort { violation: Violation::MissingFilename });
            },
        };
        match locate_emission_dir(cwd, dir, file_name.as_str()) {
            None => (Self::retired(), Action::Abort { violation: Violation::NoParentDirectory }),
            Some(reference_dir) => (
                ChunkAssembler {
                    phase: Phase::Modules,
                    cwd: cwd.to_owned(),
                    reference_dir,
                    module_count: chunk.modules.len(),
                    concat: ConcatSource::new(),
                    descriptor: None,
                },
                Action::RenderModules,
            ),
        }
    }

    /// Whether rendering has ended.
    pub fn is_closed(&self) -> (r: bool)
        ensures
            r == (self@ is Closed),
    {
        self.phase == Phase::Closed
    }

    /// The chunk's descriptor, from the moment the driver gave it until
    /// rendering ends: what the hooks are called with.
    pub fn descriptor(&self) -> (r: Option<&D>)
        ensures
            r == match self@ {
                AssemblerState::AwaitingBanner { descriptor, .. } => Some(&descriptor),
                AssemblerState::AwaitingExports { descriptor, .. } => Some(&descriptor),
                AssemblerState::AwaitingFooter { descriptor, .. } => Some(&descriptor),
                _ => None,
            },
    {
        proof {
            use_type_invariant(self);
        }
        match self.phase {
            Phase::Banner | Phase::Exports | Phase::Footer => self.descriptor.as_ref(),
            _ => None,
        }
    }

    /// Takes in what the driver reports and decides what comes next.
    pub fn step<E>(self, event: Event<D, E>) -> (r: (ChunkAssembler<D>, Action<D, E>))
        ensures
            (r.0@, r.1@) == self@.after(event@),
    {
        proof {
            use_type_invariant(&self);
        }
        let ChunkAssembler { phase, cwd, reference_dir, module_count, concat, descriptor } = self;
        let mut concat = concat;
        match (phase, event) {
            (Phase::Modules, Event::ModulesRendered { imports, outputs }) => {
                if outputs.len() != module_count {
                    return (
                        Self::retired(),
                        Action::Abort { violation: Violation::ModuleCountMismatch },
                    );
                }
                concat.add_source(Segment::raw(imports));
                let modules = fold_modules(&mut concat, outputs);
                (
                    ChunkAssembler {
                        phase: Phase::Description,
                        cwd,
                        reference_dir,
                        module_count,
                        concat,
                        descriptor,
                    },
                    Action::DescribeChunk { modules },
                )
            },
            (Phase::Description, Event::ChunkDescribed { descriptor: given }) => (
                ChunkAssembler {
                    phase: Phase::Banner,
                    cwd,
                    reference_dir,
                    module_count,
                    concat,
                    descriptor: Some(given),
                },
                Action::ResolveBanner,
            ),
            (Phase::Banner, Event::BannerResolved { outcome }) => match outcome {
                Ok(banner) => {
                    match banner {
                        Some(text) => {
                            concat.add_prepend_source(Segment::raw(text));
                        },
                        None => {},
                    }
                    (
                        ChunkAssembler {
                            phase: Phase::Exports,
                            cwd,
                            reference_dir,
                            module_count,
                            concat,
                            descriptor,
                        },
                        Action::RenderExports,
                    )
                },
                Err(cause) => (Self::retired(), Action::Fail { hook: Hook::Banner, cause }),
            },
            (Phase::Exports, Event::ExportsRendered { exports }) => {
                let ghost held = concat@;
                match exports {
                    Some(text) => {
                        concat.add_source(Segment::raw(text));
                        assert(concat@ =~= held + optional_segment(Some(text@)));
                    },
                    None => {},
                }
                (
                    ChunkAssembler {
                        phase: Phase::Footer,
                        cwd,
                        reference_dir,
                        module_count,
                        concat,
                        descriptor,
                    },
                    Action::ResolveFooter,
                )
            },
            (Phase::Footer, Event::FooterResolved { outcome }) => match outcome {
                Ok(footer) => {
                    let ghost held = concat@;
                    match footer {
                        Some(text) => {
                            concat.add_source(Segment::raw(text));
                            assert(concat@ =~= held + optional_segment(Some(text@)));
                        },
                        None => {},
                    }
                    match concat.try_content_and_sourcemap() {
                        None => (
                            Self::retired(),
                            Action::Abort { violation: Violation::LimitsExceeded },
                        ),
                        Some((code, composed)) => {
                            let map = match composed {
                                Some(m) => {
                                    let mut m = m;
                                    if try_relativize_sources(
                                        &mut m,
                                        reference_dir.as_str(),
                                        cwd.as_str(),
                                    ).is_err() {
                                        return (
                                            Self::retired(),
                                            Action::Abort {
                                                violation: Violation::RelativeWorkingDirectory,
                                            },
                                        );
                                    }
                                    Some(m)
                                },
                                None => None,
                            };
                            (
                                Self::retired(),
                                Action::Emit {
                                    chunk: ChunkRenderReturn {
                                        code,
                                        map,
                                        rendered_chunk: descriptor.unwrap(),
                                    },
                                },
                            )
                        },
                    }
                },
                Err(cause) => (Self::retired(), Action::Fail { hook: Hook::Footer, cause }),
            },
            _ => (Self::retired(), Action::Abort { violation: Violation::UnexpectedEvent }),
        }
    }
}

} // verus!
