//! What rendering a module yields, and the record of the modules that went
//! into a chunk.

use crate::sourcemap::{text_of, SourceMap, SourceMapView};
use rustc_hash::{FxBuildHasher, FxHashMap};
use vstd::prelude::*;

verus! {

/// What is recorded of a module that was rendered into a chunk.
#[derive(Debug)]
pub struct RenderedModule {
    pub code: Option<String>,
}

/// The mathematical value of a [`RenderedModule`].
pub struct RenderedModuleView {
    pub code: Option<Seq<char>>,
}

impl View for RenderedModule {
    type V = RenderedModuleView;

    open spec fn view(&self) -> RenderedModuleView {
        RenderedModuleView { code: text_of(self.code) }
    }
}

/// The result of rendering one module.
#[derive(Debug)]
pub struct ModuleRenderOutput {
    /// The stable path under which the module is recorded.
    pub display_path: String,
    /// The path shown to a reader, in the comment above the module's text.
    pub pretty_path: String,
    /// What is recorded of the module.
    pub rendered_module: RenderedModule,
    /// The module's text.
    pub rendered_content: String,
    /// The source map of that text, where there is one.
    pub sourcemap: Option<SourceMap>,
    /// The number of lines the text occupies.
    pub lines_count: u32,
}

/// The mathematical value of a [`ModuleRenderOutput`].
pub struct ModuleRenderOutputView {
    pub display_path: Seq<char>,
    pub pretty_path: Seq<char>,
    pub rendered_module: RenderedModuleView,
    pub rendered_content: Seq<char>,
    pub sourcemap: Option<SourceMapView>,
    pub lines_count: nat,
}

impl View for ModuleRenderOutput {
    type V = ModuleRenderOutputView;

    open spec fn view(&self) -> ModuleRenderOutputView {
        ModuleRenderOutputView {
            display_path: self.display_path@,
            pretty_path: self.pretty_path@,
            rendered_module: self.rendered_module@,
            rendered_content: self.rendered_content@,
            sourcemap: match self.sourcemap {
                Some(m) => Some(m@),
                None => None,
            },
            lines_count: self.lines_count as nat,
        }
    }
}

/// `rustc_hash::FxBuildHasher`, the hasher of the hash map that holds the
/// record of rendered modules. Nothing is said of it but that it exists.
#[verifier::external_type_specification]
#[verifier::external_body]
pub struct ExFxBuildHasher(FxBuildHasher);

/// The entries of a `rustc_hash::FxHashMap` of rendered modules, keyed by
/// the text of the module path.
pub uninterp spec fn module_entries(map: FxHashMap<String, RenderedModule>) -> Map<
    Seq<char>,
    RenderedModuleView,
>;

/// The record of no module.
pub open spec fn no_modules() -> Map<Seq<char>, RenderedModuleView> {
    Map::empty()
}

/// `FxHashMap::default`: a map without entries.
#[verifier::external_body]
fn entries_new() -> (r: FxHashMap<String, RenderedModule>)
    ensures
        module_entries(r) == no_modules(),
{
    FxHashMap::default()
}

/// `HashMap::insert`: afterwards the key maps to the value, whether or not
/// it was present before, and every other entry is as it was. Keys are
/// strings, equal when their text is equal.
#[verifier::external_body]
fn entries_insert(map: &mut FxHashMap<String, RenderedModule>, key: String, value: RenderedModule)
    ensures
        module_entries(*final(map)) == module_entries(*old(map)).insert(key@, value@),
{
    map.insert(key, value);
}

/// `HashMap::get`: the value stored under the key, if any.
#[verifier::external_body]
fn entries_get<'a>(map: &'a FxHashMap<String, RenderedModule>, key: &str) -> (r: Option<
    &'a RenderedModule,
>)
    ensures
        r is Some <==> module_entries(*map).contains_key(key@),
        r matches Some(v) ==> v@ == module_entries(*map)[key@],
{
    map.get(key)
}

/// The modules rendered into a chunk, by module path.
pub struct RenderedModules {
    map: FxHashMap<String, RenderedModule>,
}

impl View for RenderedModules {
    type V = Map<Seq<char>, RenderedModuleView>;

    closed spec fn view(&self) -> Map<Seq<char>, RenderedModuleView> {
        module_entries(self.map)
    }
}

impl RenderedModules {
    /// The record of no module.
    pub fn new() -> (m: RenderedModules)
        ensures
            m@ == no_modules(),
    {
        RenderedModules { map: entries_new() }
    }

    /// Records `module` under `path`, in place of what was recorded there.
    pub fn insert(&mut self, path: String, module: RenderedModule)
        ensures
            final(self)@ == old(self)@.insert(path@, module@),
    {
        entries_insert(&mut self.map, path, module);
    }

    /// What is recorded under `path`.
    pub fn get(&self, path: &str) -> (r: Option<&RenderedModule>)
        ensures
            r is Some <==> self@.contains_key(path@),
            r matches Some(v) ==> v@ == self@[path@],
    {
        entries_get(&self.map, path)
    }

    /// The hash map that holds the record.
    pub fn into_inner(self) -> (map: FxHashMap<String, RenderedModule>)
        ensures
            module_entries(map) == self@,
    {
        self.map
    }
}

} // verus!
