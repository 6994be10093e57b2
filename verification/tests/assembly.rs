use chunk_render::assembler::{Action, Chunk, ChunkAssembler, Event, Hook, Violation};
use chunk_render::fold::fold_modules;
use chunk_render::concat_source::ConcatSource;
use chunk_render::rendered::{ModuleRenderOutput, RenderedModule, RenderedModules};
use chunk_render::sourcemap::{SourceMap, Token};
use std::path::{PathBuf, MAIN_SEPARATOR};

type Descriptor = &'static str;
type Failure = String;
type Machine = ChunkAssembler<Descriptor>;
type Asked = Action<Descriptor, Failure>;

fn native(parts: &[&str]) -> String {
    let mut p = PathBuf::new();
    for part in parts {
        p.push(part);
    }
    p.to_string_lossy().into_owned()
}

fn root() -> String {
    if MAIN_SEPARATOR == '\\' { "C:\\".to_string() } else { "/".to_string() }
}

fn rooted(parts: &[&str]) -> String {
    let mut all = vec![root()];
    all.extend(parts.iter().map(|s| s.to_string()));
    let refs: Vec<&str> = all.iter().map(|s| s.as_str()).collect();
    native(&refs)
}

fn chunk(modules: usize, file_name: Option<&str>) -> Chunk {
    Chunk { modules: (0..modules).collect(), preliminary_filename: file_name.map(|s| s.to_string()) }
}

fn plain(name: &str, text: &str) -> Option<ModuleRenderOutput> {
    Some(ModuleRenderOutput {
        display_path: format!("display/{name}"),
        pretty_path: format!("pretty/{name}"),
        rendered_module: RenderedModule { code: Some(text.to_string()) },
        rendered_content: text.to_string(),
        sourcemap: None,
        lines_count: text.matches('\n').count() as u32,
    })
}

fn with_map(name: &str, text: &str, source: &str, tokens: Vec<Token>) -> Option<ModuleRenderOutput> {
    let mut out = plain(name, text).unwrap();
    out.sourcemap = Some(SourceMap {
        names: vec![],
        sources: vec![source.to_string()],
        source_contents: vec![None],
        tokens,
    });
    Some(out)
}

fn at(dst_line: u32, dst_col: u32) -> Token {
    Token { dst_line, dst_col, src_line: 0, src_col: 0, source_id: Some(0), name_id: None }
}

fn kind(action: &Asked) -> &'static str {
    match action {
        Action::RenderModules => "render modules",
        Action::DescribeChunk { .. } => "describe chunk",
        Action::ResolveBanner => "resolve banner",
        Action::RenderExports => "render exports",
        Action::ResolveFooter => "resolve footer",
        Action::Emit { .. } => "emit",
        Action::Fail { .. } => "fail",
        Action::Abort { .. } => "abort",
    }
}

fn violation(action: &Asked) -> Option<Violation> {
    match action {
        Action::Abort { violation } => Some(*violation),
        _ => None,
    }
}

fn started(modules: usize) -> Machine {
    let (m, a): (Machine, Asked) =
        ChunkAssembler::start(&chunk(modules, Some("entry.js")), &rooted(&["work"]), "dist");
    assert_eq!(kind(&a), "render modules");
    m
}

/// Drives an assembler up to the footer hook and returns it with the record
/// of rendered modules.
fn up_to_footer(
    imports: &str,
    outputs: Vec<Option<ModuleRenderOutput>>,
    banner: Option<&str>,
    exports: Option<&str>,
) -> (Machine, RenderedModules) {
    let m = started(outputs.len());
    let (m, a) = m.step::<Failure>(Event::ModulesRendered { imports: imports.to_string(), outputs });
    let modules = match a {
        Action::DescribeChunk { modules } => modules,
        other => panic!("asked to {}", kind(&other)),
    };
    let (m, a) = m.step::<Failure>(Event::ChunkDescribed { descriptor: "the chunk" });
    assert_eq!(kind(&a), "resolve banner");
    let (m, a) =
        m.step::<Failure>(Event::BannerResolved { outcome: Ok(banner.map(|s| s.to_string())) });
    assert_eq!(kind(&a), "render exports");
    let (m, a) =
        m.step::<Failure>(Event::ExportsRendered { exports: exports.map(|s| s.to_string()) });
    assert_eq!(kind(&a), "resolve footer");
    (m, modules)
}

fn emitted(m: Machine, footer: Option<&str>) -> (String, Option<SourceMap>, Descriptor) {
    let (m, a) =
        m.step::<Failure>(Event::FooterResolved { outcome: Ok(footer.map(|s| s.to_string())) });
    assert!(m.is_closed());
    match a {
        Action::Emit { chunk } => (chunk.code, chunk.map, chunk.rendered_chunk),
        other => panic!("asked to {}", kind(&other)),
    }
}

#[test]
fn missing_filename_aborts_before_any_module_is_rendered() {
    let (m, a): (Machine, Asked) =
        ChunkAssembler::start(&chunk(3, None), &rooted(&["work"]), "dist");
    assert_eq!(violation(&a), Some(Violation::MissingFilename));
    assert!(m.is_closed());
    // Nothing the driver reports afterwards makes the assembler ask for a render.
    let (m, a) = m.step::<Failure>(Event::ModulesRendered {
        imports: String::new(),
        outputs: vec![None, None, None],
    });
    assert_eq!(violation(&a), Some(Violation::UnexpectedEvent));
    assert!(m.is_closed());
}

#[test]
fn missing_filename_comes_before_other_violations() {
    let (_, a): (Machine, Asked) = ChunkAssembler::start(&chunk(0, None), "relative", "");
    assert_eq!(violation(&a), Some(Violation::MissingFilename));
}

fn rendered_under(cwd: &str, outputs: Vec<Option<ModuleRenderOutput>>) -> Asked {
    let (m, a): (Machine, Asked) =
        ChunkAssembler::start(&chunk(outputs.len(), Some("entry.js")), cwd, "dist");
    assert_eq!(kind(&a), "render modules");
    let (m, _) = m.step::<Failure>(Event::ModulesRendered { imports: String::new(), outputs });
    let (m, _) = m.step::<Failure>(Event::ChunkDescribed { descriptor: "d" });
    let (m, _) = m.step::<Failure>(Event::BannerResolved { outcome: Ok(None) });
    let (m, _) = m.step::<Failure>(Event::ExportsRendered { exports: None });
    let (m, a) = m.step::<Failure>(Event::FooterResolved { outcome: Ok(None) });
    assert!(m.is_closed());
    a
}

#[test]
fn relative_working_directory_aborts_where_a_map_is_to_be_rewritten() {
    let a = rendered_under("work", vec![with_map("a.js", "a", "src/a.js", vec![])]);
    assert_eq!(violation(&a), Some(Violation::RelativeWorkingDirectory));
}

#[test]
fn relative_working_directory_does_not_matter_without_a_map() {
    match rendered_under("work", vec![plain("a.js", "a")]) {
        Action::Emit { chunk } => {
            assert_eq!(chunk.code, "// pretty/a.jsa");
            assert!(chunk.map.is_none());
        },
        other => panic!("asked to {}", kind(&other)),
    }
}

#[test]
fn limits_come_before_the_working_directory() {
    let mut big = with_map("a.js", "a", "a.js", vec![]).unwrap();
    big.lines_count = u32::MAX;
    let a = rendered_under("work", vec![Some(big), plain("b.js", "\n")]);
    assert_eq!(violation(&a), Some(Violation::LimitsExceeded));
}

#[test]
fn emission_path_without_parent_aborts() {
    let (m, a): (Machine, Asked) = ChunkAssembler::start(&chunk(1, Some("")), &root(), "");
    assert_eq!(violation(&a), Some(Violation::NoParentDirectory));
    assert!(m.is_closed());
}

#[test]
fn a_valid_chunk_is_first_asked_to_render_its_modules() {
    let m = started(2);
    assert!(!m.is_closed());
    assert!(m.descriptor().is_none());
}

#[test]
fn actions_follow_the_required_order() {
    let outputs = vec![plain("a.js", "a();\n")];
    let (m, _) = up_to_footer("", outputs, None, None);
    let (m, a) = m.step::<Failure>(Event::FooterResolved { outcome: Ok(None) });
    assert_eq!(kind(&a), "emit");
    assert!(m.is_closed());
}

#[test]
fn text_is_banner_imports_modules_exports_footer() {
    let outputs = vec![plain("a.js", "\na();\n"), plain("b.js", "\nb();\n")];
    let (m, _) =
        up_to_footer("import x;\n", outputs, Some("/* banner */\n"), Some("export {};\n"));
    let (code, map, descriptor) = emitted(m, Some("/* footer */\n"));
    assert_eq!(
        code,
        "/* banner */\nimport x;\n// pretty/a.js\na();\n// pretty/b.js\nb();\nexport {};\n/* footer */\n"
    );
    assert!(map.is_none());
    assert_eq!(descriptor, "the chunk");
}

#[test]
fn absent_banner_exports_and_footer_add_nothing() {
    let outputs = vec![plain("a.js", "a();")];
    let (m, _) = up_to_footer("import x;", outputs, None, None);
    let (code, _, _) = emitted(m, None);
    assert_eq!(code, "import x;// pretty/a.jsa();");
}

#[test]
fn header_is_two_slashes_a_space_and_the_pretty_path() {
    let mut concat = ConcatSource::new();
    let _ = fold_modules(&mut concat, vec![plain("m.js", "")]);
    assert_eq!(concat.len(), 2);
    let (code, _) = concat.content_and_sourcemap();
    assert_eq!(code, "// pretty/m.js");
}

#[test]
fn module_without_output_leaves_no_trace() {
    let with = vec![plain("a.js", "a\n"), None, plain("c.js", "c\n")];
    let without = vec![plain("a.js", "a\n"), plain("c.js", "c\n")];
    let (m1, records1) = up_to_footer("", with, None, None);
    let (m2, records2) = up_to_footer("", without, None, None);
    let (code1, _, _) = emitted(m1, None);
    let (code2, _, _) = emitted(m2, None);
    assert_eq!(code1, code2);
    assert_eq!(code1, "// pretty/a.jsa\n// pretty/c.jsc\n");
    let (records1, records2) = (records1.into_inner(), records2.into_inner());
    assert_eq!(records1.len(), 2);
    assert_eq!(records2.len(), 2);
    assert!(records1.contains_key("display/a.js"));
    assert!(records1.contains_key("display/c.js"));
}

#[test]
fn chunk_of_silent_modules_is_its_imports() {
    let (m, records) = up_to_footer("import x;\n", vec![None, None], None, None);
    let (code, map, _) = emitted(m, None);
    assert_eq!(code, "import x;\n");
    assert!(map.is_none());
    assert!(records.into_inner().is_empty());
}

#[test]
fn rendered_modules_are_recorded_by_display_path() {
    let outputs = vec![plain("a.js", "a"), plain("b.js", "b")];
    let (_, records) = up_to_footer("", outputs, None, None);
    assert_eq!(records.get("display/a.js").unwrap().code.as_deref(), Some("a"));
    assert_eq!(records.get("display/b.js").unwrap().code.as_deref(), Some("b"));
    assert!(records.get("pretty/a.js").is_none());
    assert!(records.get("display/c.js").is_none());
}

#[test]
fn later_module_replaces_the_record_of_an_earlier_one_with_its_path() {
    let outputs = vec![plain("a.js", "first"), plain("a.js", "second")];
    let (_, records) = up_to_footer("", outputs, None, None);
    assert_eq!(records.get("display/a.js").unwrap().code.as_deref(), Some("second"));
    assert_eq!(records.into_inner().len(), 1);
}

#[test]
fn map_is_present_only_when_a_module_brings_one() {
    let (m, _) = up_to_footer("i\n", vec![plain("a.js", "a\n")], Some("b\n"), Some("e\n"));
    let (_, map, _) = emitted(m, Some("f\n"));
    assert!(map.is_none());

    let source = rooted(&["work", "src", "a.js"]);
    let outputs = vec![plain("p.js", "p\n"), with_map("a.js", "a\n", &source, vec![])];
    let (m, _) = up_to_footer("i\n", outputs, Some("b\n"), Some("e\n"));
    let (_, map, _) = emitted(m, Some("f\n"));
    assert!(map.is_some());
}

#[test]
fn records_are_placed_after_banner_imports_and_headers() {
    let source_a = rooted(&["work", "src", "a.js"]);
    let source_b = rooted(&["work", "src", "b.js"]);
    let outputs = vec![
        with_map("a.js", "\na1\na2\n", &source_a, vec![at(1, 0), at(2, 1)]),
        None,
        with_map("b.js", "\nb1\n", &source_b, vec![at(0, 0), at(1, 2)]),
    ];
    let (m, _) = up_to_footer("import x;\n", outputs, Some("/* banner */\n"), None);
    let (code, map, _) = emitted(m, None);
    assert_eq!(
        code,
        "/* banner */\nimport x;\n// pretty/a.js\na1\na2\n// pretty/b.js\nb1\n"
    );
    let map = map.unwrap();
    let placed: Vec<(u32, u32, Option<u32>)> =
        map.tokens.iter().map(|t| (t.dst_line, t.dst_col, t.source_id)).collect();
    assert_eq!(placed, vec![
        (3, 0, Some(0)),
        (4, 1, Some(0)),
        (5, 14, Some(1)),
        (6, 2, Some(1)),
    ]);
}

#[test]
fn sources_of_the_emitted_map_lead_from_the_chunk_directory() {
    let source = rooted(&["work", "src", "a.js"]);
    let outputs = vec![with_map("a.js", "a\n", &source, vec![at(0, 0)])];
    let (m, a): (Machine, Asked) = ChunkAssembler::start(
        &chunk(1, Some(&native(&["chunks", "entry.js"]))),
        &rooted(&["work"]),
        "dist",
    );
    assert_eq!(kind(&a), "render modules");
    let (m, _) = m.step::<Failure>(Event::ModulesRendered { imports: String::new(), outputs });
    let (m, _) = m.step::<Failure>(Event::ChunkDescribed { descriptor: "d" });
    let (m, _) = m.step::<Failure>(Event::BannerResolved { outcome: Ok(None) });
    let (m, _) = m.step::<Failure>(Event::ExportsRendered { exports: None });
    let (_, map, _) = emitted(m, None);
    assert_eq!(map.unwrap().sources, vec![native(&["..", "..", "src", "a.js"])]);
}

#[test]
fn descriptor_is_held_for_the_hooks() {
    let m = started(0);
    let (m, _) = m.step::<Failure>(Event::ModulesRendered { imports: String::new(), outputs: vec![] });
    assert!(m.descriptor().is_none());
    let (m, _) = m.step::<Failure>(Event::ChunkDescribed { descriptor: "shown to hooks" });
    assert_eq!(m.descriptor(), Some(&"shown to hooks"));
    let (m, _) = m.step::<Failure>(Event::BannerResolved { outcome: Ok(None) });
    assert_eq!(m.descriptor(), Some(&"shown to hooks"));
    let (m, _) = m.step::<Failure>(Event::ExportsRendered { exports: None });
    assert_eq!(m.descriptor(), Some(&"shown to hooks"));
    let (m, _) = m.step::<Failure>(Event::FooterResolved { outcome: Ok(None) });
    assert!(m.descriptor().is_none());
}

#[test]
fn banner_failure_ends_rendering_with_its_cause() {
    let m = started(1);
    let (m, _) = m.step::<Failure>(Event::ModulesRendered {
        imports: String::new(),
        outputs: vec![plain("a.js", "a")],
    });
    let (m, _) = m.step::<Failure>(Event::ChunkDescribed { descriptor: "d" });
    let (m, a) = m.step(Event::BannerResolved { outcome: Err("banner broke".to_string()) });
    match a {
        Action::Fail { hook, cause } => {
            assert_eq!(hook, Hook::Banner);
            assert_eq!(cause, "banner broke");
        },
        other => panic!("asked to {}", kind(&other)),
    }
    assert!(m.is_closed());
    let (_, a) = m.step::<Failure>(Event::ExportsRendered { exports: None });
    assert_eq!(violation(&a), Some(Violation::UnexpectedEvent));
}

#[test]
fn footer_failure_ends_rendering_with_its_cause() {
    let (m, _) = up_to_footer("i", vec![plain("a.js", "a")], Some("b"), Some("e"));
    let (m, a) = m.step(Event::FooterResolved { outcome: Err("footer broke".to_string()) });
    match a {
        Action::Fail { hook, cause } => {
            assert_eq!(hook, Hook::Footer);
            assert_eq!(cause, "footer broke");
        },
        other => panic!("asked to {}", kind(&other)),
    }
    assert!(m.is_closed());
}

#[test]
fn event_out_of_turn_aborts() {
    let m = started(0);
    let (m, a) = m.step::<Failure>(Event::ExportsRendered { exports: None });
    assert_eq!(violation(&a), Some(Violation::UnexpectedEvent));
    assert!(m.is_closed());

    let m = started(0);
    let (m, _) = m.step::<Failure>(Event::ModulesRendered { imports: String::new(), outputs: vec![] });
    let (m, a) = m.step::<Failure>(Event::BannerResolved { outcome: Ok(None) });
    assert_eq!(violation(&a), Some(Violation::UnexpectedEvent));
    assert!(m.is_closed());
}

#[test]
fn wrong_number_of_results_aborts() {
    let m = started(2);
    let (m, a) = m.step::<Failure>(Event::ModulesRendered {
        imports: String::new(),
        outputs: vec![plain("a.js", "a")],
    });
    assert_eq!(violation(&a), Some(Violation::ModuleCountMismatch));
    assert!(m.is_closed());
}

#[test]
fn chunk_beyond_the_limits_of_a_map_aborts() {
    let mut big = with_map("a.js", "a", "a.js", vec![]).unwrap();
    big.lines_count = u32::MAX;
    let outputs = vec![Some(big), plain("b.js", "\n")];
    let (m, _) = up_to_footer("", outputs, None, None);
    let (m, a) = m.step::<Failure>(Event::FooterResolved { outcome: Ok(None) });
    assert_eq!(violation(&a), Some(Violation::LimitsExceeded));
    assert!(m.is_closed());
}
