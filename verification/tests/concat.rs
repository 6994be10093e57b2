use chunk_render::concat_source::{ConcatSource, Segment};
use chunk_render::sourcemap::{SourceMap, Token};

fn raw(text: &str) -> Segment {
    Segment::raw(text.to_string())
}

fn record(dst_line: u32, dst_col: u32, source_id: u32) -> Token {
    Token { dst_line, dst_col, src_line: dst_line, src_col: dst_col, source_id: Some(source_id), name_id: None }
}

fn map_of(source: &str, tokens: Vec<Token>) -> SourceMap {
    SourceMap {
        names: vec![],
        sources: vec![source.to_string()],
        source_contents: vec![Some(format!("text of {source}"))],
        tokens,
    }
}

fn mapped(text: &str, source: &str, lines: u32, tokens: Vec<Token>) -> Segment {
    Segment::mapped(text.to_string(), map_of(source, tokens), lines)
}

#[test]
fn empty_concatenation_is_empty_text_without_map() {
    let c = ConcatSource::new();
    assert_eq!(c.len(), 0);
    let (code, map) = c.content_and_sourcemap();
    assert_eq!(code, "");
    assert!(map.is_none());
}

#[test]
fn default_concatenation_is_empty() {
    let c = ConcatSource::default();
    assert_eq!(c.len(), 0);
    let (code, map) = c.try_content_and_sourcemap().unwrap();
    assert_eq!(code, "");
    assert!(map.is_none());
}

#[test]
fn texts_are_joined_in_order_without_separators() {
    let mut c = ConcatSource::new();
    c.add_source(raw("one\n"));
    c.add_source(raw("two"));
    c.add_source(raw("three\n"));
    assert_eq!(c.len(), 3);
    let (code, map) = c.content_and_sourcemap();
    assert_eq!(code, "one\ntwothree\n");
    assert!(map.is_none());
}

#[test]
fn prepended_segment_comes_first() {
    let mut c = ConcatSource::new();
    c.add_source(raw("b"));
    c.add_source(raw("c"));
    c.add_prepend_source(raw("a"));
    c.add_source(raw("d"));
    let (code, _) = c.content_and_sourcemap();
    assert_eq!(code, "abcd");
}

#[test]
fn all_raw_concatenation_has_no_map() {
    let mut c = ConcatSource::new();
    c.add_source(raw("x\n"));
    c.add_prepend_source(raw("y\n"));
    let (_, map) = c.try_content_and_sourcemap().unwrap();
    assert!(map.is_none());
}

#[test]
fn has_map_tells_whether_a_segment_is_mapped() {
    let mut c = ConcatSource::new();
    assert!(!c.has_map());
    c.add_source(raw("x"));
    assert!(!c.has_map());
    c.add_source(mapped("y", "y.js", 0, vec![]));
    c.add_source(raw("z"));
    assert!(c.has_map());
    assert_eq!(c.content(), "xyz");
}

#[test]
fn raw_text_of_any_shape_is_within_the_limits() {
    let mut c = ConcatSource::new();
    c.add_source(raw("a\n\n\nb"));
    c.add_source(raw(""));
    c.add_source(raw("\n"));
    assert_eq!(c.content(), "a\n\n\nb\n");
    let (code, map) = c.try_content_and_sourcemap().unwrap();
    assert_eq!(code, "a\n\n\nb\n");
    assert!(map.is_none());
}

#[test]
fn one_mapped_segment_makes_the_map_present() {
    let mut c = ConcatSource::new();
    c.add_source(raw("x\n"));
    c.add_source(mapped("y\n", "y.js", 1, vec![]));
    let (_, map) = c.content_and_sourcemap();
    let map = map.unwrap();
    assert_eq!(map.sources, vec!["y.js".to_string()]);
    assert!(map.tokens.is_empty());
}

#[test]
fn second_fragment_is_offset_by_first_line_count() {
    let mut c = ConcatSource::new();
    c.add_source(mapped("a1\na2\na3\n", "a.js", 3, vec![record(0, 0, 0), record(2, 1, 0)]));
    c.add_source(mapped("b1\nb2\n", "b.js", 2, vec![record(0, 0, 0), record(1, 2, 0)]));
    let (code, map) = c.content_and_sourcemap();
    assert_eq!(code, "a1\na2\na3\nb1\nb2\n");
    let map = map.unwrap();
    assert_eq!(map.sources, vec!["a.js".to_string(), "b.js".to_string()]);
    assert_eq!(map.source_contents, vec![
        Some("text of a.js".to_string()),
        Some("text of b.js".to_string()),
    ]);
    assert_eq!(map.tokens, vec![
        Token { dst_line: 0, dst_col: 0, src_line: 0, src_col: 0, source_id: Some(0), name_id: None },
        Token { dst_line: 2, dst_col: 1, src_line: 2, src_col: 1, source_id: Some(0), name_id: None },
        Token { dst_line: 3, dst_col: 0, src_line: 0, src_col: 0, source_id: Some(1), name_id: None },
        Token { dst_line: 4, dst_col: 2, src_line: 1, src_col: 2, source_id: Some(1), name_id: None },
    ]);
}

#[test]
fn raw_segments_without_line_feeds_do_not_move_lines() {
    let mut c = ConcatSource::new();
    c.add_source(raw(""));
    c.add_source(raw("// a"));
    c.add_source(mapped("\na1\na2\n", "a.js", 3, vec![record(1, 0, 0)]));
    c.add_source(raw("// b"));
    c.add_source(mapped("\nb1\n", "b.js", 2, vec![record(1, 0, 0), record(1, 1, 0)]));
    let (_, map) = c.content_and_sourcemap();
    let lines: Vec<u32> = map.unwrap().tokens.iter().map(|t| t.dst_line).collect();
    assert_eq!(lines, vec![1, 4, 4]);
}

#[test]
fn raw_segments_move_lines_by_their_line_feeds() {
    let mut c = ConcatSource::new();
    c.add_source(raw("import a;\nimport b;\n"));
    c.add_source(raw("// m\n"));
    c.add_source(mapped("m1\nm2\n", "m.js", 2, vec![record(0, 0, 0), record(1, 3, 0)]));
    let (_, map) = c.content_and_sourcemap();
    let at: Vec<(u32, u32)> = map.unwrap().tokens.iter().map(|t| (t.dst_line, t.dst_col)).collect();
    assert_eq!(at, vec![(3, 0), (4, 3)]);
}

#[test]
fn first_line_columns_follow_the_text_before() {
    let mut c = ConcatSource::new();
    c.add_source(raw("line\nab"));
    c.add_source(raw("cde"));
    c.add_source(mapped("x\ny", "m.js", 1, vec![record(0, 0, 0), record(0, 1, 0), record(1, 0, 0)]));
    c.add_source(mapped("z", "n.js", 0, vec![record(0, 0, 0)]));
    let (code, map) = c.content_and_sourcemap();
    assert_eq!(code, "line\nabcdex\nyz");
    let at: Vec<(u32, u32)> = map.unwrap().tokens.iter().map(|t| (t.dst_line, t.dst_col)).collect();
    assert_eq!(at, vec![(1, 5), (1, 6), (2, 0), (2, 1)]);
}

#[test]
fn mapped_segments_count_their_declared_lines() {
    let mut c = ConcatSource::new();
    c.add_source(mapped("one line of text", "a.js", 5, vec![]));
    c.add_source(mapped("b", "b.js", 0, vec![record(0, 0, 0)]));
    let (_, map) = c.content_and_sourcemap();
    let t = map.unwrap().tokens[0];
    assert_eq!((t.dst_line, t.dst_col), (5, 16));
}

#[test]
fn output_line_count_is_sum_of_segment_line_counts() {
    let mut c = ConcatSource::new();
    c.add_source(raw("a\nb\n"));
    c.add_source(mapped("c\nd\ne\n", "c.js", 3, vec![]));
    c.add_source(raw("f"));
    c.add_source(raw("\n"));
    let (code, _) = c.content_and_sourcemap();
    assert_eq!(code.matches('\n').count(), 2 + 3 + 0 + 1);
}

#[test]
fn flattening_twice_gives_the_same_result() {
    let build = || {
        let mut c = ConcatSource::new();
        c.add_source(raw("i\n"));
        c.add_source(mapped("m\n", "m.js", 1, vec![record(0, 0, 0)]));
        c.add_prepend_source(raw("b\n"));
        c.content_and_sourcemap()
    };
    let (code1, map1) = build();
    let (code2, map2) = build();
    assert_eq!(code1, code2);
    let (map1, map2) = (map1.unwrap(), map2.unwrap());
    assert_eq!(map1.sources, map2.sources);
    assert_eq!(map1.tokens, map2.tokens);
}

#[test]
fn flattening_beyond_the_limits_is_refused() {
    let mut c = ConcatSource::new();
    c.add_source(mapped("a", "a.js", u32::MAX, vec![]));
    c.add_source(mapped("b", "b.js", 1, vec![]));
    assert!(c.try_content_and_sourcemap().is_none());

    let mut c = ConcatSource::new();
    c.add_source(mapped("a", "a.js", u32::MAX, vec![]));
    c.add_source(mapped("b", "b.js", 0, vec![record(1, 0, 0)]));
    assert!(c.try_content_and_sourcemap().is_none());

    let mut c = ConcatSource::new();
    c.add_source(mapped("a", "a.js", u32::MAX, vec![]));
    c.add_source(mapped("b", "b.js", 0, vec![record(0, 0, 0)]));
    assert!(c.try_content_and_sourcemap().is_some());
}
