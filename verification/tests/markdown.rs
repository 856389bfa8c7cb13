use bony::build::markdown::{
    blocks, inline_spans, looks_like_path, ordered_prefix, parse_code_spans, path_list_lead,
    split_trailing_path_list, Block, Inline,
};

#[test]
fn trailing_path_list_keeps_commit_summary() {
    let text = "`e0a3c16` — 新增 Bony Monitor。更改文件：`crates/a/Cargo.toml`, `crates/a/src/lib.rs`, `README.md`";
    let (prefix, paths) = split_trailing_path_list(text).expect("path list");
    assert!(prefix.contains("e0a3c16"));
    assert!(prefix.contains("Bony Monitor"));
    assert_eq!(paths.len(), 3);
    assert_eq!(paths[0], "crates/a/Cargo.toml");
}

#[test]
fn short_hash_is_not_a_path() {
    assert!(!looks_like_path("e0a3c16"));
    assert!(looks_like_path("crates/foo.rs"));
    assert!(looks_like_path("README.md"));
}

#[test]
fn two_inline_codes_without_paths_are_not_lists() {
    let text = "用 `foo` 和 `bar` 即可";
    assert!(split_trailing_path_list(text).is_none());
}

#[test]
fn path_list_lead_drops_label() {
    assert_eq!(path_list_lead("新增 Bony Monitor。更改文件： "), "新增 Bony Monitor。更改文件");
    assert_eq!(path_list_lead("见下 更改文件"), "见下");
    assert_eq!(path_list_lead("done:"), "done");
}

#[test]
fn code_spans_pair_backticks() {
    let spans = parse_code_spans("a `x` b `y");
    assert_eq!(spans.len(), 1);
    assert_eq!(spans[0].start, 2);
    assert_eq!(spans[0].end, 5);
    assert_eq!(spans[0].content, "x");
}

#[test]
fn ordered_prefixes() {
    assert_eq!(ordered_prefix("12. item"), Some(("12".to_string(), "item".to_string())));
    assert_eq!(ordered_prefix("3) x"), Some(("3".to_string(), "x".to_string())));
    assert_eq!(ordered_prefix("3 x"), None);
    assert_eq!(ordered_prefix("x. y"), None);
}

#[test]
fn long_or_multiline_text_is_no_path() {
    assert!(!looks_like_path(&"a/".repeat(131)));
    assert!(!looks_like_path("a/b\nc"));
    assert!(!looks_like_path(""));
}

#[test]
fn blocks_of_a_message() {
    let b = blocks("# Title\n\n- one\n  2. two\n```\ncode\n```\ntext");
    assert_eq!(b.len(), 6);
    assert_eq!(b[0], Block::Heading { level: 1, text: "Title".into() });
    assert_eq!(b[1], Block::Blank);
    assert_eq!(b[2], Block::ListItem { indent: 0, marker: "•".into(), text: "one".into() });
    assert_eq!(b[3], Block::ListItem { indent: 2, marker: "2.".into(), text: "two".into() });
    assert_eq!(b[4], Block::Code("code".into()));
    assert_eq!(b[5], Block::Paragraph { indent: 0, text: "text".into() });
}

#[test]
fn open_fence_still_shows_its_code() {
    assert_eq!(blocks("```\na\nb"), vec![Block::Code("a\nb".into())]);
}

#[test]
fn inline_pieces() {
    let s = inline_spans("see `a.rs`, **bold** and *x");
    assert_eq!(
        s,
        vec![
            Inline::Text("see ".into()),
            Inline::Code("a.rs".into()),
            Inline::Bold("bold".into()),
            Inline::Text(" and *x".into()),
        ]
    );
    assert_eq!(inline_spans("`open"), vec![Inline::Glyph("`".into()), Inline::Text("open".into())]);
}

#[test]
fn desktop_inline_keeps_comma_after_chip() {
    let s = bony::desktop::markdown::inline_spans("see `a.rs`, **bold**");
    assert_eq!(
        s,
        vec![
            Inline::Text("see ".into()),
            Inline::Code("a.rs".into()),
            Inline::Text(", ".into()),
            Inline::Bold("bold".into()),
        ]
    );
    let text = "# T\n- a\n```\ncode\n```";
    assert_eq!(bony::desktop::markdown::blocks(text), blocks(text));
}
