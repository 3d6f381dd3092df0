use mdpdf::convert_document;
use mdpdf::layout::footer_line;
use mdpdf::layout::layout_document;
use mdpdf::layout::FontStyle;
use mdpdf::meta::extract_footer;
use mdpdf::meta::extract_signature;
use mdpdf::meta::extract_title;
use mdpdf::meta::resolve_metadata;
use mdpdf::text::split_lines;
use mdpdf::toc::render_toc;
use mdpdf::wrap::wrap_text;

fn doc(v: &[&str]) -> Vec<String> {
    let mut out: Vec<String> = Vec::new();
    for s in v {
        out.push(s.to_string());
    }
    out
}

#[test]
fn wrap_packs_words_greedily() {
    let segs = wrap_text("alpha beta gamma delta", 11);
    assert_eq!(segs, vec!["alpha beta".to_string(), "gamma delta".to_string()]);
    for s in &segs {
        assert!(s.chars().count() <= 11);
    }
}

#[test]
fn wrap_rejoins_to_normalized_line() {
    let segs = wrap_text("  one   two\tthree  four ", 9);
    let rejoined = segs.join(" ");
    assert_eq!(rejoined, "one two three four");
}

#[test]
fn wrap_empty_line_yields_no_segments() {
    assert_eq!(wrap_text("", 80).len(), 0);
    assert_eq!(wrap_text("   \t ", 80).len(), 0);
}

#[test]
fn wrap_word_of_exactly_width_stands_alone() {
    let w = "x".repeat(80);
    let segs = wrap_text(&w, 80);
    assert_eq!(segs, vec![w]);
}

#[test]
fn wrap_never_splits_long_word() {
    let long = "y".repeat(85);
    let segs = wrap_text(&long, 80);
    assert_eq!(segs, vec![long.clone()]);
    let line = format!("lead {} tail", long);
    let segs2 = wrap_text(&line, 80);
    assert_eq!(segs2, vec!["lead".to_string(), long, "tail".to_string()]);
}

#[test]
fn example_document_metadata_and_body() {
    let content = "# Title\nSignature: J.Doe\nHello world\n```\ncode\n```\nFooter line";
    let lines = split_lines(content);
    assert_eq!(extract_title(&lines), Some("Title".to_string()));
    assert_eq!(extract_signature(&lines), Some("J.Doe".to_string()));
    assert_eq!(extract_footer(&lines), Some("Footer line".to_string()));

    let out = layout_document(&lines, "Footer line");
    assert_eq!(out.body.len(), 3);
    assert_eq!(out.body[0].text, "Title");
    assert_eq!(out.body[0].font_size, 24);
    assert_eq!(out.body[0].style, FontStyle::Bold);
    assert_eq!(out.body[1].text, "Hello world");
    assert_eq!(out.body[1].font_size, 12);
    assert_eq!(out.body[1].style, FontStyle::Regular);
    assert_eq!(out.body[2].text, "code");
    assert_eq!(out.body[2].font_size, 10);
    assert_eq!(out.body[2].style, FontStyle::Monospace);

    assert_eq!(out.toc_entries.len(), 1);
    assert_eq!(out.toc_entries[0].label, "Title");
    assert_eq!(out.toc_entries[0].page_number, 3);
    assert!(out.toc_entries[0].is_chapter);
}

#[test]
fn signature_lines_never_reach_the_body() {
    let lines = doc(&["before", "Signature: Jane", "after", "end"]);
    let out = layout_document(&lines, "end");
    assert_eq!(out.body.len(), 2);
    assert_eq!(out.body[0].text, "before");
    assert_eq!(out.body[1].text, "after");
    for instr in &out.body {
        assert!(!instr.text.starts_with("Signature:"));
    }
}

#[test]
fn footer_copies_are_skipped_everywhere() {
    let lines = doc(&["keep", "the end", "also keep", "the end"]);
    let out = layout_document(&lines, "the end");
    assert_eq!(out.body.len(), 2);
    assert_eq!(out.body[0].text, "keep");
    assert_eq!(out.body[1].text, "also keep");
}

#[test]
fn footer_count_equals_final_page_number_minus_two() {
    let mut v: Vec<String> = Vec::new();
    for i in 0..60 {
        v.push(format!("line number {}", i));
    }
    v.push("footer".to_string());
    let out = layout_document(&v, "footer");
    assert_eq!(out.footers.len() as u64, out.page_number - 2);
}

#[test]
fn overflowing_body_splits_exactly_once_with_sequential_footers() {
    // 22 prose lines of 80 characters exceed 250 mm of cumulative line
    // height at 12 mm per line, so exactly one page split happens.
    let mut v: Vec<String> = Vec::new();
    for _ in 0..22 {
        v.push("z".repeat(80));
    }
    let out = layout_document(&v, "f");
    assert_eq!(out.page_number, 4);
    assert_eq!(out.footers.len(), 2);
    assert!(out.footers[0].text.starts_with("Page 3 "));
    assert!(out.footers[1].text.starts_with("Page 4 "));
    assert_eq!(out.footers[0].page_index, 2);
    assert_eq!(out.footers[1].page_index, 3);
}

#[test]
fn toc_entries_follow_source_heading_order() {
    let lines = doc(&["# One", "prose", "## Two", "# Three", "tail"]);
    let out = layout_document(&lines, "tail");
    let labels: Vec<String> = out.toc_entries.iter().map(|e| e.label.clone()).collect();
    assert_eq!(labels, vec!["One".to_string(), "Two".to_string(), "Three".to_string()]);
    assert!(out.toc_entries[0].is_chapter);
    assert!(!out.toc_entries[1].is_chapter);
    assert!(out.toc_entries[2].is_chapter);
}

#[test]
fn headings_inside_code_blocks_are_code() {
    let lines = doc(&["```", "# not a heading", "```", "# real", "end"]);
    let out = layout_document(&lines, "end");
    assert_eq!(out.toc_entries.len(), 1);
    assert_eq!(out.toc_entries[0].label, "real");
    assert_eq!(out.body[0].text, "# not a heading");
    assert_eq!(out.body[0].style, FontStyle::Monospace);
}

#[test]
fn fence_is_recognized_after_trimming() {
    let lines = doc(&["  ```  ", "inside", "```", "outside", "end"]);
    let out = layout_document(&lines, "end");
    assert_eq!(out.body[0].text, "inside");
    assert_eq!(out.body[0].style, FontStyle::Monospace);
    assert_eq!(out.body[1].text, "outside");
    assert_eq!(out.body[1].style, FontStyle::Regular);
}

#[test]
fn unterminated_fence_is_tolerated() {
    let lines = doc(&["```", "still code", "end"]);
    let out = layout_document(&lines, "end");
    assert_eq!(out.body.len(), 1);
    assert_eq!(out.body[0].text, "still code");
    assert_eq!(out.body[0].style, FontStyle::Monospace);
}

#[test]
fn subchapter_indent_and_sizes() {
    let lines = doc(&["# Chapter", "## Section", "end"]);
    let out = layout_document(&lines, "end");
    assert_eq!(out.body[0].x_mm, 15);
    assert_eq!(out.body[0].font_size, 24);
    assert_eq!(out.body[0].y_mm, 270);
    assert_eq!(out.body[1].x_mm, 25);
    assert_eq!(out.body[1].font_size, 18);
    assert_eq!(out.body[1].y_mm, 246);
}

#[test]
fn footer_line_format() {
    let f = footer_line(12, "My Doc");
    assert_eq!(f, "Page 12  |  My Doc");
}

#[test]
fn toc_lines_have_dotted_leaders_and_indentation() {
    let lines = doc(&["# Intro", "## Detail", "end"]);
    let out = layout_document(&lines, "end");
    let rendered = render_toc(&out.toc_entries);
    assert_eq!(rendered.len(), 2);
    assert_eq!(rendered[0].text, "Intro .......................... 3");
    assert_eq!(rendered[0].x_mm, 20);
    assert_eq!(rendered[0].y_mm, 250);
    assert_eq!(rendered[0].font_size, 14);
    assert_eq!(rendered[1].text, "Detail .......................... 3");
    assert_eq!(rendered[1].x_mm, 30);
    assert_eq!(rendered[1].y_mm, 236);
    for r in &rendered {
        assert_eq!(r.page_index, 1);
    }
}

#[test]
fn split_lines_handles_crlf_and_trailing_newline() {
    assert_eq!(split_lines("a\r\nb\nc"), vec!["a", "b", "c"]);
    assert_eq!(split_lines("a\n"), vec!["a"]);
    assert_eq!(split_lines("\n"), vec![""]);
    assert_eq!(split_lines("").len(), 0);
    assert_eq!(split_lines("tail\r"), vec!["tail\r"]);
}

#[test]
fn defaults_apply_on_empty_document() {
    let lines: Vec<String> = Vec::new();
    let m = resolve_metadata(&lines);
    assert_eq!(m.title, "Untitled");
    assert_eq!(m.signature, "___________________");
    assert_eq!(m.footer_text, "Generated with Markdown to PDF by wbalcer");
}

#[test]
fn metadata_scans_return_none_when_absent() {
    let lines = doc(&["plain prose", "more prose"]);
    assert_eq!(extract_title(&lines), None);
    assert_eq!(extract_signature(&lines), None);
    let empty: Vec<String> = Vec::new();
    assert_eq!(extract_footer(&empty), None);
}

#[test]
fn convert_assembles_the_whole_plan() {
    let content = "# Title\nSignature: J.Doe\nHello world\n```\ncode\n```\nFooter line";
    let plan = convert_document(content);
    assert_eq!(plan.cover.len(), 2);
    assert_eq!(plan.cover[0].text, "Title");
    assert_eq!(plan.cover[0].font_size, 32);
    assert_eq!(plan.cover[0].style, FontStyle::Bold);
    assert_eq!(plan.cover[1].text, "J.Doe");
    assert_eq!(plan.cover[1].font_size, 16);
    assert_eq!(plan.toc_page[0].text, "Table of Contents");
    assert_eq!(plan.toc_page[1].text, "Title .......................... 3");
    assert_eq!(plan.body.len(), 3);
    assert_eq!(plan.footers.len(), 1);
    assert_eq!(plan.footers[0].text, "Page 3  |  Footer line");
    assert_eq!(plan.footers[0].x_mm, 10);
    assert_eq!(plan.footers[0].y_mm, 10);
    assert_eq!(plan.page_count, 3);
}

#[test]
fn convert_empty_document_uses_defaults() {
    let plan = convert_document("");
    assert_eq!(plan.cover[0].text, "Untitled");
    assert_eq!(plan.cover[1].text, "___________________");
    assert_eq!(plan.body.len(), 0);
    assert_eq!(plan.toc_entries.len(), 0);
    assert_eq!(plan.footers.len(), 1);
    assert_eq!(
        plan.footers[0].text,
        "Page 3  |  Generated with Markdown to PDF by wbalcer"
    );
    assert_eq!(plan.page_count, 3);
}

#[test]
fn converting_twice_gives_identical_results() {
    let content = "# A\ntext here\n## B\nmore text\nclosing line";
    let first = convert_document(content);
    let second = convert_document(content);
    assert_eq!(first.page_count, second.page_count);
    assert_eq!(first.toc_entries.len(), second.toc_entries.len());
    for k in 0..first.toc_entries.len() {
        assert_eq!(first.toc_entries[k].label, second.toc_entries[k].label);
        assert_eq!(first.toc_entries[k].page_number, second.toc_entries[k].page_number);
        assert_eq!(first.toc_entries[k].is_chapter, second.toc_entries[k].is_chapter);
    }
}

#[test]
fn overflow_check_runs_between_wrapped_segments() {
    // One long prose line wraps to many segments; the page split happens
    // between segments, so a footer appears even inside a single source
    // line.
    let word = "w".repeat(80);
    let mut long_line = String::new();
    for _ in 0..25 {
        long_line.push_str(&word);
        long_line.push(' ');
    }
    let lines = doc(&[&long_line]);
    let out = layout_document(&lines, "f");
    assert_eq!(out.body.len(), 25);
    assert_eq!(out.page_number, 4);
    assert_eq!(out.footers.len(), 2);
    assert!(out.body[21].y_mm >= 20);
    assert_eq!(out.body[21].page_index, 3);
}
