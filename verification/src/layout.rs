//! The layout engine: a line-by-line pass over the document that tracks
//! the vertical cursor and the current page, classifies each line (code
//! fence, heading, prose), wraps prose to eighty characters, emits render
//! instructions, closes each full page with a footer instruction, and
//! accumulates table-of-contents entries with resolved page numbers.
//!
//! Page numbers are one-based over the whole document: page one is the
//! cover, page two the table of contents, and content starts on page
//! three. Page indices in instructions are zero-based.

use vstd::prelude::*;

use crate::text::dec_digits;
use crate::text::starts_with;
use crate::text::str_eq;
use crate::text::str_starts_with;
use crate::text::trim_str;
use crate::text::trimmed;
use crate::text::u64_to_dec;
use crate::wrap::wrap_model;
use crate::wrap::wrap_text;

verus! {

/// The three font treatments a render instruction can ask for.
#[derive(Clone, Copy, Debug, PartialEq, Eq, Structural)]
pub enum FontStyle {
    Regular,
    Bold,
    Monospace,
}

/// One placement of text: on which page, where, how large, which font.
#[derive(Clone, Debug)]
pub struct RenderInstruction {
    /// Zero-based page index within the whole document.
    pub page_index: u64,
    pub text: String,
    /// Font size in points.
    pub font_size: u32,
    /// Horizontal offset from the left page edge, in millimeters.
    pub x_mm: i32,
    /// Vertical offset from the bottom page edge, in millimeters.
    pub y_mm: i32,
    pub style: FontStyle,
}

/// One table-of-contents entry, in source order.
#[derive(Clone, Debug)]
pub struct TocEntry {
    pub label: String,
    /// One-based page number the heading was laid out on.
    pub page_number: u64,
    /// True for a `# ` chapter heading, false for a `## ` subchapter.
    pub is_chapter: bool,
}

/// Mathematical image of a render instruction.
pub ghost struct InstrModel {
    pub page_index: int,
    pub text: Seq<char>,
    pub font_size: int,
    pub x_mm: int,
    pub y_mm: int,
    pub style: FontStyle,
}

/// Mathematical image of a table-of-contents entry.
pub ghost struct TocEntryModel {
    pub label: Seq<char>,
    pub page_number: int,
    pub is_chapter: bool,
}

impl View for RenderInstruction {
    type V = InstrModel;

    open spec fn view(&self) -> InstrModel {
        InstrModel {
            page_index: self.page_index as int,
            text: self.text@,
            font_size: self.font_size as int,
            x_mm: self.x_mm as int,
            y_mm: self.y_mm as int,
            style: self.style,
        }
    }
}

impl DeepView for RenderInstruction {
    type V = InstrModel;

    open spec fn deep_view(&self) -> InstrModel {
        self.view()
    }
}

impl View for TocEntry {
    type V = TocEntryModel;

    open spec fn view(&self) -> TocEntryModel {
        TocEntryModel {
            label: self.label@,
            page_number: self.page_number as int,
            is_chapter: self.is_chapter,
        }
    }
}

impl DeepView for TocEntry {
    type V = TocEntryModel;

    open spec fn deep_view(&self) -> TocEntryModel {
        self.view()
    }
}

/// The full state of the layout pass: everything emitted so far and the
/// cursor.
pub ghost struct EngineModel {
    pub body: Seq<InstrModel>,
    pub footers: Seq<InstrModel>,
    pub toc: Seq<TocEntryModel>,
    /// One-based number of the content page under the cursor.
    pub page_number: int,
    /// Vertical cursor position, in millimeters above the page bottom.
    pub y: int,
    pub in_code: bool,
}

/// Packs the components of the layout state into one model value.
spec fn abs_state(
    body: Seq<InstrModel>,
    footers: Seq<InstrModel>,
    toc: Seq<TocEntryModel>,
    page_number: int,
    y: int,
    in_code: bool,
) -> EngineModel {
    EngineModel { body, footers, toc, page_number, y, in_code }
}

/// The state before any line has been consumed: content starts on page
/// three, at the top margin, outside any code block.
pub open spec fn init_model() -> EngineModel {
    EngineModel {
        body: Seq::empty(),
        footers: Seq::empty(),
        toc: Seq::empty(),
        page_number: 3,
        y: 270,
        in_code: false,
    }
}

/// The text of a page footer: the page number and the document footer.
pub open spec fn page_footer_text(n: nat, footer: Seq<char>) -> Seq<char> {
    "Page "@ + dec_digits(n) + "  |  "@ + footer
}

/// The footer instruction that closes the content page under the cursor.
pub open spec fn footer_instr(st: EngineModel, footer: Seq<char>) -> InstrModel {
    InstrModel {
        page_index: st.page_number - 1,
        text: page_footer_text(st.page_number as nat, footer),
        font_size: 10,
        x_mm: 10,
        y_mm: 10,
        style: FontStyle::Regular,
    }
}

/// The page-overflow rule, applied before every emission: once the cursor
/// has passed the bottom margin, the page is closed with a footer
/// instruction and a fresh page begins at the top margin.
pub open spec fn overflow_model(st: EngineModel, footer: Seq<char>) -> EngineModel {
    if st.y < 20 {
        EngineModel {
            footers: st.footers.push(footer_instr(st, footer)),
            page_number: st.page_number + 1,
            y: 270,
            ..st
        }
    } else {
        st
    }
}

/// Emission of one piece of text on the current page at the cursor,
/// which then falls by the font size.
pub open spec fn emit_model(
    st: EngineModel,
    text: Seq<char>,
    size: int,
    x: int,
    style: FontStyle,
) -> EngineModel {
    EngineModel {
        body: st.body.push(
            InstrModel {
                page_index: st.page_number - 1,
                text,
                font_size: size,
                x_mm: x,
                y_mm: st.y,
                style,
            },
        ),
        y: st.y - size,
        ..st
    }
}

/// Emission of the wrapped segments of a prose line, re-applying the
/// overflow rule before every segment.
pub open spec fn emit_prose(st: EngineModel, segs: Seq<Seq<char>>, footer: Seq<char>) -> EngineModel
    decreases segs.len(),
{
    if segs.len() == 0 {
        st
    } else {
        emit_prose(
            emit_model(overflow_model(st, footer), segs[0], 12, 15, FontStyle::Regular),
            segs.drop_first(),
            footer,
        )
    }
}

/// Lines the engine never looks at: signature lines and lines equal to
/// the document footer.
pub open spec fn is_skipped(line: Seq<char>, footer: Seq<char>) -> bool {
    starts_with(line, "Signature:"@) || line == footer
}

/// One step of the engine: consume one source line.
pub open spec fn step_line(st: EngineModel, line: Seq<char>, footer: Seq<char>) -> EngineModel {
    if is_skipped(line, footer) {
        st
    } else {
        let st1 = overflow_model(st, footer);
        if trimmed(line) == "```"@ {
            EngineModel { in_code: !st1.in_code, ..st1 }
        } else if st1.in_code {
            emit_model(st1, line, 10, 15, FontStyle::Monospace)
        } else if starts_with(line, "# "@) {
            let label = line.skip(2);
            let st2 = EngineModel {
                toc: st1.toc.push(
                    TocEntryModel { label, page_number: st1.page_number, is_chapter: true },
                ),
                ..st1
            };
            emit_model(st2, label, 24, 15, FontStyle::Bold)
        } else if starts_with(line, "## "@) {
            let label = line.skip(3);
            let st2 = EngineModel {
                toc: st1.toc.push(
                    TocEntryModel { label, page_number: st1.page_number, is_chapter: false },
                ),
                ..st1
            };
            emit_model(st2, label, 18, 25, FontStyle::Bold)
        } else {
            emit_prose(st1, wrap_model(line, 80), footer)
        }
    }
}

/// The engine run over a whole document, line by line from the start.
pub open spec fn run_lines(lines: Seq<Seq<char>>, footer: Seq<char>) -> EngineModel
    decreases lines.len(),
{
    if lines.len() == 0 {
        init_model()
    } else {
        step_line(run_lines(lines.drop_last(), footer), lines.last(), footer)
    }
}

/// After the whole document is consumed, the last content page is closed
/// with a footer at the current, un-incremented page number.
pub open spec fn finalize_model(st: EngineModel, footer: Seq<char>) -> EngineModel {
    EngineModel { footers: st.footers.push(footer_instr(st, footer)), ..st }
}

/// The complete layout pass over a document.
pub open spec fn layout_model(lines: Seq<Seq<char>>, footer: Seq<char>) -> EngineModel {
    finalize_model(run_lines(lines, footer), footer)
}

proof fn lemma_emit_prose_count(st: EngineModel, segs: Seq<Seq<char>>, footer: Seq<char>)
    requires
        st.page_number == 3 + st.footers.len(),
    ensures
        emit_prose(st, segs, footer).page_number == 3 + emit_prose(st, segs, footer).footers.len(),
    decreases segs.len(),
{
    if segs.len() > 0 {
        lemma_emit_prose_count(
            emit_model(overflow_model(st, footer), segs[0], 12, 15, FontStyle::Regular),
            segs.drop_first(),
            footer,
        );
    }
}

proof fn lemma_step_count(st: EngineModel, line: Seq<char>, footer: Seq<char>)
    requires
        st.page_number == 3 + st.footers.len(),
    ensures
        step_line(st, line, footer).page_number == 3 + step_line(st, line, footer).footers.len(),
{
    if !is_skipped(line, footer) {
        let st1 = overflow_model(st, footer);
        if trimmed(line) != "```"@ && !st1.in_code && !starts_with(line, "# "@) && !starts_with(
            line,
            "## "@,
        ) {
            lemma_emit_prose_count(st1, wrap_model(line, 80), footer);
        }
    }
}

proof fn lemma_run_count(lines: Seq<Seq<char>>, footer: Seq<char>)
    ensures
        run_lines(lines, footer).page_number == 3 + run_lines(lines, footer).footers.len(),
    decreases lines.len(),
{
    if lines.len() > 0 {
        lemma_run_count(lines.drop_last(), footer);
        lemma_step_count(run_lines(lines.drop_last(), footer), lines.last(), footer);
    }
}

/// Every document is closed with exactly one footer instruction per
/// content page: their number is the final page number minus two, the
/// cover and the table of contents being the two footerless pages.
pub proof fn lemma_footer_count(lines: Seq<Seq<char>>, footer: Seq<char>)
    ensures
        layout_model(lines, footer).footers.len() == layout_model(lines, footer).page_number - 2,
{
    lemma_run_count(lines, footer);
}

/// Skipped lines leave the engine state untouched: the layout of a
/// document equals the layout of the document with every signature line
/// and every footer copy removed.
pub proof fn lemma_skipped_lines_ignored(lines: Seq<Seq<char>>, footer: Seq<char>)
    ensures
        run_lines(lines, footer) == run_lines(
            lines.filter(|l: Seq<char>| !is_skipped(l, footer)),
            footer,
        ),
    decreases lines.len(),
{
    let pred = |l: Seq<char>| !is_skipped(l, footer);
    if lines.len() == 0 {
        assert(lines.filter(pred) =~= lines);
    } else {
        let pre = lines.drop_last();
        let x = lines.last();
        lemma_skipped_lines_ignored(pre, footer);
        reveal(Seq::filter);
        if pred(x) {
            assert(lines.filter(pred) == pre.filter(pred).push(x));
            assert(pre.filter(pred).push(x).drop_last() =~= pre.filter(pred));
        } else {
            assert(lines.filter(pred) == pre.filter(pred));
        }
    }
}

/// A left-to-right reading of the engine run, state threaded forward.
spec fn run_from(st: EngineModel, lines: Seq<Seq<char>>, footer: Seq<char>) -> EngineModel
    decreases lines.len(),
{
    if lines.len() == 0 {
        st
    } else {
        run_from(step_line(st, lines[0], footer), lines.drop_first(), footer)
    }
}

proof fn lemma_run_from_snoc(st: EngineModel, lines: Seq<Seq<char>>, x: Seq<char>, footer: Seq<char>)
    ensures
        run_from(st, lines.push(x), footer) == step_line(run_from(st, lines, footer), x, footer),
    decreases lines.len(),
{
    let lp = lines.push(x);
    if lines.len() == 0 {
        assert(lp[0] == x);
        assert(lp.drop_first() =~= Seq::<Seq<char>>::empty());
        assert(run_from(st, lp, footer) == run_from(
            step_line(st, x, footer),
            lp.drop_first(),
            footer,
        ));
        assert(run_from(step_line(st, x, footer), lp.drop_first(), footer) == step_line(
            st,
            x,
            footer,
        ));
        assert(run_from(st, lines, footer) == st);
    } else {
        assert(lp[0] == lines[0]);
        assert(lp.drop_first() =~= lines.drop_first().push(x));
        assert(run_from(st, lp, footer) == run_from(
            step_line(st, lines[0], footer),
            lines.drop_first().push(x),
            footer,
        ));
        lemma_run_from_snoc(step_line(st, lines[0], footer), lines.drop_first(), x, footer);
        assert(run_from(st, lines, footer) == run_from(
            step_line(st, lines[0], footer),
            lines.drop_first(),
            footer,
        ));
    }
}

proof fn lemma_run_eq(lines: Seq<Seq<char>>, footer: Seq<char>)
    ensures
        run_lines(lines, footer) == run_from(init_model(), lines, footer),
    decreases lines.len(),
{
    if lines.len() > 0 {
        lemma_run_eq(lines.drop_last(), footer);
        lemma_run_from_snoc(init_model(), lines.drop_last(), lines.last(), footer);
        assert(lines.drop_last().push(lines.last()) =~= lines);
    }
}

/// The label and chapter flag of each table-of-contents entry, page
/// numbers set aside.
pub open spec fn toc_shape(toc: Seq<TocEntryModel>) -> Seq<(Seq<char>, bool)> {
    toc.map_values(|e: TocEntryModel| (e.label, e.is_chapter))
}

/// The heading labels a document asks to see in the table of contents:
/// one per heading line outside code blocks and outside the skipped
/// lines, in source order, chapters flagged true and subchapters false.
pub open spec fn headings_from(lines: Seq<Seq<char>>, footer: Seq<char>, in_code: bool) -> Seq<
    (Seq<char>, bool),
>
    decreases lines.len(),
{
    if lines.len() == 0 {
        Seq::empty()
    } else {
        let line = lines[0];
        let rest = lines.drop_first();
        if is_skipped(line, footer) {
            headings_from(rest, footer, in_code)
        } else if trimmed(line) == "```"@ {
            headings_from(rest, footer, !in_code)
        } else if in_code {
            headings_from(rest, footer, in_code)
        } else if starts_with(line, "# "@) {
            seq![(line.skip(2), true)] + headings_from(rest, footer, in_code)
        } else if starts_with(line, "## "@) {
            seq![(line.skip(3), false)] + headings_from(rest, footer, in_code)
        } else {
            headings_from(rest, footer, in_code)
        }
    }
}

proof fn lemma_emit_prose_toc(st: EngineModel, segs: Seq<Seq<char>>, footer: Seq<char>)
    ensures
        emit_prose(st, segs, footer).toc == st.toc,
        emit_prose(st, segs, footer).in_code == st.in_code,
    decreases segs.len(),
{
    if segs.len() > 0 {
        lemma_emit_prose_toc(
            emit_model(overflow_model(st, footer), segs[0], 12, 15, FontStyle::Regular),
            segs.drop_first(),
            footer,
        );
    }
}

proof fn lemma_toc_from(st: EngineModel, lines: Seq<Seq<char>>, footer: Seq<char>)
    ensures
        run_from(st, lines, footer).toc.len() >= st.toc.len(),
        toc_shape(run_from(st, lines, footer).toc) == toc_shape(st.toc) + headings_from(
            lines,
            footer,
            st.in_code,
        ),
    decreases lines.len(),
{
    if lines.len() == 0 {
        assert(toc_shape(st.toc) + Seq::<(Seq<char>, bool)>::empty() =~= toc_shape(st.toc));
    } else {
        let line = lines[0];
        let rest = lines.drop_first();
        let st2 = step_line(st, line, footer);
        let st1 = overflow_model(st, footer);
        lemma_toc_from(st2, rest, footer);
        if is_skipped(line, footer) {
        } else if trimmed(line) == "```"@ {
        } else if st1.in_code {
        } else if starts_with(line, "# "@) {
            assert(toc_shape(st2.toc) =~= toc_shape(st.toc) + seq![(line.skip(2), true)]);
            assert((toc_shape(st.toc) + seq![(line.skip(2), true)]) + headings_from(
                rest,
                footer,
                st.in_code,
            ) =~= toc_shape(st.toc) + (seq![(line.skip(2), true)] + headings_from(
                rest,
                footer,
                st.in_code,
            )));
        } else if starts_with(line, "## "@) {
            assert(toc_shape(st2.toc) =~= toc_shape(st.toc) + seq![(line.skip(3), false)]);
            assert((toc_shape(st.toc) + seq![(line.skip(3), false)]) + headings_from(
                rest,
                footer,
                st.in_code,
            ) =~= toc_shape(st.toc) + (seq![(line.skip(3), false)] + headings_from(
                rest,
                footer,
                st.in_code,
            )));
        } else {
            lemma_emit_prose_toc(st1, wrap_model(line, 80), footer);
        }
    }
}

/// The table of contents mirrors the document's headings: the same
/// labels in the same relative order, with `is_chapter` true exactly for
/// the headings written with a single `#`.
pub proof fn lemma_toc_matches_headings(lines: Seq<Seq<char>>, footer: Seq<char>)
    ensures
        toc_shape(layout_model(lines, footer).toc) == headings_from(lines, footer, false),
{
    lemma_run_eq(lines, footer);
    lemma_toc_from(init_model(), lines, footer);
    assert(toc_shape(Seq::<TocEntryModel>::empty()) =~= Seq::<(Seq<char>, bool)>::empty());
    assert(Seq::<(Seq<char>, bool)>::empty() + headings_from(lines, footer, false) =~= headings_from(
        lines,
        footer,
        false,
    ));
}

proof fn lemma_step_toc_count(st: EngineModel, line: Seq<char>, footer: Seq<char>)
    ensures
        step_line(st, line, footer).toc.len() <= st.toc.len() + 1,
{
    if !is_skipped(line, footer) {
        let st1 = overflow_model(st, footer);
        if trimmed(line) != "```"@ && !st1.in_code && !starts_with(line, "# "@) && !starts_with(
            line,
            "## "@,
        ) {
            lemma_emit_prose_toc(st1, wrap_model(line, 80), footer);
        }
    }
}

proof fn lemma_run_toc_count(lines: Seq<Seq<char>>, footer: Seq<char>)
    ensures
        run_lines(lines, footer).toc.len() <= lines.len(),
    decreases lines.len(),
{
    if lines.len() > 0 {
        lemma_run_toc_count(lines.drop_last(), footer);
        lemma_step_toc_count(run_lines(lines.drop_last(), footer), lines.last(), footer);
    }
}

/// A document collects at most one table-of-contents entry per line.
pub proof fn lemma_toc_count(lines: Seq<Seq<char>>, footer: Seq<char>)
    ensures
        layout_model(lines, footer).toc.len() <= lines.len(),
{
    lemma_run_toc_count(lines, footer);
}

/// Layout is a pure function of the document lines and the footer text:
/// equal inputs give the same table of contents and the same page count.
pub proof fn lemma_layout_deterministic(
    lines1: Seq<Seq<char>>,
    footer1: Seq<char>,
    lines2: Seq<Seq<char>>,
    footer2: Seq<char>,
)
    requires
        lines1 == lines2,
        footer1 == footer2,
    ensures
        layout_model(lines1, footer1).toc == layout_model(lines2, footer2).toc,
        layout_model(lines1, footer1).page_number == layout_model(lines2, footer2).page_number,
{
}

/// The paginated plan for the body of a document.
pub struct LayoutOutput {
    /// Body instructions, in emission order.
    pub body: Vec<RenderInstruction>,
    /// One footer instruction per content page, in page order.
    pub footers: Vec<RenderInstruction>,
    /// Table-of-contents entries, in source order.
    pub toc_entries: Vec<TocEntry>,
    /// One-based number of the last content page.
    pub page_number: u64,
}

/// Builds the footer text of a content page.
pub fn footer_line(page_number: u64, footer_text: &str) -> (r: String)
    ensures
        r@ == page_footer_text(page_number as nat, footer_text@),
{
    let mut r = String::from_str("Page ");
    let num = u64_to_dec(page_number);
    r.append(num.as_str());
    r.append("  |  ");
    r.append(footer_text);
    r
}

/// Runs the layout engine over the document lines, with the already
/// extracted footer text. The result is exactly the layout model of the
/// input: instructions, footers, table-of-contents entries and the final
/// page number.
pub fn layout_document(lines: &Vec<String>, footer_text: &str) -> (out: LayoutOutput)
    ensures
        out.body.deep_view() == layout_model(lines.deep_view(), footer_text@).body,
        out.footers.deep_view() == layout_model(lines.deep_view(), footer_text@).footers,
        out.toc_entries.deep_view() == layout_model(lines.deep_view(), footer_text@).toc,
        out.page_number as int == layout_model(lines.deep_view(), footer_text@).page_number,
{
    let ghost lv = lines.deep_view();
    let ghost fv = footer_text@;
    let mut body: Vec<RenderInstruction> = Vec::new();
    let mut footers: Vec<RenderInstruction> = Vec::new();
    let mut toc_entries: Vec<TocEntry> = Vec::new();
    let mut page_number: u64 = 3;
    let mut y: i32 = 270;
    let mut in_code: bool = false;
    let mut i: usize = 0;
    proof {
        assert(body.deep_view() =~= Seq::<InstrModel>::empty());
        assert(footers.deep_view() =~= Seq::<InstrModel>::empty());
        assert(toc_entries.deep_view() =~= Seq::<TocEntryModel>::empty());
        assert(lv.take(0) =~= Seq::<Seq<char>>::empty());
    }
    while i < lines.len()
        invariant
            i <= lines@.len(),
            lv == lines.deep_view(),
            lv.len() == lines@.len(),
            fv == footer_text@,
            run_lines(lv.take(i as int), fv) == abs_state(
                body.deep_view(),
                footers.deep_view(),
                toc_entries.deep_view(),
                page_number as int,
                y as int,
                in_code,
            ),
            page_number as int == 3 + footers@.len(),
            24 * body@.len() >= 250 * footers@.len() + (270 - y as int),
            -4 <= y as int <= 270,
        decreases lines@.len() - i,
    {
        proof {
            assert(lv.take(i as int + 1).drop_last() =~= lv.take(i as int));
            assert(lv.take(i as int + 1).last() == lv[i as int]);
        }
        let ghost st0 = run_lines(lv.take(i as int), fv);
        let line: &String = &lines[i];
        proof {
            assert(lv[i as int] == line@);
        }
        let skip_line = str_starts_with(line.as_str(), "Signature:") || str_eq(
            line.as_str(),
            footer_text,
        );
        if !skip_line {
            let ghost blen0 = body.deep_view().len();
            if y < 20 {
                let text = footer_line(page_number, footer_text);
                let ghost prev = footers.deep_view();
                let bl = body.len();
                footers.push(
                    RenderInstruction {
                        page_index: page_number - 1,
                        text,
                        font_size: 10,
                        x_mm: 10,
                        y_mm: 10,
                        style: FontStyle::Regular,
                    },
                );
                proof {
                    assert(footers.deep_view() =~= prev.push(footer_instr(st0, fv)));
                    assert(page_number < u64::MAX);
                }
                page_number = page_number + 1;
                y = 270;
            }
            let ghost st1 = overflow_model(st0, fv);
            let t = trim_str(line.as_str());
            if str_eq(t, "```") {
                in_code = !in_code;
            } else if in_code {
                let ghost prev = body.deep_view();
                body.push(
                    RenderInstruction {
                        page_index: page_number - 1,
                        text: line.clone(),
                        font_size: 10,
                        x_mm: 15,
                        y_mm: y,
                        style: FontStyle::Monospace,
                    },
                );
                proof {
                    assert(body.deep_view() =~= emit_model(
                        st1,
                        line@,
                        10,
                        15,
                        FontStyle::Monospace,
                    ).body);
                }
                y = y - 10;
            } else if str_starts_with(line.as_str(), "# ") {
                proof {
                    reveal_strlit("# ");
                }
                let llen = line.as_str().unicode_len();
                let label = line.as_str().substring_char(2, llen).to_owned();
                proof {
                    assert(label@ =~= line@.skip(2));
                }
                let ghost tprev = toc_entries.deep_view();
                toc_entries.push(
                    TocEntry { label: label.clone(), page_number, is_chapter: true },
                );
                let ghost prev = body.deep_view();
                body.push(
                    RenderInstruction {
                        page_index: page_number - 1,
                        text: label,
                        font_size: 24,
                        x_mm: 15,
                        y_mm: y,
                        style: FontStyle::Bold,
                    },
                );
                proof {
                    assert(toc_entries.deep_view() =~= tprev.push(
                        TocEntryModel {
                            label: line@.skip(2),
                            page_number: st1.page_number,
                            is_chapter: true,
                        },
                    ));
                    assert(body.deep_view() =~= prev.push(
                        InstrModel {
                            page_index: st1.page_number - 1,
                            text: line@.skip(2),
                            font_size: 24,
                            x_mm: 15,
                            y_mm: st1.y,
                            style: FontStyle::Bold,
                        },
                    ));
                }
                y = y - 24;
            } else if str_starts_with(line.as_str(), "## ") {
                proof {
                    reveal_strlit("## ");
                }
                let llen = line.as_str().unicode_len();
                let label = line.as_str().substring_char(3, llen).to_owned();
                proof {
                    assert(label@ =~= line@.skip(3));
                }
                let ghost tprev = toc_entries.deep_view();
                toc_entries.push(
                    TocEntry { label: label.clone(), page_number, is_chapter: false },
                );
                let ghost prev = body.deep_view();
                body.push(
                    RenderInstruction {
                        page_index: page_number - 1,
                        text: label,
                        font_size: 18,
                        x_mm: 25,
                        y_mm: y,
                        style: FontStyle::Bold,
                    },
                );
                proof {
                    assert(toc_entries.deep_view() =~= tprev.push(
                        TocEntryModel {
                            label: line@.skip(3),
                            page_number: st1.page_number,
                            is_chapter: false,
                        },
                    ));
                    assert(body.deep_view() =~= prev.push(
                        InstrModel {
                            page_index: st1.page_number - 1,
                            text: line@.skip(3),
                            font_size: 18,
                            x_mm: 25,
                            y_mm: st1.y,
                            style: FontStyle::Bold,
                        },
                    ));
                }
                y = y - 18;
            } else {
                let segs = wrap_text(line.as_str(), 80);
                let ghost sv = segs.deep_view();
                let mut j: usize = 0;
                proof {
                    assert(sv.skip(0) =~= sv);
                }
                while j < segs.len()
                    invariant
                        j <= segs@.len(),
                        sv == segs.deep_view(),
                        sv.len() == segs@.len(),
                        fv == footer_text@,
                        emit_prose(st1, sv, fv) == emit_prose(
                            abs_state(
                                body.deep_view(),
                                footers.deep_view(),
                                toc_entries.deep_view(),
                                page_number as int,
                                y as int,
                                in_code,
                            ),
                            sv.skip(j as int),
                            fv,
                        ),
                        page_number as int == 3 + footers@.len(),
                        24 * body@.len() >= 250 * footers@.len() + (270 - y as int),
                        -4 <= y as int <= 270,
                    decreases segs@.len() - j,
                {
                    proof {
                        assert(sv.skip(j as int)[0] == sv[j as int]);
                        assert(sv.skip(j as int).drop_first() =~= sv.skip(j as int + 1));
                    }
                    let ghost stj = abs_state(
                        body.deep_view(),
                        footers.deep_view(),
                        toc_entries.deep_view(),
                        page_number as int,
                        y as int,
                        in_code,
                    );
                    if y < 20 {
                        let text = footer_line(page_number, footer_text);
                        let ghost prev = footers.deep_view();
                        let bl = body.len();
                        footers.push(
                            RenderInstruction {
                                page_index: page_number - 1,
                                text,
                                font_size: 10,
                                x_mm: 10,
                                y_mm: 10,
                                style: FontStyle::Regular,
                            },
                        );
                        proof {
                            assert(footers.deep_view() =~= prev.push(footer_instr(stj, fv)));
                            assert(page_number < u64::MAX);
                        }
                        page_number = page_number + 1;
                        y = 270;
                    }
                    let seg = (&segs[j]).clone();
                    proof {
                        assert(seg@ == sv[j as int]);
                    }
                    let ghost prev = body.deep_view();
                    body.push(
                        RenderInstruction {
                            page_index: page_number - 1,
                            text: seg,
                            font_size: 12,
                            x_mm: 15,
                            y_mm: y,
                            style: FontStyle::Regular,
                        },
                    );
                    proof {
                        assert(body.deep_view() =~= prev.push(
                            emit_model(
                                overflow_model(stj, fv),
                                sv[j as int],
                                12,
                                15,
                                FontStyle::Regular,
                            ).body.last(),
                        ));
                    }
                    y = y - 12;
                    j = j + 1;
                }
                proof {
                    assert(sv.skip(sv.len() as int) =~= Seq::<Seq<char>>::empty());
                }
            }
        }
        i = i + 1;
    }
    proof {
        assert(lv.take(lv.len() as int) =~= lv);
    }
    let text = footer_line(page_number, footer_text);
    let ghost stf = run_lines(lv, fv);
    let ghost prev = footers.deep_view();
    footers.push(
        RenderInstruction {
            page_index: page_number - 1,
            text,
            font_size: 10,
            x_mm: 10,
            y_mm: 10,
            style: FontStyle::Regular,
        },
    );
    proof {
        assert(footers.deep_view() =~= prev.push(footer_instr(stf, fv)));
    }
    LayoutOutput { body, footers, toc_entries, page_number }
}

} // verus!
