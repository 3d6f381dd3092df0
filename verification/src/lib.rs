//! A layout engine that turns a restricted Markdown dialect into a
//! paginated document plan: a cover page, a table of contents with
//! resolved page numbers, and flowed body content with headings, code
//! blocks, wrapped prose and per-page footers. The plan is a plain
//! sequence of render instructions; placing them on actual pages is left
//! to the caller.

use vstd::prelude::*;

pub mod layout;
pub mod meta;
pub mod text;
pub mod toc;
pub mod wrap;

verus! {

use crate::layout::EngineModel;
use crate::layout::RenderInstruction;
use crate::layout::TocEntry;
use crate::layout::layout_document;
use crate::layout::layout_model;
use crate::layout::lemma_toc_count;
use crate::meta::resolve_metadata;
use crate::meta::resolved_footer;
use crate::meta::resolved_signature;
use crate::meta::resolved_title;
use crate::text::lemma_lines_count;
use crate::text::lines_of;
use crate::text::split_lines;
use crate::toc::cover_instrs;
use crate::toc::cover_instructions;
use crate::toc::render_toc;
use crate::toc::toc_header;
use crate::toc::toc_header_instr;
use crate::toc::toc_instrs;

/// The engine model of a whole document text: its lines, laid out with
/// its own resolved footer text.
pub open spec fn document_model(content: Seq<char>) -> EngineModel {
    layout_model(lines_of(content), resolved_footer(lines_of(content)))
}

/// The complete plan for one document, ready for a renderer: every page
/// is determined, every instruction carries its page index.
pub struct DocumentPlan {
    /// Title and signature on the cover page.
    pub cover: Vec<RenderInstruction>,
    /// The table-of-contents page: its heading, then one line per entry.
    pub toc_page: Vec<RenderInstruction>,
    /// Body instructions, in emission order.
    pub body: Vec<RenderInstruction>,
    /// One footer instruction per content page.
    pub footers: Vec<RenderInstruction>,
    /// The collected table-of-contents entries, in source order.
    pub toc_entries: Vec<TocEntry>,
    /// Total number of pages, the cover and table of contents included.
    pub page_count: u64,
}

/// Converts a document text into its full plan: metadata extraction,
/// layout of the body, and the two front pages. The length bound keeps
/// the table-of-contents coordinates within machine integers.
pub fn convert_document(content: &str) -> (out: DocumentPlan)
    requires
        content@.len() <= 150_000_000,
    ensures
        out.cover.deep_view() == cover_instrs(
            resolved_title(lines_of(content@)),
            resolved_signature(lines_of(content@)),
        ),
        out.toc_page.deep_view() == seq![toc_header_instr()] + toc_instrs(
            document_model(content@).toc,
        ),
        out.body.deep_view() == document_model(content@).body,
        out.footers.deep_view() == document_model(content@).footers,
        out.toc_entries.deep_view() == document_model(content@).toc,
        out.page_count as int == document_model(content@).page_number,
{
    let lines = split_lines(content);
    let m = resolve_metadata(&lines);
    let cover = cover_instructions(m.title.as_str(), m.signature.as_str());
    let layout = layout_document(&lines, m.footer_text.as_str());
    proof {
        lemma_lines_count(content@);
        lemma_toc_count(lines.deep_view(), m.footer_text@);
    }
    let mut toc_page: Vec<RenderInstruction> = Vec::new();
    toc_page.push(toc_header());
    let mut toc_lines = render_toc(&layout.toc_entries);
    toc_page.append(&mut toc_lines);
    proof {
        assert(toc_page.deep_view() =~= seq![toc_header_instr()] + toc_instrs(
            document_model(content@).toc,
        ));
    }
    DocumentPlan {
        cover,
        toc_page,
        body: layout.body,
        footers: layout.footers,
        toc_entries: layout.toc_entries,
        page_count: layout.page_number,
    }
}

/// Converting the same text twice gives the same table of contents and
/// the same page count: the plan is a pure function of the input.
pub proof fn lemma_convert_deterministic(c1: Seq<char>, c2: Seq<char>)
    requires
        c1 == c2,
    ensures
        document_model(c1).toc == document_model(c2).toc,
        document_model(c1).page_number == document_model(c2).page_number,
{
}

} // verus!
