//! The table-of-contents renderer and the cover-page plan: pure
//! functions from the collected entries and the metadata to render
//! instructions on the two front pages.

use vstd::prelude::*;

use crate::layout::FontStyle;
use crate::layout::InstrModel;
use crate::layout::RenderInstruction;
use crate::layout::TocEntry;
use crate::layout::TocEntryModel;
use crate::text::dec_digits;
use crate::text::u64_to_dec;

verus! {

/// The text of one table-of-contents line: the label, a dotted leader,
/// and the resolved page number.
pub open spec fn toc_line_text(label: Seq<char>, page: nat) -> Seq<char> {
    label + " .......................... "@ + dec_digits(page)
}

/// The instructions that lay the collected entries out on the
/// table-of-contents page: one line per entry, starting at 250 mm and
/// stepping 14 mm down, chapters indented 20 mm and subchapters 30 mm.
pub open spec fn toc_instrs(entries: Seq<TocEntryModel>) -> Seq<InstrModel> {
    Seq::new(
        entries.len(),
        |k: int|
            InstrModel {
                page_index: 1,
                text: toc_line_text(entries[k].label, entries[k].page_number as nat),
                font_size: 14,
                x_mm: if entries[k].is_chapter {
                    20
                } else {
                    30
                },
                y_mm: 250 - 14 * k,
                style: FontStyle::Regular,
            },
    )
}

/// The heading of the table-of-contents page.
pub open spec fn toc_header_instr() -> InstrModel {
    InstrModel {
        page_index: 1,
        text: "Table of Contents"@,
        font_size: 28,
        x_mm: 15,
        y_mm: 270,
        style: FontStyle::Bold,
    }
}

/// The two cover-page instructions: the title and the signature.
pub open spec fn cover_instrs(title: Seq<char>, signature: Seq<char>) -> Seq<InstrModel> {
    seq![
        InstrModel {
            page_index: 0,
            text: title,
            font_size: 32,
            x_mm: 20,
            y_mm: 250,
            style: FontStyle::Bold,
        },
        InstrModel {
            page_index: 0,
            text: signature,
            font_size: 16,
            x_mm: 20,
            y_mm: 100,
            style: FontStyle::Regular,
        },
    ]
}

/// Builds the heading instruction of the table-of-contents page.
pub fn toc_header() -> (r: RenderInstruction)
    ensures
        r@ == toc_header_instr(),
{
    RenderInstruction {
        page_index: 1,
        text: String::from_str("Table of Contents"),
        font_size: 28,
        x_mm: 15,
        y_mm: 270,
        style: FontStyle::Bold,
    }
}

/// Builds the cover-page instructions for the given metadata.
pub fn cover_instructions(title: &str, signature: &str) -> (out: Vec<RenderInstruction>)
    ensures
        out.deep_view() == cover_instrs(title@, signature@),
{
    let mut out: Vec<RenderInstruction> = Vec::new();
    out.push(
        RenderInstruction {
            page_index: 0,
            text: title.to_owned(),
            font_size: 32,
            x_mm: 20,
            y_mm: 250,
            style: FontStyle::Bold,
        },
    );
    out.push(
        RenderInstruction {
            page_index: 0,
            text: signature.to_owned(),
            font_size: 16,
            x_mm: 20,
            y_mm: 100,
            style: FontStyle::Regular,
        },
    );
    proof {
        assert(out.deep_view() =~= cover_instrs(title@, signature@));
    }
    out
}

/// Lays the collected entries out on the table-of-contents page. The
/// length bound keeps the vertical positions within machine integers;
/// the page is assumed to fit them regardless, as one page is all the
/// table of contents gets.
pub fn render_toc(entries: &Vec<TocEntry>) -> (out: Vec<RenderInstruction>)
    requires
        14 * entries.deep_view().len() <= i32::MAX,
    ensures
        out.deep_view() == toc_instrs(entries.deep_view()),
{
    let ghost ev = entries.deep_view();
    let mut out: Vec<RenderInstruction> = Vec::new();
    let mut y: i32 = 250;
    let mut k: usize = 0;
    proof {
        assert(out.deep_view() =~= toc_instrs(ev).take(0));
    }
    while k < entries.len()
        invariant
            k <= entries@.len(),
            ev == entries.deep_view(),
            ev.len() == entries@.len(),
            14 * ev.len() <= i32::MAX,
            y as int == 250 - 14 * k,
            out.deep_view() == toc_instrs(ev).take(k as int),
        decreases entries@.len() - k,
    {
        let e = &entries[k];
        proof {
            assert(ev[k as int] == e@);
        }
        let mut text = e.label.clone();
        text.append(" .......................... ");
        let num = u64_to_dec(e.page_number);
        text.append(num.as_str());
        let x: i32 = if e.is_chapter {
            20
        } else {
            30
        };
        let ghost prev = out.deep_view();
        out.push(
            RenderInstruction {
                page_index: 1,
                text,
                font_size: 14,
                x_mm: x,
                y_mm: y,
                style: FontStyle::Regular,
            },
        );
        proof {
            assert(out.deep_view() =~= prev.push(toc_instrs(ev)[k as int]));
            assert(toc_instrs(ev).take(k as int + 1) =~= toc_instrs(ev).take(k as int).push(
                toc_instrs(ev)[k as int],
            ));
        }
        y = y - 14;
        k = k + 1;
    }
    proof {
        assert(toc_instrs(ev).take(ev.len() as int) =~= toc_instrs(ev));
    }
    out
}

} // verus!
