//! The metadata extractor: three independent scans over the document
//! lines for the title (first chapter heading), the signature line and
//! the footer text (the last line, whatever it is), with the defaults
//! used when a scan finds nothing.

use vstd::prelude::*;

use crate::text::starts_with;
use crate::text::str_starts_with;
use crate::text::trim_str;
use crate::text::trimmed;

verus! {

/// The document title: the text after the marker of the first `# ` line.
pub open spec fn title_model(lines: Seq<Seq<char>>) -> Option<Seq<char>>
    decreases lines.len(),
{
    if lines.len() == 0 {
        None
    } else if starts_with(lines[0], "# "@) {
        Some(lines[0].skip(2))
    } else {
        title_model(lines.drop_first())
    }
}

/// The signature: the first `Signature:` line with the prefix removed
/// and surrounding whitespace trimmed.
pub open spec fn signature_model(lines: Seq<Seq<char>>) -> Option<Seq<char>>
    decreases lines.len(),
{
    if lines.len() == 0 {
        None
    } else if starts_with(lines[0], "Signature:"@) {
        Some(trimmed(lines[0].skip(10)))
    } else {
        signature_model(lines.drop_first())
    }
}

/// The footer text: the last line of the document, trimmed, whatever its
/// content.
pub open spec fn footer_model(lines: Seq<Seq<char>>) -> Option<Seq<char>> {
    if lines.len() == 0 {
        None
    } else {
        Some(trimmed(lines.last()))
    }
}

/// Finds the first `# ` heading and returns the text after the marker.
pub fn extract_title(lines: &Vec<String>) -> (r: Option<String>)
    ensures
        match r {
            Some(t) => title_model(lines.deep_view()) == Some(t@),
            None => title_model(lines.deep_view()) is None,
        },
{
    let ghost lv = lines.deep_view();
    let mut i: usize = 0;
    proof {
        assert(lv.skip(0) =~= lv);
    }
    while i < lines.len()
        invariant
            i <= lines@.len(),
            lv == lines.deep_view(),
            lv.len() == lines@.len(),
            title_model(lv) == title_model(lv.skip(i as int)),
        decreases lines@.len() - i,
    {
        proof {
            assert(lv.skip(i as int)[0] == lv[i as int]);
            assert(lv.skip(i as int).drop_first() =~= lv.skip(i as int + 1));
        }
        let line: &String = &lines[i];
        proof {
            assert(lv[i as int] == line@);
        }
        if str_starts_with(line.as_str(), "# ") {
            proof {
                reveal_strlit("# ");
            }
            let llen = line.as_str().unicode_len();
            let label = line.as_str().substring_char(2, llen).to_owned();
            proof {
                assert(label@ =~= line@.skip(2));
            }
            return Some(label);
        }
        i = i + 1;
    }
    proof {
        assert(lv.skip(lv.len() as int) =~= Seq::<Seq<char>>::empty());
    }
    None
}

/// Finds the first signature line and returns its trimmed remainder.
pub fn extract_signature(lines: &Vec<String>) -> (r: Option<String>)
    ensures
        match r {
            Some(t) => signature_model(lines.deep_view()) == Some(t@),
            None => signature_model(lines.deep_view()) is None,
        },
{
    let ghost lv = lines.deep_view();
    let mut i: usize = 0;
    proof {
        assert(lv.skip(0) =~= lv);
    }
    while i < lines.len()
        invariant
            i <= lines@.len(),
            lv == lines.deep_view(),
            lv.len() == lines@.len(),
            signature_model(lv) == signature_model(lv.skip(i as int)),
        decreases lines@.len() - i,
    {
        proof {
            assert(lv.skip(i as int)[0] == lv[i as int]);
            assert(lv.skip(i as int).drop_first() =~= lv.skip(i as int + 1));
        }
        let line: &String = &lines[i];
        proof {
            assert(lv[i as int] == line@);
        }
        if str_starts_with(line.as_str(), "Signature:") {
            proof {
                reveal_strlit("Signature:");
            }
            let llen = line.as_str().unicode_len();
            let rest = line.as_str().substring_char(10, llen);
            proof {
                assert(rest@ =~= line@.skip(10));
            }
            let sig = trim_str(rest).to_owned();
            return Some(sig);
        }
        i = i + 1;
    }
    proof {
        assert(lv.skip(lv.len() as int) =~= Seq::<Seq<char>>::empty());
    }
    None
}

/// Returns the last line of the document, trimmed: the footer text.
pub fn extract_footer(lines: &Vec<String>) -> (r: Option<String>)
    ensures
        match r {
            Some(t) => footer_model(lines.deep_view()) == Some(t@),
            None => footer_model(lines.deep_view()) is None,
        },
{
    let n = lines.len();
    if n == 0 {
        return None;
    }
    let line: &String = &lines[n - 1];
    proof {
        assert(lines.deep_view().last() == line@);
    }
    Some(trim_str(line.as_str()).to_owned())
}

/// The extracted document metadata, defaults applied.
pub struct Metadata {
    pub title: String,
    pub signature: String,
    pub footer_text: String,
}

/// The title with its default applied.
pub open spec fn resolved_title(lines: Seq<Seq<char>>) -> Seq<char> {
    match title_model(lines) {
        Some(t) => t,
        None => "Untitled"@,
    }
}

/// The signature with its placeholder default applied.
pub open spec fn resolved_signature(lines: Seq<Seq<char>>) -> Seq<char> {
    match signature_model(lines) {
        Some(t) => t,
        None => "___________________"@,
    }
}

/// The footer text with its attribution default applied.
pub open spec fn resolved_footer(lines: Seq<Seq<char>>) -> Seq<char> {
    match footer_model(lines) {
        Some(t) => t,
        None => "Generated with Markdown to PDF by wbalcer"@,
    }
}

/// Runs the three scans and applies the defaults.
pub fn resolve_metadata(lines: &Vec<String>) -> (m: Metadata)
    ensures
        m.title@ == resolved_title(lines.deep_view()),
        m.signature@ == resolved_signature(lines.deep_view()),
        m.footer_text@ == resolved_footer(lines.deep_view()),
{
    let title = match extract_title(lines) {
        Some(t) => t,
        None => String::from_str("Untitled"),
    };
    let signature = match extract_signature(lines) {
        Some(s) => s,
        None => String::from_str("___________________"),
    };
    let footer_text = match extract_footer(lines) {
        Some(f) => f,
        None => String::from_str("Generated with Markdown to PDF by wbalcer"),
    };
    Metadata { title, signature, footer_text }
}

} // verus!
