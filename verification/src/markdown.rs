//! Finding the Cargo manifest in the Markdown of a doc comment.
use vstd::prelude::*;
use crate::text::{chars_of, str_equal, string_of};
use crate::file_assoc::{fold_ascii, fold_ascii_exec};

verus! {

/// The Markdown events that matter for finding a manifest code block.
pub enum MdEvent {
    /// The start of a fenced code block, with its info string.
    FencedCodeStart(String),
    /// A piece of text.
    Text(String),
    /// The end of a code block.
    CodeBlockEnd,
    /// Any other event.
    Other,
}

/// A Markdown event with its strings taken as character sequences.
pub enum MdEventView {
    FencedCodeStart(Seq<char>),
    Text(Seq<char>),
    CodeBlockEnd,
    Other,
}

impl View for MdEvent {
    type V = MdEventView;

    open spec fn view(&self) -> MdEventView {
        match self {
            MdEvent::FencedCodeStart(s) => MdEventView::FencedCodeStart(s@),
            MdEvent::Text(s) => MdEventView::Text(s@),
            MdEvent::CodeBlockEnd => MdEventView::CodeBlockEnd,
            MdEvent::Other => MdEventView::Other,
        }
    }
}

pub open spec fn events_view(evs: Seq<MdEvent>) -> Seq<MdEventView> {
    evs.map_values(|e: MdEvent| e@)
}

/// The events `pulldown_cmark` parses a Markdown text into, with tables and
/// footnotes enabled.
pub uninterp spec fn markdown_events(content: Seq<char>) -> Seq<MdEventView>;

/// What `str::to_lowercase` makes of a string.
pub uninterp spec fn lowercase(s: Seq<char>) -> Seq<char>;

/// `pulldown_cmark::Parser::new_ext` with tables and footnotes enabled; each
/// event is told apart as far as `MdEvent` distinguishes them.
#[verifier::external_body]
fn markdown_parse(content: &str) -> (r: Vec<MdEvent>)
    ensures
        events_view(r@) == markdown_events(content@),
{
    let opts = pulldown_cmark::Options::ENABLE_TABLES | pulldown_cmark::Options::ENABLE_FOOTNOTES;
    let mut r = Vec::new();
    for ev in pulldown_cmark::Parser::new_ext(content, opts) {
        r.push(match ev {
            pulldown_cmark::Event::Start(pulldown_cmark::Tag::CodeBlock(
                pulldown_cmark::CodeBlockKind::Fenced(info),
            )) => MdEvent::FencedCodeStart(info.to_string()),
            pulldown_cmark::Event::Text(t) => MdEvent::Text(t.to_string()),
            pulldown_cmark::Event::End(pulldown_cmark::Tag::CodeBlock(_)) => MdEvent::CodeBlockEnd,
            _ => MdEvent::Other,
        });
    }
    r
}

/// Is every character of `s` an ASCII character?
pub open spec fn all_ascii(s: Seq<char>) -> bool {
    forall|i: int| 0 <= i < s.len() ==> (s[i] as u32) < 128
}

/// `str::to_lowercase`.
#[verifier::external_body]
fn str_to_lowercase(s: &str) -> (r: String)
    ensures
        r@ == lowercase(s@),
{
    s.to_lowercase()
}

/// Is a fence's info string `cargo`, in any case? On ASCII text lowercasing
/// turns `A` to `Z` into `a` to `z` and keeps every other character; on other
/// text Unicode lowercasing (`str::to_lowercase`) decides.
pub open spec fn is_cargo_info(info: Seq<char>) -> bool {
    if all_ascii(info) {
        info.map_values(|c: char| fold_ascii(c)) == "cargo"@
    } else {
        lowercase(info) == "cargo"@
    }
}

fn is_cargo_info_exec(info: &str) -> (r: bool)
    ensures
        r == is_cargo_info(info@),
{
    let v = chars_of(info);
    let mut i: usize = 0;
    while i < v.len()
        invariant
            v@ == info@,
            i <= v@.len(),
            forall|k: int| 0 <= k < i ==> (v@[k] as u32) < 128,
        decreases v@.len() - i,
    {
        if (v[i] as u32) >= 128 {
            return str_equal(str_to_lowercase(info).as_str(), "cargo");
        }
        i = i + 1;
    }
    assert(all_ascii(info@));
    let cargo = chars_of("cargo");
    if v.len() != cargo.len() {
        proof {
            if info@.map_values(|c: char| fold_ascii(c)) == "cargo"@ {
                assert(info@.map_values(|c: char| fold_ascii(c)).len() == info@.len());
            }
        }
        return false;
    }
    let mut k: usize = 0;
    while k < v.len()
        invariant
            v@ == info@,
            cargo@ == "cargo"@,
            all_ascii(info@),
            v@.len() == cargo@.len(),
            k <= v@.len(),
            forall|t: int| 0 <= t < k ==> fold_ascii(#[trigger] v@[t]) == cargo@[t],
        decreases v@.len() - k,
    {
        if fold_ascii_exec(v[k]) != cargo[k] {
            proof {
                if info@.map_values(|c: char| fold_ascii(c)) == "cargo"@ {
                    assert(info@.map_values(|c: char| fold_ascii(c))[k as int] == fold_ascii(
                        v@[k as int],
                    ));
                }
            }
            return false;
        }
        k = k + 1;
    }
    assert(info@.map_values(|c: char| fold_ascii(c)) =~= "cargo"@);
    true
}

/// The text of the first code block fenced with the info string `cargo` (in
/// any case), read from the events: `found` says whether the events so far
/// are inside such a block, `out` is the text gathered so far.
pub open spec fn scrape_from(evs: Seq<MdEventView>, found: bool, out: Option<Seq<char>>) -> Option<
    Seq<char>,
>
    decreases evs.len(),
{
    if evs.len() == 0 {
        out
    } else {
        let rest = evs.drop_first();
        match evs[0] {
            MdEventView::FencedCodeStart(info) => if is_cargo_info(info) && out is None {
                scrape_from(rest, true, out)
            } else {
                scrape_from(rest, found, out)
            },
            MdEventView::Text(t) => if found {
                scrape_from(
                    rest,
                    found,
                    Some(
                        match out {
                            Some(o) => o,
                            None => Seq::empty(),
                        } + t,
                    ),
                )
            } else {
                scrape_from(rest, found, out)
            },
            MdEventView::CodeBlockEnd => scrape_from(rest, false, out),
            MdEventView::Other => scrape_from(rest, found, out),
        }
    }
}

pub open spec fn opt_string_is(r: Option<String>, s: Option<Seq<char>>) -> bool {
    match r {
        Some(x) => s == Some(x@),
        None => s is None,
    }
}

/// The manifest in a stream of Markdown events: the text of the first code
/// block fenced as `cargo`.
pub fn scrape_markdown_events(events: &Vec<MdEvent>) -> (r: Option<String>)
    ensures
        opt_string_is(r, scrape_from(events_view(events@), false, None)),
{
    let ghost evs = events_view(events@);
    let mut found = false;
    let mut has_out = false;
    let mut out: Vec<char> = Vec::new();
    let mut i: usize = 0;
    assert(evs.skip(0) =~= evs);
    while i < events.len()
        invariant
            evs == events_view(events@),
            i <= events@.len(),
            !has_out ==> out@.len() == 0,
            scrape_from(evs, false, None) == scrape_from(
                evs.skip(i as int),
                found,
                if has_out {
                    Some(out@)
                } else {
                    None
                },
            ),
        decreases events@.len() - i,
    {
        let ghost cur = if has_out { Some(out@) } else { None::<Seq<char>> };
        assert(evs.skip(i as int).drop_first() =~= evs.skip(i + 1));
        assert(evs.skip(i as int)[0] == events@[i as int]@);
        match &events[i] {
            MdEvent::FencedCodeStart(info) => {
                if is_cargo_info_exec(info.as_str()) && !has_out {
                    found = true;
                }
            },
            MdEvent::Text(t) => {
                if found {
                    let tv = chars_of(t.as_str());
                    out.append(&mut tv.clone());
                    has_out = true;
                }
            },
            MdEvent::CodeBlockEnd => {
                found = false;
            },
            MdEvent::Other => {},
        }
        i = i + 1;
    }
    assert(evs.skip(i as int).len() == 0);
    if has_out {
        Some(string_of(out.as_slice()))
    } else {
        None
    }
}

/// Extracts the first `cargo` fenced code block from a piece of Markdown.
pub fn scrape_markdown_manifest(content: &str) -> (r: Option<String>)
    ensures
        opt_string_is(r, scrape_from(markdown_events(content@), false, None)),
{
    let events = markdown_parse(content);
    scrape_markdown_events(&events)
}

} // verus!
