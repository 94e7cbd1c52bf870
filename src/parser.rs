//! Splitting a Markdown document into sections along its second-level
//! headings, and assembling the parsed document.

use vstd::prelude::*;
use crate::markdown::{
    char_index, char_index_of, collect_headings, markdown_events, markdown_events_of,
    scan_headings, HeadingScan, MdEvent,
};
use crate::summary::{
    extract_summary, generate_smart_title, lemma_smart_title_nonempty, smart_title, summary_of,
};
use crate::text::{chars_of, copy_range, string_of, trim, trim_range};

verus! {

/// A parsed Markdown document.
#[derive(Debug, Clone)]
pub struct ParsedDoc {
    /// Where the document was read from.
    pub path: String,
    /// Its first top-level heading, or a name derived from `path`.
    pub title: String,
    /// The summary of `content`.
    pub summary: String,
    /// The whole text, trimmed.
    pub content: String,
    /// Its sections, in document order.
    pub sections: Vec<SlicedSection>,
}

/// One section of a parsed document.
#[derive(Debug, Clone)]
pub struct SlicedSection {
    pub section_title: String,
    pub content: String,
    pub parent_doc_title: String,
    pub summary: String,
}

/// One section as segmentation yields it.
#[derive(Debug, Clone)]
pub struct SlicedDoc {
    /// The heading's text, or a title made from the content where it has none.
    pub section_title: String,
    /// The trimmed text between the heading and the next one of its level.
    pub content: String,
    /// The title of the document the section belongs to.
    pub parent_doc_title: String,
    /// The summary of `content`.
    pub summary: String,
}

/// The mathematical content of a section.
pub struct SectionView {
    pub title: Seq<char>,
    pub content: Seq<char>,
    pub parent: Seq<char>,
    pub summary: Seq<char>,
}

impl View for SlicedDoc {
    type V = SectionView;

    open spec fn view(&self) -> SectionView {
        SectionView {
            title: self.section_title@,
            content: self.content@,
            parent: self.parent_doc_title@,
            summary: self.summary@,
        }
    }
}

impl View for SlicedSection {
    type V = SectionView;

    open spec fn view(&self) -> SectionView {
        SectionView {
            title: self.section_title@,
            content: self.content@,
            parent: self.parent_doc_title@,
            summary: self.summary@,
        }
    }
}

/// The raw text of the `i`-th heading's section: from the end of that
/// heading to the start of the next heading of its level, or to the end.
pub open spec fn span_of(s: Seq<char>, sc: HeadingScan, i: int) -> Seq<char> {
    let a = char_index(s, sc.ends[i] as int);
    let b = if i + 1 < sc.starts.len() {
        char_index(s, sc.starts[i + 1] as int)
    } else {
        s.len() as int
    };
    if a <= b {
        s.subrange(a, b)
    } else {
        Seq::empty()
    }
}

/// The content of the `i`-th heading's section: its span, trimmed.
pub open spec fn section_content(s: Seq<char>, sc: HeadingScan, i: int) -> Seq<char> {
    trim(span_of(s, sc, i))
}

/// The section that the `i`-th heading opens.
pub open spec fn section_at(s: Seq<char>, sc: HeadingScan, parent: Seq<char>, i: int) -> SectionView {
    let c = section_content(s, sc, i);
    SectionView {
        title: if sc.titles[i].len() == 0 {
            smart_title(c)
        } else {
            sc.titles[i]
        },
        content: c,
        parent: parent,
        summary: summary_of(c),
    }
}

/// The sections opened by the first `n` headings, those with empty content left out.
pub open spec fn sections_upto(s: Seq<char>, sc: HeadingScan, parent: Seq<char>, n: int) -> Seq<
    SectionView,
>
    decreases n,
{
    if n <= 0 {
        Seq::empty()
    } else {
        let prev = sections_upto(s, sc, parent, n - 1);
        if section_content(s, sc, n - 1).len() > 0 {
            prev.push(section_at(s, sc, parent, n - 1))
        } else {
            prev
        }
    }
}

/// The sections of text `s` in a document titled `parent`, where `ev` are
/// the Markdown events of `s`.
pub open spec fn sections_of_events(s: Seq<char>, ev: Seq<MdEvent>, parent: Seq<char>) -> Seq<
    SectionView,
> {
    sections_upto(s, scan_headings(ev, 2), parent, scan_headings(ev, 2).ends.len() as int)
}

/// The sections of text `s` in a document titled `parent`.
pub open spec fn segment(s: Seq<char>, parent: Seq<char>) -> Seq<SectionView> {
    sections_of_events(s, markdown_events_of(s), parent)
}

/// Splits `content` along its second-level headings. Each section runs from
/// the end of its heading to the start of the next one; sections whose
/// text is only whitespace are left out.
pub fn slice_by_headers(content: &str, parent_title: &str) -> (r: Vec<SlicedDoc>)
    ensures
        r@.len() == segment(content@, parent_title@).len(),
        forall|i: int| 0 <= i < r@.len() ==> #[trigger] r@[i]@ == segment(content@, parent_title@)[i],
{
    let ev = markdown_events(content);
    slice_events(content, &ev, parent_title)
}

/// The sections of `content`, given the Markdown events `ev` of `content`:
/// each second-level heading in `ev` opens a section that runs from the end
/// of the heading to the start of the next one; sections whose text is
/// only whitespace are left out.
pub fn slice_events(content: &str, ev: &Vec<MdEvent>, parent_title: &str) -> (r: Vec<SlicedDoc>)
    ensures
        r@.len() == sections_of_events(content@, ev@, parent_title@).len(),
        forall|i: int| 0 <= i < r@.len() ==> #[trigger] r@[i]@ == sections_of_events(content@, ev@, parent_title@)[i],
{
    let v = chars_of(content);
    let parent = string_of(&chars_of(parent_title));
    let h = collect_headings(ev, 2);
    let ghost s = content@;
    let ghost sc = scan_headings(ev@, 2);
    let mut out: Vec<SlicedDoc> = Vec::new();
    let mut i: usize = 0;
    while i < h.ends.len()
        invariant
            v@ == s,
            parent@ == parent_title@,
            h.matches(sc),
            h.ends@.len() == h.titles@.len(),
            i <= h.ends@.len(),
            out@.len() == sections_upto(s, sc, parent_title@, i as int).len(),
            forall|j: int| 0 <= j < out@.len() ==> #[trigger] out@[j]@ == sections_upto(s, sc, parent_title@, i as int)[j],
        decreases h.ends@.len() - i,
    {
        let a = char_index_of(&v, h.ends[i]);
        let b = if i + 1 < h.starts.len() {
            char_index_of(&v, h.starts[i + 1])
        } else {
            v.len()
        };
        if a <= b {
            let (x, y) = trim_range(&v, a, b);
            if x < y {
                let c = copy_range(&v, x, y);
                let title = if h.titles[i].len() == 0 {
                    string_of(&generate_smart_title(&c))
                } else {
                    string_of(&h.titles[i])
                };
                let cs = string_of(&c);
                let summary = extract_summary(cs.as_str());
                let d = SlicedDoc {
                    section_title: title,
                    content: cs,
                    parent_doc_title: parent.clone(),
                    summary,
                };
                proof {
                    assert(d@ == section_at(s, sc, parent_title@, i as int));
                }
                out.push(d);
            }
        }
        proof {
            let prev = sections_upto(s, sc, parent_title@, i as int);
            let next = sections_upto(s, sc, parent_title@, i + 1);
            assert forall|j: int| 0 <= j < out@.len() implies #[trigger] out@[j]@ == next[j] by {
                if j < prev.len() {
                    assert(out@[j]@ == prev[j]);
                }
            }
        }
        i = i + 1;
    }
    out
}

/// Tracks, over the events, whether a top-level heading is open and the
/// first text found inside one.
pub open spec fn h1_step(st: (bool, Seq<char>), e: MdEvent) -> (bool, Seq<char>) {
    match e {
        MdEvent::HeadingStart { level, start } => if level == 1 {
            (true, st.1)
        } else {
            st
        },
        MdEvent::HeadingEnd { level, end } => if level == 1 {
            (false, st.1)
        } else {
            st
        },
        MdEvent::Text { text } => if st.0 && st.1.len() == 0 {
            (st.0, text@)
        } else {
            st
        },
        _ => st,
    }
}

/// The state of the top-level heading search after all of `ev`.
pub open spec fn h1_scan(ev: Seq<MdEvent>) -> (bool, Seq<char>)
    decreases ev.len(),
{
    if ev.len() == 0 {
        (false, Seq::empty())
    } else {
        h1_step(h1_scan(ev.drop_last()), ev.last())
    }
}

/// The first text found in a top-level heading, or empty.
pub open spec fn h1_title(s: Seq<char>) -> Seq<char> {
    h1_scan(markdown_events_of(s)).1
}

/// The file-name stem that `Path::file_stem` gives for a path.
pub uninterp spec fn file_stem_of(p: Seq<char>) -> Option<Seq<char>>;

/// Relies on `std::path::Path::file_stem`: the final component of the path
/// without its extension, if there is one.
#[verifier::external_body]
fn file_stem(path: &str) -> (r: Option<String>)
    ensures
        r is None <==> file_stem_of(path@) is None,
        r matches Some(x) ==> file_stem_of(path@) == Some(x@),
{
    match std::path::Path::new(path).file_stem() {
        Some(s) => s.to_str().map(String::from),
        None => None,
    }
}

/// The title of the document at `path` with text `s`: its first top-level
/// heading's text, else the path's file stem, else `"Untitled"`.
pub open spec fn doc_title(path: Seq<char>, s: Seq<char>) -> Seq<char> {
    let t = h1_title(s);
    if t.len() > 0 {
        t
    } else {
        match file_stem_of(path) {
            Some(x) => x,
            None => "Untitled"@,
        }
    }
}

/// The first text found in a top-level heading of `content`, or empty.
fn first_h1_text(content: &str) -> (r: String)
    ensures
        r@ == h1_title(content@),
{
    let ev = markdown_events(content);
    h1_text_of_events(&ev)
}

/// The first text inside a top-level heading among the Markdown events
/// `ev`, or empty where there is none.
pub fn h1_text_of_events(ev: &Vec<MdEvent>) -> (r: String)
    ensures
        r@ == h1_scan(ev@).1,
{
    let mut in_h1 = false;
    let mut title = String::new();
    let mut k: usize = 0;
    while k < ev.len()
        invariant
            k <= ev@.len(),
            h1_scan(ev@.take(k as int)) == (in_h1, title@),
        decreases ev@.len() - k,
    {
        assert(ev@.take(k + 1).drop_last() =~= ev@.take(k as int));
        match &ev[k] {
            MdEvent::HeadingStart { level, start } => {
                if *level == 1 {
                    in_h1 = true;
                }
            },
            MdEvent::HeadingEnd { level, end } => {
                if *level == 1 {
                    in_h1 = false;
                }
            },
            MdEvent::Text { text } => {
                if in_h1 && title.as_str().is_empty() {
                    title = text.clone();
                }
            },
            _ => {},
        }
        k = k + 1;
    }
    assert(ev@.take(ev@.len() as int) =~= ev@);
    title
}

/// Parses the Markdown text `text` read from `file_path`: its title, its
/// trimmed body with that body's summary, and its sections.
pub fn parse_markdown(file_path: &str, text: &str) -> (r: ParsedDoc)
    ensures
        r.path@ == file_path@,
        r.title@ == doc_title(file_path@, text@),
        r.content@ == trim(text@),
        r.summary@ == summary_of(trim(text@)),
        r.sections@.len() == segment(trim(text@), r.title@).len(),
        forall|i: int| 0 <= i < r.sections@.len() ==> #[trigger] r.sections@[i]@ == segment(trim(text@), r.title@)[i],
{
    let mut title = first_h1_text(text);
    if title.as_str().is_empty() {
        title = match file_stem(file_path) {
            Some(x) => x,
            None => string_of(&chars_of("Untitled")),
        };
    }
    let cleaned = string_of(&crate::text::trimmed(&chars_of(text)));
    let summary = extract_summary(cleaned.as_str());
    let slices = slice_by_headers(cleaned.as_str(), title.as_str());
    let mut sections: Vec<SlicedSection> = Vec::new();
    let mut i: usize = 0;
    while i < slices.len()
        invariant
            i <= slices@.len(),
            sections@.len() == i,
            forall|j: int| 0 <= j < i ==> #[trigger] sections@[j]@ == slices@[j]@,
        decreases slices@.len() - i,
    {
        let s = &slices[i];
        sections.push(SlicedSection {
            section_title: s.section_title.clone(),
            content: s.content.clone(),
            parent_doc_title: s.parent_doc_title.clone(),
            summary: s.summary.clone(),
        });
        i = i + 1;
    }
    ParsedDoc { path: string_of(&chars_of(file_path)), title, summary, content: cleaned, sections }
}

/// The number of the first `n` headings whose section has content other
/// than whitespace.
pub open spec fn nonempty_count(s: Seq<char>, sc: HeadingScan, n: int) -> nat
    decreases n,
{
    if n <= 0 {
        0
    } else {
        nonempty_count(s, sc, n - 1) + if section_content(s, sc, n - 1).len() > 0 {
            1nat
        } else {
            0nat
        }
    }
}

proof fn lemma_sections_upto(s: Seq<char>, sc: HeadingScan, parent: Seq<char>, n: int)
    requires
        0 <= n,
    ensures
        sections_upto(s, sc, parent, n).len() == nonempty_count(s, sc, n),
        forall|k: int|
            0 <= k < sections_upto(s, sc, parent, n).len() ==> exists|i: int|
                0 <= i < n && #[trigger] sections_upto(s, sc, parent, n)[k] == section_at(
                    s,
                    sc,
                    parent,
                    i,
                ) && section_content(s, sc, i).len() > 0 && nonempty_count(s, sc, i) == k,
    decreases n,
{
    if n > 0 {
        lemma_sections_upto(s, sc, parent, n - 1);
        let prev = sections_upto(s, sc, parent, n - 1);
        let cur = sections_upto(s, sc, parent, n);
        assert forall|k: int| 0 <= k < cur.len() implies exists|i: int|
            0 <= i < n && #[trigger] cur[k] == section_at(s, sc, parent, i) && section_content(
                s,
                sc,
                i,
            ).len() > 0 && nonempty_count(s, sc, i) == k by {
            if k < prev.len() {
                assert(cur[k] == prev[k]);
            } else {
                assert(cur[k] == section_at(s, sc, parent, n - 1));
            }
        }
    }
}

/// Every section comes from one second-level heading whose section holds
/// more than whitespace: the `k`-th section from the heading with exactly
/// `k` such headings before it, in document order. Its content is the
/// trimmed text from the end of that heading to the start of the next
/// (so never the heading itself), not empty; its title is not empty; it
/// names the document as its parent. A heading followed only by
/// whitespace yields no section, so there are exactly as many sections as
/// headings with content.
pub proof fn lemma_sections_from_headings(s: Seq<char>, ev: Seq<MdEvent>, parent: Seq<char>)
    ensures
        sections_of_events(s, ev, parent).len() == nonempty_count(
            s,
            scan_headings(ev, 2),
            scan_headings(ev, 2).ends.len() as int,
        ),
        forall|k: int|
            0 <= k < sections_of_events(s, ev, parent).len() ==> {
                &&& (#[trigger] sections_of_events(s, ev, parent)[k]).content.len() > 0
                &&& sections_of_events(s, ev, parent)[k].title.len() > 0
                &&& sections_of_events(s, ev, parent)[k].parent == parent
                &&& exists|i: int|
                    0 <= i < scan_headings(ev, 2).ends.len() && nonempty_count(
                        s,
                        scan_headings(ev, 2),
                        i,
                    ) == k && sections_of_events(s, ev, parent)[k] == section_at(
                        s,
                        scan_headings(ev, 2),
                        parent,
                        i,
                    ) && sections_of_events(s, ev, parent)[k].content == trim(
                        span_of(s, scan_headings(ev, 2), i),
                    )
            },
{
    let sc = scan_headings(ev, 2);
    let n = sc.ends.len() as int;
    let secs = sections_of_events(s, ev, parent);
    lemma_sections_upto(s, sc, parent, n);
    assert forall|k: int| 0 <= k < secs.len() implies {
        &&& (#[trigger] secs[k]).content.len() > 0
        &&& secs[k].title.len() > 0
        &&& secs[k].parent == parent
        &&& exists|i: int|
            0 <= i < n && nonempty_count(s, sc, i) == k && secs[k] == section_at(s, sc, parent, i)
                && secs[k].content == trim(span_of(s, sc, i))
    } by {
        let i = choose|i: int|
            0 <= i < n && #[trigger] sections_upto(s, sc, parent, n)[k] == section_at(
                s,
                sc,
                parent,
                i,
            ) && section_content(s, sc, i).len() > 0 && nonempty_count(s, sc, i) == k;
        assert(secs[k] == section_at(s, sc, parent, i));
        lemma_smart_title_nonempty(span_of(s, sc, i));
    }
}

/// A scan for headings of level `lv` over events holding no end of such a
/// heading has found none.
pub proof fn lemma_no_heading_end(ev: Seq<MdEvent>, lv: u8)
    requires
        forall|k: int| 0 <= k < ev.len() ==> !(#[trigger] ev[k] matches MdEvent::HeadingEnd { level, .. } && level == lv),
    ensures
        scan_headings(ev, lv).ends.len() == 0,
    decreases ev.len(),
{
    if ev.len() > 0 {
        let init = ev.drop_last();
        assert forall|k: int| 0 <= k < init.len() implies !(#[trigger] init[k] matches MdEvent::HeadingEnd { level, .. } && level == lv) by {
            assert(init[k] == ev[k]);
        }
        lemma_no_heading_end(init, lv);
        assert(!(ev[ev.len() - 1] matches MdEvent::HeadingEnd { level, .. } && level == lv));
    }
}

/// Events holding no second-level heading give no sections.
pub proof fn lemma_no_h2_no_sections(s: Seq<char>, ev: Seq<MdEvent>, parent: Seq<char>)
    requires
        forall|k: int|
            0 <= k < ev.len() ==> !(#[trigger] ev[k] matches MdEvent::HeadingEnd { level, .. } && level == 2),
    ensures
        sections_of_events(s, ev, parent).len() == 0,
{
    lemma_no_heading_end(ev, 2);
}

} // verus!
