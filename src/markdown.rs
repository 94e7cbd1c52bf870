//! The Markdown event stream, as the `pulldown_cmark` parser yields it, and
//! the fold over it that finds the headings of one level.

use vstd::prelude::*;
use pulldown_cmark::{Event, Parser, Tag};
use crate::text::chars_of;

verus! {

/// One event of the Markdown parser, reduced to what segmentation reads.
/// Offsets are byte offsets into the parsed text.
pub enum MdEvent {
    /// A heading of the given level starts at byte `start`.
    HeadingStart { level: u8, start: usize },
    /// A heading of the given level ends at byte `end`.
    HeadingEnd { level: u8, end: usize },
    /// A run of text.
    Text { text: String },
    /// A run of inline code.
    Code { text: String },
    /// A soft or hard line break.
    Break,
    /// Any other event.
    Other,
}

/// The events that `pulldown_cmark` yields for a text, in order.
pub uninterp spec fn markdown_events_of(s: Seq<char>) -> Seq<MdEvent>;

/// Relies on `pulldown_cmark::Parser::into_offset_iter`: the event stream of
/// `content` with source ranges, each event converted variant for variant.
#[verifier::external_body]
pub fn markdown_events(content: &str) -> (r: Vec<MdEvent>)
    ensures
        r@ == markdown_events_of(content@),
{
    let mut r = Vec::new();
    for (ev, range) in Parser::new(content).into_offset_iter() {
        r.push(match ev {
            Event::Start(Tag::Heading(l, ..)) => MdEvent::HeadingStart { level: l as u8, start: range.start },
            Event::End(Tag::Heading(l, ..)) => MdEvent::HeadingEnd { level: l as u8, end: range.end },
            Event::Text(t) => MdEvent::Text { text: t.to_string() },
            Event::Code(t) => MdEvent::Code { text: t.to_string() },
            Event::SoftBreak | Event::HardBreak => MdEvent::Break,
            _ => MdEvent::Other,
        });
    }
    r
}

/// What a pass over the events has gathered about the headings of one
/// level: where each starts, where each ends, the text of each, and the
/// text of the heading being read, if any.
pub struct HeadingScan {
    pub starts: Seq<usize>,
    pub ends: Seq<usize>,
    pub titles: Seq<Seq<char>>,
    pub current: Option<Seq<char>>,
}

/// The scan before any event.
pub open spec fn scan_init() -> HeadingScan {
    HeadingScan {
        starts: Seq::empty(),
        ends: Seq::empty(),
        titles: Seq::empty(),
        current: None,
    }
}

/// The heading text being read, extended by `t`.
pub open spec fn extend_current(sc: HeadingScan, t: Seq<char>) -> HeadingScan {
    match sc.current {
        Some(c) => HeadingScan { current: Some(c + t), ..sc },
        None => sc,
    }
}

/// The scan after one more event, for headings of level `lv`: text and
/// inline code inside such a heading are appended to its text, a line
/// break inside it becomes one space.
pub open spec fn scan_step(sc: HeadingScan, e: MdEvent, lv: u8) -> HeadingScan {
    match e {
        MdEvent::HeadingStart { level, start } => if level == lv {
            HeadingScan { starts: sc.starts.push(start), current: Some(Seq::empty()), ..sc }
        } else {
            sc
        },
        MdEvent::HeadingEnd { level, end } => if level == lv {
            HeadingScan {
                starts: sc.starts,
                ends: sc.ends.push(end),
                titles: sc.titles.push(
                    match sc.current {
                        Some(c) => c,
                        None => Seq::empty(),
                    },
                ),
                current: None,
            }
        } else {
            sc
        },
        MdEvent::Text { text } => extend_current(sc, text@),
        MdEvent::Code { text } => extend_current(sc, text@),
        MdEvent::Break => extend_current(sc, seq![' ']),
        MdEvent::Other => sc,
    }
}

/// The scan after all of `ev`.
pub open spec fn scan_headings(ev: Seq<MdEvent>, lv: u8) -> HeadingScan
    decreases ev.len(),
{
    if ev.len() == 0 {
        scan_init()
    } else {
        scan_step(scan_headings(ev.drop_last(), lv), ev.last(), lv)
    }
}

/// The headings of level `lv` found by an executable pass over the events.
pub struct Headings {
    pub starts: Vec<usize>,
    pub ends: Vec<usize>,
    pub titles: Vec<Vec<char>>,
}

impl Headings {
    /// The executable result holds what the scan gathered.
    pub open spec fn matches(&self, sc: HeadingScan) -> bool {
        &&& self.starts@ == sc.starts
        &&& self.ends@ == sc.ends
        &&& self.titles@.len() == sc.titles.len()
        &&& forall|i: int| 0 <= i < sc.titles.len() ==> #[trigger] self.titles@[i]@ == sc.titles[i]
    }
}

/// Gathers the start, end and text of every heading of level `lv`.
pub fn collect_headings(ev: &Vec<MdEvent>, lv: u8) -> (r: Headings)
    ensures
        r.matches(scan_headings(ev@, lv)),
        r.ends@.len() == r.titles@.len(),
{
    let mut h = Headings { starts: Vec::new(), ends: Vec::new(), titles: Vec::new() };
    let mut current: Option<Vec<char>> = None;
    let mut k: usize = 0;
    while k < ev.len()
        invariant
            k <= ev@.len(),
            h.matches(scan_headings(ev@.take(k as int), lv)),
            h.ends@.len() == h.titles@.len(),
            match scan_headings(ev@.take(k as int), lv).current {
                Some(c) => current matches Some(v) && v@ == c,
                None => current is None,
            },
        decreases ev@.len() - k,
    {
        let ghost before = scan_headings(ev@.take(k as int), lv);
        assert(ev@.take(k + 1).drop_last() =~= ev@.take(k as int));
        match &ev[k] {
            MdEvent::HeadingStart { level, start } => {
                if *level == lv {
                    h.starts.push(*start);
                    current = Some(Vec::new());
                }
            },
            MdEvent::HeadingEnd { level, end } => {
                if *level == lv {
                    h.ends.push(*end);
                    let t = match current {
                        Some(v) => v,
                        None => Vec::new(),
                    };
                    h.titles.push(t);
                    current = None;
                    proof {
                        let after = scan_headings(ev@.take(k + 1), lv);
                        assert forall|i: int| 0 <= i < after.titles.len() implies #[trigger] h.titles@[i]@
                            == after.titles[i] by {
                            if i < before.titles.len() {
                                assert(h.titles@[i]@ == before.titles[i]);
                            }
                        }
                    }
                }
            },
            MdEvent::Text { text } => {
                if let Some(v) = &mut current {
                    let t = chars_of(text.as_str());
                    crate::text::append_chars(v, &t);
                }
            },
            MdEvent::Code { text } => {
                if let Some(v) = &mut current {
                    let t = chars_of(text.as_str());
                    crate::text::append_chars(v, &t);
                }
            },
            MdEvent::Break => {
                if let Some(v) = &mut current {
                    v.push(' ');
                }
            },
            MdEvent::Other => {},
        }
        k = k + 1;
    }
    assert(ev@.take(ev@.len() as int) =~= ev@);
    h
}

/// The number of bytes that `char::len_utf8` gives for `c`.
pub open spec fn utf8_width(c: char) -> int {
    let u = c as u32;
    if u < 0x80 {
        1
    } else if u < 0x800 {
        2
    } else if u < 0x10000 {
        3
    } else {
        4
    }
}

/// The index of the first character of `s` at or after position `i` that
/// starts at or beyond `b` more bytes, or the length of `s`.
pub open spec fn char_index_from(s: Seq<char>, b: int, i: int) -> int
    decreases s.len() - i,
{
    if i >= s.len() || b <= 0 {
        i
    } else {
        char_index_from(s, b - utf8_width(s[i]), i + 1)
    }
}

/// The index of the character of `s` at byte offset `b`, rounded up to the
/// next character boundary and capped at the length of `s`.
pub open spec fn char_index(s: Seq<char>, b: int) -> int {
    char_index_from(s, b, 0)
}

/// Decides `utf8_width`.
fn width_of(c: char) -> (r: usize)
    ensures
        r == utf8_width(c),
{
    let u = c as u32;
    if u < 0x80 {
        1
    } else if u < 0x800 {
        2
    } else if u < 0x10000 {
        3
    } else {
        4
    }
}

/// The character index of byte offset `b` in the text whose characters are `v`.
pub fn char_index_of(v: &[char], b: usize) -> (r: usize)
    ensures
        r == char_index(v@, b as int),
        r <= v@.len(),
{
    let n = v.len();
    let mut rem: usize = b;
    let mut i: usize = 0;
    while i < n && rem > 0
        invariant
            n == v@.len(),
            i <= n,
            char_index_from(v@, b as int, 0) == char_index_from(v@, rem as int, i as int),
        decreases n - i,
    {
        let w = width_of(v[i]);
        proof {
            let next = rem as int - w as int;
            assert(char_index_from(v@, rem as int, i as int) == char_index_from(v@, next, i + 1));
            if next <= 0 {
                assert(char_index_from(v@, next, i + 1) == i + 1);
                assert(char_index_from(v@, 0, i + 1) == i + 1);
            }
        }
        rem = if w >= rem {
            0
        } else {
            rem - w
        };
        i = i + 1;
    }
    i
}

} // verus!
