//! Helpers for markup fragments.

use crate::text::chars_of;
use vstd::prelude::*;

verus! {

/// Where a scan of markup stands after some characters.
pub struct Scan {
    /// A `<` was read and its `>` has not come yet.
    pub in_tag: bool,
    /// The character before was the `<` of the tag being read.
    pub at_start: bool,
    /// The tag being read began with `</`: it closes an element.
    pub closing: bool,
    /// The character before was a `/` inside the tag being read, and not the
    /// one that makes it a closing tag.
    pub slash_last: bool,
    /// Opening tags read so far, less closing tags.
    pub depth: int,
    /// The text kept so far.
    pub kept: Seq<char>,
}

/// The scan before any character.
pub open spec fn scan_start() -> Scan {
    Scan {
        in_tag: false,
        at_start: false,
        closing: false,
        slash_last: false,
        depth: 0,
        kept: Seq::empty(),
    }
}

/// The depth after the tag that `state` is reading has ended: one less after a
/// closing tag `</..>`, the same after a tag that ends in `/>`, which opens
/// and closes at once, and one more after any other tag.
pub open spec fn depth_after_tag(state: Scan) -> int {
    if state.closing {
        state.depth - 1
    } else if state.slash_last {
        state.depth
    } else {
        state.depth + 1
    }
}

/// The scan after one more character.
///
/// Outside a tag `<` begins a tag, and any other character is text: it is
/// kept where the depth is 0 and dropped inside an element. Inside a tag `>`
/// ends the tag and every other character belongs to the tag and is dropped;
/// a `/` makes the tag a closing tag only directly after `<`, so a `/` in an
/// attribute closes nothing.
pub open spec fn scan_step(state: Scan, c: char) -> Scan {
    if !state.in_tag {
        if c == '<' {
            Scan {
                in_tag: true,
                at_start: true,
                closing: false,
                slash_last: false,
                depth: state.depth,
                kept: state.kept,
            }
        } else {
            Scan {
                kept: if state.depth == 0 {
                    state.kept.push(c)
                } else {
                    state.kept
                },
                ..state
            }
        }
    } else if c == '>' {
        Scan {
            in_tag: false,
            at_start: false,
            closing: false,
            slash_last: false,
            depth: depth_after_tag(state),
            kept: state.kept,
        }
    } else {
        Scan {
            in_tag: true,
            at_start: false,
            closing: state.closing || (state.at_start && c == '/'),
            slash_last: !state.at_start && c == '/',
            depth: state.depth,
            kept: state.kept,
        }
    }
}

/// The scan after all of `html`.
pub open spec fn scan_of(html: Seq<char>) -> Scan
    decreases html.len(),
{
    if html.len() == 0 {
        scan_start()
    } else {
        scan_step(scan_of(html.drop_last()), html.last())
    }
}

/// The top-level text of a fragment: its characters that stand outside every
/// tag and outside every element.
pub open spec fn top_level_text(html: Seq<char>) -> Seq<char> {
    scan_of(html).kept
}

/// The depth of a scan is bounded by the number of characters read.
pub proof fn lemma_scan_depth(html: Seq<char>)
    ensures
        -html.len() <= scan_of(html).depth <= html.len(),
    decreases html.len(),
{
    if html.len() > 0 {
        lemma_scan_depth(html.drop_last());
    }
}

/// Text without `<` holds no markup, and all of it is top-level text.
pub proof fn lemma_plain_text_is_kept(html: Seq<char>)
    requires
        forall|i: int| 0 <= i < html.len() ==> html[i] != '<',
    ensures
        top_level_text(html) == html,
        !scan_of(html).in_tag,
        scan_of(html).depth == 0,
    decreases html.len(),
{
    if html.len() > 0 {
        let rest = html.drop_last();
        assert forall|i: int| 0 <= i < rest.len() implies rest[i] != '<' by {
            assert(rest[i] == html[i]);
        }
        lemma_plain_text_is_kept(rest);
        assert(rest.push(html.last()) == html);
    }
}

/// Text that stands inside a tag or inside an element is dropped.
pub proof fn lemma_nested_text_is_dropped(state: Scan, c: char)
    requires
        state.depth != 0 || state.in_tag,
    ensures
        scan_step(state, c).kept == state.kept,
{
}

/// A `/` inside a tag closes nothing unless it stands directly after `<`: the
/// tag stays what it was, opening or closing.
pub proof fn lemma_slash_in_tag_closes_nothing(state: Scan)
    requires
        state.in_tag,
        !state.at_start,
    ensures
        scan_step(state, '/').closing == state.closing,
        scan_step(state, '/').depth == state.depth,
{
}

/// Keeps only the top-level plain text of a fragment: markup is dropped, and
/// so is text that stands inside any element.
pub fn clean_html(html: &str) -> (r: String)
    ensures
        r@ == top_level_text(html@),
{
    let chars = chars_of(html);
    let mut res = String::new();
    let mut is_in_tag = false;
    let mut at_start = false;
    let mut closing_tag = false;
    let mut slash_last = false;
    let mut tag_depth: i128 = 0;
    let mut i: usize = 0;
    assert(chars@.take(0) == Seq::<char>::empty());
    while i < chars.len()
        invariant
            i <= chars.len(),
            scan_of(chars@.take(i as int)) == (Scan {
                in_tag: is_in_tag,
                at_start,
                closing: closing_tag,
                slash_last,
                depth: tag_depth as int,
                kept: res@,
            }),
        decreases chars.len() - i,
    {
        proof {
            lemma_scan_depth(chars@.take(i as int));
        }
        assert(chars@.take(i + 1).drop_last() == chars@.take(i as int));
        assert(chars@.take(i + 1).last() == chars@[i as int]);
        let c = chars[i];
        if !is_in_tag {
            if c == '<' {
                is_in_tag = true;
                at_start = true;
                closing_tag = false;
                slash_last = false;
            } else if tag_depth == 0 {
                res.push(c);
            }
        } else if c == '>' {
            if closing_tag {
                tag_depth = tag_depth - 1;
            } else if !slash_last {
                tag_depth = tag_depth + 1;
            }
            is_in_tag = false;
            at_start = false;
            closing_tag = false;
            slash_last = false;
        } else {
            closing_tag = closing_tag || (at_start && c == '/');
            slash_last = !at_start && c == '/';
            at_start = false;
        }
        i += 1;
    }
    assert(chars@.take(chars.len() as int) == chars@);
    res
}

} // verus!
