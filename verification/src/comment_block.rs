//! Reply trees and their flattening into indented lines.

use vstd::prelude::*;
use crate::sanitize::sanitized;
use crate::sanitize::strip_tags;
use crate::text::texts;

verus! {

/// The deepest indentation a line is drawn with.
pub const MAX_DEPTH: u16 = 10;

/// One comment with the replies to it, oldest first.
#[derive(Debug, PartialEq, Eq)]
pub struct Comment {
    pub text: String,
    pub replies: Option<Vec<Comment>>,
}

/// Mathematical value of a `Comment`.
pub ghost struct Thread {
    pub text: Seq<char>,
    pub replies: Option<Seq<Thread>>,
}

impl View for Comment {
    type V = Thread;

    open spec fn view(&self) -> Thread
        decreases self,
    {
        Thread {
            text: self.text@,
            replies: match self.replies {
                None => None,
                Some(v) => Some(threads(v@)),
            },
        }
    }
}

/// The values of a sequence of comments.
pub open spec fn threads(comments: Seq<Comment>) -> Seq<Thread>
    decreases comments,
{
    Seq::new(
        comments.len(),
        |i: int|
            if 0 <= i < comments.len() {
                comments[i]@
            } else {
                arbitrary()
            },
    )
}

/// Whether every reply list in a thread has at least one reply: a comment
/// without replies has no list at all.
pub open spec fn well_formed(t: Thread) -> bool
    decreases t,
{
    match t.replies {
        None => true,
        Some(replies) => replies.len() > 0 && forall|i: int|
            0 <= i < replies.len() ==> well_formed(#[trigger] replies[i]),
    }
}

/// One line of the flattened discussion before rendering: how deep the
/// comment sits below its top-level ancestor, and its raw text.
pub ghost struct Entry {
    pub depth: nat,
    pub text: Seq<char>,
}

/// A thread in depth-first pre-order: the comment itself, then each reply
/// with everything below it, replies in their given order and one level
/// deeper.
pub open spec fn outline(t: Thread, depth: nat) -> Seq<Entry>
    decreases t,
{
    seq![Entry { depth, text: t.text }] + match t.replies {
        None => Seq::empty(),
        Some(replies) => outline_all(replies, depth + 1),
    }
}

/// The outlines of sibling threads, one after the other.
pub open spec fn outline_all(ts: Seq<Thread>, depth: nat) -> Seq<Entry>
    decreases ts,
{
    if ts.len() == 0 {
        Seq::empty()
    } else {
        outline_all(ts.drop_last(), depth) + outline(ts.last(), depth)
    }
}

/// `count` repetitions of `--`.
pub open spec fn dashes(count: nat) -> Seq<char>
    decreases count,
{
    if count == 0 {
        Seq::empty()
    } else {
        dashes((count - 1) as nat) + "--"@
    }
}

/// The indentation a depth is drawn with.
pub open spec fn capped(depth: nat) -> nat {
    if depth < MAX_DEPTH {
        depth
    } else {
        MAX_DEPTH as nat
    }
}

/// The rendered line of one comment: the dash prefix of its capped depth,
/// `> `, the text stripped of markup, and a line feed.
pub open spec fn comment_line(e: Entry) -> Seq<char> {
    dashes(capped(e.depth)) + "> "@ + sanitized(e.text) + "\n"@
}

/// The rendered lines of a thread that starts at `depth`.
pub open spec fn flatten(t: Thread, depth: nat) -> Seq<Seq<char>> {
    outline(t, depth).map_values(|e: Entry| comment_line(e))
}

/// The rendered lines of sibling threads that start at `depth`.
pub open spec fn flatten_all(ts: Seq<Thread>, depth: nat) -> Seq<Seq<char>> {
    outline_all(ts, depth).map_values(|e: Entry| comment_line(e))
}

/// `count` dash pairs are `2 * count` characters.
pub proof fn lemma_dashes_len(count: nat)
    ensures
        dashes(count).len() == 2 * count,
    decreases count,
{
    reveal_strlit("--");
    if count > 0 {
        lemma_dashes_len((count - 1) as nat);
    }
}

/// The outline of siblings extended by one more thread.
pub proof fn lemma_outline_all_push(ts: Seq<Thread>, t: Thread, depth: nat)
    ensures
        outline_all(ts.push(t), depth) == outline_all(ts, depth) + outline(t, depth),
{
    assert(ts.push(t).drop_last() =~= ts);
}

/// Sibling threads are flattened one after the other and independently:
/// the lines of threads side by side are the lines of the left ones,
/// whole, followed by the lines of the right ones, whole.
pub proof fn lemma_flatten_all_concat(left: Seq<Thread>, right: Seq<Thread>, depth: nat)
    ensures
        outline_all(left + right, depth) == outline_all(left, depth) + outline_all(right, depth),
        flatten_all(left + right, depth) == flatten_all(left, depth) + flatten_all(right, depth),
    decreases right.len(),
{
    if right.len() > 0 {
        lemma_flatten_all_concat(left, right.drop_last(), depth);
        assert((left + right).drop_last() =~= left + right.drop_last());
    }
}

/// Every entry of an outline sits at the starting depth or deeper.
pub proof fn lemma_outline_depths(t: Thread, depth: nat)
    ensures
        forall|i: int| 0 <= i < outline(t, depth).len() ==> (#[trigger] outline(t, depth)[i]).depth >= depth,
    decreases t,
{
    let o = outline(t, depth);
    match t.replies {
        None => {},
        Some(replies) => {
            lemma_outline_all_depths(replies, depth + 1);
        },
    }
    assert forall|i: int| 0 <= i < o.len() implies (#[trigger] o[i]).depth >= depth by {
        if i > 0 {
            assert(o[i] == outline_all(t.replies->0, depth + 1)[i - 1]);
        }
    }
}

/// Every entry of the outline of siblings sits at the starting depth or
/// deeper.
pub proof fn lemma_outline_all_depths(ts: Seq<Thread>, depth: nat)
    ensures
        forall|i: int|
            0 <= i < outline_all(ts, depth).len() ==> (#[trigger] outline_all(ts, depth)[i]).depth
                >= depth,
    decreases ts,
{
    if ts.len() > 0 {
        lemma_outline_all_depths(ts.drop_last(), depth);
        lemma_outline_depths(ts.last(), depth);
        let o = outline_all(ts, depth);
        let head = outline_all(ts.drop_last(), depth);
        assert forall|i: int| 0 <= i < o.len() implies (#[trigger] o[i]).depth >= depth by {
            if i >= head.len() {
                assert(o[i] == outline(ts.last(), depth)[i - head.len()]);
            }
        }
    }
}

/// The starting depth shifts every depth and changes nothing else: two
/// outlines of one thread have the same length and the same texts in the
/// same places, and their depths differ by the difference of the starts.
pub proof fn lemma_outline_shift(t: Thread, d1: nat, d2: nat)
    ensures
        outline(t, d1).len() == outline(t, d2).len(),
        forall|i: int|
            0 <= i < outline(t, d1).len() ==> (#[trigger] outline(t, d1)[i]).text == outline(
                t,
                d2,
            )[i].text && outline(t, d1)[i].depth - d1 == outline(t, d2)[i].depth - d2,
    decreases t,
{
    match t.replies {
        None => {},
        Some(replies) => {
            lemma_outline_all_shift(replies, d1 + 1, d2 + 1);
        },
    }
}

/// `lemma_outline_shift` for sibling threads.
pub proof fn lemma_outline_all_shift(ts: Seq<Thread>, d1: nat, d2: nat)
    ensures
        outline_all(ts, d1).len() == outline_all(ts, d2).len(),
        forall|i: int|
            0 <= i < outline_all(ts, d1).len() ==> (#[trigger] outline_all(ts, d1)[i]).text
                == outline_all(ts, d2)[i].text && outline_all(ts, d1)[i].depth - d1 == outline_all(
                ts,
                d2,
            )[i].depth - d2,
    decreases ts,
{
    if ts.len() > 0 {
        lemma_outline_all_shift(ts.drop_last(), d1, d2);
        lemma_outline_shift(ts.last(), d1, d2);
    }
}

/// The depth cap touches the prefix alone. A thread rendered from any
/// depth has one line per comment, in outline order; the line of a comment
/// is its text, stripped of markup, behind a prefix of as many dash pairs
/// as the comment is deep, but never more than `MAX_DEPTH`.
pub proof fn lemma_depth_cap(t: Thread, depth: nat, i: int)
    requires
        0 <= i < outline(t, depth).len(),
    ensures
        flatten(t, depth).len() == outline(t, depth).len(),
        flatten(t, depth)[i] == dashes(capped(outline(t, depth)[i].depth)) + "> "@ + sanitized(
            outline(t, depth)[i].text,
        ) + "\n"@,
        dashes(capped(outline(t, depth)[i].depth)).len() == 2 * capped(outline(t, depth)[i].depth),
        capped(outline(t, depth)[i].depth) <= MAX_DEPTH,
        outline(t, depth)[i].depth <= MAX_DEPTH ==> capped(outline(t, depth)[i].depth) == outline(
            t,
            depth,
        )[i].depth,
{
    lemma_dashes_len(capped(outline(t, depth)[i].depth));
}

/// From the cap on, threads render alike at every depth.
pub proof fn lemma_flatten_all_saturates(ts: Seq<Thread>, d1: nat, d2: nat)
    requires
        d1 >= MAX_DEPTH,
        d2 >= MAX_DEPTH,
    ensures
        flatten_all(ts, d1) == flatten_all(ts, d2),
{
    lemma_outline_all_shift(ts, d1, d2);
    lemma_outline_all_depths(ts, d1);
    lemma_outline_all_depths(ts, d2);
}

fn dash_prefix(depth: u16) -> (s: String)
    ensures
        s@ == dashes(capped(depth as nat)),
{
    let n: u16 = if depth < MAX_DEPTH {
        depth
    } else {
        MAX_DEPTH
    };
    let mut s = String::new();
    let mut i: u16 = 0;
    while i < n
        invariant
            i <= n,
            s@ == dashes(i as nat),
        decreases n - i,
    {
        s.append("--");
        i = i + 1;
    }
    s
}

fn render_line(depth: u16, text: &str) -> (line: String)
    ensures
        line@ == comment_line(Entry { depth: depth as nat, text: text@ }),
{
    let mut line = dash_prefix(depth);
    line.append("> ");
    let clean = strip_tags(text);
    line.append(clean.as_str());
    line.append("\n");
    line
}

/// A discussion flattened for display, and how far it is scrolled.
#[derive(Debug, PartialEq, Eq)]
pub struct CommentBlock {
    pub comments: Vec<Comment>,
    pub comment_strings: Vec<String>,
    pub focused: bool,
    pub scroll: u16,
}

/// Mathematical value of a `CommentBlock`.
pub ghost struct CommentBlockView {
    pub threads: Seq<Thread>,
    pub lines: Seq<Seq<char>>,
    pub focused: bool,
    pub scroll: u16,
}

impl View for CommentBlock {
    type V = CommentBlockView;

    open spec fn view(&self) -> CommentBlockView {
        CommentBlockView {
            threads: threads(self.comments@),
            lines: texts(self.comment_strings@),
            focused: self.focused,
            scroll: self.scroll,
        }
    }
}

impl CommentBlock {
    /// The rendered lines of one thread whose top comment sits at `depth`.
    pub fn helper(c: &Comment, depth: u16) -> (lines: Vec<String>)
        ensures
            texts(lines@) == flatten(c@, depth as nat),
        decreases c,
    {
        let mut result: Vec<String> = Vec::new();
        result.push(render_line(depth, c.text.as_str()));
        match &c.replies {
            Some(replies) => {
                let below: u16 = if depth < u16::MAX {
                    depth + 1
                } else {
                    depth
                };
                let ghost head = texts(result@);
                let mut i: usize = 0;
                while i < replies.len()
                    invariant
                        i <= replies@.len(),
                        c.replies == Some(*replies),
                        below >= MAX_DEPTH || below == depth + 1,
                        texts(result@) == head + flatten_all(
                            threads(replies@).take(i as int),
                            below as nat,
                        ),
                    decreases replies@.len() - i,
                {
                    assert(decreases_to!(c.replies => c.replies->0));
                    let mut lines = CommentBlock::helper(&replies[i], below);
                    let ghost before = result@;
                    let ghost added = lines@;
                    result.append(&mut lines);
                    proof {
                        let ts = threads(replies@);
                        assert(ts.take(i + 1) =~= ts.take(i as int).push(ts[i as int]));
                        lemma_outline_all_push(ts.take(i as int), ts[i as int], below as nat);
                        assert(texts(before + added) =~= texts(before) + texts(added));
                    }
                    i = i + 1;
                }
                proof {
                    let ts = threads(replies@);
                    assert(ts.take(i as int) =~= ts);
                    if below != depth + 1 {
                        lemma_flatten_all_saturates(ts, below as nat, (depth + 1) as nat);
                    }
                }
            },
            None => {},
        }
        result
    }

    /// Flattens the top-level threads of a discussion, unfocused and
    /// scrolled to the top.
    pub fn new(comments: Vec<Comment>) -> (block: CommentBlock)
        ensures
            block.comments == comments,
            block@ == (CommentBlockView {
                threads: threads(comments@),
                lines: flatten_all(threads(comments@), 0),
                focused: false,
                scroll: 0,
            }),
    {
        let mut comment_strings: Vec<String> = Vec::new();
        let mut i: usize = 0;
        while i < comments.len()
            invariant
                i <= comments@.len(),
                texts(comment_strings@) == flatten_all(threads(comments@).take(i as int), 0),
            decreases comments@.len() - i,
        {
            let mut lines = CommentBlock::helper(&comments[i], 0);
            let ghost before = comment_strings@;
            let ghost added = lines@;
            comment_strings.append(&mut lines);
            proof {
                let ts = threads(comments@);
                assert(ts.take(i + 1) =~= ts.take(i as int).push(ts[i as int]));
                lemma_outline_all_push(ts.take(i as int), ts[i as int], 0);
                assert(texts(before + added) =~= texts(before) + texts(added));
            }
            i = i + 1;
        }
        assert(threads(comments@).take(i as int) =~= threads(comments@));
        CommentBlock { comments, comment_strings, focused: false, scroll: 0 }
    }

    /// Scrolls one line down.
    pub fn scroll_down(&mut self)
        requires
            old(self).scroll < u16::MAX,
        ensures
            final(self)@ == (CommentBlockView {
                scroll: (old(self).scroll + 1) as u16,
                ..old(self)@
            }),
    {
        self.scroll += 1
    }

    /// Scrolls one line up, staying at the top.
    pub fn scroll_up(&mut self)
        ensures
            final(self)@ == (CommentBlockView {
                scroll: if old(self).scroll > 0 {
                    (old(self).scroll - 1) as u16
                } else {
                    0
                },
                ..old(self)@
            }),
    {
        if self.scroll > 0 {
            self.scroll -= 1
        }
    }
}

} // verus!
