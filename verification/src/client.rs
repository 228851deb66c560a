//! The receiving side of a stream client: the bytes that arrive are cut into
//! lines, and each line is turned into what the user gets to see.

use vstd::prelude::*;
use vstd::string::*;
use crate::wire::{json_string_field, lossy_text, string_field, utf8_lossy};

verus! {

/// The byte that ends a line.
pub const LINE_FEED: u8 = 10;

/// The index of the first line feed in `bytes`, or `bytes.len()` where there
/// is none.
pub open spec fn first_feed(bytes: Seq<u8>) -> int
    decreases bytes.len(),
{
    if bytes.len() == 0 {
        0
    } else if bytes[0] == LINE_FEED {
        0
    } else {
        1 + first_feed(bytes.drop_first())
    }
}

/// The lines that `bytes` holds in full: what stands before each line feed,
/// in order, without the line feed.
pub open spec fn complete_lines(bytes: Seq<u8>) -> Seq<Seq<u8>>
    decreases bytes.len(),
{
    let at = first_feed(bytes);
    if 0 <= at < bytes.len() {
        seq![bytes.subrange(0, at)] + complete_lines(bytes.subrange(at + 1, bytes.len() as int))
    } else {
        Seq::empty()
    }
}

/// The start of a line that `bytes` ends with: what stands behind the last
/// line feed.
pub open spec fn unfinished_line(bytes: Seq<u8>) -> Seq<u8>
    decreases bytes.len(),
{
    let at = first_feed(bytes);
    if 0 <= at < bytes.len() {
        unfinished_line(bytes.subrange(at + 1, bytes.len() as int))
    } else {
        bytes
    }
}

/// The bytes of each of `lines`, in the same order.
pub open spec fn line_views(lines: Seq<Vec<u8>>) -> Seq<Seq<u8>> {
    lines.map_values(|line: Vec<u8>| line@)
}

/// The text of `text` without the white space at its ends, as `str::trim`
/// gives it.
pub uninterp spec fn trimmed(text: Seq<char>) -> Seq<char>;

/// What the user gets to see of a line, if anything.
///
/// A line that is empty but for white space shows nothing. A line that is
/// JSON shows `username: content` where it has both as strings, and nothing
/// otherwise. Any other line shows as it is.
pub open spec fn shown(line: Seq<u8>) -> Option<Seq<char>> {
    let text = trimmed(utf8_lossy(line));
    if text.len() == 0 {
        None
    } else {
        match json_string_field(text, "username"@) {
            None => Some(text),
            Some(None) => None,
            Some(Some(username)) => match json_string_field(text, "content"@) {
                Some(Some(content)) => Some(username + ": "@ + content),
                _ => None,
            },
        }
    }
}

/// `first_feed` is within bounds, points at a line feed if at any, and
/// passes over none.
pub proof fn lemma_first_feed(bytes: Seq<u8>)
    ensures
        0 <= first_feed(bytes) <= bytes.len(),
        first_feed(bytes) < bytes.len() ==> bytes[first_feed(bytes)] == LINE_FEED,
        forall|j: int| 0 <= j < first_feed(bytes) ==> bytes[j] != LINE_FEED,
    decreases bytes.len(),
{
    if bytes.len() > 0 && bytes[0] != LINE_FEED {
        let rest = bytes.drop_first();
        lemma_first_feed(rest);
        assert forall|j: int| 0 <= j < first_feed(bytes) implies bytes[j] != LINE_FEED by {
            if j > 0 {
                assert(bytes[j] == rest[j - 1]);
            }
        }
    }
}

/// The first index that holds a line feed is `first_feed`; where no index
/// holds one, `first_feed` is the length.
pub proof fn lemma_first_feed_is(bytes: Seq<u8>, at: int)
    requires
        0 <= at <= bytes.len(),
        forall|j: int| 0 <= j < at ==> bytes[j] != LINE_FEED,
        at < bytes.len() ==> bytes[at] == LINE_FEED,
    ensures
        first_feed(bytes) == at,
{
    lemma_first_feed(bytes);
}

/// How the bytes arrive in pieces does not matter: the lines of two pieces
/// are those of the first, and those of what the first left unfinished
/// with the second behind it.
pub proof fn law_lines_do_not_depend_on_the_pieces(first: Seq<u8>, second: Seq<u8>)
    ensures
        complete_lines(first + second) == complete_lines(first) + complete_lines(
            unfinished_line(first) + second,
        ),
        unfinished_line(first + second) == unfinished_line(unfinished_line(first) + second),
    decreases first.len(),
{
    lemma_first_feed(first);
    let at = first_feed(first);
    if at < first.len() {
        let whole = first + second;
        assert forall|j: int| 0 <= j < at implies whole[j] != LINE_FEED by {
            assert(whole[j] == first[j]);
        }
        assert(whole[at] == first[at]);
        lemma_first_feed_is(whole, at);
        let rest = first.subrange(at + 1, first.len() as int);
        assert(whole.subrange(at + 1, whole.len() as int) =~= rest + second);
        assert(whole.subrange(0, at) =~= first.subrange(0, at));
        law_lines_do_not_depend_on_the_pieces(rest, second);
        assert(complete_lines(whole) =~= complete_lines(first) + complete_lines(
            unfinished_line(first) + second,
        ));
    } else {
        assert(complete_lines(first) + complete_lines(first + second) =~= complete_lines(
            first + second,
        ));
    }
}

/// Removes the white space at the ends of `text` with `str::trim`. The
/// contract only names the result.
#[verifier::external_body]
fn trim(text: &str) -> (r: String)
    ensures
        r@ == trimmed(text@),
{
    text.trim().to_string()
}

/// Turns a line into what the user gets to see, if anything.
pub fn render_line(line: &[u8]) -> (r: Option<String>)
    ensures
        crate::wire::text_view(r) == shown(line@),
{
    let text = trim(lossy_text(line).as_str());
    if text.as_str().is_empty() {
        return None;
    }
    match string_field(text.as_str(), "username") {
        None => Some(text),
        Some(None) => None,
        Some(Some(username)) => match string_field(text.as_str(), "content") {
            Some(Some(content)) => {
                let mut out = username;
                out.append(": ");
                out.append(content.as_str());
                Some(out)
            },
            _ => None,
        },
    }
}

/// The bytes of a stream, cut into lines as they arrive.
pub struct LineBuffer {
    pending: Vec<u8>,
}

impl LineBuffer {
    /// No line feed is among the bytes that wait. This holds of every buffer
    /// at all times.
    #[verifier::type_invariant]
    pub open spec fn well_formed(self) -> bool {
        forall|j: int| 0 <= j < self.pending().len() ==> self.pending()[j] != LINE_FEED
    }

    /// The bytes that wait for the rest of their line.
    pub closed spec fn pending(&self) -> Seq<u8> {
        self.pending@
    }

    /// A buffer in which nothing waits.
    pub fn new() -> (r: Self)
        ensures
            r.pending() == Seq::<u8>::empty(),
    {
        LineBuffer { pending: Vec::new() }
    }

    /// Takes the bytes that arrived and returns the lines that they
    /// complete, the first of them begun by what waited. What stands behind
    /// the last line feed waits for more.
    pub fn feed(&mut self, chunk: &[u8]) -> (lines: Vec<Vec<u8>>)
        ensures
            line_views(lines@) == complete_lines(old(self).pending() + chunk@),
            final(self).pending() == unfinished_line(old(self).pending() + chunk@),
    {
        proof {
            use_type_invariant(&*self);
        }
        let mut line: Vec<u8> = Vec::new();
        core::mem::swap(&mut line, &mut self.pending);
        let ghost waited = line@;
        let ghost all = waited + chunk@;
        assert forall|j: int| 0 <= j < line@.len() implies line@[j] != LINE_FEED by {
            assert(old(self).pending()[j] != LINE_FEED);
        }
        let mut lines: Vec<Vec<u8>> = Vec::new();
        let mut i: usize = 0;
        assert(all.subrange(0, all.len() as int) =~= all);
        while i < chunk.len()
            invariant
                i <= chunk.len(),
                all == waited + chunk@,
                line@.len() <= waited.len() + i,
                line@ == all.subrange(waited.len() + i - line@.len(), waited.len() + i),
                forall|j: int| 0 <= j < line@.len() ==> line@[j] != LINE_FEED,
                complete_lines(all) == line_views(lines@) + complete_lines(
                    all.subrange(waited.len() + i - line@.len(), all.len() as int),
                ),
                unfinished_line(all) == unfinished_line(
                    all.subrange(waited.len() + i - line@.len(), all.len() as int),
                ),
            decreases chunk.len() - i,
        {
            let byte = chunk[i];
            let ghost start = waited.len() + i - line@.len();
            let ghost rest = all.subrange(start, all.len() as int);
            assert(all[waited.len() + i] == byte);
            if byte == LINE_FEED {
                proof {
                    assert forall|j: int| 0 <= j < line@.len() implies rest[j] != LINE_FEED by {
                        assert(rest[j] == line@[j]);
                    }
                    assert(rest[line@.len() as int] == byte);
                    lemma_first_feed_is(rest, line@.len() as int);
                    assert(rest.subrange(0, line@.len() as int) =~= line@);
                    assert(rest.subrange(line@.len() as int + 1, rest.len() as int) =~= all.subrange(
                        waited.len() + i + 1,
                        all.len() as int,
                    ));
                }
                let ghost before = line_views(lines@);
                let ghost finished = line@;
                let mut done: Vec<u8> = Vec::new();
                core::mem::swap(&mut done, &mut line);
                lines.push(done);
                assert(line_views(lines@) =~= before + seq![finished]);
                assert(line@ =~= all.subrange(waited.len() + i + 1, waited.len() + i + 1));
            } else {
                line.push(byte);
                assert(line@ =~= all.subrange(start, waited.len() + i + 1));
            }
            i += 1;
        }
        proof {
            let rest = all.subrange(waited.len() + i - line@.len(), all.len() as int);
            assert(rest =~= line@);
            lemma_first_feed_is(rest, rest.len() as int);
            assert(line_views(lines@) + Seq::<Seq<u8>>::empty() =~= line_views(lines@));
        }
        self.pending = line;
        lines
    }
}

} // verus!
