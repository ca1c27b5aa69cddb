//! The depth-tracking cursor over the token stream.

use vstd::prelude::*;
use crate::event::{Event, Token};
use crate::source::{
    after_first, open_events, pending_events, pull_event, terminated, xml_events, EventSource,
};
use crate::text::text_of;

verus! {

/// The depth after one more token: an opening tag adds one level, a closing tag
/// takes one away, and the count stays within `0 ..= usize::MAX`.
pub open spec fn depth_after(depth: usize, token: Token) -> usize {
    match token {
        Token::Start { .. } => if depth < usize::MAX {
            (depth + 1) as usize
        } else {
            depth
        },
        Token::End => if depth > 0 {
            (depth - 1) as usize
        } else {
            depth
        },
        _ => depth,
    }
}

/// The depth that the cursor holds after it has seen `tokens`, starting from 0.
pub open spec fn depth_over(tokens: Seq<Token>) -> usize
    decreases tokens.len(),
{
    if tokens.len() == 0 {
        0
    } else {
        depth_after(depth_over(tokens.drop_last()), tokens.last())
    }
}

/// Opening tags minus closing tags in `tokens`.
pub open spec fn nesting(tokens: Seq<Token>) -> int
    decreases tokens.len(),
{
    if tokens.len() == 0 {
        0
    } else {
        nesting(tokens.drop_last()) + match tokens.last() {
            Token::Start { .. } => 1int,
            Token::End => -1int,
            _ => 0int,
        }
    }
}

/// No prefix of `tokens` closes more elements than it opened, nor nests deeper
/// than a `usize` can count.
pub open spec fn nesting_in_range(tokens: Seq<Token>) -> bool {
    forall|k: int| 0 <= k <= tokens.len() ==> 0 <= #[trigger] nesting(tokens.take(k)) <= usize::MAX
}

/// Every element that `tokens` opens is closed again, in order.
pub open spec fn well_nested(tokens: Seq<Token>) -> bool {
    nesting_in_range(tokens) && nesting(tokens) == 0
}

/// Mathematical state of a cursor.
pub struct Cursor {
    /// The tokens handed out so far; a terminal token is recorded once.
    pub seen: Seq<Token>,
    /// The tokens still to come, the terminal one last.
    pub pending: Seq<Token>,
    /// The current nesting depth.
    pub depth: usize,
    /// Whether the terminal token has been handed out.
    pub finished: bool,
}

impl Cursor {
    /// The cursor at the start of a stream.
    pub open spec fn start(stream: Seq<Token>) -> Cursor {
        Cursor { seen: Seq::empty(), pending: stream, depth: 0, finished: false }
    }

    /// The cursor is well formed: its stream is terminated, its depth is the one that
    /// the tokens seen give, and once finished it stays at the terminal token, which
    /// is the last it has seen.
    pub open spec fn wf(self) -> bool {
        &&& terminated(self.pending)
        &&& self.finished ==> self.pending.len() == 1 && self.seen.len() > 0 && self.seen.last()
            == self.pending[0]
        &&& self.depth == depth_over(self.seen)
    }

    /// The token that the next pull hands out.
    pub open spec fn head(self) -> Token {
        self.pending[0]
    }

    /// The cursor after one pull.
    pub open spec fn advance(self) -> Cursor {
        Cursor {
            seen: if self.finished {
                self.seen
            } else {
                self.seen.push(self.head())
            },
            pending: after_first(self.pending),
            depth: depth_after(self.depth, self.head()),
            finished: self.head().is_terminal(),
        }
    }

    /// How many pulls are left until the terminal token has been handed out.
    pub open spec fn remaining(self) -> nat {
        if self.finished {
            0
        } else {
            self.pending.len()
        }
    }

    /// The whole stream that the cursor runs over: what it has seen, then what is
    /// still to come.
    pub open spec fn whole(self) -> Seq<Token> {
        if self.finished {
            self.seen
        } else {
            self.seen + self.pending
        }
    }

    /// `self` is what the well-formed cursor `from` has become after at least one
    /// pull: it runs over the same stream and is further along, or both are at its
    /// end.
    pub open spec fn advanced(self, from: Cursor) -> bool {
        &&& self.wf()
        &&& self.whole() == from.whole()
        &&& self.remaining() < from.remaining() || (from.finished && self.finished)
    }

    /// The scope that began at `floor` is exhausted: the depth is below `floor`, or
    /// the stream has ended.
    pub open spec fn closed_below(self, floor: usize) -> bool {
        self.depth < floor || self.finished
    }

    /// The scope of a record at `floor` is closed: the depth is at `floor` or below,
    /// or the stream has ended.
    pub open spec fn closed_at(self, floor: usize) -> bool {
        self.depth <= floor || self.finished
    }

    /// What the pull of a sibling name gives: the local name of an opening tag; the
    /// empty name for anything that is neither a tag nor a failure, the end of the
    /// document among them, and for a closing tag that leaves the depth above
    /// `floor`; `None` once a closing tag brings the depth to `floor` or below, and
    /// at a failure of the stream.
    pub open spec fn sibling(self, floor: usize) -> Option<Seq<char>> {
        match self.head() {
            Token::Start { name, .. } => Some(name),
            Token::End => if self.advance().depth > floor {
                Some(Seq::empty())
            } else {
                None
            },
            Token::Failure => None,
            _ => Some(Seq::empty()),
        }
    }

    /// The next character data: the first text token from here on, or the empty
    /// text where the stream ends before one is found.
    pub open spec fn text(self) -> Seq<char>
        decreases self.remaining(),
        when self.wf()
    {
        match self.head() {
            Token::Text(text) => text,
            Token::EndDocument | Token::Failure => Seq::empty(),
            _ => self.advance().text(),
        }
    }

    /// The cursor after the next character data has been read.
    pub open spec fn after_text(self) -> Cursor
        decreases self.remaining(),
        when self.wf()
    {
        match self.head() {
            Token::Text(_) | Token::EndDocument | Token::Failure => self.advance(),
            _ => self.advance().after_text(),
        }
    }

    /// A pull moves a well-formed cursor on.
    pub proof fn lemma_advance(self)
        requires
            self.wf(),
        ensures
            self.advance().advanced(self),
    {
        let next = self.advance();
        if !self.finished {
            assert(next.seen.drop_last() =~= self.seen);
            assert(next.whole() =~= self.whole());
        }
    }

    /// Reading the next character data moves a well-formed cursor on.
    pub proof fn lemma_after_text(self)
        requires
            self.wf(),
        ensures
            self.after_text().advanced(self),
        decreases self.remaining(),
    {
        self.lemma_advance();
        match self.head() {
            Token::Text(_) | Token::EndDocument | Token::Failure => {},
            _ => {
                self.advance().lemma_after_text();
            },
        }
    }
}

/// Where every prefix nests within range, the cursor's depth is the nesting.
pub proof fn lemma_depth_is_nesting(tokens: Seq<Token>)
    requires
        nesting_in_range(tokens),
    ensures
        depth_over(tokens) == nesting(tokens),
    decreases tokens.len(),
{
    if tokens.len() > 0 {
        let front = tokens.drop_last();
        assert forall|k: int| 0 <= k <= front.len() implies 0 <= #[trigger] nesting(front.take(k))
            <= usize::MAX by {
            assert(front.take(k) =~= tokens.take(k));
        }
        lemma_depth_is_nesting(front);
        assert(tokens.take(tokens.len() as int) =~= tokens);
        assert(tokens.take(tokens.len() - 1) =~= front);
    }
}

/// A cursor that has read a well-nested document to its end is back at depth 0.
pub proof fn lemma_depth_zero_at_end(cursor: Cursor)
    requires
        cursor.wf(),
        cursor.finished,
        cursor.seen.len() > 0,
        cursor.seen.last() is EndDocument,
        well_nested(cursor.seen.drop_last()),
    ensures
        cursor.depth == 0,
{
    lemma_depth_is_nesting(cursor.seen.drop_last());
}

/// A cursor over the token stream of one document.
pub struct XmlReader<'a> {
    events: EventSource<'a>,
    depth: usize,
    finished: bool,
    seen: Ghost<Seq<Token>>,
}

impl<'a> View for XmlReader<'a> {
    type V = Cursor;

    closed spec fn view(&self) -> Cursor {
        Cursor {
            seen: self.seen@,
            pending: pending_events(&self.events),
            depth: self.depth,
            finished: self.finished,
        }
    }
}

impl<'a> XmlReader<'a> {
    /// Opens a cursor at the start of the document `xml`, at depth 0.
    pub fn new(xml: &'a [u8]) -> (reader: Self)
        ensures
            reader@ == Cursor::start(xml_events(xml@)),
            reader@.wf(),
    {
        let events = open_events(xml);
        XmlReader { events, depth: 0, finished: false, seen: Ghost(Seq::empty()) }
    }

    /// The current nesting depth.
    pub fn depth(&self) -> (depth: usize)
        ensures
            depth == self@.depth,
    {
        self.depth
    }

    /// Whether the end of the document, or a failure of the stream, has been handed out.
    pub fn finished(&self) -> (finished: bool)
        ensures
            finished == self@.finished,
    {
        self.finished
    }

    /// Pulls the next event and keeps the depth: one up on an opening tag, one down
    /// on a closing tag.
    pub fn next(&mut self) -> (event: Event)
        requires
            old(self)@.wf(),
        ensures
            event@ == old(self)@.head(),
            final(self)@ == old(self)@.advance(),
            final(self)@.advanced(old(self)@),
    {
        proof {
            old(self)@.lemma_advance();
        }
        let event = pull_event(&mut self.events);
        proof {
            if !self.finished {
                self.seen = Ghost(self.seen@.push(event@));
            }
        }
        match &event {
            Event::Start { .. } => {
                if self.depth < usize::MAX {
                    self.depth += 1;
                }
            },
            Event::End => {
                if self.depth > 0 {
                    self.depth -= 1;
                }
            },
            Event::EndDocument | Event::Failure => {
                self.finished = true;
            },
            _ => {},
        }
        event
    }

    /// Pulls one event and reports it as a sibling name: the local name of an
    /// opening tag; the empty name for anything that is neither a tag nor a failure,
    /// and for a closing tag that leaves the depth above `depth`; `None` once a
    /// closing tag brings the depth to `depth` or below, and at a failure of the
    /// stream. At the end of the document the name is empty and the cursor is
    /// finished.
    pub fn next_start_name_under_depth(&mut self, depth: usize) -> (name: Option<String>)
        requires
            old(self)@.wf(),
        ensures
            text_of(name) == old(self)@.sibling(depth),
            final(self)@ == old(self)@.advance(),
            final(self)@.advanced(old(self)@),
    {
        match self.next() {
            Event::Start { name, .. } => Some(name),
            Event::End => {
                if self.depth > depth {
                    Some(String::new())
                } else {
                    None
                }
            },
            Event::Failure => None,
            _ => Some(String::new()),
        }
    }

    /// Pulls events up to and including the next character data and returns it.
    /// Where the stream ends first, the text is empty.
    pub fn next_characters(&mut self) -> (text: String)
        requires
            old(self)@.wf(),
        ensures
            text@ == old(self)@.text(),
            final(self)@ == old(self)@.after_text(),
            final(self)@.advanced(old(self)@),
    {
        proof {
            old(self)@.lemma_after_text();
        }
        loop
            invariant
                old(self)@.wf(),
                old(self)@.after_text().advanced(old(self)@),
                self@.wf(),
                self@.text() == old(self)@.text(),
                self@.after_text() == old(self)@.after_text(),
            decreases self@.remaining(),
        {
            match self.next() {
                Event::Text(data) => {
                    return data;
                },
                Event::EndDocument | Event::Failure => {
                    return String::new();
                },
                _ => {},
            }
        }
    }
}

} // verus!
