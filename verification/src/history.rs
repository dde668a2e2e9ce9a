//! Conversation history: an append-only ordered log of question/answer
//! pairs with a bounded replay window.

use vstd::prelude::*;

verus! {

/// One completed exchange: the question as the user typed it (never the
/// assembled query) and the answer text the service returned.
pub struct ConversationEntry {
    pub question: String,
    pub answer: String,
}

/// Mathematical image of a [`ConversationEntry`].
pub struct EntryView {
    pub question: Seq<char>,
    pub answer: Seq<char>,
}

impl View for ConversationEntry {
    type V = EntryView;

    open spec fn view(&self) -> EntryView {
        EntryView { question: self.question@, answer: self.answer@ }
    }
}

/// How many of the most recent history entries an assembled query replays.
pub const HISTORY_WINDOW: usize = 5;

/// The most recent `n` entries of `h`, still in chronological order; all
/// of `h` when it is shorter than `n`.
pub open spec fn window(h: Seq<EntryView>, n: int) -> Seq<EntryView> {
    if h.len() <= n {
        h
    } else {
        h.skip(h.len() - n)
    }
}

/// The replay window holds exactly the most recent entries, oldest first:
/// entry `i` of the window is entry `h.len() - window.len() + i` of the
/// full history, and a history longer than the bound is cut to the bound.
pub proof fn lemma_window_most_recent(h: Seq<EntryView>, n: int)
    requires
        0 <= n,
    ensures
        h.len() >= n ==> window(h, n).len() == n,
        h.len() < n ==> window(h, n) == h,
        forall|i: int|
            0 <= i < window(h, n).len() ==> window(h, n)[i] == h[h.len() - window(h, n).len() + i],
{
}

/// Append-only log of completed exchanges.
pub struct History {
    entries: Vec<ConversationEntry>,
}

impl View for History {
    type V = Seq<EntryView>;

    closed spec fn view(&self) -> Seq<EntryView> {
        self.entries@.map_values(|e: ConversationEntry| e@)
    }
}

impl History {
    /// An empty log.
    pub fn new() -> (h: Self)
        ensures
            h@ == Seq::<EntryView>::empty(),
    {
        let h = History { entries: Vec::new() };
        proof {
            assert(h@ =~= Seq::<EntryView>::empty());
        }
        h
    }

    /// Number of recorded exchanges.
    pub fn len(&self) -> (n: usize)
        ensures
            n == self@.len(),
    {
        self.entries.len()
    }

    /// Record one completed exchange at the end of the log.
    pub fn append(&mut self, question: String, answer: String)
        ensures
            final(self)@ == old(self)@.push(EntryView { question: question@, answer: answer@ }),
    {
        let ghost pre = self@;
        let entry = ConversationEntry { question, answer };
        self.entries.push(entry);
        proof {
            assert(self@ =~= pre.push(entry@));
        }
    }

    /// The full log, oldest first.
    pub fn entries(&self) -> (r: &Vec<ConversationEntry>)
        ensures
            r@.map_values(|e: ConversationEntry| e@) == self@,
    {
        &self.entries
    }

    /// The most recent `n` exchanges, still oldest first.
    pub fn windowed(&self, n: usize) -> (r: Vec<ConversationEntry>)
        ensures
            r@.map_values(|e: ConversationEntry| e@) == window(self@, n as int),
    {
        let len = self.entries.len();
        let start = if len <= n {
            0
        } else {
            len - n
        };
        let mut out: Vec<ConversationEntry> = Vec::new();
        let mut i = start;
        proof {
            assert(out@.map_values(|e: ConversationEntry| e@) =~= self@.subrange(
                start as int,
                start as int,
            ));
        }
        while i < len
            invariant
                start <= i <= len,
                len == self@.len(),
                len == self.entries@.len(),
                out@.map_values(|e: ConversationEntry| e@) =~= self@.subrange(
                    start as int,
                    i as int,
                ),
            decreases len - i,
        {
            let ghost pre = out@.map_values(|e: ConversationEntry| e@);
            let src = &self.entries[i];
            let copy = ConversationEntry {
                question: src.question.clone(),
                answer: src.answer.clone(),
            };
            proof {
                assert(copy@ == self@[i as int]);
            }
            out.push(copy);
            proof {
                assert(out@.map_values(|e: ConversationEntry| e@) =~= pre.push(copy@));
                assert(pre.push(copy@) =~= self@.subrange(start as int, i as int + 1));
            }
            i = i + 1;
        }
        proof {
            assert(self@.subrange(start as int, len as int) =~= window(self@, n as int));
        }
        out
    }

    /// Truncate the log to empty.
    pub fn clear(&mut self)
        ensures
            final(self)@ == Seq::<EntryView>::empty(),
    {
        self.entries.clear();
        proof {
            assert(self@ =~= Seq::<EntryView>::empty());
        }
    }
}

}
