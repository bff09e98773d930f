//! Interactive input line with prefix-searchable command history.
//!
//! The editor is a two-state machine: free typing, and a history-search
//! mode entered with `up` in which previously submitted lines whose text
//! starts with the typed query are offered newest-first.  Submitted lines
//! are recorded in a fixed-capacity [`RingBuffer`] with dedup-and-promote
//! insertion, so the history behaves as most-recently-used without growing.
//! All cursor and edit positions count characters, not bytes, so the editor
//! stays correct under multi-byte text.

use vstd::prelude::*;

use crate::ring::{has_entry, promote, RingBuffer};

verus! {

/// Number of submitted lines the history retains.
pub const HISTORY_CAPACITY: usize = 1000;

/// `w` inserted into `s` at character position `p`; an out-of-range
/// position leaves `s` unchanged.
pub open spec fn insert_chars(s: Seq<char>, w: Seq<char>, p: int) -> Seq<char> {
    if 0 <= p <= s.len() {
        s.subrange(0, p) + w + s.subrange(p, s.len() as int)
    } else {
        s
    }
}

/// The character at position `p` removed from `s`; an out-of-range
/// position leaves `s` unchanged.
pub open spec fn remove_char_at(s: Seq<char>, p: int) -> Seq<char> {
    if 0 <= p < s.len() {
        s.subrange(0, p) + s.subrange(p + 1, s.len() as int)
    } else {
        s
    }
}

/// The largest index at or below `start` whose entry begins with `term` —
/// the first hit of a search toward older entries.
pub open spec fn search_older(h: Seq<Seq<char>>, term: Seq<char>, start: int) -> Option<int>
    decreases start + 1,
{
    if start < 0 || start >= h.len() {
        None
    } else if term.is_prefix_of(h[start]) {
        Some(start)
    } else {
        search_older(h, term, start - 1)
    }
}

/// The smallest index at or above `start` whose entry begins with `term` —
/// the first hit of a search toward newer entries.
pub open spec fn search_newer(h: Seq<Seq<char>>, term: Seq<char>, start: int) -> Option<int>
    decreases h.len() - start,
{
    if start < 0 || start >= h.len() {
        None
    } else if term.is_prefix_of(h[start]) {
        Some(start)
    } else {
        search_newer(h, term, start + 1)
    }
}

proof fn lemma_search_older_found(h: Seq<Seq<char>>, term: Seq<char>, start: int, i: int)
    requires
        0 <= i <= start < h.len(),
        term.is_prefix_of(h[i]),
        forall|j: int| i < j <= start ==> !term.is_prefix_of(h[j]),
    ensures
        search_older(h, term, start) == Some(i),
    decreases start - i,
{
    if start > i {
        lemma_search_older_found(h, term, start - 1, i);
    }
}

proof fn lemma_search_older_none(h: Seq<Seq<char>>, term: Seq<char>, start: int)
    requires
        start < h.len(),
        forall|j: int| 0 <= j <= start ==> !term.is_prefix_of(h[j]),
    ensures
        search_older(h, term, start) is None,
    decreases start + 1,
{
    if start >= 0 {
        lemma_search_older_none(h, term, start - 1);
    }
}

proof fn lemma_search_newer_found(h: Seq<Seq<char>>, term: Seq<char>, start: int, i: int)
    requires
        0 <= start <= i < h.len(),
        term.is_prefix_of(h[i]),
        forall|j: int| start <= j < i ==> !term.is_prefix_of(h[j]),
    ensures
        search_newer(h, term, start) == Some(i),
    decreases i - start,
{
    if start < i {
        lemma_search_newer_found(h, term, start + 1, i);
    }
}

proof fn lemma_search_newer_none(h: Seq<Seq<char>>, term: Seq<char>, start: int)
    requires
        0 <= start,
        forall|j: int| start <= j < h.len() ==> !term.is_prefix_of(h[j]),
    ensures
        search_newer(h, term, start) is None,
    decreases h.len() - start,
{
    if start < h.len() {
        lemma_search_newer_none(h, term, start + 1);
    }
}

/// A dedup-and-promote insertion of a nonempty line into a bounded history
/// of nonempty lines yields again a bounded history of nonempty lines.
proof fn lemma_promote_entries_nonempty(s: Seq<Seq<char>>, cap: nat, v: Seq<char>)
    requires
        forall|i: int| 0 <= i < s.len() ==> #[trigger] s[i].len() > 0,
        v.len() > 0,
        s.len() <= cap,
        0 < cap,
    ensures
        promote(s, cap, v).len() <= cap,
        forall|i: int|
            0 <= i < promote(s, cap, v).len() ==> #[trigger] promote(s, cap, v)[i].len() > 0,
{
    let p = promote(s, cap, v);
    if has_entry(s, v) {
        crate::ring::lemma_promote_existing(s, cap, v);
        let k = crate::ring::newest_entry_index(s, v);
        assert forall|i: int| 0 <= i < p.len() implies #[trigger] p[i].len() > 0 by {
            if i < p.len() - 1 {
                assert(s.remove(k)[i] == if i < k {
                    s[i]
                } else {
                    s[i + 1]
                });
            } else {
                assert(p[i] == v);
            }
        }
    } else {
        assert forall|i: int| 0 <= i < p.len() implies #[trigger] p[i].len() > 0 by {
            if s.len() < cap {
                if i < p.len() - 1 {
                    assert(p[i] == s[i]);
                } else {
                    assert(p[i] == v);
                }
            } else {
                if i < p.len() - 1 {
                    assert(p[i] == s[i + 1]);
                } else {
                    assert(p[i] == v);
                }
            }
        }
    }
}

/// Whether `s` begins with `prefix`, compared character by character.
fn starts_with_chars(s: &String, prefix: &String) -> (b: bool)
    ensures
        b == prefix@.is_prefix_of(s@),
{
    let n = prefix.as_str().unicode_len();
    let m = s.as_str().unicode_len();
    if n > m {
        return false;
    }
    let mut i: usize = 0;
    while i < n
        invariant
            i <= n,
            n == prefix@.len(),
            n <= m,
            m == s@.len(),
            forall|j: int| 0 <= j < i ==> s@[j] == prefix@[j],
        decreases n - i,
    {
        if s.as_str().get_char(i) != prefix.as_str().get_char(i) {
            proof {
                assert(!prefix@.is_prefix_of(s@)) by {
                    if prefix@.is_prefix_of(s@) {
                        assert(prefix@[i as int] == s@.subrange(0, n as int)[i as int]);
                    }
                }
            }
            return false;
        }
        i += 1;
    }
    proof {
        assert(prefix@ =~= s@.subrange(0, n as int));
    }
    true
}

/// Inserts `what` into `source` at a character (not byte) position; an
/// out-of-range position returns `source` unchanged.
pub fn insert_string(source: String, what: &String, position: usize) -> (r: String)
    ensures
        r@ == insert_chars(source@, what@, position as int),
{
    let len = source.as_str().unicode_len();
    if position > len {
        return source;
    }
    let before = source.as_str().substring_char(0, position);
    let mut r = String::from_str(before);
    r.append(what.as_str());
    let after = source.as_str().substring_char(position, len);
    r.append(after);
    r
}

/// Removes the character at a character (not byte) position from `source`;
/// an out-of-range position returns `source` unchanged.
pub fn del_from_string(source: String, position: usize) -> (r: String)
    ensures
        r@ == remove_char_at(source@, position as int),
{
    let len = source.as_str().unicode_len();
    if position >= len {
        return source;
    }
    let before = source.as_str().substring_char(0, position);
    let mut r = String::from_str(before);
    let after = source.as_str().substring_char(position + 1, len);
    r.append(after);
    r
}

enum InputState {
    Typing { buffer: String, cursor_position: usize },
    HistorySearch { search_term: String, index: usize },
}

impl InputState {
    fn empty_typing() -> (r: InputState)
        ensures
            (r matches InputState::Typing { buffer, cursor_position } && buffer@.len() == 0
                && cursor_position == 0),
    {
        InputState::Typing { buffer: String::new(), cursor_position: 0 }
    }

    fn typing_from_buffer(buffer: String) -> (r: InputState)
        ensures
            (r matches InputState::Typing { buffer: b, cursor_position } && b == buffer
                && cursor_position == buffer@.len()),
    {
        let cursor_position = buffer.as_str().unicode_len();
        InputState::Typing { buffer, cursor_position }
    }
}

/// Text-entry state machine over an exclusively owned command history.
pub struct InputLine {
    state: InputState,
    history: RingBuffer,
}

impl InputLine {
    /// The submitted lines retained for history search, oldest first.
    pub closed spec fn hist(&self) -> Seq<Seq<char>> {
        self.history@
    }

    /// Whether the editor is in free-typing mode (as opposed to history
    /// search).
    pub closed spec fn is_typing(&self) -> bool {
        self.state is Typing
    }

    /// The text typed by the user: the edit buffer while typing, the search
    /// query during a history search.
    pub closed spec fn text(&self) -> Seq<char> {
        match self.state {
            InputState::Typing { buffer, .. } => buffer@,
            InputState::HistorySearch { search_term, .. } => search_term@,
        }
    }

    /// The history entry currently matched (meaningful only during a
    /// history search).
    pub closed spec fn match_index(&self) -> nat {
        match self.state {
            InputState::Typing { .. } => 0,
            InputState::HistorySearch { index, .. } => index as nat,
        }
    }

    /// The reported cursor position, in characters: the edit cursor while
    /// typing; during a history search, the full matched entry's length
    /// when the query is empty, else the query's length.
    pub closed spec fn cursor(&self) -> nat {
        match self.state {
            InputState::Typing { cursor_position, .. } => cursor_position as nat,
            InputState::HistorySearch { search_term, index } => if search_term@.len() == 0 {
                self.history@[index as int].len()
            } else {
                search_term@.len()
            },
        }
    }

    /// The text a history search collapses to: the matched entry verbatim
    /// when the query is empty, else the query itself.  While typing this
    /// is simply the edit buffer.
    pub open spec fn collapsed_text(&self) -> Seq<char> {
        if !self.is_typing() && self.text().len() == 0 {
            self.hist()[self.match_index() as int]
        } else {
            self.text()
        }
    }

    /// Editor invariant: the cursor stays within the buffer, a history
    /// search always points at an entry the query is a prefix of, and the
    /// history holds at most `HISTORY_CAPACITY` nonempty lines.
    pub closed spec fn wf(&self) -> bool {
        &&& self.history.wf()
        &&& self.history.cap() == HISTORY_CAPACITY
        &&& self.history@.len() <= HISTORY_CAPACITY
        &&& forall|i: int| 0 <= i < self.history@.len() ==> #[trigger] self.history@[i].len() > 0
        &&& match self.state {
            InputState::Typing { buffer, cursor_position } => cursor_position <= buffer@.len(),
            InputState::HistorySearch { search_term, index } => index < self.history@.len()
                && search_term@.is_prefix_of(self.history@[index as int]),
        }
    }

    /// A fresh editor: empty buffer, cursor at zero, empty history.
    pub fn new() -> (r: InputLine)
        ensures
            r.wf(),
            r.is_typing(),
            r.text() == Seq::<char>::empty(),
            r.cursor() == 0,
            r.hist() == Seq::<Seq<char>>::empty(),
    {
        InputLine { state: InputState::empty_typing(), history: RingBuffer::new(HISTORY_CAPACITY) }
    }

    /// Whether the editor is in history-search mode.
    pub fn is_searching(&self) -> (b: bool)
        ensures
            b == !self.is_typing(),
    {
        match &self.state {
            InputState::Typing { .. } => false,
            InputState::HistorySearch { .. } => true,
        }
    }

    /// Number of lines currently held in the history.
    pub fn history_len(&self) -> (n: usize)
        requires
            self.wf(),
        ensures
            n == self.hist().len(),
    {
        self.history.size()
    }

    /// The history entry at logical index `i` (0 = oldest), if any.
    pub fn history_entry(&self, i: usize) -> (r: Option<String>)
        requires
            self.wf(),
        ensures
            i < self.hist().len() ==> r is Some && r->0@ == self.hist()[i as int],
            i >= self.hist().len() ==> r is None,
    {
        if i >= self.history.size() {
            None
        } else {
            Some(self.history.get(i).as_ref().unwrap().clone())
        }
    }

    /// Inserts `stuff` at the cursor while typing; a no-op during a history
    /// search.
    pub fn type_string(&mut self, stuff: String)
        requires
            old(self).wf(),
        ensures
            final(self).wf(),
            final(self).hist() == old(self).hist(),
            old(self).is_typing() ==> {
                &&& final(self).is_typing()
                &&& final(self).text() == insert_chars(
                    old(self).text(),
                    stuff@,
                    old(self).cursor() as int,
                )
                &&& final(self).cursor() == old(self).cursor() + stuff@.len()
            },
            !old(self).is_typing() ==> *final(self) == *old(self),
    {
        match &mut self.state {
            InputState::Typing { buffer, cursor_position } => {
                let source = buffer.clone();
                let inserted = insert_string(source, &stuff, *cursor_position);
                let total = inserted.as_str().unicode_len();
                let count = stuff.as_str().unicode_len();
                *buffer = inserted;
                *cursor_position = *cursor_position + count;
                proof {
                    assert(*cursor_position <= total);
                }
            },
            _ => {},
        }
    }

    /// Collapses a history search into plain typing using the currently
    /// displayed text, with the cursor at its end; a no-op while typing.
    pub fn cancel_history_search(&mut self)
        requires
            old(self).wf(),
        ensures
            final(self).wf(),
            final(self).hist() == old(self).hist(),
            old(self).is_typing() ==> *final(self) == *old(self),
            !old(self).is_typing() ==> {
                &&& final(self).is_typing()
                &&& final(self).text() == old(self).collapsed_text()
                &&& final(self).cursor() == old(self).collapsed_text().len()
            },
    {
        if let InputState::HistorySearch { search_term, index } = &self.state {
            let idx = *index;
            let buffer = if search_term.as_str().is_empty() {
                self.history.get(idx).as_ref().unwrap().clone()
            } else {
                search_term.clone()
            };
            self.state = InputState::typing_from_buffer(buffer);
        }
    }

    /// Moves the cursor one character left, collapsing a history search
    /// first.
    pub fn left(&mut self)
        requires
            old(self).wf(),
        ensures
            final(self).wf(),
            final(self).hist() == old(self).hist(),
            final(self).is_typing(),
            final(self).text() == old(self).collapsed_text(),
            final(self).cursor() == if old(self).cursor() > 0 {
                (old(self).cursor() - 1) as nat
            } else {
                0nat
            },
    {
        self.cancel_history_search();
        if let InputState::Typing { cursor_position, .. } = &mut self.state {
            if *cursor_position > 0 {
                *cursor_position = *cursor_position - 1;
            }
        }
    }

    /// Moves the cursor to the start of the line, collapsing a history
    /// search first.
    pub fn home(&mut self)
        requires
            old(self).wf(),
        ensures
            final(self).wf(),
            final(self).hist() == old(self).hist(),
            final(self).is_typing(),
            final(self).text() == old(self).collapsed_text(),
            final(self).cursor() == 0,
    {
        self.cancel_history_search();
        if let InputState::Typing { cursor_position, .. } = &mut self.state {
            *cursor_position = 0;
        }
    }

    /// While typing, moves the cursor one character right (bounded by the
    /// end of the buffer); during a history search, commits the full
    /// matched entry into the buffer with the cursor at its end.
    pub fn right(&mut self)
        requires
            old(self).wf(),
        ensures
            final(self).wf(),
            final(self).hist() == old(self).hist(),
            final(self).is_typing(),
            old(self).is_typing() ==> {
                &&& final(self).text() == old(self).text()
                &&& final(self).cursor() == if old(self).cursor() < old(self).text().len() {
                    old(self).cursor() + 1
                } else {
                    old(self).cursor()
                }
            },
            !old(self).is_typing() ==> {
                &&& final(self).text() == old(self).hist()[old(self).match_index() as int]
                &&& final(self).cursor() == final(self).text().len()
            },
    {
        match &mut self.state {
            InputState::Typing { buffer, cursor_position } => {
                if *cursor_position < buffer.as_str().unicode_len() {
                    *cursor_position = *cursor_position + 1;
                }
            },
            InputState::HistorySearch { index, .. } => {
                let idx = *index;
                let buffer = self.history.get(idx).as_ref().unwrap().clone();
                self.state = InputState::typing_from_buffer(buffer);
            },
        }
    }

    /// While typing, moves the cursor to the end of the buffer; during a
    /// history search, commits the full matched entry like `right`.
    pub fn end(&mut self)
        requires
            old(self).wf(),
        ensures
            final(self).wf(),
            final(self).hist() == old(self).hist(),
            final(self).is_typing(),
            old(self).is_typing() ==> final(self).text() == old(self).text(),
            !old(self).is_typing() ==> final(self).text() == old(self).hist()[old(
                self,
            ).match_index() as int],
            final(self).cursor() == final(self).text().len(),
    {
        match &mut self.state {
            InputState::Typing { buffer, cursor_position } => {
                *cursor_position = buffer.as_str().unicode_len();
            },
            InputState::HistorySearch { index, .. } => {
                let idx = *index;
                let buffer = self.history.get(idx).as_ref().unwrap().clone();
                self.state = InputState::typing_from_buffer(buffer);
            },
        }
    }

    /// Deletes the character before the cursor, collapsing a history search
    /// first; a no-op with the cursor at the start.
    pub fn backspace(&mut self)
        requires
            old(self).wf(),
        ensures
            final(self).wf(),
            final(self).hist() == old(self).hist(),
            final(self).is_typing(),
            old(self).cursor() > 0 ==> {
                &&& final(self).text() == remove_char_at(
                    old(self).collapsed_text(),
                    old(self).cursor() - 1,
                )
                &&& final(self).cursor() == old(self).cursor() - 1
            },
            old(self).cursor() == 0 ==> final(self).text() == old(self).collapsed_text()
                && final(self).cursor() == 0,
    {
        self.cancel_history_search();
        if let InputState::Typing { buffer, cursor_position } = &mut self.state {
            if *cursor_position > 0 {
                let source = buffer.clone();
                *buffer = del_from_string(source, *cursor_position - 1);
                *cursor_position = *cursor_position - 1;
            }
        }
    }

    /// Deletes the character under the cursor, collapsing a history search
    /// first; a no-op with the cursor at the end.
    pub fn delete(&mut self)
        requires
            old(self).wf(),
        ensures
            final(self).wf(),
            final(self).hist() == old(self).hist(),
            final(self).is_typing(),
            final(self).text() == remove_char_at(
                old(self).collapsed_text(),
                old(self).cursor() as int,
            ),
            final(self).cursor() == old(self).cursor(),
    {
        self.cancel_history_search();
        if let InputState::Typing { buffer, cursor_position } = &mut self.state {
            let source = buffer.clone();
            *buffer = del_from_string(source, *cursor_position);
        }
    }

    /// While typing, clears the buffer; during a history search, returns to
    /// typing pre-populated with the query (not the matched entry).
    pub fn cancel(&mut self)
        requires
            old(self).wf(),
        ensures
            final(self).wf(),
            final(self).hist() == old(self).hist(),
            final(self).is_typing(),
            old(self).is_typing() ==> final(self).text() == Seq::<char>::empty(),
            !old(self).is_typing() ==> final(self).text() == old(self).text(),
            final(self).cursor() == final(self).text().len(),
    {
        match &self.state {
            InputState::Typing { .. } => {
                self.state = InputState::empty_typing();
            },
            InputState::HistorySearch { search_term, .. } => {
                let term = search_term.clone();
                self.state = InputState::typing_from_buffer(term);
            },
        }
    }

    /// Enters or continues a history search: from typing, finds the newest
    /// entry the typed text is a prefix of; from a search, moves to the
    /// next older matching entry.  Without a match the state is unchanged.
    pub fn up(&mut self)
        requires
            old(self).wf(),
        ensures
            final(self).wf(),
            final(self).hist() == old(self).hist(),
            old(self).is_typing() && old(self).hist().len() == 0 ==> *final(self) == *old(self),
            old(self).is_typing() && old(self).hist().len() > 0 ==> (match search_older(
                old(self).hist(),
                old(self).text(),
                old(self).hist().len() - 1,
            ) {
                Some(i) => !final(self).is_typing() && final(self).text() == old(self).text()
                    && final(self).match_index() == i,
                None => *final(self) == *old(self),
            }),
            !old(self).is_typing() && old(self).match_index() == 0 ==> *final(self) == *old(self),
            !old(self).is_typing() && old(self).match_index() > 0 ==> (match search_older(
                old(self).hist(),
                old(self).text(),
                old(self).match_index() - 1,
            ) {
                Some(i) => !final(self).is_typing() && final(self).text() == old(self).text()
                    && final(self).match_index() == i,
                None => *final(self) == *old(self),
            }),
    {
        match &self.state {
            InputState::Typing { buffer, .. } => {
                if self.history.is_empty() {
                    return;
                }
                let term = buffer.clone();
                let size = self.history.size();
                let pred = |x: &String| -> (b: bool)
                    ensures
                        b == term@.is_prefix_of(x@),
                    { starts_with_chars(x, &term) };
                let found = self.history.find_forwards(pred, size - 1);
                match found {
                    Some(index) => {
                        proof {
                            assert forall|j: int|
                                index < j < self.hist().len() implies !term@.is_prefix_of(
                                self.hist()[j],
                            ) by {
                                assert(call_ensures(pred, (&self.history.entry(j),), false));
                            }
                            lemma_search_older_found(
                                self.hist(),
                                term@,
                                self.hist().len() - 1,
                                index as int,
                            );
                        }
                        self.state = InputState::HistorySearch { search_term: term, index };
                    },
                    None => {
                        proof {
                            assert forall|j: int|
                                0 <= j < self.hist().len() implies !term@.is_prefix_of(
                                self.hist()[j],
                            ) by {
                                assert(call_ensures(pred, (&self.history.entry(j),), false));
                            }
                            lemma_search_older_none(self.hist(), term@, self.hist().len() - 1);
                        }
                    },
                }
            },
            InputState::HistorySearch { search_term, index } => {
                let idx = *index;
                if idx == 0 {
                    return;
                }
                let term = search_term.clone();
                let pred = |x: &String| -> (b: bool)
                    ensures
                        b == term@.is_prefix_of(x@),
                    { starts_with_chars(x, &term) };
                let found = self.history.find_forwards(pred, idx - 1);
                match found {
                    Some(i) => {
                        proof {
                            assert forall|j: int| i < j <= idx - 1 implies !term@.is_prefix_of(
                                self.hist()[j],
                            ) by {
                                assert(call_ensures(pred, (&self.history.entry(j),), false));
                            }
                            lemma_search_older_found(self.hist(), term@, idx - 1, i as int);
                        }
                        self.state = InputState::HistorySearch { search_term: term, index: i };
                    },
                    None => {
                        proof {
                            assert forall|j: int| 0 <= j <= idx - 1 implies !term@.is_prefix_of(
                                self.hist()[j],
                            ) by {
                                assert(call_ensures(pred, (&self.history.entry(j),), false));
                            }
                            lemma_search_older_none(self.hist(), term@, idx - 1);
                        }
                    },
                }
            },
        }
    }

    /// During a history search, moves to the next newer matching entry; if
    /// none matches, returns to typing with the query as buffer.  A no-op
    /// while typing.
    pub fn down(&mut self)
        requires
            old(self).wf(),
        ensures
            final(self).wf(),
            final(self).hist() == old(self).hist(),
            old(self).is_typing() ==> *final(self) == *old(self),
            !old(self).is_typing() ==> (match search_newer(
                old(self).hist(),
                old(self).text(),
                old(self).match_index() as int + 1,
            ) {
                Some(i) => !final(self).is_typing() && final(self).text() == old(self).text()
                    && final(self).match_index() == i,
                None => final(self).is_typing() && final(self).text() == old(self).text()
                    && final(self).cursor() == old(self).text().len(),
            }),
    {
        match &self.state {
            InputState::Typing { .. } => {},
            InputState::HistorySearch { search_term, index } => {
                let idx = *index;
                let term = search_term.clone();
                let pred = |x: &String| -> (b: bool)
                    ensures
                        b == term@.is_prefix_of(x@),
                    { starts_with_chars(x, &term) };
                let found = self.history.find_backwards(pred, idx + 1);
                match found {
                    Some(i) => {
                        proof {
                            assert forall|j: int| idx + 1 <= j < i implies !term@.is_prefix_of(
                                self.hist()[j],
                            ) by {
                                assert(call_ensures(pred, (&self.history.entry(j),), false));
                            }
                            lemma_search_newer_found(self.hist(), term@, idx + 1, i as int);
                        }
                        self.state = InputState::HistorySearch { search_term: term, index: i };
                    },
                    None => {
                        proof {
                            assert forall|j: int|
                                idx + 1 <= j < self.hist().len() implies !term@.is_prefix_of(
                                self.hist()[j],
                            ) by {
                                assert(call_ensures(pred, (&self.history.entry(j),), false));
                            }
                            lemma_search_newer_none(self.hist(), term@, idx + 1);
                        }
                        self.state = InputState::typing_from_buffer(term);
                    },
                }
            },
        }
    }

    /// Takes the current line for submission: returns the displayed text,
    /// records it in the history (dedup-and-promote) unless it is the empty
    /// typing buffer, and resets to empty typing.
    pub fn get_and_submit(&mut self) -> (r: String)
        requires
            old(self).wf(),
        ensures
            final(self).wf(),
            final(self).is_typing(),
            final(self).text() == Seq::<char>::empty(),
            final(self).cursor() == 0,
            r@ == old(self).collapsed_text(),
            old(self).is_typing() && old(self).text().len() == 0 ==> final(self).hist() == old(
                self,
            ).hist(),
            !(old(self).is_typing() && old(self).text().len() == 0) ==> final(self).hist()
                == promote(old(self).hist(), HISTORY_CAPACITY as nat, r@),
    {
        let (result, record) = match &self.state {
            InputState::Typing { buffer, .. } => {
                let record = !buffer.as_str().is_empty();
                (buffer.clone(), record)
            },
            InputState::HistorySearch { search_term, index } => {
                let idx = *index;
                let s = if search_term.as_str().is_empty() {
                    self.history.get(idx).as_ref().unwrap().clone()
                } else {
                    search_term.clone()
                };
                (s, true)
            },
        };
        if record {
            proof {
                lemma_promote_entries_nonempty(
                    old(self).hist(),
                    HISTORY_CAPACITY as nat,
                    result@,
                );
            }
            self.history.find_and_push_back(result.clone());
        }
        self.state = InputState::empty_typing();
        result
    }

    /// Takes the current line without recording it in the history (for
    /// secret input), then resets to empty typing.
    pub fn get_and_clear(&mut self) -> (r: String)
        requires
            old(self).wf(),
        ensures
            final(self).wf(),
            final(self).is_typing(),
            final(self).text() == Seq::<char>::empty(),
            final(self).cursor() == 0,
            final(self).hist() == old(self).hist(),
            r@ == old(self).collapsed_text(),
    {
        let result = match &self.state {
            InputState::Typing { buffer, .. } => buffer.clone(),
            InputState::HistorySearch { search_term, index } => {
                let idx = *index;
                if search_term.as_str().is_empty() {
                    self.history.get(idx).as_ref().unwrap().clone()
                } else {
                    search_term.clone()
                }
            },
        };
        self.state = InputState::empty_typing();
        result
    }

    /// The reported cursor position, in characters.
    pub fn cursor_position(&self) -> (n: usize)
        requires
            self.wf(),
        ensures
            n == self.cursor(),
    {
        match &self.state {
            InputState::Typing { cursor_position, .. } => *cursor_position,
            InputState::HistorySearch { search_term, index } => {
                if search_term.as_str().is_empty() {
                    let idx = *index;
                    self.history.get(idx).as_ref().unwrap().as_str().unicode_len()
                } else {
                    search_term.as_str().unicode_len()
                }
            },
        }
    }

    /// The two parts of the rendered input line: the text shown as typed
    /// input, and the inline completion suggestion following it (the
    /// remainder of the matched entry, nonempty only during a history
    /// search with a nonempty query).
    pub fn display_parts(&self) -> (r: (String, String))
        requires
            self.wf(),
        ensures
            r.0@ == self.collapsed_text(),
            self.is_typing() || self.text().len() == 0 ==> r.1@ == Seq::<char>::empty(),
            !self.is_typing() && self.text().len() > 0 ==> r.1@ == self.hist()[self.match_index() as int].skip(
                self.text().len() as int,
            ),
    {
        match &self.state {
            InputState::Typing { buffer, .. } => (buffer.clone(), String::new()),
            InputState::HistorySearch { search_term, index } => {
                let idx = *index;
                let entry = self.history.get(idx).as_ref().unwrap();
                if search_term.as_str().is_empty() {
                    (entry.clone(), String::new())
                } else {
                    let n = search_term.as_str().unicode_len();
                    let m = entry.as_str().unicode_len();
                    let completion = entry.as_str().substring_char(n, m);
                    (search_term.clone(), String::from_str(completion))
                }
            },
        }
    }
}

} // verus!
