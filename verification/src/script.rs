//! Decision core of the automation engine actor.
//!
//! User scripts drive the client through a small capability surface:
//! connect, send, send a secret, replace the layout, and `expect` — wait
//! until a line of remote output matches a regular expression.  Each
//! `expect` call registers a waiter: a pattern paired with a fresh ticket
//! under which the caller's single-use reply slot is held.  Every line
//! received from the connection is checked against all pending waiters in
//! one pass; every waiter whose pattern matches is resolved and removed,
//! so no waiter resolves twice.  Unmatched waiters persist until the actor
//! shuts down.

use vstd::prelude::*;

use crate::layout::{
    layout_model, spec_parse_layout, spec_validate, LayoutElement, LayoutError, LayoutModel,
    ScriptValue,
};

verus! {

/// Requests accepted by the automation actor.
pub enum ScriptEngineRequest {
    /// A line of remote output to match against the pending waiters.
    Output(String),
    /// Run the script held in the named file.
    ExecuteScriptFile(String),
    /// Stop the actor, dropping all pending waiters.
    Shutdown,
}

/// Events the automation actor emits toward the router.
pub enum ScriptEngineEvent {
    Connect(String, u16),
    Send(String),
    SendSecret(String),
    SetLayout(LayoutElement),
    Error(String),
}

/// Whether the regex crate accepts `pattern` as a regular expression; a
/// function of the pattern alone.
pub uninterp spec fn regex_compiles(pattern: Seq<char>) -> bool;

/// Whether the regular expression `pattern` matches somewhere in `text`; a
/// function of the two texts alone.
pub uninterp spec fn regex_is_match(pattern: Seq<char>, text: Seq<char>) -> bool;

/// Relies on regex::Regex::new: whether a pattern is accepted depends on
/// the pattern text alone.
#[verifier::external_body]
fn pattern_compiles(pattern: &str) -> (r: bool)
    ensures
        r == regex_compiles(pattern@),
{
    regex::Regex::new(pattern).is_ok()
}

/// Relies on regex::Regex::new and regex::Regex::is_match: whether a valid
/// pattern matches somewhere in a text depends on the two texts alone.
#[verifier::external_body]
fn pattern_matches(pattern: &str, text: &str) -> (r: bool)
    requires
        regex_compiles(pattern@),
    ensures
        r == regex_is_match(pattern@, text@),
{
    regex::Regex::new(pattern).unwrap().is_match(text)
}

/// A pending wait-for-output request: the pattern it watches for, and the
/// ticket under which the caller's reply slot is held.
pub struct Waiter {
    pub pattern: String,
    pub id: u64,
}

/// The error text for a pattern the regex crate rejects.
pub open spec fn invalid_pattern_message(pattern: Seq<char>) -> Seq<char> {
    "Invalid pattern: "@ + pattern
}

/// The tickets of the waiters among `ws` whose pattern matches `line`, in
/// registration order.
pub open spec fn resolved_of(ws: Seq<Waiter>, line: Seq<char>) -> Seq<u64>
    decreases ws.len(),
{
    if ws.len() == 0 {
        Seq::empty()
    } else {
        let rest = resolved_of(ws.drop_last(), line);
        if regex_is_match(ws.last().pattern@, line) {
            rest.push(ws.last().id)
        } else {
            rest
        }
    }
}

/// The waiters among `ws` whose pattern does not match `line`, in
/// registration order.
pub open spec fn remaining_of(ws: Seq<Waiter>, line: Seq<char>) -> Seq<Waiter>
    decreases ws.len(),
{
    if ws.len() == 0 {
        Seq::empty()
    } else {
        let rest = remaining_of(ws.drop_last(), line);
        if regex_is_match(ws.last().pattern@, line) {
            rest
        } else {
            rest.push(ws.last())
        }
    }
}

/// The waiter table of the automation actor.  Tickets are handed out
/// exactly once, in increasing order.
pub struct WaiterTable {
    waiters: Vec<Waiter>,
    next_id: u64,
}

impl WaiterTable {
    /// Ids strictly increase along the list and stay below the next
    /// ticket, and every stored pattern is a valid regular expression.
    #[verifier::type_invariant]
    spec fn wf(self) -> bool {
        &&& forall|i: int, j: int|
            0 <= i < j < self.waiters@.len() ==> self.waiters@[i].id < self.waiters@[j].id
        &&& forall|i: int|
            0 <= i < self.waiters@.len() ==> #[trigger] self.waiters@[i].id < self.next_id
        &&& forall|i: int|
            0 <= i < self.waiters@.len() ==> regex_compiles(#[trigger] self.waiters@[i].pattern@)
    }

    /// The pending waiters, oldest registration first.
    pub closed spec fn pending(&self) -> Seq<Waiter> {
        self.waiters@
    }

    /// The ticket the next registration will receive.
    pub closed spec fn next_ticket(&self) -> nat {
        self.next_id as nat
    }

    /// A fresh table with no pending waiter.
    pub fn new() -> (r: WaiterTable)
        ensures
            r.pending() == Seq::<Waiter>::empty(),
            r.next_ticket() == 0,
    {
        WaiterTable { waiters: Vec::new(), next_id: 0 }
    }

    /// Number of pending waiters.
    pub fn len(&self) -> (n: usize)
        ensures
            n == self.pending().len(),
    {
        self.waiters.len()
    }

    /// Registers a waiter for `pattern`: a fresh ticket exactly when the
    /// pattern is a valid regular expression, else a descriptive error and
    /// no change.
    pub fn register(&mut self, pattern: String) -> (r: Result<u64, String>)
        requires
            old(self).next_ticket() < u64::MAX,
        ensures
            regex_compiles(pattern@) ==> {
                &&& (r matches Ok(id) && id == old(self).next_ticket())
                &&& final(self).pending() == old(self).pending().push(
                    (Waiter { pattern: pattern, id: old(self).next_ticket() as u64 }),
                )
                &&& final(self).next_ticket() == old(self).next_ticket() + 1
            },
            !regex_compiles(pattern@) ==> {
                &&& (r matches Err(m) && m@ == invalid_pattern_message(pattern@))
                &&& final(self).pending() == old(self).pending()
                &&& final(self).next_ticket() == old(self).next_ticket()
            },
    {
        proof {
            use_type_invariant(&*self);
        }
        let compiles = pattern_compiles(pattern.as_str());
        if !compiles {
            let mut msg = String::from_str("Invalid pattern: ");
            msg.append(pattern.as_str());
            return Err(msg);
        }
        let id = self.next_id;
        let mut ws: Vec<Waiter> = Vec::new();
        core::mem::swap(&mut ws, &mut self.waiters);
        ws.push(Waiter { pattern, id });
        self.next_id = id + 1;
        self.waiters = ws;
        Ok(id)
    }

    /// Resolves every pending waiter whose pattern matches `line`, all in
    /// one pass: their tickets are returned in registration order, each at
    /// most once, and the matched waiters are removed so that none can
    /// resolve a second time.  Waiters that do not match stay, in order.
    pub fn match_line(&mut self, line: &String) -> (resolved: Vec<u64>)
        ensures
            final(self).pending() == remaining_of(old(self).pending(), line@),
            resolved@ == resolved_of(old(self).pending(), line@),
            forall|p: int, q: int| 0 <= p < q < resolved@.len() ==> resolved@[p] != resolved@[q],
            final(self).next_ticket() == old(self).next_ticket(),
    {
        proof {
            use_type_invariant(&*self);
        }
        let mut ws: Vec<Waiter> = Vec::new();
        core::mem::swap(&mut ws, &mut self.waiters);
        let ghost all = ws@;
        let mut kept: Vec<Waiter> = Vec::new();
        let mut resolved: Vec<u64> = Vec::new();
        let mut i: usize = 0;
        proof {
            assert(all.take(0) =~= Seq::<Waiter>::empty());
            assert(resolved@ =~= resolved_of(all.take(0), line@));
            assert(kept@ =~= remaining_of(all.take(0), line@));
        }
        while i < ws.len()
            invariant
                i <= all.len(),
                ws@ == all,
                resolved@ == resolved_of(all.take(i as int), line@),
                kept@ == remaining_of(all.take(i as int), line@),
                forall|p: int, q: int|
                    0 <= p < q < resolved@.len() ==> resolved@[p] < resolved@[q],
                forall|p: int| #![trigger resolved@[p]]
                    0 <= p < resolved@.len() ==> exists|j: int|
                        0 <= j < i && resolved@[p] == #[trigger] all[j].id,
                forall|p: int, q: int| 0 <= p < q < kept@.len() ==> kept@[p].id < kept@[q].id,
                forall|p: int| #![trigger kept@[p]]
                    0 <= p < kept@.len() ==> exists|j: int|
                        0 <= j < i && kept@[p] == #[trigger] all[j],
                forall|i2: int, j2: int| 0 <= i2 < j2 < all.len() ==> all[i2].id < all[j2].id,
                forall|i2: int| 0 <= i2 < all.len() ==> #[trigger] all[i2].id < self.next_id,
                forall|i2: int|
                    0 <= i2 < all.len() ==> regex_compiles(#[trigger] all[i2].pattern@),
            decreases ws.len() - i,
        {
            let w = &ws[i];
            let is_match = pattern_matches(w.pattern.as_str(), line.as_str());
            proof {
                assert(all.take(i as int + 1).drop_last() =~= all.take(i as int));
                assert(all.take(i as int + 1).last() == all[i as int]);
            }
            if is_match {
                let ghost before = resolved@;
                resolved.push(w.id);
                proof {
                    assert forall|p: int| #![trigger resolved@[p]] 0 <= p < resolved@.len() implies exists|j: int|
                        0 <= j < i + 1 && resolved@[p] == #[trigger] all[j].id by {
                        if p < before.len() {
                            let j = choose|j: int| 0 <= j < i && before[p] == #[trigger] all[j].id;
                            assert(resolved@[p] == all[j].id);
                        } else {
                            assert(resolved@[p] == all[i as int].id);
                        }
                    }
                    assert forall|p: int, q: int|
                        0 <= p < q < resolved@.len() implies resolved@[p] < resolved@[q] by {
                        if q == resolved@.len() - 1 {
                            let j = choose|j: int| 0 <= j < i && before[p] == #[trigger] all[j].id;
                            assert(all[j].id < all[i as int].id);
                        }
                    }
                }
            } else {
                let ghost before = kept@;
                kept.push(Waiter { pattern: w.pattern.clone(), id: w.id });
                proof {
                    assert(kept@.last() == all[i as int]);
                    assert forall|p: int| #![trigger kept@[p]] 0 <= p < kept@.len() implies exists|j: int|
                        0 <= j < i + 1 && kept@[p] == #[trigger] all[j] by {
                        if p < before.len() {
                            let j = choose|j: int| 0 <= j < i && #[trigger] before[p] == all[j];
                            assert(kept@[p] == all[j]);
                        } else {
                            assert(kept@[p] == all[i as int]);
                        }
                    }
                    assert forall|p: int, q: int|
                        0 <= p < q < kept@.len() implies kept@[p].id < kept@[q].id by {
                        if q == kept@.len() - 1 {
                            let j = choose|j: int| 0 <= j < i && #[trigger] before[p] == all[j];
                            assert(all[j].id < all[i as int].id);
                        }
                    }
                }
            }
            i += 1;
        }
        proof {
            assert(all.take(all.len() as int) =~= all);
        }
        self.waiters = kept;
        proof {
            assert forall|p: int|
                0 <= p < self.waiters@.len() implies regex_compiles(
                #[trigger] self.waiters@[p].pattern@,
            ) by {
                let j = choose|j: int| 0 <= j < all.len() && #[trigger] self.waiters@[p] == all[j];
                assert(regex_compiles(all[j].pattern@));
            }
            assert forall|p: int|
                0 <= p < self.waiters@.len() implies #[trigger] self.waiters@[p].id
                < self.next_id by {
                let j = choose|j: int| 0 <= j < all.len() && #[trigger] self.waiters@[p] == all[j];
                assert(all[j].id < self.next_id);
            }
        }
        resolved
    }
}

/// The layout a script's set-layout call yields: the description must
/// parse, and the parsed tree must pass validation.
pub open spec fn spec_set_layout(v: ScriptValue) -> Result<LayoutModel, LayoutError> {
    match spec_parse_layout(v) {
        Ok(m) => match spec_validate(m) {
            Ok(u) => Ok(m),
            Err(e) => Err(e),
        },
        Err(e) => Err(e),
    }
}

/// Handles a script's set-layout call: parses the description and checks
/// that it is usable; nothing is altered on rejection.
pub fn handle_set_layout(v: &ScriptValue) -> (r: Result<LayoutElement, LayoutError>)
    ensures
        match r {
            Ok(el) => spec_set_layout(*v) == Ok::<_, LayoutError>(layout_model(el)),
            Err(e) => spec_set_layout(*v) == Err::<LayoutModel, _>(e),
        },
{
    let el = match LayoutElement::from(v) {
        Ok(el) => el,
        Err(e) => {
            return Err(e);
        },
    };
    match el.validate() {
        Ok(u) => Ok(el),
        Err(e) => Err(e),
    }
}

} // verus!
