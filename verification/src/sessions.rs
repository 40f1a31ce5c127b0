//! The sessions of the client: each has an identifier, handed out in increasing order, and
//! the character it plays; at most one session is active, and only an open session can be.
//!
//! The operations report how the active session changed, so that the caller can tell every
//! session about it.

use vstd::prelude::*;

use crate::error::SessionError;

verus! {

/// The identifiers and characters of `entries`, a later entry replacing an earlier one of
/// the same identifier.
pub open spec fn entries_map(entries: Seq<(u32, String)>) -> Map<u32, Seq<char>>
    decreases entries.len(),
{
    if entries.len() == 0 {
        Map::empty()
    } else {
        entries_map(entries.drop_last()).insert(entries.last().0, entries.last().1@)
    }
}

/// The identifiers of `entries` increase strictly from one entry to the next.
pub open spec fn increasing_ids(entries: Seq<(u32, String)>) -> bool {
    forall|i: int, j: int| 0 <= i < j < entries.len() ==> entries[i].0 < entries[j].0
}

/// The identifiers of `entries` are exactly the keys of their map, with their characters.
pub proof fn lemma_entries_map(entries: Seq<(u32, String)>)
    requires
        increasing_ids(entries),
    ensures
        forall|id: u32|
            entries_map(entries).contains_key(id) <==> exists|i: int|
                0 <= i < entries.len() && (#[trigger] entries[i]).0 == id,
        forall|i: int|
            0 <= i < entries.len() ==> #[trigger] entries_map(entries)[entries[i].0]
                == entries[i].1@,
    decreases entries.len(),
{
    if entries.len() > 0 {
        let rest = entries.drop_last();
        assert(increasing_ids(rest)) by {
            assert forall|i: int, j: int| 0 <= i < j < rest.len() implies rest[i].0
                < rest[j].0 by {
                assert(rest[i] == entries[i] && rest[j] == entries[j]);
            }
        }
        lemma_entries_map(rest);
        assert(entries_map(entries) == entries_map(rest).insert(entries.last().0, entries.last().1@));
        assert forall|id: u32|
            entries_map(entries).contains_key(id) implies exists|i: int|
                0 <= i < entries.len() && (#[trigger] entries[i]).0 == id by {
            if id != entries.last().0 {
                assert(entries_map(rest).contains_key(id));
                let i = choose|i: int| 0 <= i < rest.len() && (#[trigger] rest[i]).0 == id;
                assert(entries[i] == rest[i]);
            } else {
                assert(entries[entries.len() - 1].0 == id);
            }
        }
        assert forall|id: u32|
            (exists|i: int| 0 <= i < entries.len() && (#[trigger] entries[i]).0 == id) implies
            entries_map(entries).contains_key(id) by {
            let i = choose|i: int| 0 <= i < entries.len() && (#[trigger] entries[i]).0 == id;
            if i < entries.len() - 1 {
                assert(rest[i] == entries[i]);
            }
        }
        assert forall|i: int| 0 <= i < entries.len() implies #[trigger] entries_map(
            entries,
        )[entries[i].0] == entries[i].1@ by {
            if i < entries.len() - 1 {
                assert(rest[i] == entries[i]);
                assert(entries[i].0 < entries[entries.len() - 1].0);
            }
        }
    }
}

/// Removing the entry at `k` removes its identifier from the map.
pub proof fn lemma_entries_map_remove(entries: Seq<(u32, String)>, k: int)
    requires
        increasing_ids(entries),
        0 <= k < entries.len(),
    ensures
        entries_map(entries.remove(k)) == entries_map(entries).remove(entries[k].0),
    decreases entries.len(),
{
    let rest = entries.drop_last();
    let last = entries.last();
    if k == entries.len() - 1 {
        assert(entries.remove(k) =~= rest);
        lemma_entries_map(rest);
        assert(!entries_map(rest).contains_key(last.0)) by {
            if entries_map(rest).contains_key(last.0) {
                let i = choose|i: int| 0 <= i < rest.len() && (#[trigger] rest[i]).0 == last.0;
                assert(entries[i] == rest[i]);
            }
        }
        assert(entries_map(rest) =~= entries_map(entries).remove(entries[k].0));
    } else {
        assert(increasing_ids(rest)) by {
            assert forall|i: int, j: int| 0 <= i < j < rest.len() implies rest[i].0
                < rest[j].0 by {
                assert(rest[i] == entries[i] && rest[j] == entries[j]);
            }
        }
        lemma_entries_map_remove(rest, k);
        assert(entries.remove(k).drop_last() =~= rest.remove(k));
        assert(entries.remove(k).last() == last);
        assert(rest[k] == entries[k]);
        assert(entries_map(entries.remove(k)) =~= entries_map(entries).remove(entries[k].0));
    }
}

/// Removing the entry at `k` keeps the identifiers increasing and below `next_id`, and keeps
/// every other identifier, such as an `active` one other than the removed entry's.
proof fn lemma_remove_keeps(entries: Seq<(u32, String)>, k: int, active: Option<u32>, next_id: u32)
    requires
        increasing_ids(entries),
        0 <= k < entries.len(),
        forall|i: int| 0 <= i < entries.len() ==> (#[trigger] entries[i]).0 < next_id,
        active matches Some(a) ==> a != entries[k].0 && exists|i: int|
            0 <= i < entries.len() && (#[trigger] entries[i]).0 == a,
    ensures
        increasing_ids(entries.remove(k)),
        forall|i: int| 0 <= i < entries.remove(k).len() ==> (#[trigger] entries.remove(k)[i]).0
            < next_id,
        active matches Some(a) ==> exists|i: int|
            0 <= i < entries.remove(k).len() && (#[trigger] entries.remove(k)[i]).0 == a,
{
    let r = entries.remove(k);
    assert forall|a: int, b: int| 0 <= a < b < r.len() implies r[a].0 < r[b].0 by {
        let a2 = if a < k { a } else { a + 1 };
        let b2 = if b < k { b } else { b + 1 };
        assert(r[a] == entries[a2]);
        assert(r[b] == entries[b2]);
    }
    assert forall|i: int| 0 <= i < r.len() implies (#[trigger] r[i]).0 < next_id by {
        let i2 = if i < k { i } else { i + 1 };
        assert(r[i] == entries[i2]);
    }
    if let Some(a) = active {
        let j = choose|j: int| 0 <= j < entries.len() && (#[trigger] entries[j]).0 == a;
        let j2 = if j < k { j } else { j - 1 };
        assert(r[j2] == entries[j]);
    }
}

/// What the registry holds: the character of each open session, the active session, and
/// the identifier the next session gets.
pub struct SessionsView {
    pub sessions: Map<u32, Seq<char>>,
    pub active: Option<u32>,
    pub next_id: u32,
}

/// A change of the active session, from one session (or none) to another (or none).
#[derive(Debug, Clone, Copy, PartialEq, Eq, Structural)]
pub struct ActiveChange {
    pub from: Option<u32>,
    pub to: Option<u32>,
}

/// The open sessions and the active one.
#[derive(Debug)]
pub struct Sessions {
    entries: Vec<(u32, String)>,
    active: Option<u32>,
    next_id: u32,
}

impl View for Sessions {
    type V = SessionsView;

    closed spec fn view(&self) -> SessionsView {
        SessionsView {
            sessions: entries_map(self.entries@),
            active: self.active,
            next_id: self.next_id,
        }
    }
}

/// The registry is consistent: every open session's identifier was handed out already, and
/// the active session, if any, is open.
pub open spec fn consistent(v: SessionsView) -> bool {
    &&& forall|id: u32| v.sessions.contains_key(id) ==> id < v.next_id
    &&& v.active matches Some(a) ==> v.sessions.contains_key(a)
}

/// The registry after a new session for `character` opened: it gets the next identifier,
/// and becomes the active session if there was none.
pub open spec fn opened(v: SessionsView, character: Seq<char>) -> SessionsView {
    SessionsView {
        sessions: v.sessions.insert(v.next_id, character),
        active: if v.active is None {
            Some(v.next_id)
        } else {
            v.active
        },
        next_id: (v.next_id + 1) as u32,
    }
}

/// The registry after session `id` closed: it is gone, and no longer active.
pub open spec fn closed(v: SessionsView, id: u32) -> SessionsView {
    SessionsView {
        sessions: v.sessions.remove(id),
        active: if v.active == Some(id) {
            None
        } else {
            v.active
        },
        next_id: v.next_id,
    }
}

/// Opening a session and then closing it leaves the same sessions open and the same one
/// active; only the next identifier has moved on.
pub proof fn lemma_open_close(v: SessionsView, character: Seq<char>)
    requires
        consistent(v),
        v.next_id < u32::MAX,
    ensures
        closed(opened(v, character), v.next_id).sessions == v.sessions,
        closed(opened(v, character), v.next_id).active == v.active,
{
    assert(!v.sessions.contains_key(v.next_id));
    assert(v.sessions.insert(v.next_id, character).remove(v.next_id) =~= v.sessions);
}

impl Sessions {
    #[verifier::type_invariant]
    spec fn well_formed(self) -> bool {
        &&& increasing_ids(self.entries@)
        &&& forall|i: int| 0 <= i < self.entries@.len() ==> (#[trigger] self.entries@[i]).0
            < self.next_id
        &&& self.active matches Some(a) ==> exists|i: int|
            0 <= i < self.entries@.len() && (#[trigger] self.entries@[i]).0 == a
    }

    /// Every registry is consistent (a proof step; it does nothing).
    fn establish_consistent(&self)
        ensures
            consistent(self@),
    {
        proof {
            use_type_invariant(self);
            lemma_entries_map(self.entries@);
            assert forall|id: u32| self@.sessions.contains_key(id) implies id < self@.next_id by {
                let i = choose|i: int|
                    0 <= i < self.entries@.len() && (#[trigger] self.entries@[i]).0 == id;
            }
        }
    }

    /// No sessions, none active; the first session gets identifier 0.
    pub fn new() -> (s: Sessions)
        ensures
            s@.sessions == Map::<u32, Seq<char>>::empty(),
            s@.active is None,
            s@.next_id == 0,
            consistent(s@),
    {
        Sessions { entries: Vec::new(), active: None, next_id: 0 }
    }

    /// The active session, which is open.
    pub fn active_session(&self) -> (r: Option<u32>)
        ensures
            r == self@.active,
            r matches Some(id) ==> self@.sessions.contains_key(id),
    {
        proof {
            use_type_invariant(self);
            lemma_entries_map(self.entries@);
        }
        self.active
    }

    /// The position of session `id` among the entries.
    fn position(&self, id: u32) -> (r: Option<usize>)
        ensures
            match r {
                Some(i) => i < self.entries@.len() && self.entries@[i as int].0 == id,
                None => forall|i: int| 0 <= i < self.entries@.len() ==> self.entries@[i].0 != id,
            },
    {
        let mut i: usize = 0;
        while i < self.entries.len()
            invariant
                i <= self.entries@.len(),
                forall|j: int| 0 <= j < i ==> self.entries@[j].0 != id,
            decreases self.entries@.len() - i,
        {
            if self.entries[i].0 == id {
                return Some(i);
            }
            i += 1;
        }
        None
    }

    /// The character of session `id`; fails when no such session is open.
    pub fn character(&self, id: u32) -> (r: Result<&String, SessionError>)
        ensures
            match r {
                Ok(c) => self@.sessions.contains_key(id) && c@ == self@.sessions[id],
                Err(e) => !self@.sessions.contains_key(id) && e == SessionError::NoSuchSession(
                    id,
                ),
            },
    {
        proof {
            use_type_invariant(self);
            lemma_entries_map(self.entries@);
        }
        match self.position(id) {
            Some(i) => Ok(&self.entries[i].1),
            None => Err(SessionError::NoSuchSession(id)),
        }
    }

    /// The open sessions in increasing order of identifier.
    pub fn ids(&self) -> (v: Vec<u32>)
        ensures
            forall|i: int, j: int| 0 <= i < j < v@.len() ==> v@[i] < v@[j],
            forall|id: u32| v@.contains(id) <==> self@.sessions.contains_key(id),
    {
        proof {
            use_type_invariant(self);
            lemma_entries_map(self.entries@);
        }
        let mut v: Vec<u32> = Vec::new();
        let mut i: usize = 0;
        while i < self.entries.len()
            invariant
                i <= self.entries@.len(),
                increasing_ids(self.entries@),
                v@.len() == i,
                forall|j: int| 0 <= j < i ==> v@[j] == (#[trigger] self.entries@[j]).0,
            decreases self.entries@.len() - i,
        {
            v.push(self.entries[i].0);
            i += 1;
        }
        proof {
            assert forall|a: int, b: int| 0 <= a < b < v@.len() implies v@[a] < v@[b] by {
                assert(v@[a] == self.entries@[a].0 && v@[b] == self.entries@[b].0);
            }
            assert forall|id: u32| v@.contains(id) implies self@.sessions.contains_key(id) by {
                let j = choose|j: int| 0 <= j < v@.len() && v@[j] == id;
                assert(self.entries@[j].0 == id);
            }
            assert forall|id: u32| self@.sessions.contains_key(id) implies v@.contains(id) by {
                let j = choose|j: int|
                    0 <= j < self.entries@.len() && (#[trigger] self.entries@[j]).0 == id;
                assert(v@[j] == id);
            }
        }
        v
    }

    /// Open a session for `character` under the next identifier, which is returned; it
    /// becomes the active session when none was. Fails, changing nothing, when every
    /// identifier has been handed out.
    pub fn new_session(&mut self, character: String) -> (r: Result<
        (u32, Option<ActiveChange>),
        SessionError,
    >)
        ensures
            consistent(final(self)@),
            r is Err <==> old(self)@.next_id == u32::MAX,
            match r {
                Ok((id, change)) => {
                    &&& id == old(self)@.next_id
                    &&& final(self)@ == opened(old(self)@, character@)
                    &&& change == if old(self)@.active is None {
                        Some(ActiveChange { from: None, to: Some(id) })
                    } else {
                        None
                    }
                },
                Err(e) => e == SessionError::IdsExhausted && final(self)@ == old(self)@,
            },
    {
        proof {
            use_type_invariant(&*self);
        }
        self.establish_consistent();
        let id = self.next_id;
        if id == u32::MAX {
            return Err(SessionError::IdsExhausted);
        }
        let mut taken = Sessions::new();
        std::mem::swap(&mut taken, self);
        proof {
            use_type_invariant(&taken);
        }
        let Sessions { mut entries, active, next_id: _ } = taken;
        let ghost before = entries@;
        entries.push((id, character));
        proof {
            assert(entries@.drop_last() =~= before);
            assert(entries@[entries@.len() - 1].0 == id);
        }
        let change = if active.is_none() {
            Some(ActiveChange { from: None, to: Some(id) })
        } else {
            None
        };
        let active = if active.is_none() {
            Some(id)
        } else {
            active
        };
        proof {
            if let Some(a) = active {
                if a != id {
                    let j = choose|j: int| 0 <= j < before.len() && (#[trigger] before[j]).0 == a;
                    assert(entries@[j] == before[j]);
                }
            }
        }
        *self = Sessions { entries, active, next_id: id + 1 };
        self.establish_consistent();
        Ok((id, change))
    }

    /// Make session `id` the active one, or none: nothing changes when it already is; fails,
    /// changing nothing, when `id` names no open session.
    pub fn set_active_session(&mut self, id: Option<u32>) -> (r: Result<
        Option<ActiveChange>,
        SessionError,
    >)
        ensures
            consistent(final(self)@),
            match r {
                Ok(None) => old(self)@.active == id && final(self)@ == old(self)@,
                Ok(Some(change)) => {
                    &&& old(self)@.active != id
                    &&& (id matches Some(n) ==> old(self)@.sessions.contains_key(n))
                    &&& change == ActiveChange { from: old(self)@.active, to: id }
                    &&& final(self)@ == SessionsView { active: id, ..old(self)@ }
                },
                Err(e) => {
                    &&& old(self)@.active != id
                    &&& id matches Some(n) && !old(self)@.sessions.contains_key(n)
                        && e == SessionError::NoSuchSession(n)
                    &&& final(self)@ == old(self)@
                },
            },
            old(self)@.active == id ==> r == Ok::<Option<ActiveChange>, SessionError>(None),
            old(self)@.active != id ==> (r is Ok <==> (id matches Some(n)
                ==> old(self)@.sessions.contains_key(n))),
    {
        proof {
            use_type_invariant(&*self);
            lemma_entries_map(self.entries@);
        }
        self.establish_consistent();
        if self.active == id {
            return Ok(None);
        }
        if let Some(n) = id {
            if self.character(n).is_err() {
                return Err(SessionError::NoSuchSession(n));
            }
        }
        let from = self.active;
        self.active = id;
        self.establish_consistent();
        Ok(Some(ActiveChange { from, to: id }))
    }

    /// Close session `id`, first making no session active if it was the active one; fails,
    /// changing nothing, when no such session is open.
    pub fn close_session(&mut self, id: u32) -> (r: Result<Option<ActiveChange>, SessionError>)
        ensures
            consistent(final(self)@),
            r is Err <==> !old(self)@.sessions.contains_key(id),
            match r {
                Ok(change) => {
                    &&& final(self)@ == closed(old(self)@, id)
                    &&& change == if old(self)@.active == Some(id) {
                        Some(ActiveChange { from: Some(id), to: None })
                    } else {
                        None
                    }
                },
                Err(e) => e == SessionError::NoSuchSession(id) && final(self)@ == old(self)@,
            },
    {
        proof {
            use_type_invariant(&*self);
            lemma_entries_map(self.entries@);
        }
        self.establish_consistent();
        let i = match self.position(id) {
            Some(i) => i,
            None => {
                return Err(SessionError::NoSuchSession(id));
            },
        };
        let mut taken = Sessions::new();
        std::mem::swap(&mut taken, self);
        proof {
            use_type_invariant(&taken);
        }
        let Sessions { mut entries, active, next_id } = taken;
        let change = if active == Some(id) {
            Some(ActiveChange { from: Some(id), to: None })
        } else {
            None
        };
        let active = if active == Some(id) {
            None
        } else {
            active
        };
        let ghost before = entries@;
        proof {
            lemma_entries_map_remove(before, i as int);
            lemma_remove_keeps(before, i as int, active, next_id);
        }
        entries.remove(i);
        let rebuilt = Sessions { entries, active, next_id };
        *self = rebuilt;
        self.establish_consistent();
        Ok(change)
    }
}

} // verus!
