//! The session store: one entry per successful login, naming the user that
//! logged in by identifier. Sessions are never removed.
use vstd::prelude::*;
use crate::error::ServerError;
use crate::ident::fresh_id;

verus! {

/// A login session: its own identifier and that of the user it belongs to.
#[derive(Debug, Clone, Copy, PartialEq, Eq, Structural)]
pub struct Session {
    pub id: u128,
    pub user_id: u128,
}

/// No two sessions share an identifier.
pub open spec fn valid_sessions(s: Seq<Session>) -> bool {
    forall|i: int, j: int| 0 <= i < s.len() && 0 <= j < s.len() && i != j ==> s[i].id != s[j].id
}

/// Whether some session in `s` has the identifier `id`.
pub open spec fn has_session(s: Seq<Session>, id: u128) -> bool {
    exists|i: int| 0 <= i < s.len() && s[i].id == id
}

/// The session of `s` whose identifier is `id` (meaningful where
/// `has_session(s, id)`).
pub open spec fn session_of(s: Seq<Session>, id: u128) -> Session {
    s[choose|i: int| 0 <= i < s.len() && s[i].id == id]
}

/// Every session, in the order of creation.
pub struct SessionStore {
    sessions: Vec<Session>,
}

impl View for SessionStore {
    type V = Seq<Session>;

    closed spec fn view(&self) -> Seq<Session> {
        self.sessions@
    }
}

impl SessionStore {
    pub open spec fn wf(&self) -> bool {
        valid_sessions(self@)
    }

    /// A store with no sessions.
    pub fn new() -> (r: SessionStore)
        ensures
            r.wf(),
            r@ == Seq::<Session>::empty(),
    {
        SessionStore { sessions: Vec::new() }
    }

    /// The number of sessions.
    pub fn len(&self) -> (r: usize)
        ensures
            r == self@.len(),
    {
        self.sessions.len()
    }

    /// Opens a session for the user `user_id` under a fresh identifier.
    pub fn add(&mut self, user_id: u128) -> (r: Session)
        requires
            old(self).wf(),
        ensures
            final(self).wf(),
            r.user_id == user_id,
            !has_session(old(self)@, r.id),
            final(self)@ == old(self)@.push(r),
    {
        let mut taken: Vec<u128> = Vec::new();
        let mut i: usize = 0;
        while i < self.sessions.len()
            invariant
                0 <= i <= self@.len(),
                self@ == self.sessions@,
                taken@.len() == i,
                forall|j: int| 0 <= j < i ==> taken@[j] == self@[j].id,
            decreases self@.len() - i,
        {
            taken.push(self.sessions[i].id);
            i = i + 1;
        }
        let id = fresh_id(&taken);
        proof {
            if has_session(self@, id) {
                let k = choose|k: int| 0 <= k < self@.len() && self@[k].id == id;
                assert(taken@[k] == id);
            }
        }
        let s = Session { id, user_id };
        self.sessions.push(s);
        s
    }

    /// The session whose identifier is `id`; `InvalidSession` where there is none.
    pub fn find(&self, id: u128) -> (r: Result<Session, ServerError>)
        requires
            self.wf(),
        ensures
            r is Err <==> !has_session(self@, id),
            r matches Err(e) ==> e == ServerError::InvalidSession,
            r matches Ok(s) ==> s == session_of(self@, id),
    {
        let mut i: usize = 0;
        while i < self.sessions.len()
            invariant
                0 <= i <= self@.len(),
                self@ == self.sessions@,
                self.wf(),
                forall|j: int| 0 <= j < i ==> self@[j].id != id,
            decreases self@.len() - i,
        {
            if self.sessions[i].id == id {
                let s = self.sessions[i];
                assert(self@[i as int] == s);
                let ghost c = choose|c: int| 0 <= c < self@.len() && self@[c].id == id;
                assert(self@[c].id == id);
                assert(c == i as int) by {
                    if c != i as int {
                        assert(self@[c].id != self@[i as int].id);
                    }
                }
                return Ok(s);
            }
            i = i + 1;
        }
        Err(ServerError::InvalidSession)
    }

    /// A copy of every session, in order, for saving.
    pub fn snapshot(&self) -> (r: Vec<Session>)
        ensures
            r@ == self@,
    {
        self.sessions.clone()
    }

    /// A store holding `sessions`, as loaded from storage: `None` where two of
    /// them share an identifier.
    pub fn from_snapshot(sessions: Vec<Session>) -> (r: Option<SessionStore>)
        ensures
            r is Some <==> valid_sessions(sessions@),
            r matches Some(s) ==> s.wf() && s@ == sessions@,
    {
        let mut i: usize = 0;
        while i < sessions.len()
            invariant
                0 <= i <= sessions@.len(),
                forall|a: int, b: int|
                    0 <= a < i && 0 <= b < sessions@.len() && a != b ==> sessions@[a].id
                        != sessions@[b].id,
            decreases sessions@.len() - i,
        {
            let mut j: usize = 0;
            while j < sessions.len()
                invariant
                    0 <= i < sessions@.len(),
                    0 <= j <= sessions@.len(),
                    forall|b: int| 0 <= b < j && b != i ==> sessions@[i as int].id != sessions@[b].id,
                decreases sessions@.len() - j,
            {
                if j != i && sessions[i].id == sessions[j].id {
                    return None;
                }
                j = j + 1;
            }
            i = i + 1;
        }
        Some(SessionStore { sessions })
    }
}

} // verus!
