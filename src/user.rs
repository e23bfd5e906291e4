//! The user store: every registered user, with a unique name and a unique
//! identifier, and the digest of the user's password.
use vstd::prelude::*;
use vstd::utf8::encode_utf8;
use crate::error::ServerError;
use crate::ident::fresh_id;

verus! {

/// The lowercase hexadecimal digit of `n` (below 16).
pub open spec fn hex_char(n: u8) -> char {
    if n < 10 {
        (n + 48) as char
    } else {
        (n + 87) as char
    }
}

/// Two lowercase hexadecimal digits per byte, the high half first.
pub open spec fn hex_of(b: Seq<u8>) -> Seq<char> {
    Seq::new(
        2 * b.len(),
        |i: int|
            if i % 2 == 0 {
                hex_char(b[i / 2] >> 4)
            } else {
                hex_char(b[i / 2] & 15)
            },
    )
}

/// The digest stored for a password: its UTF-8 bytes in hexadecimal.
pub open spec fn digest_of(password: Seq<char>) -> Seq<char> {
    hex_of(encode_utf8(password))
}

/// Relies on hex::encode: two lowercase digits per byte, the high half first.
#[verifier::external_body]
fn hex_encode(b: &[u8]) -> (r: String)
    ensures
        r@ == hex_of(b@),
{
    hex::encode(b)
}

/// The digest of `password`.
pub fn password_digest(password: &String) -> (r: String)
    ensures
        r@ == digest_of(password@),
{
    hex_encode(password.as_str().as_bytes())
}

/// A registered user.
pub struct User {
    pub id: u128,
    pub name: String,
    pub digest: String,
}

/// What a user is, as mathematical values.
pub ghost struct UserView {
    pub id: u128,
    pub name: Seq<char>,
    pub digest: Seq<char>,
}

impl View for User {
    type V = UserView;

    open spec fn view(&self) -> UserView {
        UserView { id: self.id, name: self.name@, digest: self.digest@ }
    }
}

impl Clone for User {
    fn clone(&self) -> (r: User)
        ensures
            r@ == self@,
    {
        User { id: self.id, name: self.name.clone(), digest: self.digest.clone() }
    }
}

impl User {
    /// Whether `password` is the one this user registered with.
    pub fn verify_password(&self, password: &String) -> (r: bool)
        ensures
            r == (self.digest@ == digest_of(password@)),
    {
        let d = password_digest(password);
        self.digest == d
    }
}

/// The views of a sequence of users.
pub open spec fn users_view(v: Seq<User>) -> Seq<UserView> {
    v.map_values(|u: User| u@)
}

/// No two users share a name, and no two share an identifier.
pub open spec fn valid_users(s: Seq<UserView>) -> bool {
    forall|i: int, j: int|
        0 <= i < s.len() && 0 <= j < s.len() && i != j ==> s[i].name != s[j].name && s[i].id
            != s[j].id
}

/// Whether some user in `s` has the name `name`.
pub open spec fn has_name(s: Seq<UserView>, name: Seq<char>) -> bool {
    exists|i: int| 0 <= i < s.len() && s[i].name == name
}

/// Whether some user in `s` has the identifier `id`.
pub open spec fn has_id(s: Seq<UserView>, id: u128) -> bool {
    exists|i: int| 0 <= i < s.len() && s[i].id == id
}

/// The user of `s` named `name` (meaningful where `has_name(s, name)`).
pub open spec fn user_named(s: Seq<UserView>, name: Seq<char>) -> UserView {
    s[choose|i: int| 0 <= i < s.len() && s[i].name == name]
}

/// The user of `s` whose identifier is `id` (meaningful where `has_id(s, id)`).
pub open spec fn user_with_id(s: Seq<UserView>, id: u128) -> UserView {
    s[choose|i: int| 0 <= i < s.len() && s[i].id == id]
}

/// Every registered user, in the order of registration.
pub struct UserStore {
    users: Vec<User>,
}

impl View for UserStore {
    type V = Seq<UserView>;

    closed spec fn view(&self) -> Seq<UserView> {
        users_view(self.users@)
    }
}

impl UserStore {
    pub open spec fn wf(&self) -> bool {
        valid_users(self@)
    }

    /// A store with no users.
    pub fn new() -> (r: UserStore)
        ensures
            r.wf(),
            r@ == Seq::<UserView>::empty(),
    {
        UserStore { users: Vec::new() }
    }

    /// The number of users.
    pub fn len(&self) -> (r: usize)
        ensures
            r == self@.len(),
    {
        self.users.len()
    }

    /// The user named `name`, if there is one.
    pub fn find(&self, name: &String) -> (r: Option<User>)
        requires
            self.wf(),
        ensures
            r is Some <==> has_name(self@, name@),
            r matches Some(u) ==> u@ == user_named(self@, name@),
    {
        let mut i: usize = 0;
        while i < self.users.len()
            invariant
                0 <= i <= self@.len(),
                self@.len() == self.users@.len(),
                self.wf(),
                forall|j: int| 0 <= j < i ==> self@[j].name != name@,
            decreases self@.len() - i,
        {
            if self.users[i].name == *name {
                let u = self.users[i].clone();
                assert(self@[i as int] == u@);
                let ghost c = choose|c: int| 0 <= c < self@.len() && self@[c].name == name@;
                assert(self@[c].name == name@);
                assert(c == i as int) by {
                    if c != i as int {
                        assert(self@[c].name != self@[i as int].name);
                    }
                }
                return Some(u);
            }
            i = i + 1;
        }
        None
    }

    /// The user whose identifier is `id`, if there is one.
    pub fn find_by_id(&self, id: u128) -> (r: Option<User>)
        requires
            self.wf(),
        ensures
            r is Some <==> has_id(self@, id),
            r matches Some(u) ==> u@ == user_with_id(self@, id),
    {
        let mut i: usize = 0;
        while i < self.users.len()
            invariant
                0 <= i <= self@.len(),
                self@.len() == self.users@.len(),
                self.wf(),
                forall|j: int| 0 <= j < i ==> self@[j].id != id,
            decreases self@.len() - i,
        {
            if self.users[i].id == id {
                let u = self.users[i].clone();
                assert(self@[i as int] == u@);
                let ghost c = choose|c: int| 0 <= c < self@.len() && self@[c].id == id;
                assert(self@[c].id == id);
                assert(c == i as int) by {
                    if c != i as int {
                        assert(self@[c].id != self@[i as int].id);
                    }
                }
                return Some(u);
            }
            i = i + 1;
        }
        None
    }

    /// The identifiers of all users.
    fn ids(&self) -> (r: Vec<u128>)
        ensures
            r@.len() == self@.len(),
            forall|i: int| 0 <= i < r@.len() ==> r@[i] == self@[i].id,
    {
        let mut r: Vec<u128> = Vec::new();
        let mut i: usize = 0;
        while i < self.users.len()
            invariant
                0 <= i <= self@.len(),
                self@.len() == self.users@.len(),
                r@.len() == i,
                forall|j: int| 0 <= j < i ==> r@[j] == self@[j].id,
            decreases self@.len() - i,
        {
            r.push(self.users[i].id);
            i = i + 1;
        }
        r
    }

    /// Registers `name` with `password`, in one step: fails with `UserExists`,
    /// changing nothing, where the name is taken; else appends a user with a
    /// fresh identifier and the digest of the password.
    pub fn add(&mut self, name: &String, password: &String) -> (r: Result<User, ServerError>)
        requires
            old(self).wf(),
        ensures
            final(self).wf(),
            has_name(old(self)@, name@) ==> r == Err::<User, ServerError>(
                ServerError::UserExists,
            ) && final(self)@ == old(self)@,
            !has_name(old(self)@, name@) ==> (r matches Ok(u) && u@.name == name@ && u@.digest
                == digest_of(password@) && !has_id(old(self)@, u@.id) && final(self)@ == old(
                self,
            )@.push(u@)),
    {
        if self.find(name).is_some() {
            return Err(ServerError::UserExists);
        }
        let taken = self.ids();
        let id = fresh_id(&taken);
        proof {
            if has_id(self@, id) {
                let i = choose|i: int| 0 <= i < self@.len() && self@[i].id == id;
                assert(taken@[i] == id);
            }
        }
        let user = User { id, name: name.clone(), digest: password_digest(password) };
        let stored = user.clone();
        self.users.push(stored);
        assert(self@ =~= old(self)@.push(user@));
        Ok(user)
    }

    /// A copy of every user, in order, for saving.
    pub fn snapshot(&self) -> (r: Vec<User>)
        ensures
            users_view(r@) == self@,
    {
        let mut r: Vec<User> = Vec::new();
        let mut i: usize = 0;
        while i < self.users.len()
            invariant
                0 <= i <= self@.len(),
                self@.len() == self.users@.len(),
                r@.len() == i,
                users_view(r@) == self@.subrange(0, i as int),
            decreases self@.len() - i,
        {
            let c = self.users[i].clone();
            r.push(c);
            assert(users_view(r@) =~= self@.subrange(0, i + 1)) by {
                assert(users_view(r@)[i as int] == c@);
                assert(self@[i as int] == self.users@[i as int]@);
            }
            i = i + 1;
        }
        assert(self@.subrange(0, self@.len() as int) =~= self@);
        r
    }

    /// A store holding `users`, as loaded from storage: `None` where two of
    /// them share a name or an identifier.
    pub fn from_snapshot(users: Vec<User>) -> (r: Option<UserStore>)
        ensures
            r is Some <==> valid_users(users_view(users@)),
            r matches Some(s) ==> s.wf() && s@ == users_view(users@),
    {
        let mut i: usize = 0;
        while i < users.len()
            invariant
                0 <= i <= users@.len(),
                forall|a: int, b: int|
                    0 <= a < i && 0 <= b < users@.len() && a != b ==> users@[a].name@
                        != users@[b].name@ && users@[a].id != users@[b].id,
            decreases users@.len() - i,
        {
            let mut j: usize = 0;
            while j < users.len()
                invariant
                    0 <= i < users@.len(),
                    0 <= j <= users@.len(),
                    forall|b: int|
                        0 <= b < j && b != i ==> users@[i as int].name@ != users@[b].name@
                            && users@[i as int].id != users@[b].id,
                decreases users@.len() - j,
            {
                if j != i && (users[i].name == users[j].name || users[i].id == users[j].id) {
                    let ghost v = users_view(users@);
                    assert(v[i as int] == users@[i as int]@ && v[j as int] == users@[j as int]@);
                    assert(!valid_users(v));
                    return None;
                }
                j = j + 1;
            }
            i = i + 1;
        }
        Some(UserStore { users })
    }
}

} // verus!
