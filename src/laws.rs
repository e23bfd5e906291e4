//! Properties that hold across operations and stores.
use vstd::prelude::*;
use crate::api::resolve_spec;
use crate::error::ServerError;
use crate::session::{has_session, session_of, valid_sessions, Session, SessionStore};
use crate::todo::{
    has_item, item_index, lists_view, set_completed, unique_item_ids, valid_lists,
    without_item, TodoList, TodoStore, TodoView,
};
use crate::user::{has_id, has_name, user_named, user_with_id, users_view, valid_users, User,
    UserStore, UserView};

verus! {

/// A name is registered at most once: after a user named `u.name` joins a
/// store that did not hold the name, exactly one user has it, and so any later
/// registration under that name fails with `UserExists`.
pub proof fn lemma_name_registered_once(before: Seq<UserView>, u: UserView)
    requires
        valid_users(before),
        !has_name(before, u.name),
        !has_id(before, u.id),
    ensures
        valid_users(before.push(u)),
        has_name(before.push(u), u.name),
        forall|i: int|
            0 <= i < before.len() + 1 && (#[trigger] before.push(u)[i]).name == u.name ==> i
                == before.len(),
{
    let after = before.push(u);
    assert(after[before.len() as int] == u);
    assert forall|i: int, j: int|
        0 <= i < after.len() && 0 <= j < after.len() && i != j implies after[i].name
        != after[j].name && after[i].id != after[j].id by {
        if i < before.len() && j < before.len() {
            assert(after[i] == before[i] && after[j] == before[j]);
        } else if i < before.len() {
            assert(after[i] == before[i]);
        } else {
            assert(after[j] == before[j]);
        }
    }
    assert forall|i: int|
        0 <= i < before.len() + 1 && (#[trigger] after[i]).name == u.name implies i
        == before.len() by {
        if i < before.len() {
            assert(after[i] == before[i]);
        }
    }
}

/// A session opened by login for the user named `name` resolves to that
/// user: the session is found by its identifier, and its user identifier
/// names the user that logged in.
pub proof fn lemma_session_round_trip(
    users: Seq<UserView>,
    name: Seq<char>,
    before: Seq<Session>,
    s: Session,
)
    requires
        valid_users(users),
        valid_sessions(before),
        has_name(users, name),
        s.user_id == user_named(users, name).id,
        !has_session(before, s.id),
    ensures
        valid_sessions(before.push(s)),
        session_of(before.push(s), s.id) == s,
        resolve_spec(before.push(s), users, s.id) == Ok::<u128, ServerError>(s.user_id),
        user_with_id(users, s.user_id) == user_named(users, name),
{
    let after = before.push(s);
    let last = before.len() as int;
    assert(after[last] == s);
    assert forall|i: int, j: int|
        0 <= i < after.len() && 0 <= j < after.len() && i != j implies after[i].id
        != after[j].id by {
        if i < last && j < last {
            assert(after[i] == before[i] && after[j] == before[j]);
        } else if i < last {
            assert(after[i] == before[i]);
        } else {
            assert(after[j] == before[j]);
        }
    }
    assert(has_session(after, s.id));
    let c = choose|c: int| 0 <= c < after.len() && after[c].id == s.id;
    assert(c == last);
    let n = choose|i: int| 0 <= i < users.len() && users[i].name == name;
    assert(users[n].name == name);
    assert(has_id(users, s.user_id));
    let k = choose|i: int| 0 <= i < users.len() && users[i].id == s.user_id;
    assert(users[k].id == s.user_id);
    assert(k == n);
}

/// A newly registered user's list is empty, and after one item is added the
/// list holds exactly that item, not completed.
pub proof fn lemma_new_list_then_add(
    before: Map<u128, Seq<TodoView>>,
    user: u128,
    registered: Map<u128, Seq<TodoView>>,
    added: Map<u128, Seq<TodoView>>,
    t: TodoView,
)
    requires
        registered == before.insert(user, Seq::<TodoView>::empty()),
        added == registered.insert(user, registered[user].push(t)),
        !t.completed,
    ensures
        registered.contains_key(user),
        registered[user].len() == 0,
        added[user] == seq![t],
        added[user].len() == 1,
        !added[user][0].completed,
{
    assert(added[user] =~= seq![t]);
}

/// Setting the flag of the item `id` changes no other item, and moves none.
pub proof fn lemma_toggle_isolation(s: Seq<TodoView>, id: u128, completed: bool, b: int)
    requires
        0 <= b < s.len(),
        s[b].id != id,
    ensures
        set_completed(s, id, completed).len() == s.len(),
        set_completed(s, id, completed)[b] == s[b],
{
}

/// Removing the item `id` keeps the items before it and after it, in order;
/// no item with that identifier is left.
pub proof fn lemma_remove_keeps_order(s: Seq<TodoView>, id: u128)
    requires
        unique_item_ids(s),
        has_item(s, id),
    ensures
        without_item(s, id) == s.subrange(0, item_index(s, id)) + s.subrange(
            item_index(s, id) + 1,
            s.len() as int,
        ),
        without_item(s, id).len() == s.len() - 1,
        !has_item(without_item(s, id), id),
{
    let p = item_index(s, id);
    let r = without_item(s, id);
    assert(r =~= s.subrange(0, p) + s.subrange(p + 1, s.len() as int));
    if has_item(r, id) {
        let j = choose|j: int| 0 <= j < r.len() && r[j].id == id;
        if j < p {
            assert(s[j].id == id);
        } else {
            assert(s[j + 1].id == id);
        }
    }
}

/// Successive additions to one list, in whatever order they were applied,
/// leave every added item in the list exactly once, after the items that were
/// there before: nothing is lost or duplicated.
pub proof fn lemma_adds_accumulate(states: Seq<Seq<TodoView>>, added: Seq<TodoView>)
    requires
        states.len() == added.len() + 1,
        forall|k: int| 0 <= k < added.len() ==> states[k + 1] == #[trigger] states[k].push(added[k]),
    ensures
        states[added.len() as int] == states[0] + added,
        states[added.len() as int].len() == states[0].len() + added.len(),
    decreases added.len(),
{
    if added.len() > 0 {
        let n = added.len() - 1;
        lemma_adds_accumulate(states.subrange(0, n + 1), added.subrange(0, n));
        assert(states.subrange(0, n + 1)[n] == states[n]);
        assert(states[n + 1] == states[n].push(added[n]));
        assert(states[0] + added =~= (states[0] + added.subrange(0, n)).push(added[n]));
    }
}

/// What is saved from well-formed stores loads back: the users and sessions
/// saved pass the checks that loading makes (the lists saved are valid by the
/// contract of `TodoStore::snapshot`), so each `from_snapshot` returns a store
/// whose view is that of the store saved.
pub proof fn lemma_persistence_round_trip(
    users: UserStore,
    saved_users: Seq<User>,
    sessions: SessionStore,
    saved_sessions: Seq<Session>,
    todos: TodoStore,
    saved_lists: Seq<TodoList>,
)
    requires
        users.wf(),
        sessions.wf(),
        todos.wf(),
        users_view(saved_users) == users@,
        saved_sessions == sessions@,
        valid_lists(saved_lists),
        lists_view(saved_lists) == todos@,
    ensures
        valid_users(users_view(saved_users)),
        valid_sessions(saved_sessions),
{
}

} // verus!
