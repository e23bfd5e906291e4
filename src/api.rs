//! The operations that serve requests. Each resolves what it is given against
//! the stores and reports failure as a `ServerError`.
use vstd::prelude::*;
use crate::error::ServerError;
use crate::session::{has_session, session_of, Session, SessionStore};
use crate::todo::{has_item, set_completed, without_item, TodoItem, TodoStore, TodoView, items_view};
use crate::user::{digest_of, has_id, has_name, user_named, User, UserStore, UserView};

verus! {

/// The user that session `sid` stands for: `InvalidSession` where there is no
/// such session, `InternalError` where its user is not in `users`.
pub open spec fn resolve_spec(sessions: Seq<Session>, users: Seq<UserView>, sid: u128) -> Result<
    u128,
    ServerError,
> {
    if !has_session(sessions, sid) {
        Err(ServerError::InvalidSession)
    } else if !has_id(users, session_of(sessions, sid).user_id) {
        Err(ServerError::InternalError)
    } else {
        Ok(session_of(sessions, sid).user_id)
    }
}

/// Every registered user has a todo list.
pub open spec fn every_user_has_list(users: Seq<UserView>, todos: Map<u128, Seq<TodoView>>) -> bool {
    forall|i: int| 0 <= i < users.len() ==> todos.contains_key(#[trigger] users[i].id)
}

/// Whether logging in as `name` with `password` is owed success.
pub open spec fn credentials_match(users: Seq<UserView>, name: Seq<char>, password: Seq<char>) -> bool {
    has_name(users, name) && user_named(users, name).digest == digest_of(password)
}

/// Resolves the session `session_id` to the identifier of its user.
pub fn resolve(sessions: &SessionStore, users: &UserStore, session_id: u128) -> (r: Result<
    u128,
    ServerError,
>)
    requires
        sessions.wf(),
        users.wf(),
    ensures
        r == resolve_spec(sessions@, users@, session_id),
{
    let session = match sessions.find(session_id) {
        Ok(s) => s,
        Err(e) => return Err(e),
    };
    match users.find_by_id(session.user_id) {
        Some(_) => Ok(session.user_id),
        None => Err(ServerError::InternalError),
    }
}

/// Registers a user and gives it an empty todo list. Fails with `UserExists`,
/// changing neither store, where the name is taken.
pub fn regi(users: &mut UserStore, todos: &mut TodoStore, name: &String, password: &String) -> (r:
    Result<User, ServerError>)
    requires
        old(users).wf(),
        old(todos).wf(),
    ensures
        final(users).wf(),
        final(todos).wf(),
        every_user_has_list(old(users)@, old(todos)@) ==> every_user_has_list(
            final(users)@,
            final(todos)@,
        ),
        has_name(old(users)@, name@) ==> r == Err::<User, ServerError>(ServerError::UserExists)
            && final(users)@ == old(users)@ && final(todos)@ == old(todos)@,
        !has_name(old(users)@, name@) ==> (r matches Ok(u) && u@.name == name@ && u@.digest
            == digest_of(password@) && !has_id(old(users)@, u@.id) && final(users)@ == old(users)@.push(u@) && (!old(todos)@.contains_key(u.id) ==> final(todos)@ == old(todos)@.insert(
            u.id,
            Seq::<TodoView>::empty(),
        )) && (old(todos)@.contains_key(u.id) ==> final(todos)@ == old(todos)@)),
{
    let user = match users.add(name, password) {
        Ok(u) => u,
        Err(e) => return Err(e),
    };
    todos.register_user(user.id);
    proof {
        if every_user_has_list(old(users)@, old(todos)@) {
            let nu = users@.len() - 1;
            assert(users@[nu] == user@);
            assert forall|i: int| 0 <= i < users@.len() implies todos@.contains_key(
                #[trigger] users@[i].id,
            ) by {
                if i < nu {
                    assert(users@[i] == old(users)@[i]);
                    assert(old(todos)@.contains_key(old(users)@[i].id));
                }
            }
        }
    }
    Ok(user)
}

/// Opens a session for the user named `name` where `password` is that user's.
/// A missing name and a wrong password fail alike, with
/// `UserOrPasswdIncorrect`, and open nothing.
pub fn login(users: &UserStore, sessions: &mut SessionStore, name: &String, password: &String) -> (r:
    Result<Session, ServerError>)
    requires
        users.wf(),
        old(sessions).wf(),
    ensures
        final(sessions).wf(),
        !credentials_match(users@, name@, password@) ==> r == Err::<Session, ServerError>(
            ServerError::UserOrPasswdIncorrect,
        ) && final(sessions)@ == old(sessions)@,
        credentials_match(users@, name@, password@) ==> (r matches Ok(s) && s.user_id
            == user_named(users@, name@).id && !has_session(old(sessions)@, s.id) && final(sessions)@ == old(sessions)@.push(s)),
{
    let user = match users.find(name) {
        Some(u) => u,
        None => return Err(ServerError::UserOrPasswdIncorrect),
    };
    if !user.verify_password(password) {
        return Err(ServerError::UserOrPasswdIncorrect);
    }
    Ok(sessions.add(user.id))
}

/// The todo list of the user of session `session_id`, in order.
pub fn list(sessions: &SessionStore, users: &UserStore, todos: &TodoStore, session_id: u128) -> (r:
    Result<Vec<TodoItem>, ServerError>)
    requires
        sessions.wf(),
        users.wf(),
        todos.wf(),
    ensures
        resolve_spec(sessions@, users@, session_id) matches Err(e) ==> r == Err::<
            Vec<TodoItem>,
            ServerError,
        >(e),
        resolve_spec(sessions@, users@, session_id) matches Ok(u) ==> (if todos@.contains_key(u) {
            r matches Ok(v) && items_view(v@) == todos@[u]
        } else {
            r == Err::<Vec<TodoItem>, ServerError>(ServerError::UserNotRegistered)
        }),
{
    let user = match resolve(sessions, users, session_id) {
        Ok(u) => u,
        Err(e) => return Err(e),
    };
    todos.list(user)
}

/// Appends an item named `todo_name` to the list of the user of session
/// `session_id`.
pub fn add(
    sessions: &SessionStore,
    users: &UserStore,
    todos: &mut TodoStore,
    session_id: u128,
    todo_name: &String,
) -> (r: Result<TodoItem, ServerError>)
    requires
        sessions.wf(),
        users.wf(),
        old(todos).wf(),
    ensures
        final(todos).wf(),
        r is Err ==> final(todos)@ == old(todos)@,
        resolve_spec(sessions@, users@, session_id) matches Err(e) ==> r == Err::<
            TodoItem,
            ServerError,
        >(e),
        resolve_spec(sessions@, users@, session_id) matches Ok(u) ==> (if old(todos)@.contains_key(u) {
            r matches Ok(t) && t@.name == todo_name@ && !t@.completed && !has_item(
                old(todos)@[u],
                t@.id,
            ) && final(todos)@ == old(todos)@.insert(u, old(todos)@[u].push(t@))
        } else {
            r == Err::<TodoItem, ServerError>(ServerError::UserNotRegistered)
        }),
{
    let user = match resolve(sessions, users, session_id) {
        Ok(u) => u,
        Err(e) => return Err(e),
    };
    todos.add_todo(user, todo_name)
}

/// Sets the completed flag of item `todo_id` of the user of session
/// `session_id`.
pub fn toggle(
    sessions: &SessionStore,
    users: &UserStore,
    todos: &mut TodoStore,
    session_id: u128,
    todo_id: u128,
    completed: bool,
) -> (r: Result<(), ServerError>)
    requires
        sessions.wf(),
        users.wf(),
        old(todos).wf(),
    ensures
        final(todos).wf(),
        r is Err ==> final(todos)@ == old(todos)@,
        resolve_spec(sessions@, users@, session_id) matches Err(e) ==> r == Err::<(), ServerError>(
            e,
        ),
        resolve_spec(sessions@, users@, session_id) matches Ok(u) ==> (if !old(todos)@.contains_key(u) {
            r == Err::<(), ServerError>(ServerError::UserNotRegistered)
        } else if !has_item(old(todos)@[u], todo_id) {
            r == Err::<(), ServerError>(ServerError::NotFound)
        } else {
            r is Ok && final(todos)@ == old(todos)@.insert(
                u,
                set_completed(old(todos)@[u], todo_id, completed),
            )
        }),
{
    let user = match resolve(sessions, users, session_id) {
        Ok(u) => u,
        Err(e) => return Err(e),
    };
    todos.toggle_todo(user, todo_id, completed)
}

/// Removes item `todo_id` from the list of the user of session `session_id`.
pub fn remove(
    sessions: &SessionStore,
    users: &UserStore,
    todos: &mut TodoStore,
    session_id: u128,
    todo_id: u128,
) -> (r: Result<(), ServerError>)
    requires
        sessions.wf(),
        users.wf(),
        old(todos).wf(),
    ensures
        final(todos).wf(),
        r is Err ==> final(todos)@ == old(todos)@,
        resolve_spec(sessions@, users@, session_id) matches Err(e) ==> r == Err::<(), ServerError>(
            e,
        ),
        resolve_spec(sessions@, users@, session_id) matches Ok(u) ==> (if !old(todos)@.contains_key(u) {
            r == Err::<(), ServerError>(ServerError::UserNotRegistered)
        } else if !has_item(old(todos)@[u], todo_id) {
            r == Err::<(), ServerError>(ServerError::NotFound)
        } else {
            r is Ok && final(todos)@ == old(todos)@.insert(u, without_item(old(todos)@[u], todo_id))
        }),
{
    let user = match resolve(sessions, users, session_id) {
        Ok(u) => u,
        Err(e) => return Err(e),
    };
    todos.remove_todo(user, todo_id)
}

} // verus!
