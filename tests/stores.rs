use todo_store::api::{add, list, login, regi, remove, resolve, toggle};
use todo_store::error::ServerError;
use todo_store::ident::{fresh_id, is_taken};
use todo_store::session::SessionStore;
use todo_store::todo::{TodoList, TodoStore};
use todo_store::user::{password_digest, UserStore};

fn s(x: &str) -> String {
    x.to_string()
}

struct World {
    users: UserStore,
    sessions: SessionStore,
    todos: TodoStore,
}

fn world() -> World {
    World { users: UserStore::new(), sessions: SessionStore::new(), todos: TodoStore::new() }
}

fn logged_in(w: &mut World, name: &str) -> u128 {
    regi(&mut w.users, &mut w.todos, &s(name), &s("pw")).unwrap();
    login(&w.users, &mut w.sessions, &s(name), &s("pw")).unwrap().id
}

#[test]
fn digest_is_lowercase_hex_of_utf8() {
    assert_eq!(password_digest(&s("abc")), "616263");
    assert_eq!(password_digest(&s("Hello world!")), "48656c6c6f20776f726c6421");
    assert_eq!(password_digest(&s("")), "");
    assert_eq!(password_digest(&s("é")), "c3a9");
}

#[test]
fn fresh_id_avoids_taken_values() {
    let taken: Vec<u128> = vec![0, 1, 2, 5];
    for _ in 0..100 {
        let id = fresh_id(&taken);
        assert!(!is_taken(&taken, id));
    }
    assert!(is_taken(&taken, 5));
    assert!(!is_taken(&taken, 3));
}

#[test]
fn registration_is_unique() {
    let mut w = world();
    let u = regi(&mut w.users, &mut w.todos, &s("ann"), &s("pw")).unwrap();
    assert_eq!(u.name, "ann");
    assert_eq!(u.digest, "7077");
    for _ in 0..5 {
        let r = regi(&mut w.users, &mut w.todos, &s("ann"), &s("other"));
        assert_eq!(r.err(), Some(ServerError::UserExists));
    }
    assert_eq!(w.users.len(), 1);
    let found = w.users.find(&s("ann")).unwrap();
    assert_eq!(found.id, u.id);
    assert!(w.users.find(&s("bob")).is_none());
    assert_eq!(w.users.find_by_id(u.id).unwrap().name, "ann");
}

#[test]
fn add_fails_on_taken_name_and_keeps_store() {
    let mut users = UserStore::new();
    users.add(&s("ann"), &s("a")).unwrap();
    assert_eq!(users.add(&s("ann"), &s("b")).err(), Some(ServerError::UserExists));
    assert_eq!(users.len(), 1);
    assert!(users.find(&s("ann")).unwrap().verify_password(&s("a")));
}

#[test]
fn login_failures_look_alike() {
    let mut w = world();
    regi(&mut w.users, &mut w.todos, &s("ann"), &s("secret")).unwrap();
    let no_name = login(&w.users, &mut w.sessions, &s("nobody"), &s("secret"));
    let bad_pw = login(&w.users, &mut w.sessions, &s("ann"), &s("wrong"));
    assert_eq!(no_name.err(), Some(ServerError::UserOrPasswdIncorrect));
    assert_eq!(bad_pw.err(), Some(ServerError::UserOrPasswdIncorrect));
    assert_eq!(no_name.err().unwrap().message(), bad_pw.err().unwrap().message());
    assert_eq!(w.sessions.len(), 0);
}

#[test]
fn session_resolves_to_user_that_logged_in() {
    let mut w = world();
    let ann = regi(&mut w.users, &mut w.todos, &s("ann"), &s("pw")).unwrap();
    let bob = regi(&mut w.users, &mut w.todos, &s("bob"), &s("pw2")).unwrap();
    let sa = login(&w.users, &mut w.sessions, &s("ann"), &s("pw")).unwrap();
    let sb = login(&w.users, &mut w.sessions, &s("bob"), &s("pw2")).unwrap();
    let sa2 = login(&w.users, &mut w.sessions, &s("ann"), &s("pw")).unwrap();
    assert_ne!(sa.id, sa2.id);
    assert_eq!(w.sessions.find(sa.id).unwrap(), sa);
    assert_eq!(resolve(&w.sessions, &w.users, sa.id), Ok(ann.id));
    assert_eq!(resolve(&w.sessions, &w.users, sb.id), Ok(bob.id));
    assert_eq!(resolve(&w.sessions, &w.users, sa2.id), Ok(ann.id));
    assert_eq!(w.sessions.len(), 3);
}

#[test]
fn unknown_session_is_invalid() {
    let mut w = world();
    let sid = logged_in(&mut w, "ann");
    let other = sid.wrapping_add(1);
    assert_eq!(w.sessions.find(other).err(), Some(ServerError::InvalidSession));
    assert_eq!(list(&w.sessions, &w.users, &w.todos, other).err(), Some(ServerError::InvalidSession));
    assert_eq!(add(&w.sessions, &w.users, &mut w.todos, other, &s("x")).err(), Some(ServerError::InvalidSession));
    assert_eq!(toggle(&w.sessions, &w.users, &mut w.todos, other, 1, true), Err(ServerError::InvalidSession));
    assert_eq!(remove(&w.sessions, &w.users, &mut w.todos, other, 1), Err(ServerError::InvalidSession));
}

#[test]
fn session_of_missing_user_is_internal_error() {
    let users = UserStore::new();
    let mut sessions = SessionStore::new();
    let todos = TodoStore::new();
    let sess = sessions.add(42);
    assert_eq!(resolve(&sessions, &users, sess.id), Err(ServerError::InternalError));
    assert_eq!(list(&sessions, &users, &todos, sess.id).err(), Some(ServerError::InternalError));
}

#[test]
fn new_list_is_empty_then_holds_one_item() {
    let mut w = world();
    let sid = logged_in(&mut w, "ann");
    assert!(list(&w.sessions, &w.users, &w.todos, sid).unwrap().is_empty());
    let t = add(&w.sessions, &w.users, &mut w.todos, sid, &s("buy milk")).unwrap();
    let items = list(&w.sessions, &w.users, &w.todos, sid).unwrap();
    assert_eq!(items.len(), 1);
    assert_eq!(items[0].name, "buy milk");
    assert!(!items[0].completed);
    assert_eq!(items[0].id, t.id);
}

#[test]
fn register_user_twice_is_a_no_op() {
    let mut todos = TodoStore::new();
    assert!(todos.register_user(7));
    todos.add_todo(7, &s("keep")).unwrap();
    assert!(!todos.register_user(7));
    assert_eq!(todos.list(7).unwrap().len(), 1);
}

#[test]
fn unregistered_user_has_no_list() {
    let mut todos = TodoStore::new();
    assert_eq!(todos.list(3).err(), Some(ServerError::UserNotRegistered));
    assert_eq!(todos.add_todo(3, &s("x")).err(), Some(ServerError::UserNotRegistered));
    assert_eq!(todos.toggle_todo(3, 1, true), Err(ServerError::UserNotRegistered));
    assert_eq!(todos.remove_todo(3, 1), Err(ServerError::UserNotRegistered));
}

#[test]
fn toggle_changes_only_its_item() {
    let mut w = world();
    let sid = logged_in(&mut w, "ann");
    let a = add(&w.sessions, &w.users, &mut w.todos, sid, &s("A")).unwrap();
    let b = add(&w.sessions, &w.users, &mut w.todos, sid, &s("B")).unwrap();
    toggle(&w.sessions, &w.users, &mut w.todos, sid, a.id, true).unwrap();
    let items = list(&w.sessions, &w.users, &w.todos, sid).unwrap();
    assert_eq!((items[0].id, items[0].completed), (a.id, true));
    assert_eq!((items[1].id, items[1].completed), (b.id, false));
    toggle(&w.sessions, &w.users, &mut w.todos, sid, a.id, true).unwrap();
    toggle(&w.sessions, &w.users, &mut w.todos, sid, b.id, true).unwrap();
    toggle(&w.sessions, &w.users, &mut w.todos, sid, a.id, false).unwrap();
    let items = list(&w.sessions, &w.users, &w.todos, sid).unwrap();
    assert_eq!((items[0].id, items[0].completed), (a.id, false));
    assert_eq!((items[1].id, items[1].completed), (b.id, true));
    let missing = a.id ^ b.id ^ 1;
    if missing != a.id && missing != b.id {
        assert_eq!(toggle(&w.sessions, &w.users, &mut w.todos, sid, missing, true), Err(ServerError::NotFound));
    }
}

#[test]
fn remove_keeps_order_and_reports_missing() {
    let mut w = world();
    let sid = logged_in(&mut w, "ann");
    let a = add(&w.sessions, &w.users, &mut w.todos, sid, &s("A")).unwrap();
    let b = add(&w.sessions, &w.users, &mut w.todos, sid, &s("B")).unwrap();
    let c = add(&w.sessions, &w.users, &mut w.todos, sid, &s("C")).unwrap();
    remove(&w.sessions, &w.users, &mut w.todos, sid, b.id).unwrap();
    let names: Vec<String> = list(&w.sessions, &w.users, &w.todos, sid).unwrap().into_iter().map(|t| t.name).collect();
    assert_eq!(names, vec![s("A"), s("C")]);
    assert_eq!(remove(&w.sessions, &w.users, &mut w.todos, sid, b.id), Err(ServerError::NotFound));
    let items = list(&w.sessions, &w.users, &w.todos, sid).unwrap();
    assert_eq!(items.len(), 2);
    assert_eq!((items[0].id, items[1].id), (a.id, c.id));
}

#[test]
fn many_adds_keep_every_item() {
    let mut w = world();
    let sid = logged_in(&mut w, "ann");
    let n = 50;
    for k in 0..n {
        add(&w.sessions, &w.users, &mut w.todos, sid, &format!("item {}", k)).unwrap();
    }
    let items = list(&w.sessions, &w.users, &w.todos, sid).unwrap();
    assert_eq!(items.len(), n);
    for k in 0..n {
        assert_eq!(items[k].name, format!("item {}", k));
        for j in 0..k {
            assert_ne!(items[j].id, items[k].id);
        }
    }
}

#[test]
fn lists_are_per_user() {
    let mut w = world();
    let sa = logged_in(&mut w, "ann");
    let sb = logged_in(&mut w, "bob");
    let a = add(&w.sessions, &w.users, &mut w.todos, sa, &s("mine")).unwrap();
    assert!(list(&w.sessions, &w.users, &w.todos, sb).unwrap().is_empty());
    assert_eq!(remove(&w.sessions, &w.users, &mut w.todos, sb, a.id), Err(ServerError::NotFound));
    assert_eq!(list(&w.sessions, &w.users, &w.todos, sa).unwrap().len(), 1);
}

#[test]
fn snapshots_reload_to_equal_stores() {
    let mut w = world();
    let sid = logged_in(&mut w, "ann");
    logged_in(&mut w, "bob");
    add(&w.sessions, &w.users, &mut w.todos, sid, &s("A")).unwrap();
    let b = add(&w.sessions, &w.users, &mut w.todos, sid, &s("B")).unwrap();
    toggle(&w.sessions, &w.users, &mut w.todos, sid, b.id, true).unwrap();

    let users = UserStore::from_snapshot(w.users.snapshot()).unwrap();
    let sessions = SessionStore::from_snapshot(w.sessions.snapshot()).unwrap();
    let todos = TodoStore::from_snapshot(w.todos.snapshot()).unwrap();

    let before: Vec<(u128, String, String)> = w.users.snapshot().into_iter().map(|u| (u.id, u.name, u.digest)).collect();
    let after: Vec<(u128, String, String)> = users.snapshot().into_iter().map(|u| (u.id, u.name, u.digest)).collect();
    assert_eq!(before, after);
    assert_eq!(w.sessions.snapshot(), sessions.snapshot());
    let old_items: Vec<(u128, String, bool)> = list(&w.sessions, &w.users, &w.todos, sid).unwrap().into_iter().map(|t| (t.id, t.name, t.completed)).collect();
    let new_items: Vec<(u128, String, bool)> = list(&sessions, &users, &todos, sid).unwrap().into_iter().map(|t| (t.id, t.name, t.completed)).collect();
    assert_eq!(old_items, new_items);
    assert_eq!(new_items[1], (b.id, s("B"), true));
    assert!(login(&users, &mut SessionStore::new(), &s("ann"), &s("pw")).is_ok());
}

#[test]
fn loading_rejects_duplicates() {
    let mut users = UserStore::new();
    let u = users.add(&s("ann"), &s("pw")).unwrap();
    let mut dup = users.snapshot();
    dup.push(u.clone());
    assert!(UserStore::from_snapshot(dup).is_none());

    let mut sessions = SessionStore::new();
    let sess = sessions.add(1);
    let mut dup = sessions.snapshot();
    dup.push(sess);
    assert!(SessionStore::from_snapshot(dup).is_none());

    let two_lists = vec![TodoList { user_id: 1, items: Vec::new() }, TodoList { user_id: 1, items: Vec::new() }];
    assert!(TodoStore::from_snapshot(two_lists).is_none());
    let mut todos = TodoStore::new();
    todos.register_user(1);
    let t = todos.add_todo(1, &s("x")).unwrap();
    let mut lists = todos.snapshot();
    lists[0].items.push(t.clone());
    assert!(TodoStore::from_snapshot(lists).is_none());
    assert!(TodoStore::from_snapshot(todos.snapshot()).is_some());
}
