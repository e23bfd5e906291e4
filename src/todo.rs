//! The todo store: for each registered user, by identifier, an ordered list
//! of todo items. Order is insertion order; toggling or removing an item
//! never moves the others.
use vstd::prelude::*;
use crate::error::ServerError;
use crate::ident::fresh_id;

verus! {

/// One entry of a todo list.
pub struct TodoItem {
    pub id: u128,
    pub name: String,
    pub completed: bool,
}

/// What a todo item is, as mathematical values.
pub ghost struct TodoView {
    pub id: u128,
    pub name: Seq<char>,
    pub completed: bool,
}

impl View for TodoItem {
    type V = TodoView;

    open spec fn view(&self) -> TodoView {
        TodoView { id: self.id, name: self.name@, completed: self.completed }
    }
}

impl Clone for TodoItem {
    fn clone(&self) -> (r: TodoItem)
        ensures
            r@ == self@,
    {
        TodoItem { id: self.id, name: self.name.clone(), completed: self.completed }
    }
}

/// The list of one user.
pub struct TodoList {
    pub user_id: u128,
    pub items: Vec<TodoItem>,
}

/// The views of a sequence of todo items.
pub open spec fn items_view(v: Seq<TodoItem>) -> Seq<TodoView> {
    v.map_values(|t: TodoItem| t@)
}

/// No two items share an identifier.
pub open spec fn unique_item_ids(s: Seq<TodoView>) -> bool {
    forall|i: int, j: int| 0 <= i < s.len() && 0 <= j < s.len() && i != j ==> s[i].id != s[j].id
}

/// Whether some item in `s` has the identifier `id`.
pub open spec fn has_item(s: Seq<TodoView>, id: u128) -> bool {
    exists|i: int| 0 <= i < s.len() && s[i].id == id
}

/// The position of the item with identifier `id` in `s`.
pub open spec fn item_index(s: Seq<TodoView>, id: u128) -> int {
    choose|i: int| 0 <= i < s.len() && s[i].id == id
}

/// `s` with the item whose identifier is `id` marked `completed`.
pub open spec fn set_completed(s: Seq<TodoView>, id: u128, completed: bool) -> Seq<TodoView> {
    s.map_values(
        |t: TodoView|
            if t.id == id {
                TodoView { completed, ..t }
            } else {
                t
            },
    )
}

/// `s` without the item whose identifier is `id`.
pub open spec fn without_item(s: Seq<TodoView>, id: u128) -> Seq<TodoView> {
    s.remove(item_index(s, id))
}

/// No two lists belong to the same user, and within each list no two items
/// share an identifier.
pub open spec fn valid_lists(l: Seq<TodoList>) -> bool {
    &&& forall|i: int, j: int|
        0 <= i < l.len() && 0 <= j < l.len() && i != j ==> l[i].user_id != l[j].user_id
    &&& forall|i: int| 0 <= i < l.len() ==> unique_item_ids(items_view(#[trigger] l[i].items@))
}

/// Whether some list in `l` belongs to `user`.
pub open spec fn has_list(l: Seq<TodoList>, user: u128) -> bool {
    exists|i: int| 0 <= i < l.len() && l[i].user_id == user
}

/// Each user's list, by user identifier.
pub open spec fn lists_view(l: Seq<TodoList>) -> Map<u128, Seq<TodoView>> {
    Map::new(
        |u: u128| has_list(l, u),
        |u: u128| items_view(l[choose|i: int| 0 <= i < l.len() && l[i].user_id == u].items@),
    )
}

/// Every user's todo list.
pub struct TodoStore {
    lists: Vec<TodoList>,
}

impl View for TodoStore {
    type V = Map<u128, Seq<TodoView>>;

    closed spec fn view(&self) -> Map<u128, Seq<TodoView>> {
        lists_view(self.lists@)
    }
}

proof fn lemma_view_at(l: Seq<TodoList>, i: int)
    requires
        valid_lists(l),
        0 <= i < l.len(),
    ensures
        lists_view(l).contains_key(l[i].user_id),
        lists_view(l)[l[i].user_id] == items_view(l[i].items@),
{
    assert(has_list(l, l[i].user_id));
}

proof fn lemma_view_update(l: Seq<TodoList>, k: int, x: TodoList)
    requires
        valid_lists(l),
        0 <= k < l.len(),
        x.user_id == l[k].user_id,
        unique_item_ids(items_view(x.items@)),
    ensures
        valid_lists(l.update(k, x)),
        lists_view(l.update(k, x)) == lists_view(l).insert(x.user_id, items_view(x.items@)),
{
    let l2 = l.update(k, x);
    assert forall|u: u128| has_list(l2, u) <==> has_list(l, u) by {
        if has_list(l, u) {
            let i = choose|i: int| 0 <= i < l.len() && l[i].user_id == u;
            assert(l2[i].user_id == u);
        }
        if has_list(l2, u) {
            let i = choose|i: int| 0 <= i < l2.len() && l2[i].user_id == u;
            assert(l[i].user_id == u);
        }
    }
    assert(valid_lists(l2));
    lemma_view_at(l2, k);
    assert forall|u: u128| #[trigger] has_list(l2, u) && u != x.user_id implies lists_view(l2)[u]
        == lists_view(l)[u] by {
        let i = choose|i: int| 0 <= i < l2.len() && l2[i].user_id == u;
        lemma_view_at(l2, i);
        lemma_view_at(l, i);
    }
    assert(lists_view(l2) =~= lists_view(l).insert(x.user_id, items_view(x.items@)));
}

proof fn lemma_view_push(l: Seq<TodoList>, x: TodoList)
    requires
        valid_lists(l),
        !has_list(l, x.user_id),
        unique_item_ids(items_view(x.items@)),
    ensures
        valid_lists(l.push(x)),
        lists_view(l.push(x)) == lists_view(l).insert(x.user_id, items_view(x.items@)),
{
    let l2 = l.push(x);
    assert forall|u: u128| has_list(l2, u) <==> (has_list(l, u) || u == x.user_id) by {
        if has_list(l, u) {
            let i = choose|i: int| 0 <= i < l.len() && l[i].user_id == u;
            assert(l2[i].user_id == u);
        }
        if u == x.user_id {
            assert(l2[l.len() as int].user_id == u);
        }
        if has_list(l2, u) && u != x.user_id {
            let i = choose|i: int| 0 <= i < l2.len() && l2[i].user_id == u;
            assert(l[i].user_id == u);
        }
    }
    assert(valid_lists(l2));
    lemma_view_at(l2, l.len() as int);
    assert forall|u: u128| #[trigger] has_list(l2, u) && u != x.user_id implies lists_view(l2)[u]
        == lists_view(l)[u] by {
        let i = choose|i: int| 0 <= i < l2.len() && l2[i].user_id == u;
        lemma_view_at(l2, i);
        lemma_view_at(l, i);
    }
    assert(lists_view(l2) =~= lists_view(l).insert(x.user_id, items_view(x.items@)));
}

/// The position of the first item of `items` whose identifier is `id`.
fn position_of(items: &Vec<TodoItem>, id: u128) -> (r: Option<usize>)
    ensures
        r is None <==> !has_item(items_view(items@), id),
        r matches Some(k) ==> k < items@.len() && items@[k as int].id == id,
{
    let mut i: usize = 0;
    while i < items.len()
        invariant
            0 <= i <= items@.len(),
            forall|j: int| 0 <= j < i ==> items@[j].id != id,
        decreases items@.len() - i,
    {
        if items[i].id == id {
            assert(items_view(items@)[i as int].id == id);
            return Some(i);
        }
        i = i + 1;
    }
    proof {
        if has_item(items_view(items@), id) {
            let j = choose|j: int| 0 <= j < items@.len() && items_view(items@)[j].id == id;
            assert(items@[j]@ == items_view(items@)[j]);
        }
    }
    None
}

/// A copy of `items`, in order.
fn copy_items(items: &Vec<TodoItem>) -> (r: Vec<TodoItem>)
    ensures
        items_view(r@) == items_view(items@),
{
    let mut r: Vec<TodoItem> = Vec::new();
    let mut i: usize = 0;
    while i < items.len()
        invariant
            0 <= i <= items@.len(),
            r@.len() == i,
            forall|j: int| 0 <= j < i ==> (#[trigger] r@[j])@ == items@[j]@,
        decreases items@.len() - i,
    {
        r.push(items[i].clone());
        i = i + 1;
    }
    assert(items_view(r@) =~= items_view(items@));
    r
}

/// Whether no two items of `items` share an identifier.
fn distinct_ids(items: &Vec<TodoItem>) -> (r: bool)
    ensures
        r == unique_item_ids(items_view(items@)),
{
    let mut i: usize = 0;
    while i < items.len()
        invariant
            0 <= i <= items@.len(),
            forall|a: int, b: int|
                0 <= a < i && 0 <= b < items@.len() && a != b ==> items@[a].id != items@[b].id,
        decreases items@.len() - i,
    {
        let mut j: usize = 0;
        while j < items.len()
            invariant
                0 <= i < items@.len(),
                0 <= j <= items@.len(),
                forall|b: int| 0 <= b < j && b != i ==> items@[i as int].id != items@[b].id,
            decreases items@.len() - j,
        {
            if j != i && items[i].id == items[j].id {
                assert(items_view(items@)[i as int].id == items_view(items@)[j as int].id);
                return false;
            }
            j = j + 1;
        }
        i = i + 1;
    }
    proof {
        assert forall|a: int, b: int|
            0 <= a < items@.len() && 0 <= b < items@.len() && a != b implies items_view(
            items@,
        )[a].id != items_view(items@)[b].id by {
            assert(items@[a].id != items@[b].id);
        }
    }
    true
}

impl TodoStore {
    pub open spec fn wf(&self) -> bool {
        &&& self.inv()
        &&& forall|u: u128| #[trigger] self@.contains_key(u) ==> unique_item_ids(self@[u])
    }

    pub closed spec fn inv(&self) -> bool {
        valid_lists(self.lists@)
    }

    proof fn lemma_wf(&self)
        requires
            self.inv(),
        ensures
            self.wf(),
    {
        assert forall|u: u128| #[trigger] self@.contains_key(u) implies unique_item_ids(
            self@[u],
        ) by {
            let i = choose|i: int| 0 <= i < self.lists@.len() && self.lists@[i].user_id == u;
            lemma_view_at(self.lists@, i);
        }
    }

    /// A store with no lists.
    pub fn new() -> (r: TodoStore)
        ensures
            r.wf(),
            r@ == Map::<u128, Seq<TodoView>>::empty(),
    {
        let r = TodoStore { lists: Vec::new() };
        assert(r@ =~= Map::<u128, Seq<TodoView>>::empty());
        proof {
            r.lemma_wf();
        }
        r
    }

    /// The position of the list of `user`.
    fn slot(&self, user: u128) -> (r: Option<usize>)
        requires
            self.inv(),
        ensures
            r is None <==> !self@.contains_key(user),
            r matches Some(k) ==> k < self.lists@.len() && self.lists@[k as int].user_id == user,
    {
        let mut i: usize = 0;
        while i < self.lists.len()
            invariant
                0 <= i <= self.lists@.len(),
                forall|j: int| 0 <= j < i ==> self.lists@[j].user_id != user,
            decreases self.lists@.len() - i,
        {
            if self.lists[i].user_id == user {
                return Some(i);
            }
            i = i + 1;
        }
        None
    }

    /// Gives `user` an empty list. Where the user has a list already, nothing
    /// changes and `false` is returned: a list is never reset or duplicated.
    pub fn register_user(&mut self, user: u128) -> (r: bool)
        requires
            old(self).wf(),
        ensures
            final(self).wf(),
            r == !old(self)@.contains_key(user),
            r ==> final(self)@ == old(self)@.insert(user, Seq::<TodoView>::empty()),
            !r ==> final(self)@ == old(self)@,
    {
        if self.slot(user).is_some() {
            return false;
        }
        let l = TodoList { user_id: user, items: Vec::new() };
        proof {
            assert(items_view(l.items@) =~= Seq::<TodoView>::empty());
            lemma_view_push(self.lists@, l);
        }
        self.lists.push(l);
        proof {
            self.lemma_wf();
        }
        true
    }

    /// Appends to the list of `user` an item named `name`, not completed,
    /// under an identifier that no item of that list has.
    pub fn add_todo(&mut self, user: u128, name: &String) -> (r: Result<TodoItem, ServerError>)
        requires
            old(self).wf(),
        ensures
            final(self).wf(),
            r is Err <==> !old(self)@.contains_key(user),
            r matches Err(e) ==> e == ServerError::UserNotRegistered && final(self)@ == old(self)@,
            r matches Ok(t) ==> t@.name == name@ && !t@.completed && !has_item(
                old(self)@[user],
                t@.id,
            ) && final(self)@ == old(self)@.insert(user, old(self)@[user].push(t@)),
    {
        let k = match self.slot(user) {
            Some(k) => k,
            None => return Err(ServerError::UserNotRegistered),
        };
        let ghost before = self.lists@;
        let mut l = self.lists.remove(k);
        let mut taken: Vec<u128> = Vec::new();
        let mut i: usize = 0;
        while i < l.items.len()
            invariant
                0 <= i <= l.items@.len(),
                taken@.len() == i,
                forall|j: int| 0 <= j < i ==> taken@[j] == l.items@[j].id,
            decreases l.items@.len() - i,
        {
            taken.push(l.items[i].id);
            i = i + 1;
        }
        let id = fresh_id(&taken);
        let item = TodoItem { id, name: name.clone(), completed: false };
        let ghost old_items = items_view(l.items@);
        proof {
            lemma_view_at(before, k as int);
            if has_item(old_items, id) {
                let j = choose|j: int| 0 <= j < old_items.len() && old_items[j].id == id;
                assert(l.items@[j]@ == old_items[j]);
                assert(taken@[j] == id);
            }
        }
        l.items.push(item.clone());
        assert(items_view(l.items@) =~= old_items.push(item@));
        proof {
            lemma_view_update(before, k as int, l);
        }
        self.lists.insert(k, l);
        assert(self.lists@ =~= before.update(k as int, l));
        proof {
            self.lemma_wf();
        }
        Ok(item)
    }

    /// Sets the completed flag of the item `id` in the list of `user`,
    /// leaving every other item as it was and where it was.
    pub fn toggle_todo(&mut self, user: u128, id: u128, completed: bool) -> (r: Result<
        (),
        ServerError,
    >)
        requires
            old(self).wf(),
        ensures
            final(self).wf(),
            !old(self)@.contains_key(user) ==> r == Err::<(), ServerError>(
                ServerError::UserNotRegistered,
            ),
            old(self)@.contains_key(user) && !has_item(old(self)@[user], id) ==> r == Err::<
                (),
                ServerError,
            >(ServerError::NotFound),
            r is Err ==> final(self)@ == old(self)@,
            old(self)@.contains_key(user) && has_item(old(self)@[user], id) ==> r is Ok
                && final(self)@ == old(self)@.insert(
                user,
                set_completed(old(self)@[user], id, completed),
            ),
    {
        let k = match self.slot(user) {
            Some(k) => k,
            None => return Err(ServerError::UserNotRegistered),
        };
        let ghost before = self.lists@;
        proof {
            lemma_view_at(before, k as int);
        }
        let p = match position_of(&self.lists[k].items, id) {
            Some(p) => p,
            None => return Err(ServerError::NotFound),
        };
        let mut l = self.lists.remove(k);
        let ghost old_items = items_view(l.items@);
        let mut it = l.items.remove(p);
        it.completed = completed;
        l.items.insert(p, it);
        proof {
            assert(valid_lists(before));
            assert(unique_item_ids(old_items));
            assert forall|j: int| 0 <= j < old_items.len() implies #[trigger] items_view(
                l.items@,
            )[j] == set_completed(old_items, id, completed)[j] by {
                if j != p {
                    assert(old_items[j].id != old_items[p as int].id);
                }
            }
            assert(items_view(l.items@) =~= set_completed(old_items, id, completed));
            assert forall|a: int, b: int|
                0 <= a < items_view(l.items@).len() && 0 <= b < items_view(l.items@).len() && a
                    != b implies items_view(l.items@)[a].id != items_view(l.items@)[b].id by {
                assert(old_items[a].id != old_items[b].id);
            }
            lemma_view_update(before, k as int, l);
        }
        self.lists.insert(k, l);
        assert(self.lists@ =~= before.update(k as int, l));
        proof {
            self.lemma_wf();
        }
        Ok(())
    }

    /// Removes the item `id` from the list of `user`; the items that stay
    /// keep their order.
    pub fn remove_todo(&mut self, user: u128, id: u128) -> (r: Result<(), ServerError>)
        requires
            old(self).wf(),
        ensures
            final(self).wf(),
            !old(self)@.contains_key(user) ==> r == Err::<(), ServerError>(
                ServerError::UserNotRegistered,
            ),
            old(self)@.contains_key(user) && !has_item(old(self)@[user], id) ==> r == Err::<
                (),
                ServerError,
            >(ServerError::NotFound),
            r is Err ==> final(self)@ == old(self)@,
            old(self)@.contains_key(user) && has_item(old(self)@[user], id) ==> r is Ok
                && final(self)@ == old(self)@.insert(user, without_item(old(self)@[user], id)),
    {
        let k = match self.slot(user) {
            Some(k) => k,
            None => return Err(ServerError::UserNotRegistered),
        };
        let ghost before = self.lists@;
        proof {
            lemma_view_at(before, k as int);
        }
        let p = match position_of(&self.lists[k].items, id) {
            Some(p) => p,
            None => return Err(ServerError::NotFound),
        };
        let mut l = self.lists.remove(k);
        let ghost old_items = items_view(l.items@);
        let _gone = l.items.remove(p);
        proof {
            assert(valid_lists(before));
            assert(unique_item_ids(old_items));
            assert(old_items[p as int].id == id);
            let q = item_index(old_items, id);
            assert(old_items[q].id == id);
            assert(q == p);
            assert(items_view(l.items@) =~= old_items.remove(p as int));
            assert forall|a: int, b: int|
                0 <= a < items_view(l.items@).len() && 0 <= b < items_view(l.items@).len() && a
                    != b implies items_view(l.items@)[a].id != items_view(l.items@)[b].id by {
                let a2 = if a < p { a } else { a + 1 };
                let b2 = if b < p { b } else { b + 1 };
                assert(old_items[a2].id != old_items[b2].id);
            }
            lemma_view_update(before, k as int, l);
        }
        self.lists.insert(k, l);
        assert(self.lists@ =~= before.update(k as int, l));
        proof {
            self.lemma_wf();
        }
        Ok(())
    }

    /// A copy of the list of `user`, in order.
    pub fn list(&self, user: u128) -> (r: Result<Vec<TodoItem>, ServerError>)
        requires
            self.wf(),
        ensures
            r is Err <==> !self@.contains_key(user),
            r matches Err(e) ==> e == ServerError::UserNotRegistered,
            r matches Ok(v) ==> items_view(v@) == self@[user],
    {
        let k = match self.slot(user) {
            Some(k) => k,
            None => return Err(ServerError::UserNotRegistered),
        };
        proof {
            lemma_view_at(self.lists@, k as int);
        }
        Ok(copy_items(&self.lists[k].items))
    }

    /// A copy of every list, for saving.
    pub fn snapshot(&self) -> (r: Vec<TodoList>)
        requires
            self.wf(),
        ensures
            valid_lists(r@),
            lists_view(r@) == self@,
    {
        let mut r: Vec<TodoList> = Vec::new();
        let mut i: usize = 0;
        while i < self.lists.len()
            invariant
                0 <= i <= self.lists@.len(),
                valid_lists(self.lists@),
                r@.len() == i,
                forall|j: int|
                    0 <= j < i ==> (#[trigger] r@[j]).user_id == self.lists@[j].user_id
                        && items_view(r@[j].items@) == items_view(self.lists@[j].items@),
            decreases self.lists@.len() - i,
        {
            let l = TodoList { user_id: self.lists[i].user_id, items: copy_items(&self.lists[i].items) };
            r.push(l);
            i = i + 1;
        }
        proof {
            assert(valid_lists(r@));
            assert forall|u: u128| has_list(r@, u) <==> has_list(self.lists@, u) by {
                if has_list(r@, u) {
                    let j = choose|j: int| 0 <= j < r@.len() && r@[j].user_id == u;
                    assert(self.lists@[j].user_id == u);
                }
                if has_list(self.lists@, u) {
                    let j = choose|j: int| 0 <= j < self.lists@.len() && self.lists@[j].user_id == u;
                    assert(r@[j].user_id == u);
                }
            }
            assert forall|u: u128| #[trigger] has_list(r@, u) implies lists_view(r@)[u]
                == lists_view(self.lists@)[u] by {
                let j = choose|j: int| 0 <= j < r@.len() && r@[j].user_id == u;
                lemma_view_at(r@, j);
                lemma_view_at(self.lists@, j);
            }
            assert(lists_view(r@) =~= lists_view(self.lists@));
        }
        r
    }

    /// A store holding `lists`, as loaded from storage: `None` where two lists
    /// belong to one user or two items of one list share an identifier.
    pub fn from_snapshot(lists: Vec<TodoList>) -> (r: Option<TodoStore>)
        ensures
            r is Some <==> valid_lists(lists@),
            r matches Some(s) ==> s.wf() && s@ == lists_view(lists@),
    {
        let mut i: usize = 0;
        while i < lists.len()
            invariant
                0 <= i <= lists@.len(),
                forall|a: int, b: int|
                    0 <= a < i && 0 <= b < lists@.len() && a != b ==> lists@[a].user_id
                        != lists@[b].user_id,
                forall|a: int| 0 <= a < i ==> unique_item_ids(items_view(#[trigger] lists@[a].items@)),
            decreases lists@.len() - i,
        {
            let mut j: usize = 0;
            while j < lists.len()
                invariant
                    0 <= i < lists@.len(),
                    0 <= j <= lists@.len(),
                    forall|b: int| 0 <= b < j && b != i ==> lists@[i as int].user_id != lists@[b].user_id,
                decreases lists@.len() - j,
            {
                if j != i && lists[i].user_id == lists[j].user_id {
                    return None;
                }
                j = j + 1;
            }
            if !distinct_ids(&lists[i].items) {
                assert(!unique_item_ids(items_view(lists@[i as int].items@)));
                return None;
            }
            i = i + 1;
        }
        let s = TodoStore { lists };
        proof {
            s.lemma_wf();
        }
        Some(s)
    }
}

} // verus!
