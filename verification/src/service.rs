//! In-memory todo store keyed by id. Ids are handed out in increasing order
//! and never reused; the listing comes in ascending id order.
use vstd::prelude::*;
use std::collections::BTreeMap;
use crate::model::{Todo, TodoView};

verus! {

/// The mathematical state of a store: the todos by id, and the id that the
/// next created todo receives.
pub struct StoreView {
    pub todos: Map<u64, TodoView>,
    pub next_id: u64,
}

/// Every todo is filed under its own id, and every id is below the next one
/// to be handed out.
pub open spec fn well_formed(s: StoreView) -> bool {
    &&& s.todos.dom().finite()
    &&& forall|k: u64| #[trigger] s.todos.contains_key(k) ==> s.todos[k].id == k && k < s.next_id
}

/// `s` lists exactly the todos of `m`, in ascending id order.
pub open spec fn is_listing(s: Seq<TodoView>, m: Map<u64, TodoView>) -> bool {
    &&& forall|i: int, j: int| 0 <= i < j < s.len() ==> s[i].id < s[j].id
    &&& forall|i: int|
        0 <= i < s.len() ==> m.contains_key(#[trigger] s[i].id) && m[s[i].id] == s[i]
    &&& forall|k: u64| #[trigger] m.contains_key(k) ==> exists|i: int| 0 <= i < s.len() && s[i].id == k
}

/// `todo` with its title replaced.
pub open spec fn retitled(todo: TodoView, title: Seq<char>) -> TodoView {
    TodoView { title, ..todo }
}

/// `todo` with its done state flipped.
pub open spec fn toggled(todo: TodoView) -> TodoView {
    TodoView { done: !todo.done, ..todo }
}

fn empty_todos() -> (m: BTreeMap<u64, Todo>)
    ensures
        m@ == Map::<u64, Todo>::empty(),
        well_formed(StoreView { todos: m@.map_values(|t: Todo| t@), next_id: 0 }),
{
    let m: BTreeMap<u64, Todo> = BTreeMap::new();
    proof {
        assert(m@.map_values(|t: Todo| t@) =~= Map::<u64, TodoView>::empty());
    }
    m
}

proof fn lemma_increasing_keys(keys: Seq<u64>)
    requires
        vstd::std_specs::btree::increasing_seq(keys),
    ensures
        forall|i: int, j: int| 0 <= i < j < keys.len() ==> keys[i] < keys[j],
{
    assert forall|i: int, j: int| 0 <= i < j < keys.len() implies keys[i] < keys[j] by {
        assert(vstd::std_specs::cmp::OrdSpec::cmp_spec(&keys[i], &keys[j]) is Less);
    }
}

/// The todos after flipping the todo with id `id`, if there is one.
pub open spec fn toggle_in(m: Map<u64, TodoView>, id: u64) -> Map<u64, TodoView> {
    if m.contains_key(id) {
        m.insert(id, toggled(m[id]))
    } else {
        m
    }
}

/// The todos after retitling the todo with id `id`, if there is one.
pub open spec fn retitle_in(m: Map<u64, TodoView>, id: u64, title: Seq<char>) -> Map<
    u64,
    TodoView,
> {
    if m.contains_key(id) {
        m.insert(id, retitled(m[id], title))
    } else {
        m
    }
}

/// A change made to a store through one of its operations.
pub enum StoreOp {
    /// `create` with the given title.
    Create(Seq<char>),
    /// `update_title` of a todo with the given title.
    Retitle(u64, Seq<char>),
    /// `toggle` of a todo.
    Toggle(u64),
    /// `delete` of a todo.
    Delete(u64),
}

/// The store after `op`.
pub open spec fn apply(s: StoreView, op: StoreOp) -> StoreView {
    match op {
        StoreOp::Create(title) => StoreView {
            todos: s.todos.insert(s.next_id, TodoView { id: s.next_id, title, done: false }),
            next_id: (s.next_id + 1) as u64,
        },
        StoreOp::Retitle(id, title) => StoreView { todos: retitle_in(s.todos, id, title), ..s },
        StoreOp::Toggle(id) => StoreView { todos: toggle_in(s.todos, id), ..s },
        StoreOp::Delete(id) => StoreView { todos: s.todos.remove(id), ..s },
    }
}

/// The store after the operations `ops`, in order.
pub open spec fn run(s: StoreView, ops: Seq<StoreOp>) -> StoreView
    decreases ops.len(),
{
    if ops.len() == 0 {
        s
    } else {
        run(apply(s, ops[0]), ops.skip(1))
    }
}

/// How many of `ops` create a todo.
pub open spec fn creates(ops: Seq<StoreOp>) -> nat
    decreases ops.len(),
{
    if ops.len() == 0 {
        0
    } else {
        creates(ops.skip(1)) + if ops[0] is Create {
            1nat
        } else {
            0nat
        }
    }
}

/// The ids handed out by the creates among `ops`, run from `s`, in order.
pub open spec fn created_ids(s: StoreView, ops: Seq<StoreOp>) -> Seq<u64>
    decreases ops.len(),
{
    if ops.len() == 0 {
        Seq::empty()
    } else if ops[0] is Create {
        seq![s.next_id] + created_ids(apply(s, ops[0]), ops.skip(1))
    } else {
        created_ids(apply(s, ops[0]), ops.skip(1))
    }
}

/// The ids handed out by the creates among `ops` that each id, at the time
/// it was handed out, was not in the store.
pub open spec fn created_fresh(s: StoreView, ops: Seq<StoreOp>) -> bool
    decreases ops.len(),
{
    if ops.len() == 0 {
        true
    } else {
        (ops[0] is Create ==> !s.todos.contains_key(s.next_id)) && created_fresh(
            apply(s, ops[0]),
            ops.skip(1),
        )
    }
}

/// A store of todos.
pub struct TodoService {
    todos: BTreeMap<u64, Todo>,
    next_id: u64,
}

impl View for TodoService {
    type V = StoreView;

    closed spec fn view(&self) -> StoreView {
        StoreView { todos: self.todos@.map_values(|t: Todo| t@), next_id: self.next_id }
    }
}

impl TodoService {
    #[verifier::type_invariant]
    closed spec fn inv(self) -> bool {
        well_formed(self@)
    }

    /// The store is well formed: every todo is filed under its own id, below
    /// the next id to be handed out.
    pub fn ensure_well_formed(&self)
        ensures
            well_formed(self@),
    {
        proof {
            use_type_invariant(self);
        }
    }

    /// An empty store whose first todo gets id 1.
    pub fn new() -> (r: Self)
        ensures
            r@.todos == Map::<u64, TodoView>::empty(),
            r@.next_id == 1,
            well_formed(r@),
    {
        let todos: BTreeMap<u64, Todo> = BTreeMap::new();
        proof {
            assert(todos@.map_values(|t: Todo| t@) =~= Map::<u64, TodoView>::empty());
        }
        TodoService { todos, next_id: 1 }
    }

    /// All todos in ascending id order.
    pub fn list(&self) -> (r: Vec<Todo>)
        ensures
            is_listing(r@.map_values(|t: Todo| t@), self@.todos),
    {
        proof {
            use_type_invariant(self);
        }
        let mut out: Vec<Todo> = Vec::new();
        let values = self.todos.values();
        let ghost m = self.todos@;
        let ghost keys = choose|keys: Seq<u64>|
            {
                &&& vstd::std_specs::btree::increasing_seq(keys)
                &&& keys.to_set() == m.dom()
                &&& keys.no_duplicates()
                &&& vstd::std_specs::iter::IteratorSpec::remaining(&values) == keys.map(|i: int, k: u64| &m[k])
            };
        for t in it: values
            invariant
                out@.len() == it.index(),
                it.seq() == keys.map(|i: int, k: u64| &m[k]),
                forall|i: int| 0 <= i < it.index() ==> #[trigger] out@[i]@ == (*it.seq()[i])@,
        {
            out.push(t.copied());
        }
        proof {
            let sv = out@.map_values(|t: Todo| t@);
            let mv = self@.todos;
            assert(out@.len() == keys.len());
            assert forall|i: int| 0 <= i < sv.len() implies sv[i] == mv[keys[i]] && mv.contains_key(
                keys[i],
            ) && #[trigger] sv[i].id == keys[i] by {
                assert(keys.to_set().contains(keys[i]));
            }
            lemma_increasing_keys(keys);
            assert forall|k: u64| #[trigger] mv.contains_key(k) implies exists|i: int|
                0 <= i < sv.len() && sv[i].id == k by {
                assert(keys.to_set().contains(k));
                let i = choose|i: int| 0 <= i < keys.len() && keys[i] == k;
                assert(sv[i].id == k);
            }
        }
        out
    }

    /// The todo with id `id`, if there is one.
    pub fn get(&self, id: u64) -> (r: Option<Todo>)
        ensures
            r is Some <==> self@.todos.contains_key(id),
            r matches Some(t) ==> t@ == self@.todos[id],
    {
        proof {
            use_type_invariant(self);
        }
        match self.todos.get(&id) {
            Some(t) => Some(t.copied()),
            None => None,
        }
    }

    /// Whether an id is left to hand out, which `create` needs.
    pub fn has_free_id(&self) -> (r: bool)
        ensures
            r == (self@.next_id < u64::MAX),
    {
        self.next_id < u64::MAX
    }

    /// Files a new, not yet done todo with `title` under the next id.
    /// Ids are handed out in increasing order; the store can hand out ids
    /// up to `u64::MAX - 1`.
    pub fn create(&mut self, title: String) -> (r: Todo)
        requires
            old(self)@.next_id < u64::MAX,
        ensures
            r@ == (TodoView { id: old(self)@.next_id, title: title@, done: false }),
            !old(self)@.todos.contains_key(r.id),
            final(self)@.todos == old(self)@.todos.insert(r.id, r@),
            final(self)@.next_id == old(self)@.next_id + 1,
            final(self)@ == apply(old(self)@, StoreOp::Create(title@)),
            well_formed(final(self)@),
    {
        proof {
            use_type_invariant(&*self);
        }
        let id = self.next_id;
        self.next_id = id + 1;
        let todo = Todo { id, title, done: false };
        let stored = todo.copied();
        let mut todos = empty_todos();
        std::mem::swap(&mut todos, &mut self.todos);
        todos.insert(id, stored);
        proof {
            assert(todos@.map_values(|t: Todo| t@) =~= old(self)@.todos.insert(id, todo@));
        }
        self.todos = todos;
        proof {
            assert(self@.todos =~= old(self)@.todos.insert(id, todo@));
            use_type_invariant(&*self);
        }
        todo
    }

    /// Replaces the title of the todo with id `id`; `None` when there is none.
    pub fn update_title(&mut self, id: u64, title: String) -> (r: Option<Todo>)
        ensures
            r is Some <==> old(self)@.todos.contains_key(id),
            r matches Some(t) ==> t@ == retitled(old(self)@.todos[id], title@),
            r matches Some(t) ==> t.id == id && t.title@ == title@ && t.done == old(
                self,
            )@.todos[id].done && final(self)@.todos[id] == t@,
            final(self)@.todos == retitle_in(old(self)@.todos, id, title@),
            final(self)@.next_id == old(self)@.next_id,
            final(self)@ == apply(old(self)@, StoreOp::Retitle(id, title@)),
            well_formed(final(self)@),
    {
        proof {
            use_type_invariant(&*self);
        }
        let done = match self.todos.get(&id) {
            Some(t) => t.done,
            None => {
                return None;
            },
        };
        let updated = Todo { id, title, done };
        let mut todos = empty_todos();
        std::mem::swap(&mut todos, &mut self.todos);
        todos.insert(id, updated.copied());
        proof {
            assert(old(self)@.todos.contains_key(id));
            assert(todos@.map_values(|t: Todo| t@) =~= old(self)@.todos.insert(id, updated@));
        }
        self.todos = todos;
        proof {
            assert(self@.todos =~= old(self)@.todos.insert(id, updated@));
            use_type_invariant(&*self);
        }
        Some(updated)
    }

    /// Flips the done state of the todo with id `id`; `None` when there is
    /// none.
    pub fn toggle(&mut self, id: u64) -> (r: Option<Todo>)
        ensures
            r is Some <==> old(self)@.todos.contains_key(id),
            r matches Some(t) ==> t@ == toggled(old(self)@.todos[id]),
            r matches Some(t) ==> t.id == id && t.title@ == old(self)@.todos[id].title && t.done
                == !old(self)@.todos[id].done && final(self)@.todos[id] == t@,
            final(self)@.todos == toggle_in(old(self)@.todos, id),
            final(self)@.next_id == old(self)@.next_id,
            final(self)@ == apply(old(self)@, StoreOp::Toggle(id)),
            well_formed(final(self)@),
    {
        proof {
            use_type_invariant(&*self);
        }
        let updated = match self.todos.get(&id) {
            Some(t) => Todo { id, title: t.title.clone(), done: !t.done },
            None => {
                return None;
            },
        };
        let mut todos = empty_todos();
        std::mem::swap(&mut todos, &mut self.todos);
        todos.insert(id, updated.copied());
        proof {
            assert(old(self)@.todos.contains_key(id));
            assert(todos@.map_values(|t: Todo| t@) =~= old(self)@.todos.insert(id, updated@));
        }
        self.todos = todos;
        proof {
            assert(self@.todos =~= old(self)@.todos.insert(id, updated@));
            use_type_invariant(&*self);
        }
        Some(updated)
    }

    /// Removes the todo with id `id`; tells whether there was one.
    pub fn delete(&mut self, id: u64) -> (r: bool)
        ensures
            r == old(self)@.todos.contains_key(id),
            final(self)@.todos == old(self)@.todos.remove(id),
            final(self)@.next_id == old(self)@.next_id,
            final(self)@ == apply(old(self)@, StoreOp::Delete(id)),
            well_formed(final(self)@),
    {
        proof {
            use_type_invariant(&*self);
        }
        let mut todos = empty_todos();
        std::mem::swap(&mut todos, &mut self.todos);
        let removed = todos.remove(&id);
        proof {
            assert(todos@.map_values(|t: Todo| t@) =~= old(self)@.todos.remove(id));
        }
        self.todos = todos;
        proof {
            assert(self@.todos =~= old(self)@.todos.remove(id));
            use_type_invariant(&*self);
        }
        removed.is_some()
    }
}

impl Default for TodoService {
    /// An empty store whose first todo gets id 0.
    fn default() -> (r: Self)
        ensures
            r@.todos == Map::<u64, TodoView>::empty(),
            r@.next_id == 0,
            well_formed(r@),
    {
        let todos = empty_todos();
        proof {
            assert(todos@.map_values(|t: Todo| t@) =~= Map::<u64, TodoView>::empty());
        }
        TodoService { todos, next_id: 0 }
    }
}

proof fn lemma_listing_rest(m: Map<u64, TodoView>, s: Seq<TodoView>)
    requires
        is_listing(s, m),
        s.len() > 0,
    ensures
        is_listing(s.drop_first(), m.remove(s[0].id)),
{
    let k = s[0].id;
    let r = s.drop_first();
    let m2 = m.remove(k);
    assert forall|i: int| 0 <= i < r.len() implies m2.contains_key(#[trigger] r[i].id) && m2[r[i].id]
        == r[i] by {
        assert(r[i] == s[i + 1]);
        assert(s[0].id < s[i + 1].id);
    }
    assert forall|k2: u64| #[trigger] m2.contains_key(k2) implies exists|i: int|
        0 <= i < r.len() && r[i].id == k2 by {
        assert(m.contains_key(k2));
        let i = choose|i: int| 0 <= i < s.len() && s[i].id == k2;
        assert(i != 0);
        assert(r[i - 1].id == k2);
    }
}

/// The listing of a store is determined by its todos: two sequences that
/// both list the same todos in ascending id order are equal.
pub proof fn law_listing_is_unique(m: Map<u64, TodoView>, s1: Seq<TodoView>, s2: Seq<TodoView>)
    requires
        is_listing(s1, m),
        is_listing(s2, m),
    ensures
        s1 == s2,
    decreases s1.len(),
{
    if s1.len() == 0 {
        if s2.len() > 0 {
            assert(m.contains_key(s2[0].id));
        }
        assert(s1 =~= s2);
    } else {
        assert(m.contains_key(s1[0].id));
        let j = choose|j: int| 0 <= j < s2.len() && s2[j].id == s1[0].id;
        assert(m.contains_key(s2[0].id));
        let i = choose|i: int| 0 <= i < s1.len() && s1[i].id == s2[0].id;
        assert(s2[0].id <= s2[j].id);
        assert(s1[0].id <= s1[i].id);
        assert(s1[0].id == s2[0].id);
        assert(s1[0] == s2[0]);
        lemma_listing_rest(m, s1);
        lemma_listing_rest(m, s2);
        law_listing_is_unique(m.remove(s1[0].id), s1.drop_first(), s2.drop_first());
        assert(s1 =~= seq![s1[0]] + s1.drop_first());
        assert(s2 =~= seq![s2[0]] + s2.drop_first());
    }
}

/// Flipping a todo twice gives back the todos as they were.
pub proof fn law_toggle_twice_restores(m: Map<u64, TodoView>, id: u64)
    ensures
        toggle_in(toggle_in(m, id), id) == m,
{
    if m.contains_key(id) {
        assert(toggled(toggled(m[id])) == m[id]);
        assert(toggle_in(toggle_in(m, id), id) =~= m);
    }
}

/// A deleted todo is no longer listed.
pub proof fn law_deleted_todo_is_not_listed(m: Map<u64, TodoView>, id: u64, s: Seq<TodoView>)
    requires
        is_listing(s, m.remove(id)),
    ensures
        forall|i: int| 0 <= i < s.len() ==> s[i].id != id,
{
    assert forall|i: int| 0 <= i < s.len() implies s[i].id != id by {
        assert(m.remove(id).contains_key(s[i].id));
    }
}

/// A created todo is listed, and listed last: it has the greatest id.
pub proof fn law_created_todo_is_listed_last(store: StoreView, todo: TodoView, s: Seq<TodoView>)
    requires
        well_formed(store),
        todo.id == store.next_id,
        is_listing(s, store.todos.insert(todo.id, todo)),
    ensures
        s.len() > 0,
        s.last() == todo,
{
    let m = store.todos.insert(todo.id, todo);
    assert(m.contains_key(todo.id));
    let i = choose|i: int| 0 <= i < s.len() && s[i].id == todo.id;
    let n = s.len() - 1;
    if i < n {
        assert(s[i].id < s[n].id);
        assert(m.contains_key(s[n].id));
        assert(store.todos.contains_key(s[n].id));
    }
}

/// Ids over any sequence of operations on a well-formed store: the
/// creates get the next ids in order (`next_id`, `next_id + 1`, ...), each
/// id is one the store did not hold at that time and none the store held at
/// the start, the next id grows by the number of creates, and the store
/// stays well formed. So ids strictly increase and a deleted id is never
/// handed out again.
pub proof fn law_ids_are_handed_out_in_order(s: StoreView, ops: Seq<StoreOp>)
    requires
        well_formed(s),
        s.next_id + creates(ops) < u64::MAX,
    ensures
        created_ids(s, ops).len() == creates(ops),
        forall|j: int|
            0 <= j < created_ids(s, ops).len() ==> #[trigger] created_ids(s, ops)[j] == s.next_id + j,
        forall|j: int|
            0 <= j < created_ids(s, ops).len() ==> !s.todos.contains_key(
                #[trigger] created_ids(s, ops)[j],
            ),
        created_fresh(s, ops),
        run(s, ops).next_id == s.next_id + creates(ops),
        well_formed(run(s, ops)),
    decreases ops.len(),
{
    if ops.len() > 0 {
        let t = apply(s, ops[0]);
        let rest = ops.skip(1);
        assert(well_formed(t)) by {
            match ops[0] {
                StoreOp::Create(title) => {
                    assert(t.todos.dom().finite());
                },
                StoreOp::Retitle(id, title) => {},
                StoreOp::Toggle(id) => {},
                StoreOp::Delete(id) => {},
            }
        }
        law_ids_are_handed_out_in_order(t, rest);
        let ids = created_ids(s, ops);
        let later = created_ids(t, rest);
        if ops[0] is Create {
            assert(t.next_id == s.next_id + 1);
            assert(ids == seq![s.next_id] + later);
            assert forall|j: int| 0 <= j < ids.len() implies #[trigger] ids[j] == s.next_id + j
                && !s.todos.contains_key(ids[j]) by {
                if j > 0 {
                    assert(ids[j] == later[j - 1]);
                }
            }
        } else {
            assert(t.next_id == s.next_id);
            assert(ids == later);
            assert forall|j: int| 0 <= j < ids.len() implies !s.todos.contains_key(
                #[trigger] ids[j],
            ) by {
                assert(ids[j] == s.next_id + j);
            }
        }
    }
}

/// From a new store, the `n`-th create gets id `n`: the ids handed out are
/// exactly `1, 2, ..., k`.
pub proof fn law_new_store_hands_out_one_to_k(ops: Seq<StoreOp>)
    requires
        1 + creates(ops) < u64::MAX,
    ensures
        ({
            let s = StoreView { todos: Map::<u64, TodoView>::empty(), next_id: 1 };
            &&& created_ids(s, ops).len() == creates(ops)
            &&& forall|j: int|
                0 <= j < created_ids(s, ops).len() ==> #[trigger] created_ids(s, ops)[j] == j + 1
        }),
{
    let s = StoreView { todos: Map::<u64, TodoView>::empty(), next_id: 1 };
    law_ids_are_handed_out_in_order(s, ops);
}

/// Retitling changes the title of that one todo and nothing else: its id
/// and done state stay, every other todo stays as it was, and a missing id
/// changes nothing.
pub proof fn law_retitle_changes_only_the_title(m: Map<u64, TodoView>, id: u64, title: Seq<char>)
    ensures
        retitle_in(m, id, title).dom() == m.dom(),
        m.contains_key(id) ==> retitle_in(m, id, title)[id].title == title
            && retitle_in(m, id, title)[id].done == m[id].done && retitle_in(m, id, title)[id].id
            == m[id].id,
        forall|k: u64| k != id && #[trigger] m.contains_key(k) ==> retitle_in(m, id, title)[k] == m[k],
        !m.contains_key(id) ==> retitle_in(m, id, title) == m,
{
    if m.contains_key(id) {
        assert(retitle_in(m, id, title).dom() =~= m.dom());
    }
}

/// Toggling flips the done state of that one todo and nothing else: its id
/// and title stay, every other todo stays as it was, and a missing id
/// changes nothing.
pub proof fn law_toggle_changes_only_that_todo(m: Map<u64, TodoView>, id: u64)
    ensures
        toggle_in(m, id).dom() == m.dom(),
        m.contains_key(id) ==> toggle_in(m, id)[id].done == !m[id].done && toggle_in(m, id)[id].title
            == m[id].title && toggle_in(m, id)[id].id == m[id].id,
        forall|k: u64| k != id && #[trigger] m.contains_key(k) ==> toggle_in(m, id)[k] == m[k],
        !m.contains_key(id) ==> toggle_in(m, id) == m,
{
    if m.contains_key(id) {
        assert(toggle_in(m, id).dom() =~= m.dom());
    }
}

/// Deleting removes that one todo and nothing else.
pub proof fn law_delete_removes_only_that_todo(s: StoreView, id: u64)
    ensures
        !apply(s, StoreOp::Delete(id)).todos.contains_key(id),
        forall|k: u64|
            k != id ==> (#[trigger] apply(s, StoreOp::Delete(id)).todos.contains_key(k)
                == s.todos.contains_key(k)),
        forall|k: u64|
            k != id && #[trigger] s.todos.contains_key(k) ==> apply(s, StoreOp::Delete(id)).todos[k]
                == s.todos[k],
        apply(s, StoreOp::Delete(id)).next_id == s.next_id,
{
}

/// Creating adds one new todo under the next id, with the given title and
/// not done, and leaves every other todo as it was.
pub proof fn law_create_adds_one_todo(s: StoreView, title: Seq<char>)
    requires
        s.next_id < u64::MAX,
    ensures
        apply(s, StoreOp::Create(title)).todos.contains_key(s.next_id),
        apply(s, StoreOp::Create(title)).todos[s.next_id].id == s.next_id,
        apply(s, StoreOp::Create(title)).todos[s.next_id].title == title,
        !apply(s, StoreOp::Create(title)).todos[s.next_id].done,
        forall|k: u64|
            k != s.next_id ==> (#[trigger] apply(s, StoreOp::Create(title)).todos.contains_key(k)
                == s.todos.contains_key(k)),
        forall|k: u64|
            k != s.next_id && #[trigger] s.todos.contains_key(k) ==> apply(
                s,
                StoreOp::Create(title),
            ).todos[k] == s.todos[k],
        apply(s, StoreOp::Create(title)).next_id == s.next_id + 1,
{
}

} // verus!
