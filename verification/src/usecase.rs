//! The todo use cases: titles are trimmed and must not be empty, and a
//! missing todo is reported as such.
use vstd::prelude::*;
use crate::model::{Todo, TodoView};
use crate::service::{apply, is_listing, retitle_in, toggle_in, well_formed, StoreOp, StoreView, TodoService};
use crate::text::{trim, trimmed};

verus! {

/// Why a use case was refused.
#[derive(Debug, Clone, PartialEq, Eq, Structural)]
pub enum UseCaseError {
    /// The title is empty once surrounding whitespace is removed.
    EmptyTitle,
    /// No todo has the requested id.
    NotFound,
}

/// The use cases over a todo store.
pub struct TodoUseCase {
    service: TodoService,
}

impl View for TodoUseCase {
    type V = StoreView;

    closed spec fn view(&self) -> StoreView {
        self.service@
    }
}

impl TodoUseCase {
    /// Use cases over `service`.
    pub fn new(service: TodoService) -> (r: Self)
        ensures
            r@ == service@,
    {
        TodoUseCase { service }
    }

    /// All todos in ascending id order.
    pub fn list(&self) -> (r: Vec<Todo>)
        ensures
            is_listing(r@.map_values(|t: Todo| t@), self@.todos),
    {
        self.service.list()
    }

    /// The todo with id `id`, or `NotFound`.
    pub fn get(&self, id: u64) -> (r: Result<Todo, UseCaseError>)
        ensures
            r is Ok <==> self@.todos.contains_key(id),
            r matches Ok(t) ==> t@ == self@.todos[id],
            r is Err ==> r == Err::<Todo, UseCaseError>(UseCaseError::NotFound),
    {
        match self.service.get(id) {
            Some(t) => Ok(t),
            None => Err(UseCaseError::NotFound),
        }
    }

    /// The store behind these use cases is well formed: every todo is filed
    /// under its own id, below the next id to be handed out.
    pub fn ensure_well_formed(&self)
        ensures
            well_formed(self@),
    {
        self.service.ensure_well_formed();
    }

    /// Whether an id is left to hand out, which `create` needs for a title
    /// that is not blank.
    pub fn has_free_id(&self) -> (r: bool)
        ensures
            r == (self@.next_id < u64::MAX),
    {
        self.service.has_free_id()
    }

    /// Creates a todo whose title is `title` without surrounding whitespace;
    /// `EmptyTitle` when nothing is left of it, and then nothing changes.
    pub fn create(&mut self, title: String) -> (r: Result<Todo, UseCaseError>)
        requires
            trim(title@).len() == 0 || old(self)@.next_id < u64::MAX,
        ensures
            r is Err <==> trim(title@).len() == 0,
            r is Err ==> r == Err::<Todo, UseCaseError>(UseCaseError::EmptyTitle) && final(self)@
                == old(self)@,
            r matches Ok(t) ==> {
                &&& t@ == (TodoView { id: old(self)@.next_id, title: trim(title@), done: false })
                &&& !old(self)@.todos.contains_key(t.id)
                &&& final(self)@.todos == old(self)@.todos.insert(t.id, t@)
                &&& final(self)@ == apply(old(self)@, StoreOp::Create(trim(title@)))
                &&& final(self)@.next_id == old(self)@.next_id + 1
            },
            well_formed(final(self)@),
    {
        let title = trimmed(title.as_str());
        if title.as_str().is_empty() {
            self.service.ensure_well_formed();
            return Err(UseCaseError::EmptyTitle);
        }
        Ok(self.service.create(title))
    }

    /// Replaces the title of the todo with id `id` by `title` without
    /// surrounding whitespace. `EmptyTitle` when nothing is left of the
    /// title (checked first), `NotFound` when there is no such todo; in both
    /// cases nothing changes.
    pub fn update_title(&mut self, id: u64, title: String) -> (r: Result<Todo, UseCaseError>)
        ensures
            trim(title@).len() == 0 ==> r == Err::<Todo, UseCaseError>(UseCaseError::EmptyTitle),
            trim(title@).len() != 0 && !old(self)@.todos.contains_key(id) ==> r == Err::<
                Todo,
                UseCaseError,
            >(UseCaseError::NotFound),
            r is Ok <==> trim(title@).len() != 0 && old(self)@.todos.contains_key(id),
            r matches Ok(t) ==> t@ == (TodoView { title: trim(title@), ..old(self)@.todos[id] }),
            r matches Ok(t) ==> final(self)@.todos.contains_key(id) && final(self)@.todos[id] == t@,
            r is Ok ==> final(self)@.todos == retitle_in(old(self)@.todos, id, trim(title@)),
            r is Ok ==> final(self)@ == apply(old(self)@, StoreOp::Retitle(id, trim(title@))),
            r is Err ==> final(self)@.todos == old(self)@.todos,
            final(self)@.next_id == old(self)@.next_id,
            well_formed(final(self)@),
    {
        let title = trimmed(title.as_str());
        if title.as_str().is_empty() {
            self.service.ensure_well_formed();
            return Err(UseCaseError::EmptyTitle);
        }
        match self.service.update_title(id, title) {
            Some(t) => Ok(t),
            None => Err(UseCaseError::NotFound),
        }
    }

    /// Flips the done state of the todo with id `id`, or `NotFound`.
    pub fn toggle(&mut self, id: u64) -> (r: Result<Todo, UseCaseError>)
        ensures
            r is Ok <==> old(self)@.todos.contains_key(id),
            r matches Ok(t) ==> t@ == (TodoView { done: !old(self)@.todos[id].done, ..old(self)@.todos[id] }),
            r matches Ok(t) ==> final(self)@.todos.contains_key(id) && final(self)@.todos[id] == t@,
            r is Err ==> r == Err::<Todo, UseCaseError>(UseCaseError::NotFound),
            final(self)@.todos == toggle_in(old(self)@.todos, id),
            final(self)@ == apply(old(self)@, StoreOp::Toggle(id)),
            final(self)@.next_id == old(self)@.next_id,
            well_formed(final(self)@),
    {
        match self.service.toggle(id) {
            Some(t) => Ok(t),
            None => Err(UseCaseError::NotFound),
        }
    }

    /// Removes the todo with id `id`, or `NotFound`.
    pub fn delete(&mut self, id: u64) -> (r: Result<(), UseCaseError>)
        ensures
            r is Ok <==> old(self)@.todos.contains_key(id),
            r is Err ==> r == Err::<(), UseCaseError>(UseCaseError::NotFound),
            final(self)@.todos == old(self)@.todos.remove(id),
            final(self)@ == apply(old(self)@, StoreOp::Delete(id)),
            final(self)@.next_id == old(self)@.next_id,
            well_formed(final(self)@),
    {
        if self.service.delete(id) {
            Ok(())
        } else {
            Err(UseCaseError::NotFound)
        }
    }
}

impl Default for TodoUseCase {
    /// Use cases over an empty store whose first todo gets id 0, as a
    /// defaulted store has.
    fn default() -> (r: Self)
        ensures
            r@.todos == Map::<u64, TodoView>::empty(),
            r@.next_id == 0,
            well_formed(r@),
    {
        TodoUseCase { service: TodoService::default() }
    }
}

} // verus!
