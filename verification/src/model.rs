//! The todo item and the form that carries a title.
use vstd::prelude::*;

verus! {

/// A todo item.
#[derive(Debug, Clone)]
pub struct Todo {
    pub id: u64,
    pub title: String,
    pub done: bool,
}

/// The mathematical value of a todo item.
pub struct TodoView {
    pub id: u64,
    pub title: Seq<char>,
    pub done: bool,
}

impl View for Todo {
    type V = TodoView;

    open spec fn view(&self) -> TodoView {
        TodoView { id: self.id, title: self.title@, done: self.done }
    }
}

impl Todo {
    /// A copy of this todo with the same id, title and state.
    pub(crate) fn copied(&self) -> (r: Todo)
        ensures
            r@ == self@,
    {
        Todo { id: self.id, title: self.title.clone(), done: self.done }
    }
}

/// A submitted form with a `title` field.
pub struct TitleForm {
    pub title: String,
}

} // verus!
