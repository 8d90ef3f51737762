//! An in-memory todo list: an ordered sequence of items, each with an id,
//! a text and a completion flag, together with the four operations a
//! request handler needs (list, add, toggle, remove).
//!
//! Ids are assigned as `current length + 1` at the moment of the add; after
//! a removal a later add can therefore reuse an id that is still present.
//! The id-addressed operations act on the first item carrying the id.
use vstd::prelude::*;

verus! {

/// The mathematical value of one todo item.
pub ghost struct TodoView {
    pub id: u32,
    pub text: Seq<char>,
    pub complete: bool,
}

/// One todo item: an id assigned by the store, the caller's text
/// (kept under the name `todos`, which is also its wire name), and a
/// completion flag that starts out false.
pub struct Todo {
    pub id: u32,
    pub todos: String,
    pub complete: bool,
}

impl View for Todo {
    type V = TodoView;

    open spec fn view(&self) -> TodoView {
        TodoView { id: self.id, text: self.todos@, complete: self.complete }
    }
}

/// The one error the store signals: an id-addressed operation named an id
/// that no item carries.
#[derive(Clone, Copy, Debug, PartialEq, Eq)]
pub enum TodoError {
    NotFound,
}

/// The sequence of item values a sequence of items stands for.
pub open spec fn views_of(s: Seq<Todo>) -> Seq<TodoView> {
    Seq::new(s.len(), |i: int| s[i]@)
}

/// The index of the first item of `s` whose id is `id`, or `-1` if none is.
pub open spec fn index_of_id(s: Seq<TodoView>, id: u32) -> int
    decreases s.len(),
{
    if s.len() == 0 {
        -1
    } else if s[0].id == id {
        0
    } else if index_of_id(s.drop_first(), id) == -1 {
        -1
    } else {
        index_of_id(s.drop_first(), id) + 1
    }
}

/// Whether some item of `s` carries the id `id`.
pub open spec fn has_id(s: Seq<TodoView>, id: u32) -> bool {
    index_of_id(s, id) != -1
}

/// What `index_of_id` points at: the first occurrence of `id`, within
/// bounds, with no earlier occurrence; and nothing when `id` is absent.
pub proof fn lemma_index_of_id(s: Seq<TodoView>, id: u32)
    ensures
        has_id(s, id) ==> {
            &&& 0 <= index_of_id(s, id) < s.len()
            &&& s[index_of_id(s, id)].id == id
            &&& forall|j: int| 0 <= j < index_of_id(s, id) ==> s[j].id != id
        },
        !has_id(s, id) ==> forall|j: int| 0 <= j < s.len() ==> s[j].id != id,
    decreases s.len(),
{
    if s.len() > 0 && s[0].id != id {
        lemma_index_of_id(s.drop_first(), id);
        assert(forall|j: int| 1 <= j < s.len() ==> #[trigger] s[j] == s.drop_first()[j - 1]);
    }
}

/// An index that carries `id` and is preceded by no other occurrence of it
/// is exactly what `index_of_id` returns.
pub proof fn lemma_index_of_id_at(s: Seq<TodoView>, id: u32, i: int)
    requires
        0 <= i < s.len(),
        s[i].id == id,
        forall|j: int| 0 <= j < i ==> s[j].id != id,
    ensures
        index_of_id(s, id) == i,
    decreases s.len(),
{
    if i > 0 {
        assert(forall|j: int| 0 <= j < s.drop_first().len() ==> #[trigger] s.drop_first()[j] == s[j + 1]);
        lemma_index_of_id_at(s.drop_first(), id, i - 1);
    }
}

/// When no index of `s` carries `id`, `index_of_id` returns `-1`.
pub proof fn lemma_index_of_id_absent(s: Seq<TodoView>, id: u32)
    requires
        forall|j: int| 0 <= j < s.len() ==> s[j].id != id,
    ensures
        !has_id(s, id),
{
    lemma_index_of_id(s, id);
    if has_id(s, id) {
        assert(s[index_of_id(s, id)].id == id);
    }
}

/// The sequence after an add: the new item is appended, carries the text,
/// gets id `length + 1`, and starts incomplete.
pub open spec fn spec_add(s: Seq<TodoView>, text: Seq<char>) -> Seq<TodoView> {
    s.push(TodoView { id: (s.len() + 1) as u32, text: text, complete: false })
}

/// The sequence after a toggle: the first item carrying `id` has its flag
/// flipped and everything else stands; an absent id changes nothing.
pub open spec fn spec_toggle(s: Seq<TodoView>, id: u32) -> Seq<TodoView> {
    if has_id(s, id) {
        let i = index_of_id(s, id);
        s.update(i, TodoView { id: s[i].id, text: s[i].text, complete: !s[i].complete })
    } else {
        s
    }
}

/// The sequence after a remove: the first item carrying `id` is taken out
/// and later items shift down; an absent id changes nothing.
pub open spec fn spec_remove(s: Seq<TodoView>, id: u32) -> Seq<TodoView> {
    if has_id(s, id) {
        s.remove(index_of_id(s, id))
    } else {
        s
    }
}

/// The in-memory store: the ordered items, insertion order being display
/// order. A surrounding server serializes access to it; the store itself
/// is a plain value.
pub struct TodoStore {
    items: Vec<Todo>,
}

impl View for TodoStore {
    type V = Seq<TodoView>;

    closed spec fn view(&self) -> Seq<TodoView> {
        views_of(self.items@)
    }
}

impl TodoStore {
    /// A fresh store holds nothing.
    pub fn new() -> (s: TodoStore)
        ensures
            s@ == Seq::<TodoView>::empty(),
    {
        let s = TodoStore { items: Vec::new() };
        proof {
            assert(s@ =~= Seq::<TodoView>::empty());
        }
        s
    }

    /// The number of items held.
    pub fn len(&self) -> (n: usize)
        ensures
            n == self@.len(),
    {
        self.items.len()
    }

    /// The index of the first item carrying `id`, if any item does.
    pub fn position_of(&self, id: u32) -> (r: Option<usize>)
        ensures
            match r {
                Some(i) => i < self@.len() && index_of_id(self@, id) == i,
                None => !has_id(self@, id),
            },
    {
        let n = self.items.len();
        let mut i: usize = 0;
        while i < n
            invariant
                n == self.items@.len(),
                i <= n,
                forall|j: int| 0 <= j < i ==> self@[j].id != id,
            decreases n - i,
        {
            if self.items[i].id == id {
                proof {
                    lemma_index_of_id_at(self@, id, i as int);
                }
                return Some(i);
            }
            i += 1;
        }
        proof {
            lemma_index_of_id_absent(self@, id);
        }
        None
    }

    /// A snapshot of the items, in order: later mutation of the store
    /// leaves the returned copy as it was.
    pub fn list(&self) -> (r: Vec<Todo>)
        ensures
            views_of(r@) == self@,
            r@.len() == self@.len(),
    {
        let n = self.items.len();
        let mut r: Vec<Todo> = Vec::new();
        let mut i: usize = 0;
        while i < n
            invariant
                n == self.items@.len(),
                i <= n,
                r@.len() == i,
                forall|j: int| 0 <= j < i ==> r@[j] == self.items@[j],
            decreases n - i,
        {
            let t = Todo {
                id: self.items[i].id,
                todos: self.items[i].todos.clone(),
                complete: self.items[i].complete,
            };
            r.push(t);
            i += 1;
        }
        proof {
            assert(views_of(r@) =~= self@);
        }
        r
    }

    /// Append a new item with the given text: its id is the length just
    /// before the add plus one, and it starts incomplete.
    pub fn add(&mut self, text: String)
        requires
            old(self)@.len() < u32::MAX,
        ensures
            final(self)@ == spec_add(old(self)@, text@),
    {
        let id = (self.items.len() + 1) as u32;
        let t = Todo { id: id, todos: text, complete: false };
        self.items.push(t);
        proof {
            assert(final(self)@ =~= spec_add(old(self)@, t@.text));
        }
    }

    /// Flip the completion flag of the first item carrying `id`.
    /// Exactly when no item does, nothing changes and `NotFound` comes back.
    pub fn toggle(&mut self, id: u32) -> (r: Result<(), TodoError>)
        ensures
            final(self)@ == spec_toggle(old(self)@, id),
            r is Ok <==> has_id(old(self)@, id),
            r is Err ==> r == Err::<(), TodoError>(TodoError::NotFound),
    {
        match self.position_of(id) {
            Some(i) => {
                let flipped = Todo {
                    id: self.items[i].id,
                    todos: self.items[i].todos.clone(),
                    complete: !self.items[i].complete,
                };
                self.items[i] = flipped;
                proof {
                    assert(final(self)@ =~= spec_toggle(old(self)@, id));
                }
                Ok(())
            },
            None => Err(TodoError::NotFound),
        }
    }

    /// Take out the first item carrying `id`; later items shift down and
    /// ids are not renumbered. Exactly when no item carries `id`, nothing
    /// changes and `NotFound` comes back.
    pub fn remove(&mut self, id: u32) -> (r: Result<(), TodoError>)
        ensures
            final(self)@ == spec_remove(old(self)@, id),
            r is Ok <==> has_id(old(self)@, id),
            r is Err ==> r == Err::<(), TodoError>(TodoError::NotFound),
    {
        match self.position_of(id) {
            Some(i) => {
                self.items.remove(i);
                proof {
                    assert(final(self)@ =~= spec_remove(old(self)@, id));
                }
                Ok(())
            },
            None => Err(TodoError::NotFound),
        }
    }
}

} // verus!
