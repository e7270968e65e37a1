//! The todo-list view-model: its state, the messages that drive it, and
//! the operations a view calls.

use vstd::prelude::*;

use crate::text::blank;
use crate::text::dec_digits;
use crate::text::fmt_usize;
use crate::text::is_blank;

verus! {

/// One todo entry. The text never changes once the entry is created; only
/// `completed` is toggled.
pub struct Todo {
    pub id: usize,
    pub text: String,
    pub completed: bool,
}

/// Which subset of the items the view renders. Changing it never touches
/// the underlying list.
#[derive(Clone, Copy, PartialEq, Eq, Structural, Debug)]
pub enum Filter {
    All,
    Active,
    Completed,
}

/// A user interaction, as the view hands it to [`App::update`].
pub enum Msg {
    AddTodo,
    ToggleTodo(usize),
    DeleteTodo(usize),
    UpdateInput(String),
    SetFilter(Filter),
}

/// The mathematical value of one [`Todo`].
#[verifier::ext_equal]
pub ghost struct TodoView {
    pub id: int,
    pub text: Seq<char>,
    pub completed: bool,
}

/// The mathematical value of the whole application state.
#[verifier::ext_equal]
pub ghost struct AppView {
    pub items: Seq<TodoView>,
    pub draft: Seq<char>,
    pub filter: Filter,
    pub next_id: int,
}

impl Todo {
    pub open spec fn model(&self) -> TodoView {
        TodoView { id: self.id as int, text: self.text@, completed: self.completed }
    }
}

impl Clone for Todo {
    fn clone(&self) -> (r: Self)
        ensures
            r == *self,
    {
        Todo { id: self.id, text: self.text.clone(), completed: self.completed }
    }
}

/// The items of `s`, as mathematical values.
pub open spec fn seq_model(s: Seq<Todo>) -> Seq<TodoView> {
    s.map_values(|t: Todo| t.model())
}

impl AppView {
    /// Well-formedness: ids are pairwise distinct, and `next_id` is
    /// strictly above every id in the list, so a fresh id never collides.
    pub open spec fn wf(self) -> bool {
        &&& forall|i: int, j: int|
            0 <= i < j < self.items.len() ==> self.items[i].id != self.items[j].id
        &&& forall|i: int| 0 <= i < self.items.len() ==> 0 <= #[trigger] self.items[i].id < self.next_id
    }
}

/// Whether some item of `items` carries `id`.
pub open spec fn contains_id(items: Seq<TodoView>, id: int) -> bool {
    exists|i: int| 0 <= i < items.len() && #[trigger] items[i].id == id
}

/// `t` with its completion flag flipped.
pub open spec fn flip(t: TodoView) -> TodoView {
    TodoView { completed: !t.completed, ..t }
}

/// The list after toggling `id`: the item carrying `id` has its flag
/// flipped, every other item is untouched. With no match the list is
/// unchanged.
pub open spec fn toggle_spec(items: Seq<TodoView>, id: int) -> Seq<TodoView> {
    items.map_values(|t: TodoView| if t.id == id { flip(t) } else { t })
}

/// The predicate a deletion keeps items by.
pub open spec fn keeps(id: int) -> spec_fn(TodoView) -> bool {
    |t: TodoView| t.id != id
}

/// The list after deleting `id`: the items not carrying `id`, in order.
pub open spec fn delete_spec(items: Seq<TodoView>, id: int) -> Seq<TodoView> {
    items.filter(keeps(id))
}

/// The predicate that picks the items still to do.
pub open spec fn active() -> spec_fn(TodoView) -> bool {
    |t: TodoView| !t.completed
}

/// How many items are still to do, whatever the filter mode says.
pub open spec fn remaining_spec(items: Seq<TodoView>) -> nat {
    items.filter(active()).len()
}

/// The predicate that keeps every item.
pub open spec fn all_pred() -> spec_fn(TodoView) -> bool {
    |t: TodoView| true
}

/// The predicate that picks the completed items.
pub open spec fn completed_pred() -> spec_fn(TodoView) -> bool {
    |t: TodoView| t.completed
}

/// The predicate a filter mode keeps items by.
pub open spec fn mode_pred(f: Filter) -> spec_fn(TodoView) -> bool {
    match f {
        Filter::All => all_pred(),
        Filter::Active => active(),
        Filter::Completed => completed_pred(),
    }
}

/// The subsequence a filter mode shows, in the order of the list.
pub open spec fn filter_spec(items: Seq<TodoView>, f: Filter) -> Seq<TodoView> {
    items.filter(mode_pred(f))
}

/// The item an add creates: the untrimmed draft under the fresh id, not
/// yet completed.
pub open spec fn new_item(s: AppView) -> TodoView {
    TodoView { id: s.next_id, text: s.draft, completed: false }
}

/// The whole state after an add. A blank draft leaves the state exactly
/// as it was; otherwise the new item goes to the front, the id counter
/// steps, and the draft empties.
pub open spec fn add_spec(s: AppView) -> AppView {
    if blank(s.draft) {
        s
    } else {
        AppView {
            items: seq![new_item(s)] + s.items,
            draft: Seq::<char>::empty(),
            filter: s.filter,
            next_id: s.next_id + 1,
        }
    }
}

/// The text of the `i`-th seeded item.
pub open spec fn seed_text(i: nat) -> Seq<char> {
    "Todo item "@ + dec_digits(i)
}

/// The `j`-th entry of the seeded list (ids run from 1, every third item
/// starts out completed).
pub open spec fn seed_item(j: int) -> TodoView {
    TodoView { id: j + 1, text: seed_text((j + 1) as nat), completed: (j + 1) % 3 == 0 }
}

/// The list the application starts with: one hundred generated items.
pub open spec fn seed_items() -> Seq<TodoView> {
    Seq::new(100, |j: int| seed_item(j))
}

/// The whole state at application start.
pub open spec fn init_view() -> AppView {
    AppView {
        items: seed_items(),
        draft: Seq::<char>::empty(),
        filter: Filter::All,
        next_id: 101,
    }
}

/// The application state: the items, the pending input buffer, the active
/// filter, and the next id to assign.
pub struct App {
    pub todos: Vec<Todo>,
    pub input_value: String,
    pub filter: Filter,
    pub next_id: usize,
}

impl App {
    pub open spec fn model(&self) -> AppView {
        AppView {
            items: seq_model(self.todos@),
            draft: self.input_value@,
            filter: self.filter,
            next_id: self.next_id as int,
        }
    }

    pub open spec fn wf(&self) -> bool {
        self.model().wf()
    }

    /// Builds the freshly seeded state a session starts from.
    pub fn create() -> (app: App)
        ensures
            app.model() == init_view(),
            app.wf(),
    {
        let mut todos: Vec<Todo> = Vec::new();
        let mut i: usize = 1;
        while i <= 100
            invariant
                1 <= i <= 101,
                todos@.len() == i - 1,
                forall|j: int| 0 <= j < i - 1 ==> #[trigger] todos@[j].model() == seed_item(j),
            decreases 101 - i,
        {
            let mut text = fmt_usize(i);
            let mut line = String::from_str("Todo item ");
            line.append(text.as_str());
            todos.push(Todo { id: i, text: line, completed: i % 3 == 0 });
            i = i + 1;
        }
        let app = App {
            todos,
            input_value: String::new(),
            filter: Filter::All,
            next_id: 101,
        };
        proof {
            assert(seq_model(app.todos@) =~= seed_items());
            assert(app.model() =~= init_view());
        }
        app
    }

    /// Adds the draft as a new item at the front of the list, unless the
    /// draft is blank, in which case nothing changes. Returns whether the
    /// state changed.
    pub fn add_todo(&mut self) -> (changed: bool)
        requires
            old(self).wf(),
            old(self).next_id < usize::MAX,
        ensures
            final(self).model() == add_spec(old(self).model()),
            changed == !blank(old(self).model().draft),
            final(self).wf(),
    {
        if is_blank(self.input_value.as_str()) {
            false
        } else {
            let text = self.input_value.clone();
            let todo = Todo { id: self.next_id, text, completed: false };
            self.todos.insert(0, todo);
            self.next_id = self.next_id + 1;
            self.input_value = String::new();
            proof {
                let s = old(self).model();
                assert(seq_model(self.todos@) =~= seq![new_item(s)] + s.items);
                assert(self.model() =~= add_spec(s));
                assert forall|i: int, j: int|
                    0 <= i < j < self.model().items.len() implies self.model().items[i].id
                    != self.model().items[j].id by {
                    if i > 0 {
                        assert(s.items[i - 1].id != s.items[j - 1].id);
                    }
                }
            }
            true
        }
    }

    /// Flips the completion flag of the item carrying `id`; with no such
    /// item this is a no-op. Returns whether an item was found.
    pub fn toggle_todo(&mut self, id: usize) -> (changed: bool)
        requires
            old(self).wf(),
        ensures
            final(self).model() == (AppView {
                items: toggle_spec(old(self).model().items, id as int),
                ..old(self).model()
            }),
            changed == contains_id(old(self).model().items, id as int),
            final(self).wf(),
    {
        let ghost orig = self.todos@;
        let n = self.todos.len();
        let mut i: usize = 0;
        let mut changed = false;
        while i < n
            invariant
                i <= n,
                n == self.todos@.len() == orig.len(),
                self.input_value == old(self).input_value,
                self.filter == old(self).filter,
                self.next_id == old(self).next_id,
                forall|j: int| i <= j < n ==> self.todos@[j] == orig[j],
                forall|j: int|
                    0 <= j < i ==> #[trigger] self.todos@[j] == (if orig[j].id == id {
                        Todo { completed: !orig[j].completed, ..orig[j] }
                    } else {
                        orig[j]
                    }),
                changed == exists|j: int| 0 <= j < i && #[trigger] orig[j].id == id,
            decreases n - i,
        {
            if self.todos[i].id == id {
                let flipped = !self.todos[i].completed;
                self.todos[i].completed = flipped;
                changed = true;
                proof {
                    assert(orig[i as int].id == id);
                }
            }
            i = i + 1;
        }
        proof {
            let items = seq_model(orig);
            assert forall|j: int| 0 <= j < orig.len() implies seq_model(self.todos@)[j]
                == toggle_spec(items, id as int)[j] by {
                if orig[j].id == id {
                    assert(self.todos@[j] == (Todo { completed: !orig[j].completed, ..orig[j] }));
                    assert(items[j].id == id as int);
                } else {
                    assert(self.todos@[j] == orig[j]);
                    assert(items[j].id != id as int);
                }
            }
            assert(seq_model(self.todos@) =~= toggle_spec(items, id as int));
            assert(self.model() =~= (AppView {
                items: toggle_spec(old(self).model().items, id as int),
                ..old(self).model()
            }));
            if changed {
                let j = choose|j: int| 0 <= j < n && #[trigger] orig[j].id == id;
                assert(items[j].id == id as int);
                assert(contains_id(items, id as int));
            } else {
                assert forall|j: int| 0 <= j < items.len() implies #[trigger] items[j].id
                    != id as int by {
                    assert(orig[j].id != id);
                }
            }
            assert forall|p: int, q: int|
                0 <= p < q < self.model().items.len() implies self.model().items[p].id
                != self.model().items[q].id by {
                assert(old(self).model().items[p].id != old(self).model().items[q].id);
            }
        }
        changed
    }

    /// Removes the item carrying `id` from the list; with no such item
    /// this is a no-op.
    pub fn delete_todo(&mut self, id: usize)
        requires
            old(self).wf(),
        ensures
            final(self).model() == (AppView {
                items: delete_spec(old(self).model().items, id as int),
                ..old(self).model()
            }),
            final(self).wf(),
    {
        let ghost orig = seq_model(self.todos@);
        let mut kept: Vec<Todo> = Vec::new();
        let n = self.todos.len();
        let mut i: usize = 0;
        while i < n
            invariant
                i <= n,
                n == self.todos@.len() == orig.len(),
                orig == seq_model(self.todos@),
                seq_model(kept@) == orig.subrange(0, i as int).filter(keeps(id as int)),
            decreases n - i,
        {
            proof {
                assert(orig.subrange(0, i + 1).drop_last() =~= orig.subrange(0, i as int));
                assert(orig.subrange(0, i + 1).last() == orig[i as int]);
                lemma_filter_step(orig.subrange(0, i + 1), keeps(id as int));
            }
            if self.todos[i].id != id {
                let ghost prev = kept@;
                let item = self.todos[i].clone();
                kept.push(item);
                proof {
                    assert(seq_model(kept@) =~= seq_model(prev).push(orig[i as int]));
                }
            }
            i = i + 1;
        }
        self.todos = kept;
        proof {
            assert(orig.subrange(0, n as int) =~= orig);
            lemma_filter_distinct_ids(orig, keeps(id as int));
            assert(self.model() =~= (AppView {
                items: delete_spec(old(self).model().items, id as int),
                ..old(self).model()
            }));
        }
    }

    /// Hands back the items the current filter mode shows, in the order
    /// of the list.
    pub fn filtered_items(&self) -> (out: Vec<Todo>)
        ensures
            seq_model(out@) == filter_spec(self.model().items, self.model().filter),
    {
        let ghost items = seq_model(self.todos@);
        let ghost pred = mode_pred(self.filter);
        let mut out: Vec<Todo> = Vec::new();
        let len = self.todos.len();
        let mut i: usize = 0;
        while i < len
            invariant
                i <= len,
                len == self.todos@.len() == items.len(),
                items == seq_model(self.todos@),
                pred == mode_pred(self.filter),
                seq_model(out@) == items.subrange(0, i as int).filter(pred),
            decreases len - i,
        {
            proof {
                assert(items.subrange(0, i + 1).drop_last() =~= items.subrange(0, i as int));
                assert(items.subrange(0, i + 1).last() == items[i as int]);
                lemma_filter_step(items.subrange(0, i + 1), pred);
            }
            let keep = match self.filter {
                Filter::All => true,
                Filter::Active => !self.todos[i].completed,
                Filter::Completed => self.todos[i].completed,
            };
            proof {
                assert(keep == pred(items[i as int]));
            }
            if keep {
                let ghost prev = out@;
                let item = self.todos[i].clone();
                out.push(item);
                proof {
                    assert(seq_model(out@) =~= seq_model(prev).push(items[i as int]));
                }
            }
            i = i + 1;
        }
        proof {
            assert(items.subrange(0, len as int) =~= items);
        }
        out
    }

    /// Counts the items still to do, whatever the filter mode says.
    pub fn remaining_count(&self) -> (n: usize)
        ensures
            n == remaining_spec(self.model().items),
    {
        let ghost items = seq_model(self.todos@);
        let len = self.todos.len();
        let mut n: usize = 0;
        let mut i: usize = 0;
        while i < len
            invariant
                i <= len,
                len == self.todos@.len() == items.len(),
                items == seq_model(self.todos@),
                n == items.subrange(0, i as int).filter(active()).len(),
                n <= i,
            decreases len - i,
        {
            proof {
                assert(items.subrange(0, i + 1).drop_last() =~= items.subrange(0, i as int));
                assert(items.subrange(0, i + 1).last() == items[i as int]);
                lemma_filter_step(items.subrange(0, i + 1), active());
            }
            if !self.todos[i].completed {
                n = n + 1;
            }
            i = i + 1;
        }
        proof {
            assert(items.subrange(0, len as int) =~= items);
        }
        n
    }

    /// Replaces the draft input buffer, unconditionally.
    pub fn set_draft_text(&mut self, value: String)
        ensures
            final(self).model() == (AppView { draft: value@, ..old(self).model() }),
            old(self).wf() ==> final(self).wf(),
    {
        self.input_value = value;
    }

    /// Replaces the filter mode, unconditionally.
    pub fn set_filter(&mut self, filter: Filter)
        ensures
            final(self).model() == (AppView { filter, ..old(self).model() }),
            old(self).wf() ==> final(self).wf(),
    {
        self.filter = filter;
    }

    /// Applies one message to the state and says whether the view should
    /// re-render.
    pub fn update(&mut self, msg: Msg) -> (render: bool)
        requires
            old(self).wf(),
            msg is AddTodo ==> old(self).next_id < usize::MAX,
        ensures
            final(self).model() == step(old(self).model(), msg),
            render == step_renders(old(self).model(), msg),
            final(self).wf(),
    {
        match msg {
            Msg::AddTodo => self.add_todo(),
            Msg::ToggleTodo(id) => self.toggle_todo(id),
            Msg::DeleteTodo(id) => {
                self.delete_todo(id);
                true
            },
            Msg::UpdateInput(value) => {
                self.set_draft_text(value);
                true
            },
            Msg::SetFilter(f) => {
                self.set_filter(f);
                true
            },
        }
    }
}

/// The whole state after one message.
pub open spec fn step(s: AppView, msg: Msg) -> AppView {
    match msg {
        Msg::AddTodo => add_spec(s),
        Msg::ToggleTodo(id) => AppView { items: toggle_spec(s.items, id as int), ..s },
        Msg::DeleteTodo(id) => AppView { items: delete_spec(s.items, id as int), ..s },
        Msg::UpdateInput(value) => AppView { draft: value@, ..s },
        Msg::SetFilter(f) => AppView { filter: f, ..s },
    }
}

/// Whether a message asks the view to re-render: everything but the two
/// silent no-ops (a blank add, a toggle of an absent id) does.
pub open spec fn step_renders(s: AppView, msg: Msg) -> bool {
    match msg {
        Msg::AddTodo => !blank(s.draft),
        Msg::ToggleTodo(id) => contains_id(s.items, id as int),
        Msg::DeleteTodo(_) => true,
        Msg::UpdateInput(_) => true,
        Msg::SetFilter(_) => true,
    }
}

/// Unfolds one step of `Seq::filter`: filtering a non-empty sequence
/// filters everything but the last element, then keeps or drops that
/// element.
pub proof fn lemma_filter_step(s: Seq<TodoView>, pred: spec_fn(TodoView) -> bool)
    requires
        s.len() > 0,
    ensures
        pred(s.last()) ==> s.filter(pred) == s.drop_last().filter(pred).push(s.last()),
        !pred(s.last()) ==> s.filter(pred) == s.drop_last().filter(pred),
{
    reveal(Seq::filter);
}

/// Every element a filter hands back stands somewhere in the original
/// list.
pub proof fn lemma_filter_membership(s: Seq<TodoView>, pred: spec_fn(TodoView) -> bool)
    ensures
        forall|i: int|
            0 <= i < s.filter(pred).len() ==> exists|k: int|
                0 <= k < s.len() && #[trigger] s.filter(pred)[i] == s[k],
    decreases s.len(),
{
    reveal(Seq::filter);
    if s.len() > 0 {
        let rest = s.drop_last();
        let f = rest.filter(pred);
        lemma_filter_membership(rest, pred);
        assert forall|i: int|
            0 <= i < s.filter(pred).len() implies exists|k: int|
            0 <= k < s.len() && #[trigger] s.filter(pred)[i] == s[k] by {
            if i < f.len() {
                let k = choose|k: int| 0 <= k < rest.len() && #[trigger] f[i] == rest[k];
                assert(s.filter(pred)[i] == s[k]);
            } else {
                assert(s.filter(pred)[i] == s[s.len() - 1]);
            }
        }
    }
}

/// Filtering keeps ids pairwise distinct, and hands back only elements of
/// the original list.
pub proof fn lemma_filter_distinct_ids(s: Seq<TodoView>, pred: spec_fn(TodoView) -> bool)
    requires
        forall|i: int, j: int| 0 <= i < j < s.len() ==> s[i].id != s[j].id,
    ensures
        forall|i: int, j: int|
            0 <= i < j < s.filter(pred).len() ==> s.filter(pred)[i].id != s.filter(pred)[j].id,
        forall|i: int|
            0 <= i < s.filter(pred).len() ==> exists|k: int|
                0 <= k < s.len() && #[trigger] s.filter(pred)[i] == s[k],
    decreases s.len(),
{
    reveal(Seq::filter);
    lemma_filter_membership(s, pred);
    if s.len() > 0 {
        let rest = s.drop_last();
        let f = rest.filter(pred);
        lemma_filter_distinct_ids(rest, pred);
        assert forall|i: int, j: int|
            0 <= i < j < s.filter(pred).len() implies s.filter(pred)[i].id != s.filter(
            pred,
        )[j].id by {
            if j < f.len() {
            } else if pred(s.last()) && j == f.len() {
                lemma_filter_membership(rest, pred);
                let k = choose|k: int| 0 <= k < rest.len() && #[trigger] f[i] == rest[k];
                assert(s[k].id != s[s.len() - 1].id);
            }
        }
    }
}

} // verus!
