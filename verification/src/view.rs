//! The derived values one render pass needs, as plain data: the rows the
//! current filter shows (with their accessibility labels), the stats line,
//! and the input state. A front end turns this into markup; an empty
//! `rows` means the empty-state placeholder is shown.

use vstd::prelude::*;

use crate::model::App;
use crate::model::Filter;
use crate::model::TodoView;
use crate::model::filter_spec;
use crate::model::remaining_spec;
use crate::model::seq_model;
use crate::text::dec_digits;
use crate::text::fmt_usize;

verus! {

/// One rendered list row: the item and its two accessibility labels.
pub struct Row {
    pub id: usize,
    pub text: String,
    pub completed: bool,
    /// The label of the row's checkbox: `Toggle ` plus the text.
    pub toggle_label: String,
    /// The label of the row's delete button: `Delete ` plus the text.
    pub delete_label: String,
}

/// The mathematical value of one [`Row`].
#[verifier::ext_equal]
pub ghost struct RowView {
    pub id: int,
    pub text: Seq<char>,
    pub completed: bool,
    pub toggle_label: Seq<char>,
    pub delete_label: Seq<char>,
}

impl Row {
    pub open spec fn model(&self) -> RowView {
        RowView {
            id: self.id as int,
            text: self.text@,
            completed: self.completed,
            toggle_label: self.toggle_label@,
            delete_label: self.delete_label@,
        }
    }
}

/// The row an item renders to.
pub open spec fn row_of(t: TodoView) -> RowView {
    RowView {
        id: t.id,
        text: t.text,
        completed: t.completed,
        toggle_label: "Toggle "@ + t.text,
        delete_label: "Delete "@ + t.text,
    }
}

/// The stats line under the filters: the count, the correctly pluralised
/// noun, and the word `remaining`.
pub open spec fn stats_line(n: nat) -> Seq<char> {
    dec_digits(n) + (if n == 1 {
        " item remaining"@
    } else {
        " items remaining"@
    })
}

/// Everything a render pass shows that is not static markup.
pub struct ViewModel {
    /// The pending value of the input field.
    pub draft: String,
    /// The filter button to mark active.
    pub filter: Filter,
    /// How many items are still to do.
    pub remaining: usize,
    /// The stats line, e.g. `3 items remaining`.
    pub stats: String,
    /// One row per item the filter shows; empty means the placeholder.
    pub rows: Vec<Row>,
}

/// The rows of `s`, as mathematical values.
pub open spec fn row_models(s: Seq<Row>) -> Seq<RowView> {
    s.map_values(|r: Row| r.model())
}

impl App {
    /// Computes one render pass worth of derived state.
    pub fn view(&self) -> (vm: ViewModel)
        ensures
            vm.draft@ == self.model().draft,
            vm.filter == self.model().filter,
            vm.remaining == remaining_spec(self.model().items),
            vm.stats@ == stats_line(remaining_spec(self.model().items)),
            row_models(vm.rows@) == filter_spec(self.model().items, self.model().filter).map_values(
                |t: TodoView| row_of(t),
            ),
    {
        let remaining = self.remaining_count();
        let mut stats = fmt_usize(remaining);
        if remaining == 1 {
            stats.append(" item remaining");
        } else {
            stats.append(" items remaining");
        }
        let filtered = self.filtered_items();
        let ghost shown = seq_model(filtered@);
        let mut rows: Vec<Row> = Vec::new();
        let len = filtered.len();
        let mut i: usize = 0;
        while i < len
            invariant
                i <= len,
                len == filtered@.len() == shown.len(),
                shown == seq_model(filtered@),
                rows@.len() == i,
                forall|j: int| 0 <= j < i ==> #[trigger] rows@[j].model() == row_of(shown[j]),
            decreases len - i,
        {
            let text = filtered[i].text.clone();
            let mut toggle_label = String::from_str("Toggle ");
            toggle_label.append(text.as_str());
            let mut delete_label = String::from_str("Delete ");
            delete_label.append(text.as_str());
            rows.push(
                Row {
                    id: filtered[i].id,
                    text,
                    completed: filtered[i].completed,
                    toggle_label,
                    delete_label,
                },
            );
            i = i + 1;
        }
        proof {
            assert(row_models(rows@) =~= shown.map_values(|t: TodoView| row_of(t)));
        }
        ViewModel { draft: self.input_value.clone(), filter: self.filter, remaining, stats, rows }
    }
}

} // verus!
