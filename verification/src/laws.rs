//! The general properties of the view-model, each proved once and for
//! all states: toggling is its own inverse, deletion removes exactly one
//! item and is idempotent, filtering shows the right items, and an add
//! prepends.

use vstd::prelude::*;

use crate::model::AppView;
use crate::model::Filter;
use crate::model::TodoView;
use crate::model::add_spec;
use crate::model::contains_id;
use crate::model::delete_spec;
use crate::model::filter_spec;
use crate::model::flip;
use crate::model::keeps;
use crate::model::lemma_filter_step;
use crate::model::mode_pred;
use crate::model::new_item;
use crate::model::remaining_spec;
use crate::model::toggle_spec;
use crate::text::blank;

verus! {

/// Filtering with a predicate that holds of every element changes
/// nothing.
pub proof fn lemma_filter_all_true(s: Seq<TodoView>, pred: spec_fn(TodoView) -> bool)
    requires
        forall|i: int| 0 <= i < s.len() ==> pred(#[trigger] s[i]),
    ensures
        s.filter(pred) == s,
    decreases s.len(),
{
    reveal(Seq::filter);
    if s.len() > 0 {
        let rest = s.drop_last();
        lemma_filter_all_true(rest, pred);
        assert(s.filter(pred) =~= s);
    } else {
        assert(s.filter(pred) =~= s);
    }
}

/// Toggling the same id twice restores every item, whatever the state.
pub proof fn lemma_toggle_twice(items: Seq<TodoView>, id: int)
    ensures
        toggle_spec(toggle_spec(items, id), id) == items,
{
    let once = toggle_spec(items, id);
    let twice = toggle_spec(once, id);
    assert forall|j: int| 0 <= j < items.len() implies twice[j] == items[j] by {
        if items[j].id == id {
            assert(once[j] == flip(items[j]));
            assert(twice[j] == flip(flip(items[j])));
            assert(flip(flip(items[j])) =~= items[j]);
        }
    }
    assert(twice =~= items);
}

/// Toggling an id that no item carries changes nothing.
pub proof fn lemma_toggle_missing(items: Seq<TodoView>, id: int)
    requires
        !contains_id(items, id),
    ensures
        toggle_spec(items, id) == items,
{
    assert forall|j: int| 0 <= j < items.len() implies toggle_spec(items, id)[j] == items[j] by {
        assert(items[j].id != id);
    }
    assert(toggle_spec(items, id) =~= items);
}

/// Deleting an id that no item carries changes nothing.
pub proof fn lemma_delete_missing(items: Seq<TodoView>, id: int)
    requires
        !contains_id(items, id),
    ensures
        delete_spec(items, id) == items,
{
    assert forall|i: int| 0 <= i < items.len() implies keeps(id)(#[trigger] items[i]) by {
        assert(items[i].id != id);
    }
    lemma_filter_all_true(items, keeps(id));
}

/// With pairwise distinct ids, deleting a present id removes exactly one
/// entry.
pub proof fn lemma_delete_removes_one(items: Seq<TodoView>, id: int)
    requires
        forall|i: int, j: int| 0 <= i < j < items.len() ==> items[i].id != items[j].id,
        contains_id(items, id),
    ensures
        delete_spec(items, id).len() == items.len() - 1,
    decreases items.len(),
{
    let rest = items.drop_last();
    let lst = items.last();
    lemma_filter_step(items, keeps(id));
    if lst.id == id {
        assert forall|j: int| 0 <= j < rest.len() implies #[trigger] rest[j].id != id by {
            assert(items[j].id != items[items.len() - 1].id);
        }
        assert(!contains_id(rest, id));
        lemma_delete_missing(rest, id);
    } else {
        let w = choose|j: int| 0 <= j < items.len() && #[trigger] items[j].id == id;
        assert(rest[w].id == id);
        assert(contains_id(rest, id));
        lemma_delete_removes_one(rest, id);
    }
}

/// Deleting the same id a second time changes nothing.
pub proof fn lemma_delete_idempotent(items: Seq<TodoView>, id: int)
    ensures
        delete_spec(delete_spec(items, id), id) == delete_spec(items, id),
{
    broadcast use vstd::seq_lib::group_filter_ensures;

    let once = delete_spec(items, id);
    assert forall|j: int| 0 <= j < once.len() implies #[trigger] once[j].id != id by {
        assert(keeps(id)(once[j]));
    }
    assert(!contains_id(once, id));
    lemma_delete_missing(once, id);
}

/// What a filter mode shows: every shown item satisfies the mode's
/// predicate, and every item satisfying it is shown. The `All` mode shows
/// the list itself.
pub proof fn lemma_filter_shows(items: Seq<TodoView>, f: Filter)
    ensures
        forall|i: int|
            0 <= i < filter_spec(items, f).len() ==> mode_pred(f)(
                #[trigger] filter_spec(items, f)[i],
            ),
        forall|i: int|
            0 <= i < items.len() && mode_pred(f)(#[trigger] items[i]) ==> filter_spec(
                items,
                f,
            ).contains(items[i]),
        f == Filter::All ==> filter_spec(items, f) == items,
{
    broadcast use vstd::seq_lib::group_filter_ensures;

    if f == Filter::All {
        assert forall|i: int| 0 <= i < items.len() implies mode_pred(f)(#[trigger] items[i]) by {
        }
        lemma_filter_all_true(items, mode_pred(f));
    }
}

/// Where the `i`-th item a filter shows stands in the original list.
pub open spec fn filter_source(s: Seq<TodoView>, pred: spec_fn(TodoView) -> bool, i: int) -> int
    decreases s.len(),
{
    if s.len() == 0 {
        0
    } else if pred(s.last()) && i == s.drop_last().filter(pred).len() {
        s.len() - 1
    } else {
        filter_source(s.drop_last(), pred, i)
    }
}

/// Filtering preserves relative order: the `i`-th shown item stands in
/// the original list at [`filter_source`]`(s, pred, i)`, and those
/// positions are strictly increasing.
pub proof fn lemma_filter_preserves_order(s: Seq<TodoView>, pred: spec_fn(TodoView) -> bool)
    ensures
        forall|i: int|
            0 <= i < s.filter(pred).len() ==> 0 <= #[trigger] filter_source(s, pred, i) < s.len(),
        forall|i: int|
            0 <= i < s.filter(pred).len() ==> s[#[trigger] filter_source(s, pred, i)] == s.filter(
                pred,
            )[i],
        forall|i: int, j: int|
            0 <= i < j < s.filter(pred).len() ==> #[trigger] filter_source(s, pred, i)
                < #[trigger] filter_source(s, pred, j),
    decreases s.len(),
{
    reveal(Seq::filter);
    if s.len() > 0 {
        let rest = s.drop_last();
        let f = rest.filter(pred);
        lemma_filter_preserves_order(rest, pred);
        assert forall|i: int|
            0 <= i < s.filter(pred).len() implies 0 <= #[trigger] filter_source(s, pred, i)
            < s.len() && s[filter_source(s, pred, i)] == s.filter(pred)[i] by {
            if !(pred(s.last()) && i == f.len()) {
                assert(filter_source(s, pred, i) == filter_source(rest, pred, i));
                assert(rest[filter_source(rest, pred, i)] == f[i]);
            }
        }
        assert forall|i: int, j: int|
            0 <= i < j < s.filter(pred).len() implies #[trigger] filter_source(s, pred, i)
            < #[trigger] filter_source(s, pred, j) by {
            assert(filter_source(s, pred, i) == filter_source(rest, pred, i));
            if pred(s.last()) && j == f.len() {
                assert(filter_source(rest, pred, i) < rest.len());
            } else {
                assert(filter_source(s, pred, j) == filter_source(rest, pred, j));
                assert(filter_source(rest, pred, i) < filter_source(rest, pred, j));
            }
        }
    }
}

/// The order law, stated for a filter mode: what
/// [`crate::model::App::filtered_items`] hands back keeps the list's
/// relative order.
pub proof fn lemma_mode_preserves_order(items: Seq<TodoView>, f: Filter)
    ensures
        forall|i: int|
            0 <= i < filter_spec(items, f).len() ==> 0 <= #[trigger] filter_source(
                items,
                mode_pred(f),
                i,
            ) < items.len(),
        forall|i: int|
            0 <= i < filter_spec(items, f).len() ==> items[#[trigger] filter_source(
                items,
                mode_pred(f),
                i,
            )] == filter_spec(items, f)[i],
        forall|i: int, j: int|
            0 <= i < j < filter_spec(items, f).len() ==> #[trigger] filter_source(
                items,
                mode_pred(f),
                i,
            ) < #[trigger] filter_source(items, mode_pred(f), j),
{
    lemma_filter_preserves_order(items, mode_pred(f));
}

/// The remaining count is the length of what the `Active` mode shows, and
/// mentions no filter mode at all: it is the same in every mode.
pub proof fn lemma_remaining_counts_active(items: Seq<TodoView>)
    ensures
        remaining_spec(items) == filter_spec(items, Filter::Active).len(),
{
}

/// A non-blank add puts the new item in front of every item that was
/// already there, and moves each of those up by one slot unchanged.
pub proof fn lemma_add_prepends(s: AppView)
    requires
        !blank(s.draft),
    ensures
        add_spec(s).items.len() == s.items.len() + 1,
        add_spec(s).items[0] == new_item(s),
        forall|i: int| 0 <= i < s.items.len() ==> add_spec(s).items[i + 1] == #[trigger] s.items[i],
{
}

} // verus!
