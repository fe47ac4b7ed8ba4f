//! Proofs about the store model: how the first-match searches relate to the
//! membership predicates, how materialization behaves, and that every
//! transition preserves well-formedness.

use vstd::prelude::*;

use crate::entities::{CreateTodoModel, LabelModel, UpdateTodoModel};
use crate::model::{
    create_label_t, create_todo_t, delete_label_t, delete_todo_t, find_label, find_label_by_name,
    find_todo_rec, first_missing, has_label, has_todo, label_index, resolve, scrub, todo_index,
    todos_ascending, update_todo_t, wf, StoreModel, TodoRecModel,
};

verus! {

/// `find_label` returns the first label with the given id, exactly when one exists.
pub proof fn lemma_find_label_props(labels: Seq<LabelModel>, id: int)
    ensures
        has_label(labels, id) <==> (find_label(labels, id) is Some),
        find_label(labels, id) is Some ==> {
            &&& 0 <= label_index(labels, id) < labels.len()
            &&& labels[label_index(labels, id)] == find_label(labels, id)->0
            &&& (find_label(labels, id)->0).id == id
            &&& forall|k: int| 0 <= k < label_index(labels, id) ==> labels[k].id != id
        },
    decreases labels.len(),
{
    if labels.len() == 0 {
        assert(!has_label(labels, id));
    } else if labels[0].id == id {
        assert(has_label(labels, id));
    } else {
        let rest = labels.drop_first();
        lemma_find_label_props(rest, id);
        if has_label(labels, id) {
            let w = choose|i: int| 0 <= i < labels.len() && labels[i].id == id;
            assert(rest[w - 1].id == id);
            assert(has_label(rest, id));
        }
        if has_label(rest, id) {
            let w = choose|i: int| 0 <= i < rest.len() && rest[i].id == id;
            assert(labels[w + 1].id == id);
            assert(has_label(labels, id));
        }
        if find_label(labels, id) is Some {
            let li = label_index(labels, id);
            assert(li == 1 + label_index(rest, id));
            assert(labels[li] == rest[li - 1]);
            assert forall|k: int| 0 <= k < li implies labels[k].id != id by {
                if k >= 1 {
                    assert(labels[k] == rest[k - 1]);
                }
            }
        }
    }
}

/// `find_label_by_name` returns the first label with the given name, exactly
/// when one exists.
pub proof fn lemma_find_label_by_name_props(labels: Seq<LabelModel>, name: Seq<char>)
    ensures
        (find_label_by_name(labels, name) is None) <==> (forall|k: int|
            0 <= k < labels.len() ==> (#[trigger] labels[k]).name != name),
        find_label_by_name(labels, name) is Some ==> exists|k: int|
            0 <= k < labels.len() && #[trigger] labels[k] == find_label_by_name(labels, name)->0
                && labels[k].name == name,
    decreases labels.len(),
{
    if labels.len() == 0 {
    } else if labels[0].name == name {
        assert(labels[0] == find_label_by_name(labels, name)->0);
    } else {
        let rest = labels.drop_first();
        lemma_find_label_by_name_props(rest, name);
        if find_label_by_name(rest, name) is Some {
            let w = choose|k: int|
                0 <= k < rest.len() && #[trigger] rest[k] == find_label_by_name(rest, name)->0
                    && rest[k].name == name;
            assert(labels[w + 1] == rest[w]);
        } else {
            assert forall|k: int|
                0 <= k < labels.len() implies (#[trigger] labels[k]).name != name by {
                if k >= 1 {
                    assert(labels[k] == rest[k - 1]);
                }
            }
        }
    }
}

/// `find_todo_rec` returns the first stored todo with the given id, exactly
/// when one exists.
pub proof fn lemma_find_todo_props(todos: Seq<TodoRecModel>, id: int)
    ensures
        has_todo(todos, id) <==> (find_todo_rec(todos, id) is Some),
        find_todo_rec(todos, id) is Some ==> {
            &&& 0 <= todo_index(todos, id) < todos.len()
            &&& todos[todo_index(todos, id)] == find_todo_rec(todos, id)->0
            &&& (find_todo_rec(todos, id)->0).id == id
            &&& forall|k: int| 0 <= k < todo_index(todos, id) ==> todos[k].id != id
        },
    decreases todos.len(),
{
    if todos.len() == 0 {
        assert(!has_todo(todos, id));
    } else if todos[0].id == id {
        assert(has_todo(todos, id));
    } else {
        let rest = todos.drop_first();
        lemma_find_todo_props(rest, id);
        if has_todo(todos, id) {
            let w = choose|i: int| 0 <= i < todos.len() && todos[i].id == id;
            assert(rest[w - 1].id == id);
            assert(has_todo(rest, id));
        }
        if has_todo(rest, id) {
            let w = choose|i: int| 0 <= i < rest.len() && rest[i].id == id;
            assert(todos[w + 1].id == id);
            assert(has_todo(todos, id));
        }
        if find_todo_rec(todos, id) is Some {
            let ti = todo_index(todos, id);
            assert(ti == 1 + todo_index(rest, id));
            assert(todos[ti] == rest[ti - 1]);
            assert forall|k: int| 0 <= k < ti implies todos[k].id != id by {
                if k >= 1 {
                    assert(todos[k] == rest[k - 1]);
                }
            }
        }
    }
}

/// When every referenced id up to `k` resolves and `ids[k]` does not,
/// `first_missing` reports `ids[k]`.
pub proof fn lemma_first_missing_at(labels: Seq<LabelModel>, ids: Seq<int>, k: int)
    requires
        0 <= k < ids.len(),
        find_label(labels, ids[k]) is None,
        forall|j: int| 0 <= j < k ==> find_label(labels, #[trigger] ids[j]) is Some,
    ensures
        first_missing(labels, ids) == Some(ids[k]),
    decreases ids.len(),
{
    if k == 0 {
    } else {
        let rest = ids.drop_first();
        assert(forall|j: int| 0 <= j < rest.len() ==> rest[j] == ids[j + 1]);
        lemma_first_missing_at(labels, rest, k - 1);
    }
}

/// Resolving one more id appends its label, or nothing when it is missing.
pub proof fn lemma_resolve_push(labels: Seq<LabelModel>, ids: Seq<int>, x: int)
    ensures
        resolve(labels, ids.push(x)) == resolve(labels, ids) + (match find_label(labels, x) {
            Some(l) => seq![l],
            None => Seq::<LabelModel>::empty(),
        }),
    decreases ids.len(),
{
    let pushed = ids.push(x);
    if ids.len() == 0 {
        assert(pushed[0] == x);
        assert(pushed.drop_first() =~= ids);
        assert(resolve(labels, pushed) =~= resolve(labels, ids) + (match find_label(labels, x) {
            Some(l) => seq![l],
            None => Seq::<LabelModel>::empty(),
        }));
    } else {
        assert(pushed[0] == ids[0]);
        assert(pushed.drop_first() =~= ids.drop_first().push(x));
        lemma_resolve_push(labels, ids.drop_first(), x);
        assert(resolve(labels, pushed) =~= resolve(labels, ids) + (match find_label(labels, x) {
            Some(l) => seq![l],
            None => Seq::<LabelModel>::empty(),
        }));
    }
}

/// Every materialized label comes from the label store: when no stored label
/// carries the given id, no resolved label does either.
pub proof fn lemma_resolve_no_id(labels: Seq<LabelModel>, ids: Seq<int>, id: int)
    requires
        forall|k: int| 0 <= k < labels.len() ==> (#[trigger] labels[k]).id != id,
    ensures
        forall|j: int| 0 <= j < resolve(labels, ids).len() ==> (#[trigger] resolve(labels, ids)[j]).id
            != id,
    decreases ids.len(),
{
    if ids.len() == 0 {
    } else {
        lemma_resolve_no_id(labels, ids.drop_first(), id);
        let r = resolve(labels, ids);
        let rrest = resolve(labels, ids.drop_first());
        match find_label(labels, ids[0]) {
            Some(l) => {
                lemma_find_label_props(labels, ids[0]);
                assert(labels[label_index(labels, ids[0])] == l);
                assert(l.id != id);
                assert(r == seq![l] + rrest);
                assert forall|j: int| 0 <= j < r.len() implies (#[trigger] r[j]).id != id by {
                    if j == 0 {
                        assert(r[j] == l);
                    } else {
                        assert(r[j] == rrest[j - 1]);
                    }
                }
            },
            None => {
                assert(r == rrest);
            },
        }
    }
}

/// A reported missing id is one of the referenced ids.
pub proof fn lemma_first_missing_member(labels: Seq<LabelModel>, ids: Seq<int>)
    ensures
        first_missing(labels, ids) is Some ==> ids.contains(first_missing(labels, ids)->0),
    decreases ids.len(),
{
    if ids.len() == 0 {
    } else if find_label(labels, ids[0]) is None {
        assert(ids[0] == first_missing(labels, ids)->0);
    } else {
        let rest = ids.drop_first();
        lemma_first_missing_member(labels, rest);
        if first_missing(labels, rest) is Some {
            let w = choose|k: int|
                0 <= k < rest.len() && rest[k] == first_missing(labels, rest)->0;
            assert(ids[w + 1] == rest[w]);
        }
    }
}

/// When every referenced id resolves, materialization yields exactly one
/// label per id, in order.
pub proof fn lemma_resolve_all_present(labels: Seq<LabelModel>, ids: Seq<int>)
    requires
        forall|k: int| 0 <= k < ids.len() ==> find_label(labels, #[trigger] ids[k]) is Some,
    ensures
        resolve(labels, ids).len() == ids.len(),
        forall|k: int|
            0 <= k < ids.len() ==> (#[trigger] resolve(labels, ids)[k]) == find_label(
                labels,
                ids[k],
            )->0,
        forall|k: int|
            0 <= k < ids.len() ==> (#[trigger] resolve(labels, ids)[k]).id == ids[k],
    decreases ids.len(),
{
    if ids.len() == 0 {
    } else {
        let rest = ids.drop_first();
        assert(forall|j: int| 0 <= j < rest.len() ==> rest[j] == ids[j + 1]);
        lemma_resolve_all_present(labels, rest);
        let l = find_label(labels, ids[0])->0;
        lemma_find_label_props(labels, ids[0]);
        assert(resolve(labels, ids) == seq![l] + resolve(labels, rest));
        assert forall|k: int| 0 <= k < ids.len() implies (#[trigger] resolve(labels, ids)[k])
            == find_label(labels, ids[k])->0 && resolve(labels, ids)[k].id == ids[k] by {
            if k == 0 {
                assert(resolve(labels, ids)[0] == l);
            } else {
                assert(resolve(labels, ids)[k] == resolve(labels, rest)[k - 1]);
                assert(rest[k - 1] == ids[k]);
                lemma_find_label_props(labels, ids[k]);
            }
        }
    }
}

/// Nothing is missing exactly when every referenced id resolves.
pub proof fn lemma_first_missing_none_iff(labels: Seq<LabelModel>, ids: Seq<int>)
    ensures
        (first_missing(labels, ids) is None) <==> (forall|j: int|
            0 <= j < ids.len() ==> find_label(labels, #[trigger] ids[j]) is Some),
    decreases ids.len(),
{
    if ids.len() == 0 {
    } else {
        let rest = ids.drop_first();
        lemma_first_missing_none_iff(labels, rest);
        if find_label(labels, ids[0]) is Some {
            if first_missing(labels, ids) is None {
                assert forall|j: int|
                    0 <= j < ids.len() implies find_label(labels, #[trigger] ids[j]) is Some by {
                    if j >= 1 {
                        assert(ids[j] == rest[j - 1]);
                    }
                }
            } else {
                assert(!(forall|j: int|
                    0 <= j < rest.len() ==> find_label(labels, #[trigger] rest[j]) is Some));
                let w = choose|j: int|
                    !(0 <= j < rest.len() ==> find_label(labels, #[trigger] rest[j]) is Some);
                assert(ids[w + 1] == rest[w]);
            }
        }
    }
}

/// Creating a label preserves well-formedness and leaves the todos alone.
pub proof fn lemma_create_label_wf(m: StoreModel, name: Seq<char>)
    requires
        wf(m),
    ensures
        wf(create_label_t(m, name).0),
        create_label_t(m, name).0.todos == m.todos,
        create_label_t(m, name).0.next_todo_id == m.next_todo_id,
{
    lemma_find_label_by_name_props(m.labels, name);
    if find_label_by_name(m.labels, name) is None && m.next_label_id != i32::MAX as int {
        let l = LabelModel { id: m.next_label_id, name };
        let nl = m.labels.push(l);
        let n = m.labels.len() as int;
        assert(forall|i: int| 0 <= i < n ==> nl[i] == #[trigger] m.labels[i]);
        assert(nl[n] == l);
        assert forall|i: int, j: int| 0 <= i < j < nl.len() implies nl[i].id < nl[j].id by {
            if j < n {
                assert(nl[i] == m.labels[i] && nl[j] == m.labels[j]);
            } else {
                assert(nl[i] == m.labels[i] && nl[j] == l);
            }
        }
        assert forall|i: int, j: int|
            0 <= i < nl.len() && 0 <= j < nl.len() && i != j implies nl[i].name != nl[j].name by {
            if i < n && j < n {
                assert(nl[i] == m.labels[i] && nl[j] == m.labels[j]);
            } else if i < n {
                assert(nl[i] == m.labels[i] && nl[j] == l);
            } else {
                assert(nl[i] == l && nl[j] == m.labels[j]);
            }
        }
        let m1 = create_label_t(m, name).0;
        assert forall|i: int, k: int|
            0 <= i < m1.todos.len() && 0 <= k < m1.todos[i].label_ids.len() implies has_label(
            m1.labels,
            #[trigger] m1.todos[i].label_ids[k],
        ) by {
            assert(has_label(m.labels, m.todos[i].label_ids[k]));
            let w = choose|q: int|
                0 <= q < m.labels.len() && m.labels[q].id == m.todos[i].label_ids[k];
            assert(nl[w] == m.labels[w]);
        }
    }
}

/// Deleting a label preserves well-formedness; afterwards no stored label and
/// no stored association carries the deleted id, and the todos themselves
/// keep their ids, texts and completion flags.
pub proof fn lemma_delete_label_wf(m: StoreModel, id: int)
    requires
        wf(m),
    ensures
        wf(delete_label_t(m, id).0),
        delete_label_t(m, id).0.next_label_id == m.next_label_id,
        delete_label_t(m, id).0.next_todo_id == m.next_todo_id,
        has_label(m.labels, id) ==> {
            let m1 = delete_label_t(m, id).0;
            &&& forall|k: int| 0 <= k < m1.labels.len() ==> (#[trigger] m1.labels[k]).id != id
            &&& m1.todos.len() == m.todos.len()
            &&& forall|i: int|
                0 <= i < m.todos.len() ==> #[trigger] m1.todos[i] == scrub(m.todos[i], id)
        },
{
    if has_label(m.labels, id) {
        lemma_find_label_props(m.labels, id);
        let idx = label_index(m.labels, id);
        let nl = m.labels.remove(idx);
        let m1 = delete_label_t(m, id).0;
        assert(forall|j: int| 0 <= j < idx ==> nl[j] == #[trigger] m.labels[j]);
        assert(forall|j: int| idx <= j < nl.len() ==> #[trigger] nl[j] == m.labels[j + 1]);
        // ids are unique, so only position idx carried the deleted id
        assert forall|k: int| 0 <= k < m.labels.len() && k != idx implies (#[trigger] m.labels[k]).id
            != id by {
            if k < idx {
                assert(m.labels[k].id < m.labels[idx].id);
            } else {
                assert(m.labels[idx].id < m.labels[k].id);
            }
        }
        assert forall|k: int| 0 <= k < nl.len() implies (#[trigger] nl[k]).id != id by {
            if k < idx {
                assert(nl[k] == m.labels[k]);
            } else {
                assert(nl[k] == m.labels[k + 1]);
            }
        }
        assert forall|i: int, j: int| 0 <= i < j < nl.len() implies nl[i].id < nl[j].id by {
            if j < idx {
                assert(nl[i] == m.labels[i] && nl[j] == m.labels[j]);
            } else if i < idx {
                assert(nl[i] == m.labels[i] && nl[j] == m.labels[j + 1]);
            } else {
                assert(nl[i] == m.labels[i + 1] && nl[j] == m.labels[j + 1]);
            }
        }
        assert forall|i: int, j: int|
            0 <= i < nl.len() && 0 <= j < nl.len() && i != j implies nl[i].name != nl[j].name by {
            let i0 = if i < idx { i } else { i + 1 };
            let j0 = if j < idx { j } else { j + 1 };
            assert(nl[i] == m.labels[i0] && nl[j] == m.labels[j0]);
        }
        assert(forall|i: int| 0 <= i < nl.len() ==> 1 <= (#[trigger] nl[i]).id < m.next_label_id);
        assert(forall|i: int|
            0 <= i < m1.todos.len() ==> #[trigger] m1.todos[i] == scrub(m.todos[i], id));
        assert forall|i: int, k: int|
            0 <= i < m1.todos.len() && 0 <= k < m1.todos[i].label_ids.len() implies has_label(
            m1.labels,
            #[trigger] m1.todos[i].label_ids[k],
        ) by {
            let orig = m.todos[i].label_ids;
            let kept = orig.filter(crate::model::keeps(id));
            lemma_filter_members(orig, crate::model::keeps(id));
            assert(m1.todos[i].label_ids == kept);
            let x = kept[k];
            orig.lemma_filter_pred(crate::model::keeps(id), k);
            assert(orig.contains(x));
            let p = choose|p: int| 0 <= p < orig.len() && orig[p] == x;
            assert(has_label(m.labels, orig[p]));
            assert(x != id);
            let w = choose|q: int| 0 <= q < m.labels.len() && m.labels[q].id == x;
            assert(w != idx);
            if w < idx {
                assert(nl[w] == m.labels[w]);
                assert(has_label(nl, x));
            } else {
                assert(nl[w - 1] == m.labels[w]);
                assert(has_label(nl, x));
            }
        }
        assert(todos_ascending(m1.todos));
        assert(forall|i: int|
            0 <= i < m1.todos.len() ==> 1 <= (#[trigger] m1.todos[i]).id < m.next_todo_id);
    }
}

/// Creating a todo preserves well-formedness and leaves the labels alone.
pub proof fn lemma_create_todo_wf(m: StoreModel, input: CreateTodoModel)
    requires
        wf(m),
    ensures
        wf(create_todo_t(m, input).0),
        create_todo_t(m, input).0.labels == m.labels,
        create_todo_t(m, input).0.next_label_id == m.next_label_id,
{
    if first_missing(m.labels, input.labels) is None && m.next_todo_id != i32::MAX as int {
        let rec = TodoRecModel {
            id: m.next_todo_id,
            text: input.text,
            completed: false,
            label_ids: input.labels,
        };
        let nt = m.todos.push(rec);
        let n = m.todos.len() as int;
        assert(forall|i: int| 0 <= i < n ==> nt[i] == #[trigger] m.todos[i]);
        assert(nt[n] == rec);
        assert forall|i: int, j: int| 0 <= i < j < nt.len() implies nt[i].id < nt[j].id by {
            if j < n {
                assert(nt[i] == m.todos[i] && nt[j] == m.todos[j]);
            } else {
                assert(nt[i] == m.todos[i] && nt[j] == rec);
            }
        }
        lemma_first_missing_none_iff(m.labels, input.labels);
        assert forall|i: int, k: int|
            0 <= i < nt.len() && 0 <= k < nt[i].label_ids.len() implies has_label(
            m.labels,
            #[trigger] nt[i].label_ids[k],
        ) by {
            if i < n {
                assert(nt[i] == m.todos[i]);
                assert(has_label(m.labels, m.todos[i].label_ids[k]));
            } else {
                assert(nt[i] == rec);
                assert(find_label(m.labels, input.labels[k]) is Some);
                lemma_find_label_props(m.labels, input.labels[k]);
            }
        }
    }
}

/// Updating a todo preserves well-formedness and leaves the labels alone.
pub proof fn lemma_update_todo_wf(m: StoreModel, id: int, up: UpdateTodoModel)
    requires
        wf(m),
    ensures
        wf(update_todo_t(m, id, up).0),
        update_todo_t(m, id, up).0.labels == m.labels,
        update_todo_t(m, id, up).0.next_label_id == m.next_label_id,
        update_todo_t(m, id, up).0.next_todo_id == m.next_todo_id,
{
    if has_todo(m.todos, id) {
        lemma_find_todo_props(m.todos, id);
        let i = todo_index(m.todos, id);
        let rec = crate::model::patch(m.todos[i], up);
        let nt = m.todos.update(i, rec);
        assert(forall|j: int| 0 <= j < nt.len() && j != i ==> nt[j] == #[trigger] m.todos[j]);
        assert(nt[i] == rec);
        assert(rec.id == m.todos[i].id && rec.label_ids == m.todos[i].label_ids);
        assert forall|p: int, q: int| 0 <= p < q < nt.len() implies nt[p].id < nt[q].id by {
            assert(nt[p].id == m.todos[p].id && nt[q].id == m.todos[q].id);
        }
        let m1 = update_todo_t(m, id, up).0;
        assert forall|p: int, k: int|
            0 <= p < m1.todos.len() && 0 <= k < m1.todos[p].label_ids.len() implies has_label(
            m1.labels,
            #[trigger] m1.todos[p].label_ids[k],
        ) by {
            assert(m1.todos[p].label_ids == m.todos[p].label_ids);
            assert(has_label(m.labels, m.todos[p].label_ids[k]));
        }
        assert(forall|p: int|
            0 <= p < m1.todos.len() ==> 1 <= (#[trigger] m1.todos[p]).id < m.next_todo_id);
    }
}

/// Deleting a todo preserves well-formedness and leaves the labels alone.
pub proof fn lemma_delete_todo_wf(m: StoreModel, id: int)
    requires
        wf(m),
    ensures
        wf(delete_todo_t(m, id).0),
        delete_todo_t(m, id).0.labels == m.labels,
        delete_todo_t(m, id).0.next_label_id == m.next_label_id,
        delete_todo_t(m, id).0.next_todo_id == m.next_todo_id,
{
    if has_todo(m.todos, id) {
        lemma_find_todo_props(m.todos, id);
        let idx = todo_index(m.todos, id);
        let nt = m.todos.remove(idx);
        assert(forall|j: int| 0 <= j < idx ==> nt[j] == #[trigger] m.todos[j]);
        assert(forall|j: int| idx <= j < nt.len() ==> #[trigger] nt[j] == m.todos[j + 1]);
        assert forall|p: int, q: int| 0 <= p < q < nt.len() implies nt[p].id < nt[q].id by {
            let p0 = if p < idx { p } else { p + 1 };
            let q0 = if q < idx { q } else { q + 1 };
            assert(nt[p] == m.todos[p0] && nt[q] == m.todos[q0]);
        }
        assert forall|p: int, k: int|
            0 <= p < nt.len() && 0 <= k < nt[p].label_ids.len() implies has_label(
            m.labels,
            #[trigger] nt[p].label_ids[k],
        ) by {
            let p0 = if p < idx { p } else { p + 1 };
            assert(nt[p] == m.todos[p0]);
            assert(has_label(m.labels, m.todos[p0].label_ids[k]));
        }
        assert(forall|p: int|
            0 <= p < nt.len() ==> 1 <= (#[trigger] nt[p]).id < m.next_todo_id);
    }
}

/// Every element kept by a filter stood in the original sequence.
pub proof fn lemma_filter_members<A>(s: Seq<A>, pred: spec_fn(A) -> bool)
    ensures
        forall|i: int| 0 <= i < s.filter(pred).len() ==> s.contains(#[trigger] s.filter(pred)[i]),
    decreases s.len(),
{
    reveal(Seq::filter);
    if s.len() == 0 {
    } else {
        let sub = s.drop_last();
        lemma_filter_members(sub, pred);
        assert(forall|i: int| 0 <= i < sub.len() ==> sub[i] == s[i]);
        assert(forall|x: A| sub.contains(x) ==> s.contains(x)) by {
            assert(forall|x: A| sub.contains(x) ==> {
                let w = choose|k: int| 0 <= k < sub.len() && sub[k] == x;
                s[w] == x
            });
        }
        if pred(s.last()) {
            assert(s.filter(pred) == sub.filter(pred).push(s.last()));
            assert(s.contains(s.last()));
        } else {
            assert(s.filter(pred) == sub.filter(pred));
        }
    }
}

} // verus!
