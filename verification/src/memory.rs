//! The in-memory backend: a store of labels and todos with one monotonic id
//! counter per entity type. Every method is specified by the corresponding
//! transition on the store model. The backend owns its durable state; callers
//! only ever receive copies. To share one instance across concurrent
//! requests, put it behind the lock-guarded handle next door, which
//! serializes the operations modelled here.

use vstd::prelude::*;

use crate::entities::{
    label_result_view, todo_result_view, unit_result_view, CreateTodo, Label, RepositoryError,
    TodoEntity, UpdateTodo,
};
use crate::entities::{LabelModel, TodoModel};
use crate::model::{
    all_labels_q, all_todos_q, create_label_t, create_todo_t, delete_label_t, delete_todo_t,
    find_label, find_label_by_name, find_todo_rec, find_todo_t, has_label, has_todo, label_index,
    labels_ascending, label_names_unique, materialize, resolve, scrub, todo_index, update_todo_t,
    wf, StoreModel, TodoRecModel,
};
use crate::model_props::{
    lemma_create_label_wf, lemma_create_todo_wf, lemma_delete_label_wf, lemma_delete_todo_wf,
    lemma_find_label_by_name_props, lemma_find_label_props, lemma_find_todo_props,
    lemma_first_missing_at, lemma_first_missing_none_iff, lemma_resolve_push,
    lemma_update_todo_wf,
};

verus! {

/// Model of a sequence of labels.
pub open spec fn label_seq_view(labels: Seq<Label>) -> Seq<LabelModel> {
    labels.map_values(|l: Label| l@)
}

/// Model of a sequence of association ids.
pub open spec fn id_seq_view(ids: Seq<i32>) -> Seq<int> {
    ids.map_values(|x: i32| x as int)
}

/// A stored todo: text, completion flag and the label ids given at creation.
pub(crate) struct TodoRecord {
    id: i32,
    text: String,
    completed: bool,
    label_ids: Vec<i32>,
}

impl View for TodoRecord {
    type V = TodoRecModel;

    closed spec fn view(&self) -> TodoRecModel {
        TodoRecModel {
            id: self.id as int,
            text: self.text@,
            completed: self.completed,
            label_ids: id_seq_view(self.label_ids@),
        }
    }
}

/// Model of a sequence of stored todos.
pub(crate) open spec fn rec_seq_view(todos: Seq<TodoRecord>) -> Seq<TodoRecModel> {
    todos.map_values(|t: TodoRecord| t@)
}

/// The concurrency-safe in-memory realization of both repository contracts,
/// used to validate handler logic without external state.
pub struct MemoryBackend {
    labels: Vec<Label>,
    todos: Vec<TodoRecord>,
    next_label_id: i32,
    next_todo_id: i32,
}

impl View for MemoryBackend {
    type V = StoreModel;

    closed spec fn view(&self) -> StoreModel {
        StoreModel {
            labels: label_seq_view(self.labels@),
            todos: rec_seq_view(self.todos@),
            next_label_id: self.next_label_id as int,
            next_todo_id: self.next_todo_id as int,
        }
    }
}

/// Index of the first label with the given id, if any, tied to the
/// first-match search on the model.
fn position_by_id(labels: &Vec<Label>, id: i32) -> (r: Option<usize>)
    ensures
        match r {
            Some(i) => {
                &&& i < labels@.len()
                &&& find_label(label_seq_view(labels@), id as int) == Some(labels@[i as int]@)
                &&& label_index(label_seq_view(labels@), id as int) == i as int
                &&& labels@[i as int]@.id == id as int
            },
            None => find_label(label_seq_view(labels@), id as int) is None,
        },
{
    let ghost lm = label_seq_view(labels@);
    let mut i: usize = 0;
    while i < labels.len()
        invariant
            i <= labels@.len(),
            lm == label_seq_view(labels@),
            forall|k: int| 0 <= k < i as int ==> (#[trigger] lm[k]).id != id as int,
        decreases labels@.len() - i,
    {
        if labels[i].id == id {
            proof {
                assert(lm[i as int].id == id as int);
                lemma_find_label_props(lm, id as int);
                assert(has_label(lm, id as int));
                let li = label_index(lm, id as int);
                if li < i as int {
                    assert(lm[li].id != id as int);
                }
                assert(li == i as int);
            }
            return Some(i);
        }
        i += 1;
    }
    proof {
        lemma_find_label_props(lm, id as int);
        if has_label(lm, id as int) {
            let w = choose|k: int| 0 <= k < lm.len() && lm[k].id == id as int;
            assert(lm[w].id != id as int);
        }
    }
    None
}

/// Index of the first label with the given name, if any, tied to the
/// first-match search on the model.
fn position_by_name(labels: &Vec<Label>, name: &String) -> (r: Option<usize>)
    ensures
        match r {
            Some(i) => {
                &&& i < labels@.len()
                &&& labels@[i as int]@.name == name@
                &&& find_label_by_name(label_seq_view(labels@), name@) is Some
                &&& forall|k: int|
                    0 <= k < i as int ==> (#[trigger] label_seq_view(labels@)[k]).name != name@
            },
            None => find_label_by_name(label_seq_view(labels@), name@) is None,
        },
{
    let ghost lm = label_seq_view(labels@);
    let mut i: usize = 0;
    while i < labels.len()
        invariant
            i <= labels@.len(),
            lm == label_seq_view(labels@),
            forall|k: int| 0 <= k < i as int ==> (#[trigger] lm[k]).name != name@,
        decreases labels@.len() - i,
    {
        if labels[i].name == *name {
            proof {
                assert(lm[i as int].name == name@);
                lemma_find_label_by_name_props(lm, name@);
            }
            return Some(i);
        }
        i += 1;
    }
    proof {
        lemma_find_label_by_name_props(lm, name@);
    }
    None
}

/// Index of the first stored todo with the given id, if any, tied to the
/// first-match search on the model.
fn position_todo_by_id(todos: &Vec<TodoRecord>, id: i32) -> (r: Option<usize>)
    ensures
        match r {
            Some(i) => {
                &&& i < todos@.len()
                &&& find_todo_rec(rec_seq_view(todos@), id as int) == Some(todos@[i as int]@)
                &&& todo_index(rec_seq_view(todos@), id as int) == i as int
                &&& todos@[i as int]@.id == id as int
            },
            None => find_todo_rec(rec_seq_view(todos@), id as int) is None,
        },
{
    let ghost tm = rec_seq_view(todos@);
    let mut i: usize = 0;
    while i < todos.len()
        invariant
            i <= todos@.len(),
            tm == rec_seq_view(todos@),
            forall|k: int| 0 <= k < i as int ==> (#[trigger] tm[k]).id != id as int,
        decreases todos@.len() - i,
    {
        if todos[i].id == id {
            proof {
                assert(tm[i as int].id == id as int);
                lemma_find_todo_props(tm, id as int);
                assert(has_todo(tm, id as int));
                let ti = todo_index(tm, id as int);
                if ti < i as int {
                    assert(tm[ti].id != id as int);
                }
                assert(ti == i as int);
            }
            return Some(i);
        }
        i += 1;
    }
    proof {
        lemma_find_todo_props(tm, id as int);
        if has_todo(tm, id as int) {
            let w = choose|k: int| 0 <= k < tm.len() && tm[k].id == id as int;
            assert(tm[w].id != id as int);
        }
    }
    None
}

/// Model of a sequence of materialized todos.
pub open spec fn entity_seq_view(todos: Seq<TodoEntity>) -> Seq<TodoModel> {
    todos.map_values(|t: TodoEntity| t@)
}

/// A plain element-by-element copy of an association id list.
fn copy_ids(ids: &Vec<i32>) -> (r: Vec<i32>)
    ensures
        r@ == ids@,
{
    let mut out: Vec<i32> = Vec::new();
    let mut i: usize = 0;
    while i < ids.len()
        invariant
            i <= ids@.len(),
            out@ =~= ids@.take(i as int),
        decreases ids@.len() - i,
    {
        out.push(ids[i]);
        i += 1;
    }
    proof {
        assert(out@ =~= ids@);
    }
    out
}

/// Materializes an association: resolves each id to a copy of its label,
/// skipping ids that no longer name one.
fn resolve_labels(labels: &Vec<Label>, ids: &Vec<i32>) -> (r: Vec<Label>)
    ensures
        label_seq_view(r@) == resolve(label_seq_view(labels@), id_seq_view(ids@)),
{
    let ghost lm = label_seq_view(labels@);
    let ghost im = id_seq_view(ids@);
    let mut out: Vec<Label> = Vec::new();
    let mut p: usize = 0;
    while p < ids.len()
        invariant
            p <= ids@.len(),
            lm == label_seq_view(labels@),
            im == id_seq_view(ids@),
            label_seq_view(out@) =~= resolve(lm, im.take(p as int)),
        decreases ids@.len() - p,
    {
        let ghost prev = out@;
        match position_by_id(labels, ids[p]) {
            Some(i) => {
                out.push(labels[i].clone());
            },
            None => {
            },
        }
        proof {
            assert(im.take(p + 1) =~= im.take(p as int).push(im[p as int]));
            assert(im[p as int] == ids@[p as int] as int);
            lemma_resolve_push(lm, im.take(p as int), im[p as int]);
            assert(label_seq_view(out@) =~= resolve(lm, im.take(p + 1)));
        }
        p += 1;
    }
    proof {
        assert(im.take(im.len() as int) =~= im);
        assert(label_seq_view(out@) =~= resolve(lm, im));
    }
    out
}

impl MemoryBackend {
    /// Well-formedness of the backing store.
    pub open spec fn inv(&self) -> bool {
        wf(self@)
    }

    /// A fresh, empty backend: both id counters start at 1.
    pub fn new() -> (r: MemoryBackend)
        ensures
            r.inv(),
            r@ == (StoreModel {
                labels: Seq::<LabelModel>::empty(),
                todos: Seq::<TodoRecModel>::empty(),
                next_label_id: 1,
                next_todo_id: 1,
            }),
    {
        let r = MemoryBackend {
            labels: Vec::new(),
            todos: Vec::new(),
            next_label_id: 1,
            next_todo_id: 1,
        };
        proof {
            assert(label_seq_view(r.labels@) =~= Seq::<LabelModel>::empty());
            assert(rec_seq_view(r.todos@) =~= Seq::<TodoRecModel>::empty());
        }
        r
    }

    /// What a seed label set must satisfy: ids strictly ascending and within
    /// the id type's positive range, names pairwise distinct.
    pub open spec fn seed_ok(ls: Seq<LabelModel>) -> bool {
        &&& labels_ascending(ls)
        &&& label_names_unique(ls)
        &&& forall|i: int| 0 <= i < ls.len() ==> 1 <= (#[trigger] ls[i]).id < i32::MAX as int
    }

    /// A backend seeded with the given labels, for exercising the todo
    /// operations against a known label set; rejects a seed that breaks the
    /// store invariant. The label id counter resumes after the largest seeded id.
    #[verifier::loop_isolation(false)]
    pub fn with_labels(labels: Vec<Label>) -> (r: Option<MemoryBackend>)
        ensures
            (r is Some) <==> Self::seed_ok(label_seq_view(labels@)),
            r matches Some(b) ==> {
                &&& b.inv()
                &&& b@.labels == label_seq_view(labels@)
                &&& b@.todos == Seq::<TodoRecModel>::empty()
                &&& b@.next_todo_id == 1
            },
    {
        let ghost lm = label_seq_view(labels@);
        let mut j: usize = 0;
        while j < labels.len()
            invariant
                j <= labels@.len(),
                forall|p: int, q: int| 0 <= p < q < j as int ==> lm[p].id < lm[q].id,
                forall|p: int, q: int|
                    0 <= p < j as int && 0 <= q < j as int && p != q ==> lm[p].name != lm[q].name,
                forall|p: int| 0 <= p < j as int ==> 1 <= (#[trigger] lm[p]).id < i32::MAX as int,
            decreases labels@.len() - j,
        {
            if labels[j].id < 1 || labels[j].id >= i32::MAX {
                proof {
                    assert(!(1 <= lm[j as int].id < i32::MAX as int));
                }
                return None;
            }
            if j > 0 && labels[j - 1].id >= labels[j].id {
                proof {
                    assert(lm[j - 1].id >= lm[j as int].id);
                }
                return None;
            }
            let mut p: usize = 0;
            while p < j
                invariant
                    p <= j,
                    forall|q: int| 0 <= q < p as int ==> lm[q].name != lm[j as int].name,
                decreases j - p,
            {
                if labels[p].name == labels[j].name {
                    proof {
                        assert(lm[p as int].name == lm[j as int].name);
                    }
                    return None;
                }
                p += 1;
            }
            proof {
                assert forall|q: int| 0 <= q < j as int implies lm[q].id < lm[j as int].id by {
                    if q < j - 1 {
                        assert(lm[q].id < lm[j - 1].id);
                    }
                }
            }
            j += 1;
        }
        let next_label_id = if labels.len() == 0 {
            1
        } else {
            let last = labels[labels.len() - 1].id;
            proof {
                assert(lm[lm.len() - 1].id == last as int);
            }
            last + 1
        };
        let r = MemoryBackend { labels, todos: Vec::new(), next_label_id, next_todo_id: 1 };
        proof {
            assert(rec_seq_view(r.todos@) =~= Seq::<TodoRecModel>::empty());
            assert forall|i: int| 0 <= i < lm.len() implies 1 <= (#[trigger] lm[i]).id
                < r.next_label_id as int by {
                if i < lm.len() - 1 {
                    assert(lm[i].id < lm[lm.len() - 1].id);
                }
            }
        }
        Some(r)
    }

    /// Creates a label under a fresh id, or reports the existing label's id
    /// when the name is already taken.
    pub fn create_label(&mut self, name: String) -> (r: Result<Label, RepositoryError>)
        requires
            old(self).inv(),
        ensures
            final(self).inv(),
            final(self)@ == create_label_t(old(self)@, name@).0,
            label_result_view(r) == create_label_t(old(self)@, name@).1,
    {
        proof {
            lemma_create_label_wf(self@, name@);
        }
        let ghost m = self@;
        match position_by_name(&self.labels, &name) {
            Some(i) => {
                proof {
                    lemma_find_label_by_name_props(m.labels, name@);
                    let l = find_label_by_name(m.labels, name@)->0;
                    let k = choose|k: int|
                        0 <= k < m.labels.len() && #[trigger] m.labels[k] == l && m.labels[k].name
                            == name@;
                    assert(m.labels[i as int].name == name@);
                    if k != i as int {
                        assert(m.labels[k].name != m.labels[i as int].name);
                    }
                    assert(k == i as int);
                }
                Err(RepositoryError::Duplicate(self.labels[i].id))
            },
            None => {
                if self.next_label_id == i32::MAX {
                    return Err(RepositoryError::Unexpected(String::from_str(
                        "label id space exhausted",
                    )));
                }
                let id = self.next_label_id;
                let stored = Label { id, name };
                let returned = stored.clone();
                self.labels.push(stored);
                self.next_label_id = id + 1;
                proof {
                    assert(label_seq_view(self.labels@) =~= m.labels.push(
                        LabelModel { id: id as int, name: returned@.name },
                    ));
                    assert(rec_seq_view(self.todos@) == m.todos);
                    assert(self@ == create_label_t(m, returned@.name).0);
                }
                Ok(returned)
            },
        }
    }

    /// All labels, in ascending id order.
    pub fn all_labels(&self) -> (r: Vec<Label>)
        ensures
            label_seq_view(r@) == all_labels_q(self@),
    {
        let mut out: Vec<Label> = Vec::new();
        let mut i: usize = 0;
        while i < self.labels.len()
            invariant
                i <= self.labels@.len(),
                out@.len() == i as int,
                forall|k: int| 0 <= k < i as int ==> out@[k]@ == self.labels@[k]@,
            decreases self.labels@.len() - i,
        {
            out.push(self.labels[i].clone());
            i += 1;
        }
        proof {
            assert(label_seq_view(out@) =~= label_seq_view(self.labels@));
        }
        out
    }

    /// Deletes a label by id: the label leaves the store and its id is
    /// removed from the association of every todo referencing it; the todos
    /// themselves stay. Deleting a missing id reports it, idempotently.
    #[verifier::loop_isolation(false)]
    pub fn delete_label(&mut self, id: i32) -> (r: Result<(), RepositoryError>)
        requires
            old(self).inv(),
        ensures
            final(self).inv(),
            final(self)@ == delete_label_t(old(self)@, id as int).0,
            unit_result_view(r) == delete_label_t(old(self)@, id as int).1,
    {
        proof {
            lemma_delete_label_wf(self@, id as int);
        }
        let ghost m = self@;
        match position_by_id(&self.labels, id) {
            None => {
                proof {
                    lemma_find_label_props(m.labels, id as int);
                }
                Err(RepositoryError::NotFound(id))
            },
            Some(i) => {
                proof {
                    assert(m.labels[i as int].id == id as int);
                    assert(has_label(m.labels, id as int));
                }
                let mut new_todos: Vec<TodoRecord> = Vec::new();
                let mut k: usize = 0;
                while k < self.todos.len()
                    invariant
                        k <= self.todos@.len(),
                        m == self@,
                        new_todos@.len() == k as int,
                        forall|j: int|
                            0 <= j < k as int ==> (#[trigger] new_todos@[j])@ == scrub(
                                m.todos[j],
                                id as int,
                            ),
                    decreases self.todos@.len() - k,
                {
                    let rec = &self.todos[k];
                    let ghost s = id_seq_view(rec.label_ids@);
                    let ghost pred = crate::model::keeps(id as int);
                    let mut kept: Vec<i32> = Vec::new();
                    let mut p: usize = 0;
                    while p < rec.label_ids.len()
                        invariant
                            p <= rec.label_ids@.len(),
                            s == id_seq_view(rec.label_ids@),
                            pred == crate::model::keeps(id as int),
                            id_seq_view(kept@) =~= s.take(p as int).filter(pred),
                        decreases rec.label_ids@.len() - p,
                    {
                        let ghost kept0 = kept@;
                        if rec.label_ids[p] != id {
                            kept.push(rec.label_ids[p]);
                        }
                        proof {
                            reveal(Seq::filter);
                            assert(s.take(p + 1).drop_last() =~= s.take(p as int));
                            assert(s.take(p + 1).last() == s[p as int]);
                            assert(s[p as int] == rec.label_ids@[p as int] as int);
                            if rec.label_ids@[p as int] != id {
                                assert(id_seq_view(kept@) =~= id_seq_view(kept0).push(
                                    rec.label_ids@[p as int] as int,
                                ));
                            } else {
                                assert(kept@ == kept0);
                            }
                            assert(id_seq_view(kept@) =~= s.take(p + 1).filter(pred));
                        }
                        p += 1;
                    }
                    proof {
                        assert(s.take(s.len() as int) =~= s);
                        assert(id_seq_view(kept@) == s.filter(pred));
                        assert(m.todos[k as int] == rec@);
                    }
                    new_todos.push(
                        TodoRecord {
                            id: rec.id,
                            text: rec.text.clone(),
                            completed: rec.completed,
                            label_ids: kept,
                        },
                    );
                    k += 1;
                }
                self.todos = new_todos;
                self.labels.remove(i);
                proof {
                    let t = delete_label_t(m, id as int);
                    assert forall|j: int|
                        0 <= j < self.labels@.len() implies label_seq_view(self.labels@)[j]
                        == m.labels.remove(i as int)[j] by {
                        if j < i as int {
                        } else {
                        }
                    }
                    assert(label_seq_view(self.labels@) =~= m.labels.remove(i as int));
                    assert(rec_seq_view(self.todos@) =~= t.0.todos);
                    assert(self@ == t.0);
                }
                Ok(())
            },
        }
    }

    /// Creates a todo under a fresh id: it starts not completed, and every
    /// referenced label id must name an existing label — the first missing
    /// one is reported and nothing is stored. The returned todo carries the
    /// materialized labels.
    #[verifier::loop_isolation(false)]
    pub fn create_todo(&mut self, payload: CreateTodo) -> (r: Result<TodoEntity, RepositoryError>)
        requires
            old(self).inv(),
        ensures
            final(self).inv(),
            final(self)@ == create_todo_t(old(self)@, payload@).0,
            todo_result_view(r) == create_todo_t(old(self)@, payload@).1,
    {
        proof {
            lemma_create_todo_wf(self@, payload@);
        }
        let ghost m = self@;
        let ghost pm = payload@;
        let ghost im = id_seq_view(payload.labels@);
        proof {
            assert(im =~= pm.labels);
        }
        let mut k: usize = 0;
        while k < payload.labels.len()
            invariant
                k <= payload.labels@.len(),
                m == self@,
                im == id_seq_view(payload.labels@),
                im == pm.labels,
                pm == payload@,
                forall|j: int|
                    0 <= j < k as int ==> find_label(m.labels, #[trigger] im[j]) is Some,
            decreases payload.labels@.len() - k,
        {
            match position_by_id(&self.labels, payload.labels[k]) {
                None => {
                    proof {
                        assert(im[k as int] == payload.labels@[k as int] as int);
                        lemma_first_missing_at(m.labels, im, k as int);
                    }
                    return Err(RepositoryError::NotFound(payload.labels[k]));
                },
                Some(_) => {
                    proof {
                        assert(im[k as int] == payload.labels@[k as int] as int);
                        assert(find_label(m.labels, im[k as int]) is Some);
                    }
                },
            }
            k += 1;
        }
        proof {
            lemma_first_missing_none_iff(m.labels, im);
        }
        if self.next_todo_id == i32::MAX {
            return Err(
                RepositoryError::Unexpected(String::from_str("todo id space exhausted")),
            );
        }
        let id = self.next_todo_id;
        let CreateTodo { text, labels } = payload;
        let entity_text = text.clone();
        let labels_out = resolve_labels(&self.labels, &labels);
        let rec = TodoRecord { id, text, completed: false, label_ids: labels };
        self.todos.push(rec);
        self.next_todo_id = id + 1;
        let entity = TodoEntity { id, text: entity_text, completed: false, labels: labels_out };
        proof {
            let t = create_todo_t(m, pm);
            let recm = TodoRecModel {
                id: m.next_todo_id,
                text: pm.text,
                completed: false,
                label_ids: pm.labels,
            };
            assert(self.todos@.last()@ =~= recm);
            assert(rec_seq_view(self.todos@) =~= m.todos.push(recm));
            assert(self@ == t.0);
            assert(entity@.labels =~= resolve(m.labels, pm.labels));
            assert(entity@ == materialize(m.labels, recm));
        }
        Ok(entity)
    }

    /// Finds a todo by id, with its labels materialized; a missing id is
    /// reported as `NotFound`.
    pub fn find_todo(&self, id: i32) -> (r: Result<TodoEntity, RepositoryError>)
        ensures
            todo_result_view(r) == find_todo_t(self@, id as int),
    {
        match position_todo_by_id(&self.todos, id) {
            None => Err(RepositoryError::NotFound(id)),
            Some(i) => {
                let rec = &self.todos[i];
                let labels_out = resolve_labels(&self.labels, &rec.label_ids);
                let entity = TodoEntity {
                    id: rec.id,
                    text: rec.text.clone(),
                    completed: rec.completed,
                    labels: labels_out,
                };
                proof {
                    assert(self@.todos[i as int] == rec@);
                    assert(entity@.labels =~= resolve(self@.labels, rec@.label_ids));
                    assert(entity@ == materialize(self@.labels, rec@));
                }
                Ok(entity)
            },
        }
    }

    /// All todos, in ascending id order, each with its labels materialized.
    #[verifier::loop_isolation(false)]
    pub fn all_todos(&self) -> (r: Vec<TodoEntity>)
        ensures
            entity_seq_view(r@) == all_todos_q(self@),
    {
        let mut out: Vec<TodoEntity> = Vec::new();
        let mut k: usize = 0;
        while k < self.todos.len()
            invariant
                k <= self.todos@.len(),
                out@.len() == k as int,
                forall|j: int|
                    0 <= j < k as int ==> (#[trigger] out@[j])@ == materialize(
                        self@.labels,
                        self@.todos[j],
                    ),
            decreases self.todos@.len() - k,
        {
            let rec = &self.todos[k];
            let labels_out = resolve_labels(&self.labels, &rec.label_ids);
            let entity = TodoEntity {
                id: rec.id,
                text: rec.text.clone(),
                completed: rec.completed,
                labels: labels_out,
            };
            proof {
                assert(self@.todos[k as int] == rec@);
                assert(entity@.labels =~= resolve(self@.labels, rec@.label_ids));
                assert(entity@ == materialize(self@.labels, rec@));
            }
            out.push(entity);
            k += 1;
        }
        proof {
            assert(entity_seq_view(out@) =~= all_todos_q(self@));
        }
        out
    }

    /// Applies a partial update to a todo: present fields replace the stored
    /// values, absent fields keep them; a missing id is reported.
    pub fn update_todo(&mut self, id: i32, payload: UpdateTodo) -> (r: Result<
        TodoEntity,
        RepositoryError,
    >)
        requires
            old(self).inv(),
        ensures
            final(self).inv(),
            final(self)@ == update_todo_t(old(self)@, id as int, payload@).0,
            todo_result_view(r) == update_todo_t(old(self)@, id as int, payload@).1,
    {
        proof {
            lemma_update_todo_wf(self@, id as int, payload@);
        }
        let ghost m = self@;
        let ghost pm = payload@;
        match position_todo_by_id(&self.todos, id) {
            None => {
                proof {
                    lemma_find_todo_props(m.todos, id as int);
                }
                Err(RepositoryError::NotFound(id))
            },
            Some(i) => {
                proof {
                    assert(m.todos[i as int].id == id as int);
                    assert(has_todo(m.todos, id as int));
                }
                let new_text = match payload.text {
                    Some(t) => t,
                    None => self.todos[i].text.clone(),
                };
                let new_completed = match payload.completed {
                    Some(c) => c,
                    None => self.todos[i].completed,
                };
                let ids_copy = copy_ids(&self.todos[i].label_ids);
                let new_rec = TodoRecord {
                    id,
                    text: new_text,
                    completed: new_completed,
                    label_ids: ids_copy,
                };
                let labels_out = resolve_labels(&self.labels, &new_rec.label_ids);
                let entity = TodoEntity {
                    id,
                    text: new_rec.text.clone(),
                    completed: new_rec.completed,
                    labels: labels_out,
                };
                proof {
                    assert(new_rec@ == crate::model::patch(m.todos[i as int], pm));
                }
                self.todos.remove(i);
                self.todos.insert(i, new_rec);
                proof {
                    let t = update_todo_t(m, id as int, pm);
                    let patched = crate::model::patch(m.todos[i as int], pm);
                    assert forall|j: int|
                        0 <= j < self.todos@.len() implies rec_seq_view(self.todos@)[j]
                        == m.todos.update(i as int, patched)[j] by {
                        if j < i as int {
                        } else if j == i as int {
                        } else {
                        }
                    }
                    assert(rec_seq_view(self.todos@) =~= m.todos.update(i as int, patched));
                    assert(self@ == t.0);
                    assert(entity@.labels =~= resolve(m.labels, patched.label_ids));
                    assert(entity@ == materialize(m.labels, patched));
                }
                Ok(entity)
            },
        }
    }

    /// Deletes a todo by id, association included; a missing id is reported,
    /// and deleting twice reports the same error.
    pub fn delete_todo(&mut self, id: i32) -> (r: Result<(), RepositoryError>)
        requires
            old(self).inv(),
        ensures
            final(self).inv(),
            final(self)@ == delete_todo_t(old(self)@, id as int).0,
            unit_result_view(r) == delete_todo_t(old(self)@, id as int).1,
    {
        proof {
            lemma_delete_todo_wf(self@, id as int);
        }
        let ghost m = self@;
        match position_todo_by_id(&self.todos, id) {
            None => {
                proof {
                    lemma_find_todo_props(m.todos, id as int);
                }
                Err(RepositoryError::NotFound(id))
            },
            Some(i) => {
                proof {
                    assert(m.todos[i as int].id == id as int);
                    assert(has_todo(m.todos, id as int));
                }
                self.todos.remove(i);
                proof {
                    let t = delete_todo_t(m, id as int);
                    assert forall|j: int|
                        0 <= j < self.todos@.len() implies rec_seq_view(self.todos@)[j]
                        == m.todos.remove(i as int)[j] by {
                        if j < i as int {
                        } else {
                        }
                    }
                    assert(rec_seq_view(self.todos@) =~= m.todos.remove(i as int));
                    assert(self@ == t.0);
                }
                Ok(())
            },
        }
    }
}

} // verus!
