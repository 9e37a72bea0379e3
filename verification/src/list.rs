//! The task collection: an ordered sequence of tasks, mutated in place
//! by add / done / update / delete, and queried by `select`.

pub mod task;

use vstd::prelude::*;

pub use crate::errors::{ListError, SqlError};
pub use task::tasks_view;
use task::{Task, TaskView};

verus! {

use crate::ast::parse_stmt_spec;
use crate::errors::{ListErrorView, SqlErrorView};
use crate::lex::tok_spec;
use crate::query::{compile_spec, filter_spec, PredView};

/// The whole query pipeline: tokenize, parse the `SELECT` statement,
/// compile the WHERE tree, filter the collection. A statement without
/// a WHERE clause returns the collection whole, order preserved.
pub open spec fn select_spec(q: Seq<char>, tasks: Seq<TaskView>) -> Result<
    Seq<TaskView>,
    SqlErrorView,
> {
    match tok_spec(q) {
        Option::None => Result::Err(SqlErrorView::NotValidQuery),
        Option::Some(ts) => match parse_stmt_spec(ts) {
            Option::None => Result::Err(SqlErrorView::NotValidQuery),
            Option::Some(Option::None) => Result::Ok(tasks),
            Option::Some(Option::Some(e)) => match compile_spec(
                seq![e],
                Seq::<PredView>::empty(),
            ) {
                Result::Ok(ps) => Result::Ok(filter_spec(ps, tasks)),
                Result::Err(er) => Result::Err(er),
            },
        },
    }
}

/// A query with no WHERE clause selects the full collection, order
/// preserved.
pub proof fn lemma_select_no_where(q: Seq<char>, tasks: Seq<TaskView>)
    requires
        tok_spec(q) matches Option::Some(ts) && parse_stmt_spec(ts) == Option::Some(
            Option::None::<crate::ast::ExprView>,
        ),
    ensures
        select_spec(q, tasks) == Result::<Seq<TaskView>, SqlErrorView>::Ok(tasks),
{
}

/// Index of the first task with the given title, if any.
pub open spec fn find_title(ts: Seq<TaskView>, title: Seq<char>) -> Option<int>
    decreases ts.len(),
{
    if ts.len() == 0 {
        Option::None
    } else if ts[0].title == title {
        Option::Some(0int)
    } else {
        match find_title(ts.skip(1), title) {
            Option::Some(i) => Option::Some(i + 1),
            Option::None => Option::None,
        }
    }
}

/// `find_title` yields the first matching index, or `None` exactly
/// when no task has the title.
pub proof fn lemma_find_title(ts: Seq<TaskView>, title: Seq<char>)
    ensures
        match find_title(ts, title) {
            Option::Some(i) => 0 <= i < ts.len() && ts[i].title == title && forall|j: int|
                0 <= j < i ==> ts[j].title != title,
            Option::None => forall|j: int| 0 <= j < ts.len() ==> ts[j].title != title,
        },
    decreases ts.len(),
{
    if ts.len() > 0 && ts[0].title != title {
        lemma_find_title(ts.skip(1), title);
        match find_title(ts.skip(1), title) {
            Option::Some(i) => {
                assert(ts.skip(1)[i] == ts[i + 1]);
                assert forall|j: int| 0 <= j < i + 1 implies ts[j].title != title by {
                    if j > 0 {
                        assert(ts.skip(1)[j - 1] == ts[j]);
                    }
                }
            },
            Option::None => {
                assert forall|j: int| 0 <= j < ts.len() implies ts[j].title != title by {
                    if j > 0 {
                        assert(ts.skip(1)[j - 1] == ts[j]);
                    }
                }
            },
        }
    }
}

/// Whether some task of `ts` equals `t` in all fields.
pub open spec fn contains_task(ts: Seq<TaskView>, t: TaskView) -> bool {
    exists|j: int| 0 <= j < ts.len() && ts[j] == t
}

/// A fresh task vector equal, field for field, to the given one.
fn duplicate_tasks(ts: &Vec<Task>) -> (r: Vec<Task>)
    ensures
        tasks_view(r@) == tasks_view(ts@),
{
    let n = ts.len();
    let mut out: Vec<Task> = Vec::new();
    let mut i: usize = 0;
    while i < n
        invariant
            n == ts@.len(),
            i <= n,
            out@.len() == i,
            forall|j: int| 0 <= j < i ==> tasks_view(out@)[j] == tasks_view(ts@)[j],
        decreases n - i,
    {
        let ghost out0 = out@;
        out.push(ts[i].duplicate());
        proof {
            assert(forall|j: int| 0 <= j < i ==> tasks_view(out@)[j] == tasks_view(out0)[j]);
            assert(tasks_view(out@)[i as int] == ts@[i as int]@);
        }
        i = i + 1;
    }
    proof {
        assert(tasks_view(out@) =~= tasks_view(ts@));
    }
    out
}

/// An ordered collection of tasks.
#[derive(Debug)]
pub struct List(pub Vec<Task>);

impl View for List {
    type V = Seq<TaskView>;

    open spec fn view(&self) -> Seq<TaskView> {
        tasks_view(self.0@)
    }
}

impl PartialEq for List {
    fn eq(&self, other: &Self) -> (r: bool) {
        if self.0.len() != other.0.len() {
            proof {
                assert(self@.len() != other@.len());
            }
            return false;
        }
        let n = self.0.len();
        let mut i: usize = 0;
        while i < n
            invariant
                n == self.0@.len(),
                n == other.0@.len(),
                i <= n,
                forall|j: int| 0 <= j < i ==> self@[j] == other@[j],
            decreases n - i,
        {
            proof {
                assert(self@[i as int] == self.0@[i as int]@);
                assert(other@[i as int] == other.0@[i as int]@);
            }
            if !(self.0[i] == other.0[i]) {
                return false;
            }
            i = i + 1;
        }
        proof {
            assert(self@ =~= other@);
        }
        true
    }
}

impl vstd::std_specs::cmp::PartialEqSpecImpl for List {
    open spec fn obeys_eq_spec() -> bool {
        true
    }

    open spec fn eq_spec(&self, other: &Self) -> bool {
        self@ == other@
    }
}

impl List {
    /// Index of the first task with the given title, scanning in
    /// order.
    fn position_of_title(&self, title: &str) -> (r: Option<usize>)
        ensures
            match r {
                Option::Some(i) => find_title(self@, title@) == Option::Some(i as int) && i
                    < self.0@.len() && self@[i as int].title == title@,
                Option::None => find_title(self@, title@) is None,
            },
    {
        let n = self.0.len();
        let mut i: usize = 0;
        while i < n
            invariant
                n == self.0@.len(),
                i <= n,
                forall|j: int| 0 <= j < i ==> self@[j].title != title@,
            decreases n - i,
        {
            if crate::text::str_eq(self.0[i].title.as_str(), title) {
                proof {
                    assert(self@[i as int] == self.0@[i as int]@);
                    lemma_find_title(self@, title@);
                }
                return Option::Some(i);
            }
            proof {
                assert(self@[i as int] == self.0@[i as int]@);
            }
            i = i + 1;
        }
        proof {
            lemma_find_title(self@, title@);
        }
        Option::None
    }

    /// The first task with the given title, or `TaskNotExist`.
    pub fn get_task(&self, title: &str) -> (r: Result<&Task, ListError>)
        ensures
            match r {
                Result::Ok(t) => find_title(self@, title@) matches Option::Some(i) && t@
                    == self@[i],
                Result::Err(e) => find_title(self@, title@) is None && e@
                    == ListErrorView::TaskNotExist(title@),
            },
    {
        match self.position_of_title(title) {
            Option::Some(i) => {
                proof {
                    assert(self@[i as int] == self.0@[i as int]@);
                }
                Result::Ok(&self.0[i])
            },
            Option::None => Result::Err(ListError::TaskNotExist(title.to_owned())),
        }
    }

    /// Append `task` unless an identical task (all five fields equal)
    /// is already present.
    pub fn add(&mut self, task: Task) -> (r: Result<&Task, ListError>)
        ensures
            match r {
                Result::Ok(t) => !contains_task(old(self)@, task@) && final(self)@ == old(
                    self,
                )@.push(task@) && t@ == task@,
                Result::Err(e) => contains_task(old(self)@, task@) && final(self)@ == old(self)@
                    && e@ == ListErrorView::TaskAlreadyExists,
            },
    {
        let n = self.0.len();
        let mut i: usize = 0;
        while i < n
            invariant
                n == self.0@.len(),
                i <= n,
                forall|j: int| 0 <= j < i ==> self@[j] != task@,
            decreases n - i,
        {
            proof {
                assert(self@[i as int] == self.0@[i as int]@);
            }
            if self.0[i] == task {
                return Result::Err(ListError::TaskAlreadyExists);
            }
            i = i + 1;
        }
        self.0.push(task);
        proof {
            assert(tasks_view(self.0@) =~= tasks_view(old(self).0@).push(task@));
        }
        let m = self.0.len();
        proof {
            assert(tasks_view(self.0@)[m - 1] == self.0@[m - 1]@);
        }
        Result::Ok(&self.0[m - 1])
    }

    /// Mark the first task with the given title as done; a missing or
    /// already completed task is an error.
    pub fn done(&mut self, title: String) -> (r: Result<&Task, ListError>)
        ensures
            match r {
                Result::Ok(t) => find_title(old(self)@, title@) matches Option::Some(i) && !old(
                    self,
                )@[i].is_done && final(self)@ == old(self)@.update(
                    i,
                    (TaskView { is_done: true, ..old(self)@[i] }),
                ) && t@ == (TaskView { is_done: true, ..old(self)@[i] }),
                Result::Err(e) => final(self)@ == old(self)@ && match find_title(
                    old(self)@,
                    title@,
                ) {
                    Option::Some(i) => old(self)@[i].is_done && e@
                        == ListErrorView::TaskAlreadyCompleted,
                    Option::None => e@ == ListErrorView::TaskNotExist(title@),
                },
            },
    {
        match self.position_of_title(title.as_str()) {
            Option::None => Result::Err(ListError::TaskNotExist(title)),
            Option::Some(i) => {
                proof {
                    assert(self@[i as int] == self.0@[i as int]@);
                }
                if self.0[i].is_done {
                    return Result::Err(ListError::TaskAlreadyCompleted);
                }
                let t = self.0.remove(i);
                let done_task = Task { is_done: true, ..t };
                self.0.insert(i, done_task);
                proof {
                    assert(tasks_view(self.0@) =~= tasks_view(old(self).0@).update(
                        i as int,
                        (TaskView { is_done: true, ..old(self)@[i as int] }),
                    ));
                    assert(tasks_view(self.0@)[i as int] == self.0@[i as int]@);
                }
                Result::Ok(&self.0[i])
            },
        }
    }

    /// Replace the first task with the given title by `task`; an equal
    /// task is reported as unchanged.
    pub fn update(&mut self, title: String, task: &Task) -> (r: Result<&Task, ListError>)
        ensures
            match r {
                Result::Ok(t) => find_title(old(self)@, title@) matches Option::Some(i) && old(
                    self,
                )@[i] != task@ && final(self)@ == old(self)@.update(i, task@) && t@ == task@,
                Result::Err(e) => final(self)@ == old(self)@ && match find_title(
                    old(self)@,
                    title@,
                ) {
                    Option::Some(i) => old(self)@[i] == task@ && e@
                        == ListErrorView::TaskNotChanged,
                    Option::None => e@ == ListErrorView::TaskNotExist(title@),
                },
            },
    {
        match self.position_of_title(title.as_str()) {
            Option::None => Result::Err(ListError::TaskNotExist(title)),
            Option::Some(i) => {
                proof {
                    assert(self@[i as int] == self.0@[i as int]@);
                }
                if &self.0[i] == task {
                    return Result::Err(ListError::TaskNotChanged);
                }
                self.0.remove(i);
                self.0.insert(i, task.duplicate());
                proof {
                    assert(tasks_view(self.0@) =~= tasks_view(old(self).0@).update(
                        i as int,
                        task@,
                    ));
                    assert(tasks_view(self.0@)[i as int] == self.0@[i as int]@);
                }
                Result::Ok(&self.0[i])
            },
        }
    }

    /// Run a `SELECT ... [WHERE ...]` query over the collection and
    /// return the filtered tasks, or the query's first error. The
    /// collection itself is never changed.
    pub fn select(&self, sql: &str) -> (r: Result<List, ListError>)
        ensures
            match r {
                Result::Ok(out) => select_spec(sql@, self@) == Result::<
                    Seq<TaskView>,
                    SqlErrorView,
                >::Ok(out@),
                Result::Err(e) => e@ matches ListErrorView::Sql(s) && select_spec(sql@, self@)
                    == Result::<Seq<TaskView>, SqlErrorView>::Err(s),
            },
    {
        let toks = match crate::lex::tokenize(sql) {
            Option::Some(ts) => ts,
            Option::None => {
                return Result::Err(ListError::Sql(SqlError::NotValidQuery));
            },
        };
        let where_opt = match crate::ast::parse_stmt(&toks) {
            Option::Some(w) => w,
            Option::None => {
                return Result::Err(ListError::Sql(SqlError::NotValidQuery));
            },
        };
        match where_opt {
            Option::None => Result::Ok(List(duplicate_tasks(&self.0))),
            Option::Some(e) => match crate::query::compile(e) {
                Result::Err(err) => Result::Err(ListError::Sql(err)),
                Result::Ok(preds) => Result::Ok(
                    List(crate::query::filter_tasks(&preds, &self.0)),
                ),
            },
        }
    }

    /// Remove and return the first task with the given title.
    pub fn delete(&mut self, title: String) -> (r: Result<Task, ListError>)
        ensures
            match r {
                Result::Ok(t) => find_title(old(self)@, title@) matches Option::Some(i) && t@
                    == old(self)@[i] && final(self)@ == old(self)@.remove(i),
                Result::Err(e) => final(self)@ == old(self)@ && find_title(old(self)@, title@)
                    is None && e@ == ListErrorView::TaskNotExist(title@),
            },
    {
        match self.position_of_title(title.as_str()) {
            Option::None => Result::Err(ListError::TaskNotExist(title)),
            Option::Some(i) => {
                proof {
                    assert(self@[i as int] == self.0@[i as int]@);
                }
                let t = self.0.remove(i);
                proof {
                    assert(tasks_view(self.0@) =~= tasks_view(old(self).0@).remove(i as int));
                }
                Result::Ok(t)
            },
        }
    }
}

} // verus!
