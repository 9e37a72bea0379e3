//! The predicate compiler and the evaluator: the WHERE expression tree
//! is flattened, breadth first, into a list of typed predicates, each
//! validated against its field's kind; the evaluator keeps the tasks
//! for which every predicate holds, in their original order.

use vstd::prelude::*;

use crate::ast::{BinOp, Expr, ExprView};
use crate::errors::{SqlError, SqlErrorView};
use crate::list::task::date::{date_from_str, Date};
use crate::list::task::{tasks_view, Task, TaskView};
use crate::text::{seq_contains, str_contains, str_eq};

verus! {

use vstd::string::StringExecFns;

/// One of the three free-text fields.
#[derive(Clone, Copy, Debug, PartialEq, Eq, Structural, Hash)]
pub enum StrField {
    Title,
    Descr,
    Category,
}

/// A comparison operator accepted on the `date` field.
#[derive(Clone, Copy, Debug, PartialEq, Eq, Structural, Hash)]
pub enum CmpOp {
    Eq,
    Gt,
    Lt,
    GtEq,
    LtEq,
}

/// One compiled predicate: a typed test on a single field.
#[derive(Debug)]
pub enum Pred {
    /// Exact equality of a free-text field.
    Str(StrField, String),
    /// Substring containment on a free-text field.
    Like(StrField, String),
    /// A comparison of the `date` field against a parsed timestamp.
    DateCmp(CmpOp, Date),
    /// Equality of the `is_done` flag.
    Done(bool),
}

/// The model of a predicate.
pub enum PredView {
    Str(StrField, Seq<char>),
    Like(StrField, Seq<char>),
    DateCmp(CmpOp, int),
    Done(bool),
}

impl View for Pred {
    type V = PredView;

    open spec fn view(&self) -> PredView {
        match self {
            Pred::Str(f, s) => PredView::Str(*f, s@),
            Pred::Like(f, s) => PredView::Like(*f, s@),
            Pred::DateCmp(op, d) => PredView::DateCmp(*op, d.0 as int),
            Pred::Done(b) => PredView::Done(*b),
        }
    }
}

pub open spec fn preds_view(ps: Seq<Pred>) -> Seq<PredView> {
    ps.map_values(|p: Pred| p@)
}

pub open spec fn exprs_view(es: Seq<Expr>) -> Seq<ExprView> {
    es.map_values(|e: Expr| e@)
}

// ---------------------------------------------------------------------
// Compilation: WHERE tree -> predicate list
// ---------------------------------------------------------------------
/// The size of an expression tree, for termination of the worklist.
pub open spec fn expr_size(e: ExprView) -> nat
    decreases e,
{
    match e {
        ExprView::BinaryOp { op, left, right } => 1 + expr_size(*left) + expr_size(*right),
        ExprView::Like { expr, pattern } => 1 + expr_size(*expr) + expr_size(*pattern),
        ExprView::Nested(inner) => 1 + expr_size(*inner),
        _ => 1,
    }
}

/// Total size of the expressions still queued.
pub open spec fn queue_size(q: Seq<ExprView>) -> nat
    decreases q.len(),
{
    if q.len() == 0 {
        0
    } else {
        expr_size(q[0]) + queue_size(q.skip(1))
    }
}

pub proof fn lemma_queue_size_push(q: Seq<ExprView>, e: ExprView)
    ensures
        queue_size(q.push(e)) == queue_size(q) + expr_size(e),
    decreases q.len(),
{
    if q.len() == 0 {
        assert(q.push(e)[0] == e);
        assert(q.push(e).skip(1) =~= Seq::<ExprView>::empty());
        assert(queue_size(Seq::<ExprView>::empty()) == 0);
    } else {
        assert(q.push(e)[0] == q[0]);
        assert(q.push(e).skip(1) =~= q.skip(1).push(e));
        lemma_queue_size_push(q.skip(1), e);
        assert(queue_size(q.push(e)) == expr_size(q[0]) + queue_size(q.skip(1).push(e)));
        assert(queue_size(q) == expr_size(q[0]) + queue_size(q.skip(1)));
    }
}

/// A true comparison operator of the query language.
pub open spec fn is_cmp_op(op: BinOp) -> bool {
    op == BinOp::Eq || op == BinOp::Gt || op == BinOp::Lt || op == BinOp::GtEq || op
        == BinOp::LtEq
}

/// The comparison a handled operator denotes.
pub open spec fn cmp_of(op: BinOp) -> CmpOp {
    match op {
        BinOp::Gt => CmpOp::Gt,
        BinOp::Lt => CmpOp::Lt,
        BinOp::GtEq => CmpOp::GtEq,
        BinOp::LtEq => CmpOp::LtEq,
        _ => CmpOp::Eq,
    }
}

/// The text a right-hand operand supplies: a single-quoted string
/// literal or a double-quoted identifier.
pub open spec fn string_value(e: ExprView) -> Option<Seq<char>> {
    match e {
        ExprView::StrLit(s) => Option::Some(s),
        ExprView::Ident { value, quoted } => if quoted {
            Option::Some(value)
        } else {
            Option::None
        },
        _ => Option::None,
    }
}

/// Compile `<field> <op> <text>` for a free-text field: only `=` is
/// accepted, and the operand must be string-like.
pub open spec fn compile_str(f: StrField, name: Seq<char>, op: BinOp, r: ExprView) -> Result<
    PredView,
    SqlErrorView,
> {
    if op != BinOp::Eq {
        Result::Err(SqlErrorView::Format(name + " = .."@))
    } else {
        match string_value(r) {
            Option::Some(s) => Result::Ok(PredView::Str(f, s)),
            Option::None => Result::Err(SqlErrorView::Format("[.. StringValue]"@)),
        }
    }
}

/// Compile one comparison node. The left operand must be a bare
/// identifier naming a schema field; the right operand and the
/// operator must fit that field's kind.
pub open spec fn compile_cmp(op: BinOp, l: ExprView, r: ExprView) -> Result<
    PredView,
    SqlErrorView,
> {
    match l {
        ExprView::Ident { value: name, quoted } => {
            if name == "title"@ {
                compile_str(StrField::Title, name, op, r)
            } else if name == "descr"@ {
                compile_str(StrField::Descr, name, op, r)
            } else if name == "date"@ {
                match string_value(r) {
                    Option::Some(s) => match date_from_str(s) {
                        Option::Some(t) => Result::Ok(PredView::DateCmp(cmp_of(op), t as int)),
                        Option::None => Result::Err(
                            SqlErrorView::Format("[.. \"Date\"]"@),
                        ),
                    },
                    Option::None => Result::Err(SqlErrorView::Format("[.. \"Date\"]"@)),
                }
            } else if name == "category"@ {
                compile_str(StrField::Category, name, op, r)
            } else if name == "is_done"@ {
                if op != BinOp::Eq {
                    Result::Err(SqlErrorView::Format(name + " = .."@))
                } else {
                    match r {
                        ExprView::BoolLit(b) => Result::Ok(PredView::Done(b)),
                        _ => Result::Err(SqlErrorView::Format("[.. true | false]"@)),
                    }
                }
            } else {
                Result::Err(SqlErrorView::NonExistentField(name))
            }
        },
        _ => Result::Err(SqlErrorView::Format("WHERE [Identifier ..]"@)),
    }
}

/// Compile `<field> LIKE <pattern>`: the field must be one of the
/// three free-text fields and the pattern string-like.
pub open spec fn compile_like(l: ExprView, pat: ExprView) -> Result<PredView, SqlErrorView> {
    match l {
        ExprView::Ident { value: name, quoted } => {
            let f = if name == "title"@ {
                Option::Some(StrField::Title)
            } else if name == "descr"@ {
                Option::Some(StrField::Descr)
            } else if name == "category"@ {
                Option::Some(StrField::Category)
            } else {
                Option::None
            };
            match f {
                Option::Some(f) => match string_value(pat) {
                    Option::Some(s) => Result::Ok(PredView::Like(f, s)),
                    Option::None => Result::Err(
                        SqlErrorView::Format("[.. like StringValue]"@),
                    ),
                },
                Option::None => Result::Err(
                    SqlErrorView::Format("[StringIdnetifier like ..]"@),
                ),
            }
        },
        _ => Result::Err(SqlErrorView::Format("[StringIdnetifier like ..]"@)),
    }
}

/// The breadth-first worklist over boolean sub-expressions: a nested
/// expression is unwrapped and re-queued, an `AND` is split and both
/// operands re-queued, a comparison or `LIKE` is compiled and
/// appended, anything else is the first error, which aborts the whole
/// query.
pub open spec fn compile_spec(q: Seq<ExprView>, acc: Seq<PredView>) -> Result<
    Seq<PredView>,
    SqlErrorView,
>
    decreases queue_size(q),
    via compile_spec_dec
{
    if q.len() == 0 {
        Result::Ok(acc)
    } else {
        let rest = q.skip(1);
        match q[0] {
            ExprView::Nested(inner) => compile_spec(rest.push(*inner), acc),
            ExprView::BinaryOp { op, left, right } => {
                if op == BinOp::And {
                    compile_spec(rest.push(*left).push(*right), acc)
                } else if is_cmp_op(op) {
                    match compile_cmp(op, *left, *right) {
                        Result::Ok(p) => compile_spec(rest, acc.push(p)),
                        Result::Err(e) => Result::Err(e),
                    }
                } else {
                    Result::Err(SqlErrorView::UnhandledOperator(op))
                }
            },
            ExprView::Like { expr, pattern } => match compile_like(*expr, *pattern) {
                Result::Ok(p) => compile_spec(rest, acc.push(p)),
                Result::Err(e) => Result::Err(e),
            },
            _ => Result::Err(SqlErrorView::NotValidQuery),
        }
    }
}

#[via_fn]
proof fn compile_spec_dec(q: Seq<ExprView>, acc: Seq<PredView>) {
    if q.len() > 0 {
        let rest = q.skip(1);
        assert(queue_size(q) == expr_size(q[0]) + queue_size(rest));
        match q[0] {
            ExprView::Nested(inner) => {
                lemma_queue_size_push(rest, *inner);
            },
            ExprView::BinaryOp { op, left, right } => {
                lemma_queue_size_push(rest, *left);
                lemma_queue_size_push(rest.push(*left), *right);
            },
            _ => {},
        }
    }
}

/// The right-hand text of a comparison, when it is string-like.
fn string_value_of(e: Expr) -> (r: Option<String>)
    ensures
        match r {
            Option::Some(s) => string_value(e@) == Option::Some(s@),
            Option::None => string_value(e@) is None,
        },
{
    match e {
        Expr::StrLit(s) => Option::Some(s),
        Expr::Ident { value, quoted } => if quoted {
            Option::Some(value)
        } else {
            Option::None
        },
        _ => Option::None,
    }
}

fn cmp_of_exec(op: BinOp) -> (r: CmpOp)
    ensures
        r == cmp_of(op),
{
    match op {
        BinOp::Gt => CmpOp::Gt,
        BinOp::Lt => CmpOp::Lt,
        BinOp::GtEq => CmpOp::GtEq,
        BinOp::LtEq => CmpOp::LtEq,
        _ => CmpOp::Eq,
    }
}

fn compile_str_pred(f: StrField, name: String, op: BinOp, right: Expr) -> (r: Result<
    Pred,
    SqlError,
>)
    ensures
        match r {
            Result::Ok(p) => compile_str(f, name@, op, right@) == Result::<PredView, SqlErrorView>::Ok(p@),
            Result::Err(e) => compile_str(f, name@, op, right@) == Result::<PredView, SqlErrorView>::Err(e@),
        },
{
    if !matches!(op, BinOp::Eq) {
        return Result::Err(SqlError::Format(name.concat(" = ..")));
    }
    match string_value_of(right) {
        Option::Some(s) => Result::Ok(Pred::Str(f, s)),
        Option::None => Result::Err(SqlError::Format("[.. StringValue]".to_owned())),
    }
}

fn compile_cmp_pred(op: BinOp, left: Expr, right: Expr) -> (r: Result<Pred, SqlError>)
    ensures
        match r {
            Result::Ok(p) => compile_cmp(op, left@, right@) == Result::<PredView, SqlErrorView>::Ok(p@),
            Result::Err(e) => compile_cmp(op, left@, right@) == Result::<PredView, SqlErrorView>::Err(e@),
        },
{
    let name = match left {
        Expr::Ident { value, quoted: _ } => value,
        _ => {
            return Result::Err(SqlError::Format("WHERE [Identifier ..]".to_owned()));
        },
    };
    if str_eq(name.as_str(), "title") {
        compile_str_pred(StrField::Title, name, op, right)
    } else if str_eq(name.as_str(), "descr") {
        compile_str_pred(StrField::Descr, name, op, right)
    } else if str_eq(name.as_str(), "date") {
        match string_value_of(right) {
            Option::Some(s) => match Date::parse(s.as_str()) {
                Result::Ok(d) => Result::Ok(Pred::DateCmp(cmp_of_exec(op), d)),
                Result::Err(_) => Result::Err(
                    SqlError::Format("[.. \"Date\"]".to_owned()),
                ),
            },
            Option::None => Result::Err(SqlError::Format("[.. \"Date\"]".to_owned())),
        }
    } else if str_eq(name.as_str(), "category") {
        compile_str_pred(StrField::Category, name, op, right)
    } else if str_eq(name.as_str(), "is_done") {
        if !matches!(op, BinOp::Eq) {
            return Result::Err(SqlError::Format(name.concat(" = ..")));
        }
        match right {
            Expr::BoolLit(b) => Result::Ok(Pred::Done(b)),
            _ => Result::Err(SqlError::Format("[.. true | false]".to_owned())),
        }
    } else {
        Result::Err(SqlError::NonExistentField(name))
    }
}

fn compile_like_pred(left: Expr, pattern: Expr) -> (r: Result<Pred, SqlError>)
    ensures
        match r {
            Result::Ok(p) => compile_like(left@, pattern@) == Result::<PredView, SqlErrorView>::Ok(p@),
            Result::Err(e) => compile_like(left@, pattern@) == Result::<PredView, SqlErrorView>::Err(e@),
        },
{
    let name = match left {
        Expr::Ident { value, quoted: _ } => value,
        _ => {
            return Result::Err(SqlError::Format("[StringIdnetifier like ..]".to_owned()));
        },
    };
    let f = if str_eq(name.as_str(), "title") {
        StrField::Title
    } else if str_eq(name.as_str(), "descr") {
        StrField::Descr
    } else if str_eq(name.as_str(), "category") {
        StrField::Category
    } else {
        return Result::Err(SqlError::Format("[StringIdnetifier like ..]".to_owned()));
    };
    match string_value_of(pattern) {
        Option::Some(s) => Result::Ok(Pred::Like(f, s)),
        Option::None => Result::Err(SqlError::Format("[.. like StringValue]".to_owned())),
    }
}

/// Flatten and validate a WHERE expression into its predicate list.
pub fn compile(where_expr: Expr) -> (r: Result<Vec<Pred>, SqlError>)
    ensures
        match r {
            Result::Ok(ps) => compile_spec(seq![where_expr@], Seq::empty()) == Result::<Seq<PredView>, SqlErrorView>::Ok(
                preds_view(ps@),
            ),
            Result::Err(e) => compile_spec(seq![where_expr@], Seq::empty()) == Result::<Seq<PredView>, SqlErrorView>::Err(e@),
        },
{
    let ghost target = compile_spec(seq![where_expr@], Seq::empty());
    let mut queue: Vec<Expr> = Vec::new();
    queue.push(where_expr);
    let mut preds: Vec<Pred> = Vec::new();
    proof {
        assert(exprs_view(queue@) =~= seq![where_expr@]);
        assert(preds_view(preds@) =~= Seq::<PredView>::empty());
    }
    while queue.len() > 0
        invariant
            target == compile_spec(seq![where_expr@], Seq::empty()),
            target == compile_spec(exprs_view(queue@), preds_view(preds@)),
        decreases queue_size(exprs_view(queue@)),
    {
        let ghost q0 = exprs_view(queue@);
        let ghost acc0 = preds_view(preds@);
        let e = queue.remove(0);
        proof {
            assert(q0[0] == e@);
            assert(exprs_view(queue@) =~= q0.skip(1));
            assert(queue_size(q0) == expr_size(q0[0]) + queue_size(q0.skip(1)));
        }
        match e {
            Expr::Nested(inner) => {
                proof {
                    lemma_queue_size_push(q0.skip(1), inner@);
                }
                queue.push(*inner);
                proof {
                    assert(exprs_view(queue@) =~= q0.skip(1).push(inner@));
                }
            },
            Expr::BinaryOp { op, left, right } => {
                if matches!(op, BinOp::And) {
                    proof {
                        lemma_queue_size_push(q0.skip(1), left@);
                        lemma_queue_size_push(q0.skip(1).push(left@), right@);
                    }
                    queue.push(*left);
                    queue.push(*right);
                    proof {
                        assert(exprs_view(queue@) =~= q0.skip(1).push(left@).push(right@));
                    }
                } else if matches!(
                    op,
                    BinOp::Eq | BinOp::Gt | BinOp::Lt | BinOp::GtEq | BinOp::LtEq
                ) {
                    match compile_cmp_pred(op, *left, *right) {
                        Result::Ok(p) => {
                            proof {
                                assert(preds_view(preds@.push(p)) =~= acc0.push(p@));
                            }
                            preds.push(p);
                        },
                        Result::Err(e) => {
                            return Result::Err(e);
                        },
                    }
                } else {
                    return Result::Err(SqlError::UnhandledOperator(op));
                }
            },
            Expr::Like { expr, pattern } => {
                match compile_like_pred(*expr, *pattern) {
                    Result::Ok(p) => {
                        proof {
                            assert(preds_view(preds@.push(p)) =~= acc0.push(p@));
                        }
                        preds.push(p);
                    },
                    Result::Err(e) => {
                        return Result::Err(e);
                    },
                }
            },
            _ => {
                return Result::Err(SqlError::NotValidQuery);
            },
        }
    }
    proof {
        assert(exprs_view(queue@) =~= Seq::<ExprView>::empty());
    }
    Result::Ok(preds)
}

// ---------------------------------------------------------------------
// Evaluation: predicate list over a task collection
// ---------------------------------------------------------------------
/// The text of a free-text field.
pub open spec fn str_field_of(t: TaskView, f: StrField) -> Seq<char> {
    match f {
        StrField::Title => t.title,
        StrField::Descr => t.descr,
        StrField::Category => t.category,
    }
}

pub open spec fn int_cmp(op: CmpOp, a: int, b: int) -> bool {
    match op {
        CmpOp::Eq => a == b,
        CmpOp::Gt => a > b,
        CmpOp::Lt => a < b,
        CmpOp::GtEq => a >= b,
        CmpOp::LtEq => a <= b,
    }
}

/// Whether one predicate holds of one task: exact, case-sensitive
/// equality for text, substring containment for `LIKE`, chronological
/// order for dates, and exact equality for the done flag.
pub open spec fn pred_holds(p: PredView, t: TaskView) -> bool {
    match p {
        PredView::Str(f, s) => str_field_of(t, f) == s,
        PredView::Like(f, s) => seq_contains(str_field_of(t, f), s),
        PredView::DateCmp(op, d) => int_cmp(op, t.date, d),
        PredView::Done(b) => t.is_done == b,
    }
}

/// The conjunction of a predicate list; the empty list holds of every
/// task.
pub open spec fn all_hold(ps: Seq<PredView>, t: TaskView) -> bool {
    forall|i: int| 0 <= i < ps.len() ==> pred_holds(ps[i], t)
}

/// The tasks for which the whole conjunction holds, in their original
/// order.
pub open spec fn filter_spec(ps: Seq<PredView>, ts: Seq<TaskView>) -> Seq<TaskView>
    decreases ts.len(),
{
    if ts.len() == 0 {
        Seq::empty()
    } else {
        let rest = filter_spec(ps, ts.skip(1));
        if all_hold(ps, ts[0]) {
            seq![ts[0]] + rest
        } else {
            rest
        }
    }
}

fn eval_pred(p: &Pred, t: &Task) -> (b: bool)
    ensures
        b == pred_holds(p@, t@),
{
    match p {
        Pred::Str(f, s) => {
            let field = match f {
                StrField::Title => &t.title,
                StrField::Descr => &t.descr,
                StrField::Category => &t.category,
            };
            str_eq(field.as_str(), s.as_str())
        },
        Pred::Like(f, s) => {
            let field = match f {
                StrField::Title => &t.title,
                StrField::Descr => &t.descr,
                StrField::Category => &t.category,
            };
            str_contains(field.as_str(), s.as_str())
        },
        Pred::DateCmp(op, d) => match op {
            CmpOp::Eq => t.date.0 == d.0,
            CmpOp::Gt => t.date.0 > d.0,
            CmpOp::Lt => t.date.0 < d.0,
            CmpOp::GtEq => t.date.0 >= d.0,
            CmpOp::LtEq => t.date.0 <= d.0,
        },
        Pred::Done(b) => t.is_done == *b,
    }
}

/// Whether every predicate of the list holds of `t`.
pub fn task_matches(preds: &Vec<Pred>, t: &Task) -> (b: bool)
    ensures
        b == all_hold(preds_view(preds@), t@),
{
    let n = preds.len();
    let mut i: usize = 0;
    while i < n
        invariant
            n == preds@.len(),
            i <= n,
            forall|j: int| 0 <= j < i ==> pred_holds(preds_view(preds@)[j], t@),
        decreases n - i,
    {
        proof {
            assert(preds_view(preds@)[i as int] == preds@[i as int]@);
        }
        if !eval_pred(&preds[i], t) {
            return false;
        }
        i = i + 1;
    }
    true
}

/// Apply a compiled predicate list to a task collection.
pub fn filter_tasks(preds: &Vec<Pred>, tasks: &Vec<Task>) -> (r: Vec<Task>)
    ensures
        tasks_view(r@) == filter_spec(preds_view(preds@), tasks_view(tasks@)),
{
    let ghost psv = preds_view(preds@);
    let ghost tsv = tasks_view(tasks@);
    let n = tasks.len();
    let mut out: Vec<Task> = Vec::new();
    let mut i: usize = 0;
    proof {
        assert(tasks_view(out@) =~= Seq::<TaskView>::empty());
        assert(tsv.skip(0) =~= tsv);
        assert(tasks_view(out@) + filter_spec(psv, tsv) =~= filter_spec(psv, tsv));
    }
    while i < n
        invariant
            psv == preds_view(preds@),
            tsv == tasks_view(tasks@),
            n == tasks@.len(),
            n == tsv.len(),
            i <= n,
            filter_spec(psv, tsv) == tasks_view(out@) + filter_spec(psv, tsv.skip(i as int)),
        decreases n - i,
    {
        let ghost rest0 = tsv.skip(i as int);
        proof {
            assert(rest0[0] == tsv[i as int]);
            assert(tsv[i as int] == tasks@[i as int]@);
            assert(rest0.skip(1) =~= tsv.skip(i + 1));
        }
        if task_matches(preds, &tasks[i]) {
            let ghost out0 = tasks_view(out@);
            out.push(tasks[i].duplicate());
            proof {
                assert(tasks_view(out@) =~= out0.push(tsv[i as int]));
                assert(out0 + (seq![tsv[i as int]] + filter_spec(psv, tsv.skip(i + 1))) =~= out0.push(
                    tsv[i as int],
                ) + filter_spec(psv, tsv.skip(i + 1)));
            }
        }
        i = i + 1;
    }
    proof {
        assert(tsv.skip(n as int) =~= Seq::<TaskView>::empty());
        assert(tasks_view(out@) + Seq::<TaskView>::empty() =~= tasks_view(out@));
    }
    out
}

// ---------------------------------------------------------------------
// Laws of the evaluator
// ---------------------------------------------------------------------
/// Filtering with no predicates returns the collection unchanged.
pub proof fn lemma_filter_empty(ts: Seq<TaskView>)
    ensures
        filter_spec(Seq::empty(), ts) == ts,
    decreases ts.len(),
{
    if ts.len() > 0 {
        lemma_filter_empty(ts.skip(1));
        assert(filter_spec(Seq::empty(), ts) =~= ts);
    }
}

/// Every task kept by the filter satisfies the whole conjunction, and
/// the filter keeps exactly the satisfying tasks of the collection.
pub proof fn lemma_filter_members(ps: Seq<PredView>, ts: Seq<TaskView>)
    ensures
        forall|k: int|
            0 <= k < filter_spec(ps, ts).len() ==> all_hold(ps, #[trigger] filter_spec(ps, ts)[k]),
    decreases ts.len(),
{
    if ts.len() > 0 {
        lemma_filter_members(ps, ts.skip(1));
        let rest = filter_spec(ps, ts.skip(1));
        if all_hold(ps, ts[0]) {
            assert forall|k: int| 0 <= k < filter_spec(ps, ts).len() implies all_hold(
                ps,
                filter_spec(ps, ts)[k],
            ) by {
                if k == 0 {
                    assert(filter_spec(ps, ts)[0] == ts[0]);
                } else {
                    assert(filter_spec(ps, ts)[k] == rest[k - 1]);
                }
            }
        }
    }
}

/// A collection every member of which satisfies the conjunction is
/// returned whole.
pub proof fn lemma_filter_all_sat(ps: Seq<PredView>, ts: Seq<TaskView>)
    requires
        forall|k: int| 0 <= k < ts.len() ==> all_hold(ps, #[trigger] ts[k]),
    ensures
        filter_spec(ps, ts) == ts,
    decreases ts.len(),
{
    if ts.len() > 0 {
        assert(forall|k: int| 0 <= k < ts.skip(1).len() ==> ts.skip(1)[k] == ts[k + 1]);
        lemma_filter_all_sat(ps, ts.skip(1));
        assert(filter_spec(ps, ts) =~= ts);
    }
}

/// Evaluation is idempotent: filtering a result again with the same
/// predicates changes nothing.
pub proof fn lemma_filter_idempotent(ps: Seq<PredView>, ts: Seq<TaskView>)
    ensures
        filter_spec(ps, filter_spec(ps, ts)) == filter_spec(ps, ts),
{
    lemma_filter_members(ps, ts);
    lemma_filter_all_sat(ps, filter_spec(ps, ts));
}

/// The conjunction depends only on which predicates occur, not on
/// their order or grouping.
pub proof fn lemma_all_hold_same_members(ps1: Seq<PredView>, ps2: Seq<PredView>, t: TaskView)
    requires
        forall|p: PredView| ps1.contains(p) <==> ps2.contains(p),
    ensures
        all_hold(ps1, t) == all_hold(ps2, t),
{
    if all_hold(ps1, t) {
        assert forall|i: int| 0 <= i < ps2.len() implies pred_holds(ps2[i], t) by {
            assert(ps2.contains(ps2[i]));
            let j = choose|j: int| 0 <= j < ps1.len() && ps1[j] == ps2[i];
            assert(pred_holds(ps1[j], t));
        }
    }
    if all_hold(ps2, t) {
        assert forall|i: int| 0 <= i < ps1.len() implies pred_holds(ps1[i], t) by {
            assert(ps1.contains(ps1[i]));
            let j = choose|j: int| 0 <= j < ps2.len() && ps2[j] == ps1[i];
            assert(pred_holds(ps2[j], t));
        }
    }
}

/// Two pointwise-equivalent conjunctions filter alike.
pub proof fn lemma_filter_equiv(ps1: Seq<PredView>, ps2: Seq<PredView>, ts: Seq<TaskView>)
    requires
        forall|t: TaskView| #[trigger] all_hold(ps1, t) == all_hold(ps2, t),
    ensures
        filter_spec(ps1, ts) == filter_spec(ps2, ts),
    decreases ts.len(),
{
    if ts.len() > 0 {
        lemma_filter_equiv(ps1, ps2, ts.skip(1));
    }
}

/// The comparison and `LIKE` leaves of a pure-AND tree, left to
/// right, with parentheses stripped.
pub open spec fn and_leaves(e: ExprView) -> Seq<ExprView>
    decreases e,
{
    match e {
        ExprView::BinaryOp { op, left, right } => if op == BinOp::And {
            and_leaves(*left) + and_leaves(*right)
        } else {
            seq![e]
        },
        ExprView::Nested(inner) => and_leaves(*inner),
        _ => seq![e],
    }
}

/// The predicate of one leaf of an AND tree.
pub open spec fn compile_leaf(e: ExprView) -> Result<PredView, SqlErrorView> {
    match e {
        ExprView::BinaryOp { op, left, right } => if is_cmp_op(op) {
            compile_cmp(op, *left, *right)
        } else {
            Result::Err(SqlErrorView::UnhandledOperator(op))
        },
        ExprView::Like { expr, pattern } => compile_like(*expr, *pattern),
        _ => Result::Err(SqlErrorView::NotValidQuery),
    }
}

/// The leaves of all the expressions still queued.
pub open spec fn queue_leaves(q: Seq<ExprView>) -> Seq<ExprView>
    decreases q.len(),
{
    if q.len() == 0 {
        Seq::empty()
    } else {
        and_leaves(q[0]) + queue_leaves(q.skip(1))
    }
}

/// Some leaf of `s` compiles to the predicate `p`.
pub open spec fn leaves_give(s: Seq<ExprView>, p: PredView) -> bool {
    exists|i: int|
        0 <= i < s.len() && compile_leaf(s[i]) == Result::<PredView, SqlErrorView>::Ok(p)
}

proof fn lemma_queue_leaves_push(q: Seq<ExprView>, e: ExprView)
    ensures
        queue_leaves(q.push(e)) == queue_leaves(q) + and_leaves(e),
    decreases q.len(),
{
    if q.len() == 0 {
        assert(q.push(e)[0] == e);
        assert(q.push(e).skip(1) =~= Seq::<ExprView>::empty());
        assert(queue_leaves(Seq::<ExprView>::empty()) =~= Seq::<ExprView>::empty());
        assert(queue_leaves(q.push(e)) =~= and_leaves(e) + Seq::<ExprView>::empty());
        assert(and_leaves(e) + Seq::<ExprView>::empty() =~= queue_leaves(q) + and_leaves(e));
    } else {
        assert(q.push(e)[0] == q[0]);
        assert(q.push(e).skip(1) =~= q.skip(1).push(e));
        lemma_queue_leaves_push(q.skip(1), e);
        assert(and_leaves(q[0]) + (queue_leaves(q.skip(1)) + and_leaves(e)) =~= (and_leaves(q[0])
            + queue_leaves(q.skip(1))) + and_leaves(e));
    }
}

proof fn lemma_push_contains(s: Seq<PredView>, x: PredView, y: PredView)
    ensures
        s.push(x).contains(y) <==> (s.contains(y) || x == y),
{
    if s.push(x).contains(y) {
        let i = choose|i: int| 0 <= i < s.push(x).len() && s.push(x)[i] == y;
        if i < s.len() {
            assert(s[i] == y);
        }
    }
    if s.contains(y) {
        let i = choose|i: int| 0 <= i < s.len() && s[i] == y;
        assert(s.push(x)[i] == y);
    }
    assert(s.push(x)[s.len() as int] == x);
}

proof fn lemma_leaves_give_concat(a: Seq<ExprView>, b: Seq<ExprView>, p: PredView)
    ensures
        leaves_give(a + b, p) == (leaves_give(a, p) || leaves_give(b, p)),
{
    if leaves_give(a + b, p) {
        let i = choose|i: int|
            0 <= i < (a + b).len() && compile_leaf((a + b)[i]) == Result::<
                PredView,
                SqlErrorView,
            >::Ok(p);
        if i < a.len() {
            assert((a + b)[i] == a[i]);
        } else {
            assert((a + b)[i] == b[i - a.len()]);
        }
    }
    if leaves_give(a, p) {
        let i = choose|i: int|
            0 <= i < a.len() && compile_leaf(a[i]) == Result::<PredView, SqlErrorView>::Ok(p);
        assert((a + b)[i] == a[i]);
    }
    if leaves_give(b, p) {
        let i = choose|i: int|
            0 <= i < b.len() && compile_leaf(b[i]) == Result::<PredView, SqlErrorView>::Ok(p);
        assert((a + b)[a.len() + i] == b[i]);
    }
}

/// A successful compilation yields exactly the predicates of the
/// leaves: a predicate is in the result precisely when it was carried
/// in already or some queued leaf compiles to it.
proof fn lemma_compile_contains(q: Seq<ExprView>, acc: Seq<PredView>, p: PredView)
    ensures
        compile_spec(q, acc) matches Result::Ok(ps) ==> (ps.contains(p) <==> (acc.contains(p)
            || leaves_give(queue_leaves(q), p))),
    decreases queue_size(q),
{
    if q.len() == 0 {
        assert(queue_leaves(q) =~= Seq::<ExprView>::empty());
        return ;
    }
    let rest = q.skip(1);
    lemma_queue_size_head(q);
    lemma_leaves_give_concat(and_leaves(q[0]), queue_leaves(rest), p);
    match q[0] {
        ExprView::Nested(inner) => {
            lemma_queue_size_push(rest, *inner);
            lemma_queue_leaves_push(rest, *inner);
            lemma_compile_contains(rest.push(*inner), acc, p);
            lemma_leaves_give_concat(queue_leaves(rest), and_leaves(*inner), p);
        },
        ExprView::BinaryOp { op, left, right } => {
            if op == BinOp::And {
                lemma_queue_size_push(rest, *left);
                lemma_queue_size_push(rest.push(*left), *right);
                lemma_queue_leaves_push(rest, *left);
                lemma_queue_leaves_push(rest.push(*left), *right);
                lemma_compile_contains(rest.push(*left).push(*right), acc, p);
                lemma_leaves_give_concat(
                    queue_leaves(rest) + and_leaves(*left),
                    and_leaves(*right),
                    p,
                );
                lemma_leaves_give_concat(queue_leaves(rest), and_leaves(*left), p);
                lemma_leaves_give_concat(and_leaves(*left), and_leaves(*right), p);
            } else if is_cmp_op(op) {
                if let Result::Ok(pred) = compile_cmp(op, *left, *right) {
                    lemma_compile_contains(rest, acc.push(pred), p);
                    lemma_push_contains(acc, pred, p);
                    assert(and_leaves(q[0]) =~= seq![q[0]]);
                    if p == pred {
                        assert(compile_leaf(seq![q[0]][0]) == Result::<
                            PredView,
                            SqlErrorView,
                        >::Ok(p));
                    }
                    if leaves_give(seq![q[0]], p) {
                        assert(p == pred);
                    }
                }
            }
        },
        ExprView::Like { expr, pattern } => {
            if let Result::Ok(pred) = compile_like(*expr, *pattern) {
                lemma_compile_contains(rest, acc.push(pred), p);
                lemma_push_contains(acc, pred, p);
                assert(and_leaves(q[0]) =~= seq![q[0]]);
                if p == pred {
                    assert(compile_leaf(seq![q[0]][0]) == Result::<
                        PredView,
                        SqlErrorView,
                    >::Ok(p));
                }
                if leaves_give(seq![q[0]], p) {
                    assert(p == pred);
                }
            }
        },
        _ => {},
    }
}

proof fn lemma_queue_size_head(q: Seq<ExprView>)
    requires
        q.len() > 0,
    ensures
        queue_size(q) == expr_size(q[0]) + queue_size(q.skip(1)),
{
}

/// AND is associative and commutative at the result level: two
/// pure-AND trees over the same comparison and `LIKE` leaves — however
/// ordered, grouped or parenthesized — compile to conjunctions that
/// select the same rows.
pub proof fn lemma_and_tree_reorder(
    e1: ExprView,
    e2: ExprView,
    ps1: Seq<PredView>,
    ps2: Seq<PredView>,
    ts: Seq<TaskView>,
)
    requires
        forall|l: ExprView| and_leaves(e1).contains(l) <==> and_leaves(e2).contains(l),
        compile_spec(seq![e1], Seq::empty()) == Result::<Seq<PredView>, SqlErrorView>::Ok(ps1),
        compile_spec(seq![e2], Seq::empty()) == Result::<Seq<PredView>, SqlErrorView>::Ok(ps2),
    ensures
        filter_spec(ps1, ts) == filter_spec(ps2, ts),
{
    assert(seq![e1].skip(1) =~= Seq::<ExprView>::empty());
    assert(seq![e2].skip(1) =~= Seq::<ExprView>::empty());
    assert(queue_leaves(Seq::<ExprView>::empty()) =~= Seq::<ExprView>::empty());
    assert(queue_leaves(seq![e1]) =~= and_leaves(e1) + Seq::<ExprView>::empty());
    assert(and_leaves(e1) + Seq::<ExprView>::empty() =~= and_leaves(e1));
    assert(queue_leaves(seq![e2]) =~= and_leaves(e2) + Seq::<ExprView>::empty());
    assert(and_leaves(e2) + Seq::<ExprView>::empty() =~= and_leaves(e2));
    assert forall|p: PredView| ps1.contains(p) <==> ps2.contains(p) by {
        lemma_compile_contains(seq![e1], Seq::<PredView>::empty(), p);
        lemma_compile_contains(seq![e2], Seq::<PredView>::empty(), p);
        assert(!Seq::<PredView>::empty().contains(p));
        if leaves_give(and_leaves(e1), p) {
            let i = choose|i: int|
                0 <= i < and_leaves(e1).len() && compile_leaf(and_leaves(e1)[i]) == Result::<
                    PredView,
                    SqlErrorView,
                >::Ok(p);
            assert(and_leaves(e1).contains(and_leaves(e1)[i]));
            let l = and_leaves(e1)[i];
            let j = choose|j: int| 0 <= j < and_leaves(e2).len() && and_leaves(e2)[j] == l;
            assert(compile_leaf(and_leaves(e2)[j]) == Result::<PredView, SqlErrorView>::Ok(p));
        }
        if leaves_give(and_leaves(e2), p) {
            let i = choose|i: int|
                0 <= i < and_leaves(e2).len() && compile_leaf(and_leaves(e2)[i]) == Result::<
                    PredView,
                    SqlErrorView,
                >::Ok(p);
            assert(and_leaves(e2).contains(and_leaves(e2)[i]));
            let l = and_leaves(e2)[i];
            let j = choose|j: int| 0 <= j < and_leaves(e1).len() && and_leaves(e1)[j] == l;
            assert(compile_leaf(and_leaves(e1)[j]) == Result::<PredView, SqlErrorView>::Ok(p));
        }
    }
    assert forall|t: TaskView| #[trigger] all_hold(ps1, t) == all_hold(ps2, t) by {
        lemma_all_hold_same_members(ps1, ps2, t);
    }
    lemma_filter_equiv(ps1, ps2, ts);
}

/// AND is associative and commutative at the result level: any
/// reordering or regrouping of a conjunction — any list with the same
/// predicates as multiset — yields the same filtered collection.
pub proof fn lemma_conjunction_reorder(ps1: Seq<PredView>, ps2: Seq<PredView>, ts: Seq<TaskView>)
    requires
        ps1.to_multiset() == ps2.to_multiset(),
    ensures
        filter_spec(ps1, ts) == filter_spec(ps2, ts),
{
    broadcast use vstd::seq_lib::group_to_multiset_ensures;

    assert forall|p: PredView| ps1.contains(p) <==> ps2.contains(p) by {
        assert(ps1.contains(p) <==> ps1.to_multiset().count(p) > 0);
        assert(ps2.contains(p) <==> ps2.to_multiset().count(p) > 0);
    }
    assert forall|t: TaskView| #[trigger] all_hold(ps1, t) == all_hold(ps2, t) by {
        lemma_all_hold_same_members(ps1, ps2, t);
    }
    lemma_filter_equiv(ps1, ps2, ts);
}

} // verus!
