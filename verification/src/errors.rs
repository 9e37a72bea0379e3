//! The closed error taxonomy: query errors and list-operation errors.
//! All are reported to the caller; nothing here terminates the
//! process.

use vstd::prelude::*;

use crate::ast::BinOp;

verus! {

use vstd::string::StringExecFns;

/// Why a query was rejected.
#[derive(Debug)]
pub enum SqlError {
    /// Not a syntactically valid single `SELECT` statement.
    NotValidQuery,
    /// A predicate names a field outside the five-field schema.
    NonExistentField(String),
    /// A boolean combinator other than `AND`, or a comparison operator
    /// outside `=`, `>`, `<`, `>=`, `<=`.
    UnhandledOperator(BinOp),
    /// A structurally matched node whose operands violate the field's
    /// contract; the payload describes the expected shape.
    Format(String),
}

/// The model of a query error.
pub enum SqlErrorView {
    NotValidQuery,
    NonExistentField(Seq<char>),
    UnhandledOperator(BinOp),
    Format(Seq<char>),
}

impl View for SqlError {
    type V = SqlErrorView;

    open spec fn view(&self) -> SqlErrorView {
        match self {
            SqlError::NotValidQuery => SqlErrorView::NotValidQuery,
            SqlError::NonExistentField(s) => SqlErrorView::NonExistentField(s@),
            SqlError::UnhandledOperator(op) => SqlErrorView::UnhandledOperator(*op),
            SqlError::Format(s) => SqlErrorView::Format(s@),
        }
    }
}

impl PartialEq for SqlError {
    fn eq(&self, other: &Self) -> (r: bool) {
        match (self, other) {
            (SqlError::NotValidQuery, SqlError::NotValidQuery) => true,
            (SqlError::NonExistentField(a), SqlError::NonExistentField(b)) => *a == *b,
            (SqlError::UnhandledOperator(a), SqlError::UnhandledOperator(b)) => *a == *b,
            (SqlError::Format(a), SqlError::Format(b)) => *a == *b,
            _ => false,
        }
    }
}

impl vstd::std_specs::cmp::PartialEqSpecImpl for SqlError {
    open spec fn obeys_eq_spec() -> bool {
        true
    }

    open spec fn eq_spec(&self, other: &Self) -> bool {
        self@ == other@
    }
}

/// The user-facing message of a query error.
pub open spec fn sql_message(e: SqlErrorView) -> Seq<char> {
    match e {
        SqlErrorView::NotValidQuery => "Ожидаемый формат запроса: SELECT * [WHERE where_condition]"@,
        SqlErrorView::NonExistentField(m) => m,
        SqlErrorView::UnhandledOperator(op) => "Оператор "@ + crate::ast::op_symbol(op)
            + " не обрабатывается"@,
        SqlErrorView::Format(f) => "Ожидается формат: "@ + f,
    }
}

impl SqlError {
    /// Render this error as its user-facing message.
    pub fn message(&self) -> (r: String)
        ensures
            r@ == sql_message(self@),
    {
        match self {
            SqlError::NotValidQuery => "Ожидаемый формат запроса: SELECT * [WHERE where_condition]".to_owned(),
            SqlError::NonExistentField(m) => m.clone(),
            SqlError::UnhandledOperator(op) => "Оператор ".to_owned().concat(op.symbol()).concat(
                " не обрабатывается",
            ),
            SqlError::Format(f) => "Ожидается формат: ".to_owned().concat(f.as_str()),
        }
    }
}

/// Why a list operation failed.
#[derive(Debug)]
pub enum ListError {
    TaskAlreadyExists,
    TaskAlreadyCompleted,
    TaskNotChanged,
    /// No task has the given title; the payload is that title.
    TaskNotExist(String),
    Sql(SqlError),
}

/// The model of a list error.
pub enum ListErrorView {
    TaskAlreadyExists,
    TaskAlreadyCompleted,
    TaskNotChanged,
    TaskNotExist(Seq<char>),
    Sql(SqlErrorView),
}

impl View for ListError {
    type V = ListErrorView;

    open spec fn view(&self) -> ListErrorView {
        match self {
            ListError::TaskAlreadyExists => ListErrorView::TaskAlreadyExists,
            ListError::TaskAlreadyCompleted => ListErrorView::TaskAlreadyCompleted,
            ListError::TaskNotChanged => ListErrorView::TaskNotChanged,
            ListError::TaskNotExist(s) => ListErrorView::TaskNotExist(s@),
            ListError::Sql(e) => ListErrorView::Sql(e@),
        }
    }
}

impl PartialEq for ListError {
    fn eq(&self, other: &Self) -> (r: bool) {
        match (self, other) {
            (ListError::TaskAlreadyExists, ListError::TaskAlreadyExists) => true,
            (ListError::TaskAlreadyCompleted, ListError::TaskAlreadyCompleted) => true,
            (ListError::TaskNotChanged, ListError::TaskNotChanged) => true,
            (ListError::TaskNotExist(a), ListError::TaskNotExist(b)) => *a == *b,
            (ListError::Sql(a), ListError::Sql(b)) => *a == *b,
            _ => false,
        }
    }
}

impl vstd::std_specs::cmp::PartialEqSpecImpl for ListError {
    open spec fn obeys_eq_spec() -> bool {
        true
    }

    open spec fn eq_spec(&self, other: &Self) -> bool {
        self@ == other@
    }
}

/// The user-facing message of a list error.
pub open spec fn list_message(e: ListErrorView) -> Seq<char> {
    match e {
        ListErrorView::TaskAlreadyExists => "Задача уже существует"@,
        ListErrorView::TaskAlreadyCompleted => "Задача уже выполнена"@,
        ListErrorView::TaskNotChanged => "Задача не изменена"@,
        ListErrorView::TaskNotExist(title) => "Задача \""@ + title + "\" не найдена"@,
        ListErrorView::Sql(s) => sql_message(s),
    }
}

impl ListError {
    /// Render this error as its user-facing message.
    pub fn message(&self) -> (r: String)
        ensures
            r@ == list_message(self@),
    {
        match self {
            ListError::TaskAlreadyExists => "Задача уже существует".to_owned(),
            ListError::TaskAlreadyCompleted => "Задача уже выполнена".to_owned(),
            ListError::TaskNotChanged => "Задача не изменена".to_owned(),
            ListError::TaskNotExist(title) => "Задача \"".to_owned().concat(title.as_str()).concat(
                "\" не найдена",
            ),
            ListError::Sql(s) => s.message(),
        }
    }
}

} // verus!
