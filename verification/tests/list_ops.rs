use todo_list::list::task::{Date, Task};
use todo_list::list::{List, ListError};
use todo_list::ast::BinOp;
use todo_list::list::SqlError;
use todo_list::traits::Table;
use ListError::{Sql, TaskAlreadyCompleted, TaskAlreadyExists, TaskNotChanged, TaskNotExist};

#[test]
fn not_exist_task() {
    let mut list = List(vec![]);
    let title = "title".to_string();

    assert_eq!(list.done(title.clone()), Err(TaskNotExist(title.clone())));

    assert_eq!(
        list.update(title.clone(), &Task::default()),
        Err(TaskNotExist(title.clone()))
    );

    assert_eq!(
        list.delete(String::from("do")),
        Err(TaskNotExist("do".into()))
    );
}

#[test]
fn done() {
    let mut list = List(vec![Task::default()]);

    assert_eq!(
        list.done(String::default()),
        Ok(&Task {
            is_done: true,
            ..Task::default()
        })
    );

    assert_eq!(list.done(String::default()), Err(TaskAlreadyCompleted));
}

#[test]
fn update() {
    let mut task = Task::default();
    let mut list = List(vec![Task::default()]);

    assert_eq!(
        list.update(String::default(), &task.clone()),
        Err(TaskNotChanged)
    );

    task.is_done = true;
    assert_eq!(
        list.update(String::default(), &task.clone()),
        Ok(&Task {
            is_done: true,
            ..task
        })
    );
}

#[test]
fn delete() {
    let mut list = List(vec![Task::default()]);
    assert_eq!(list.delete(String::default()), Ok(Task::default()));
}

#[test]
fn add_rejects_identical_task() {
    let mut list = List(vec![]);
    assert!(list.add(Task::default()).is_ok());
    assert_eq!(list.add(Task::default()), Err(TaskAlreadyExists));
    assert_eq!(list.0.len(), 1);

    // A task differing in one field is accepted.
    let other = Task {
        descr: "other".into(),
        ..Task::default()
    };
    assert!(list.add(other).is_ok());
    assert_eq!(list.0.len(), 2);
}

#[test]
fn get_task_first_match_wins() {
    let a = Task {
        title: "t".into(),
        descr: "first".into(),
        ..Task::default()
    };
    let b = Task {
        title: "t".into(),
        descr: "second".into(),
        ..Task::default()
    };
    let list = List(vec![a.clone(), b]);
    assert_eq!(list.get_task("t"), Ok(&a));
    assert_eq!(
        list.get_task("missing"),
        Err(TaskNotExist("missing".into()))
    );
}

#[test]
fn change_by_key_sets_fields() {
    let mut task = Task::default();
    assert_eq!(task.change_by_key("title", "new title"), Ok(()));
    assert_eq!(task.title, "new title");

    assert_eq!(task.change_by_key("is_done", "true"), Ok(()));
    assert!(task.is_done);

    assert_eq!(
        task.change_by_key("is_done", "yes"),
        Err("Ожидается true или false".to_string())
    );
    assert!(task.is_done);

    assert_eq!(task.change_by_key("date", "1970-01-01 00:01"), Ok(()));
    assert_eq!(task.date, Date(60));

    assert_eq!(
        task.change_by_key("date", "not a date"),
        Err("Ожидается true или false".to_string())
    );
    assert_eq!(task.date, Date(60));
}

#[test]
fn date_parse_formats() {
    // Minutes since the epoch: the parsed timestamp is exact.
    assert_eq!(Date::parse("1970-01-01 00:00"), Ok(Date(0)));
    assert_eq!(Date::parse("1970-01-01 00:01"), Ok(Date(60)));
    assert_eq!(Date::parse("1970-01-01 00:00:30"), Ok(Date(30)));
    // A bare date carries no time part, which the parser requires, so
    // no accepted format matches it.
    assert!(Date::parse("1970-01-02").is_err());
    assert_eq!(Date::parse("1970-01-01T00:01:00"), Ok(Date(60)));
    assert_eq!(Date::parse("1970/01/01 00:00:05"), Ok(Date(5)));
    assert_eq!("2024-08-20 12:00".parse::<Date>(), Ok(Date(1724155200)));

    let err = Date::parse("never").unwrap_err();
    assert_eq!(
        err,
        "Ожидается формат: %Y-%m-%d %H:%M:%S | %Y-%m-%d %H:%M | %Y-%m-%d | %Y-%m-%dT%H:%M:%S | %Y/%m/%d %H:%M:%S"
    );
}

#[test]
fn format_by_key_rewrites_dates() {
    assert_eq!(
        Task::format_by_key("date", "\"1970-01-01T00:00:00\"".to_string()),
        "1970-01-01 00:00"
    );
    assert_eq!(
        Task::format_by_key("date", "2024-08-20T12:34:56".to_string()),
        "2024-08-20 12:34"
    );
    // Text that is no ISO date is kept as it came.
    assert_eq!(
        Task::format_by_key("date", "later".to_string()),
        "later"
    );
    assert_eq!(Task::format_by_key("title", "x".to_string()), "x");
}

#[test]
fn table_keys_and_values() {
    let keys = <Task as Table>::get_keys();
    assert_eq!(keys, vec!["title", "descr", "date", "category", "is_done"]);

    let task = Task {
        title: "a".into(),
        descr: "b".into(),
        date: Date(7),
        category: "c".into(),
        is_done: true,
    };
    let values = task.get_values();
    assert_eq!(values.len(), 5);
    assert!(matches!(&values[0], todo_list::list::task::FieldValue::Str(s) if s == "a"));
    assert!(matches!(&values[2], todo_list::list::task::FieldValue::Date(d) if *d == Date(7)));
    assert!(matches!(&values[4], todo_list::list::task::FieldValue::Bool(true)));

    let entries = task.get_entries();
    assert_eq!(entries.len(), 5);
    assert_eq!(entries[3].0, "category");

    assert!(matches!(
        task.get_value(&"descr".to_string()),
        Some(todo_list::list::task::FieldValue::Str(s)) if s == "b"
    ));
    assert!(task.get_value(&"nope".to_string()).is_none());
}

#[test]
fn error_messages() {
    assert_eq!(
        Sql(SqlError::NotValidQuery).message(),
        "Ожидаемый формат запроса: SELECT * [WHERE where_condition]"
    );
    assert_eq!(
        TaskNotExist("do".to_string()).message(),
        "Задача \"do\" не найдена"
    );
    assert_eq!(TaskAlreadyExists.message(), "Задача уже существует");
    assert_eq!(TaskAlreadyCompleted.message(), "Задача уже выполнена");
    assert_eq!(TaskNotChanged.message(), "Задача не изменена");
    assert_eq!(
        Sql(SqlError::UnhandledOperator(BinOp::Or)).message(),
        "Оператор OR не обрабатывается"
    );
    assert_eq!(
        Sql(SqlError::Format("title = ..".to_string())).message(),
        "Ожидается формат: title = .."
    );
    assert_eq!(
        Sql(SqlError::NonExistentField("name".to_string())).message(),
        "name"
    );
}
