use todo_list::ast::BinOp::{NotEq, Or, StringConcat};
use todo_list::list::task::{Date, Task};
use todo_list::list::List;
use todo_list::list::ListError::Sql;
use todo_list::list::SqlError::{Format, NonExistentField, NotValidQuery, UnhandledOperator};

#[test]
fn not_valid_query() {
    let list = List(vec![Task::default(), Task::default()]);

    assert_eq!(list.select("select *"), Ok(List(list.0.clone())));

    // NotValidQuery
    assert_eq!(list.select("select * where"), Err(Sql(NotValidQuery)));
    assert_eq!(list.select("* where"), Err(Sql(NotValidQuery)));

    assert_eq!(
        list.select("select * where name = ''"),
        Err(Sql(NonExistentField("name".into())))
    );
}

#[test]
fn select_by_one_field() {
    let list = List(vec![Task::default(), Task::default()]);

    // String

    // both quotes: "", ''
    assert_eq!(
        list.select("select * where title = ''"),
        Ok(List(list.0.clone()))
    );
    assert_eq!(
        list.select("select * where title = \"\""),
        Ok(List(list.0.clone()))
    );

    assert_eq!(
        list.select("select * where title || ''"),
        Err(Sql(UnhandledOperator(StringConcat)))
    );

    assert_eq!(
        list.select("select * where 22 = ''"),
        Err(Sql(Format("WHERE [Identifier ..]".into())))
    );

    assert_eq!(
        list.select("select * where title > \"\""),
        Err(Sql(Format("title = ..".into())))
    );
    assert_eq!(
        list.select("select * where title = 22"),
        Err(Sql(Format("[.. StringValue]".into())))
    );
    assert_eq!(
        list.select("select * where title = title"),
        Err(Sql(Format("[.. StringValue]".into())))
    );

    // Like

    // both quotes: "", ''
    assert_eq!(list.select("select * where title like 'tit'"), Ok(List(vec![])));
    assert_eq!(
        list.select("select * where title like \"tit\""),
        Ok(List(vec![]))
    );

    assert_eq!(
        list.select("select * where date like 22"),
        Err(Sql(Format("[StringIdnetifier like ..]".into())))
    );

    assert_eq!(
        list.select("select * where title like 22"),
        Err(Sql(Format("[.. like StringValue]".into())))
    );

    assert_eq!(
        list.select("select * where 22 like 22"),
        Err(Sql(Format("[StringIdnetifier like ..]".into())))
    );

    // Bool
    assert_eq!(
        list.select("select * where is_done = false"),
        Ok(List(list.0.clone()))
    );
    assert_eq!(
        list.select("select * where is_done = 'false'"),
        Err(Sql(Format("[.. true | false]".into())))
    );
    assert_eq!(
        list.select("select * where is_done > false"),
        Err(Sql(Format("is_done = ..".into())))
    );

    // Date -> operator Eq
    assert_eq!(
        list.select("select * where date = \"1970-01-01 00:00\""),
        Ok(List(list.0.clone()))
    );
    assert_eq!(
        list.select("select * where date = \"1970-01-01T00:00:00\""),
        Ok(List(list.0.clone()))
    );

    assert_eq!(
        list.select("select * where date = false"),
        Err(Sql(Format("[.. \"Date\"]".into())))
    );
    assert_eq!(
        list.select("select * where date = 'false'"),
        Err(Sql(Format("[.. \"Date\"]".into())))
    );
    assert_eq!(
        list.select("select * where date > false"),
        Err(Sql(Format("[.. \"Date\"]".into())))
    );

    // Date -> comparison operators
    assert_eq!(
        list.select("select * where date < \"1970-01-01 00:01\""),
        Ok(List(list.0.clone()))
    );
    assert_eq!(
        list.select("select * where date > \"1970-01-01 00:01\""),
        Ok(List(vec![]))
    );
    assert_eq!(
        list.select("select * where date <= \"1970-01-01 00:00\""),
        Ok(List(list.0.clone()))
    );
    assert_eq!(
        list.select("select * where date < \"1970-01-01 00:00\""),
        Ok(List(vec![]))
    );
}

#[test]
fn select_by_combinations() {
    let list = List(vec![Task::default(), Task::default()]);

    assert_eq!(
        list.select("select * where title = '' or title like ''"),
        Err(Sql(UnhandledOperator(Or)))
    );

    assert_eq!(
        list.select("select * where title = '' and title like '' and date = \"1970-01-01 00:00\" and date <= \"1970-01-01 00:00\""),
        Ok(List(list.0.clone()))
    );

    assert_eq!(
        list.select(
            "select * where title = 'name' and title like '' and date = \"1970-01-01 00:00\""
        ),
        Ok(List(vec![]))
    );
    assert_eq!(
        list.select(
            "select * where title = '' and title like 'na' and date = \"1970-01-01 00:00\""
        ),
        Ok(List(vec![]))
    );
    assert_eq!(
        list.select(
            "select * where title = '' and title like 'na' and date > \"1970-01-01 00:00\""
        ),
        Ok(List(vec![]))
    );
}

fn sample_tasks() -> List {
    let mk = |title: &str, descr: &str, category: &str, date: &str, is_done: bool| Task {
        title: title.into(),
        descr: descr.into(),
        category: category.into(),
        date: date.parse::<Date>().unwrap(),
        is_done,
    };
    List(vec![
        mk("Abc", "first one", "Home", "2024-08-20 12:00", false),
        mk("abc", "second one", "Work", "2024-08-21 12:00", true),
        mk("Other", "third", "Home", "2024-08-22 12:00", false),
    ])
}

#[test]
fn equality_and_like_are_case_sensitive() {
    let list = sample_tasks();

    // Exact, case-sensitive equality on title.
    let r = list.select("select * where title = 'Abc'").unwrap();
    assert_eq!(r.0.len(), 1);
    assert_eq!(r.0[0].descr, "first one");

    // LIKE is substring containment, case-sensitive.
    let r = list.select("select * where title like 'bc'").unwrap();
    assert_eq!(r.0.len(), 2);
    assert_eq!(list.select("select * where title like 'B'"), Ok(List(vec![])));

    // LIKE works on descr and category too.
    let r = list.select("select * where descr like 'one'").unwrap();
    assert_eq!(r.0.len(), 2);
    let r = list.select("select * where category = 'Home'").unwrap();
    assert_eq!(r.0.len(), 2);
}

#[test]
fn non_equality_operators_rejected_per_field() {
    let list = sample_tasks();
    assert_eq!(
        list.select("select * where descr < ''"),
        Err(Sql(Format("descr = ..".into())))
    );
    assert_eq!(
        list.select("select * where category >= ''"),
        Err(Sql(Format("category = ..".into())))
    );
    assert_eq!(
        list.select("select * where is_done <= false"),
        Err(Sql(Format("is_done = ..".into())))
    );
    assert_eq!(
        list.select("select * where title != ''"),
        Err(Sql(UnhandledOperator(NotEq)))
    );
}

#[test]
fn empty_collection_stays_empty() {
    let list = List(vec![]);
    assert_eq!(list.select("select *"), Ok(List(vec![])));
    assert_eq!(list.select("select * where title = ''"), Ok(List(vec![])));
    assert_eq!(
        list.select("select * where name = ''"),
        Err(Sql(NonExistentField("name".into())))
    );
}

#[test]
fn no_where_clause_returns_everything() {
    let list = sample_tasks();
    assert_eq!(list.select("select *"), Ok(List(list.0.clone())));
    assert_eq!(list.select("SELECT title, descr"), Ok(List(list.0.clone())));
    assert_eq!(list.select("select 22"), Ok(List(list.0.clone())));
}

#[test]
fn evaluation_is_repeatable_and_pure() {
    let list = sample_tasks();
    let before = List(list.0.clone());
    let q = "select * where is_done = false and category = 'Home'";
    let first = list.select(q).unwrap();
    let second = list.select(q).unwrap();
    assert_eq!(first, second);
    assert_eq!(first.0.len(), 2);
    // The input collection is untouched.
    assert_eq!(list, before);
}

#[test]
fn conjunction_order_is_irrelevant() {
    let list = sample_tasks();
    let a = list
        .select("select * where category = 'Home' and is_done = false and title like 'c'")
        .unwrap();
    let b = list
        .select("select * where title like 'c' and category = 'Home' and is_done = false")
        .unwrap();
    let c = list
        .select("select * where (title like 'c' and category = 'Home') and is_done = false")
        .unwrap();
    assert_eq!(a, b);
    assert_eq!(a, c);
    assert_eq!(a.0.len(), 1);
    assert_eq!(a.0[0].title, "Abc");
}

#[test]
fn nested_parentheses_accepted() {
    let list = sample_tasks();
    let r = list.select("select * where (title = 'Abc')").unwrap();
    assert_eq!(r.0.len(), 1);
    let r = list.select("select * where ((is_done = true))").unwrap();
    assert_eq!(r.0.len(), 1);
    assert_eq!(r.0[0].title, "abc");
}

#[test]
fn date_ranges_follow_chronology() {
    let list = sample_tasks();
    let r = list.select("select * where date >= \"2024-08-21 00:00\"").unwrap();
    assert_eq!(r.0.len(), 2);
    let r = list
        .select("select * where date > \"2024-08-20 12:00\" and date < \"2024-08-22 12:00\"")
        .unwrap();
    assert_eq!(r.0.len(), 1);
    assert_eq!(r.0[0].title, "abc");
    assert_eq!(
        list.select("select * where date = \"20 Aug 2024\""),
        Err(Sql(Format("[.. \"Date\"]".into())))
    );
}

#[test]
fn unterminated_or_unknown_tokens_are_invalid() {
    let list = sample_tasks();
    assert_eq!(list.select("select * where title = 'oops"), Err(Sql(NotValidQuery)));
    assert_eq!(list.select("select * where title = ''; --"), Err(Sql(NotValidQuery)));
    assert_eq!(list.select(""), Err(Sql(NotValidQuery)));
    assert_eq!(list.select("update tasks set title = ''"), Err(Sql(NotValidQuery)));
}
