//! The task record: the fixed five-field schema that queries run over.

pub mod date;

use vstd::prelude::*;

use crate::text::str_eq;
use crate::traits::Table;
pub use date::Date;

verus! {

use crate::list::task::date::date_from_str;

/// The models of a sequence of tasks.
pub open spec fn tasks_view(s: Seq<Task>) -> Seq<TaskView> {
    s.map_values(|t: Task| t@)
}

/// The five schema field names.
pub open spec fn is_schema_key(k: Seq<char>) -> bool {
    k == "title"@ || k == "descr"@ || k == "date"@ || k == "category"@ || k == "is_done"@
}

/// The five schema field names denote five different texts.
pub proof fn lemma_schema_keys_distinct()
    ensures
        "title"@ != "descr"@,
        "title"@ != "date"@,
        "title"@ != "category"@,
        "title"@ != "is_done"@,
        "descr"@ != "date"@,
        "descr"@ != "category"@,
        "descr"@ != "is_done"@,
        "date"@ != "category"@,
        "date"@ != "is_done"@,
        "category"@ != "is_done"@,
{
    broadcast use vstd::string::group_string_axioms;

    reveal_strlit("title");
    reveal_strlit("descr");
    reveal_strlit("date");
    reveal_strlit("category");
    reveal_strlit("is_done");
    assert("title"@.len() == 5);
    assert("descr"@.len() == 5);
    assert("date"@.len() == 4);
    assert("category"@.len() == 8);
    assert("is_done"@.len() == 7);
    assert("title"@[0] == 't');
    assert("descr"@[0] == 'd');
}

/// `t` with the string field named `key` replaced by `v`; other keys
/// leave `t` unchanged.
pub open spec fn changed(t: TaskView, key: Seq<char>, v: Seq<char>) -> TaskView {
    TaskView {
        title: if key == "title"@ {
            v
        } else {
            t.title
        },
        descr: if key == "descr"@ {
            v
        } else {
            t.descr
        },
        date: t.date,
        category: if key == "category"@ {
            v
        } else {
            t.category
        },
        is_done: t.is_done,
    }
}

/// The mathematical model of a task: its five fields as plain values.
pub struct TaskView {
    pub title: Seq<char>,
    pub descr: Seq<char>,
    pub date: int,
    pub category: Seq<char>,
    pub is_done: bool,
}

/// A to-do item. The schema is exactly these five fields, in this
/// order; they are both the key set and the query-eligible field set.
#[derive(Clone, Debug)]
pub struct Task {
    pub title: String,
    pub descr: String,
    pub date: Date,
    pub category: String,
    pub is_done: bool,
}

impl View for Task {
    type V = TaskView;

    open spec fn view(&self) -> TaskView {
        TaskView {
            title: self.title@,
            descr: self.descr@,
            date: self.date.0 as int,
            category: self.category@,
            is_done: self.is_done,
        }
    }
}

impl PartialEq for Task {
    fn eq(&self, other: &Self) -> (r: bool) {
        let r = self.title == other.title && self.descr == other.descr && self.date.0
            == other.date.0 && self.category == other.category && self.is_done == other.is_done;
        proof {
            assert(r == (self@ == other@));
        }
        r
    }
}

impl vstd::std_specs::cmp::PartialEqSpecImpl for Task {
    open spec fn obeys_eq_spec() -> bool {
        true
    }

    open spec fn eq_spec(&self, other: &Self) -> bool {
        self@ == other@
    }
}

impl Default for Task {
    /// Empty strings, the epoch date, and not done.
    fn default() -> (r: Self)
        ensures
            r@ == (TaskView {
                title: Seq::<char>::empty(),
                descr: Seq::<char>::empty(),
                date: 0,
                category: Seq::<char>::empty(),
                is_done: false,
            }),
    {
        Task {
            title: String::new(),
            descr: String::new(),
            date: Date(0),
            category: String::new(),
            is_done: false,
        }
    }
}

impl Task {
    /// A fresh task equal to this one in every field.
    pub fn duplicate(&self) -> (t: Task)
        ensures
            t@ == self@,
    {
        Task {
            title: self.title.clone(),
            descr: self.descr.clone(),
            date: self.date,
            category: self.category.clone(),
            is_done: self.is_done,
        }
    }

    /// Set the field named by `key` from its textual form. The date and
    /// boolean fields parse their text and report an error when it does
    /// not parse; the key must be one of the five schema fields.
    pub fn change_by_key(&mut self, key: &str, value: &str) -> (r: Result<(), String>)
        requires
            is_schema_key(key@),
        ensures
            key@ == "title"@ ==> r is Ok && final(self)@ == changed(old(self)@, "title"@, value@),
            key@ == "descr"@ ==> r is Ok && final(self)@ == changed(old(self)@, "descr"@, value@),
            key@ == "category"@ ==> r is Ok && final(self)@ == changed(
                old(self)@,
                "category"@,
                value@,
            ),
            key@ == "date"@ ==> match date_from_str(value@) {
                Some(t) => r is Ok && final(self)@ == (TaskView {
                    title: old(self)@.title,
                    descr: old(self)@.descr,
                    date: t as int,
                    category: old(self)@.category,
                    is_done: old(self)@.is_done,
                }),
                None => r is Err && final(self)@ == old(self)@ && (r matches Err(e) && e@
                    == "Ожидается true или false"@),
            },
            key@ == "is_done"@ ==> if value@ == "true"@ || value@ == "false"@ {
                r is Ok && final(self)@ == (TaskView {
                    title: old(self)@.title,
                    descr: old(self)@.descr,
                    date: old(self)@.date,
                    category: old(self)@.category,
                    is_done: value@ == "true"@,
                })
            } else {
                r is Err && final(self)@ == old(self)@ && (r matches Err(e) && e@
                    == "Ожидается true или false"@)
            },
    {
        proof {
            lemma_schema_keys_distinct();
        }
        if str_eq(key, "title") {
            self.title = value.to_owned();
            Ok(())
        } else if str_eq(key, "descr") {
            self.descr = value.to_owned();
            Ok(())
        } else if str_eq(key, "date") {
            match Date::parse(value) {
                Ok(d) => {
                    self.date = d;
                    Ok(())
                },
                Err(_) => Err("Ожидается true или false".to_owned()),
            }
        } else if str_eq(key, "category") {
            self.category = value.to_owned();
            Ok(())
        } else {
            proof {
                assert(key@ == "is_done"@);
            }
            if str_eq(value, "true") {
                self.is_done = true;
                Ok(())
            } else if str_eq(value, "false") {
                self.is_done = false;
                Ok(())
            } else {
                Err("Ожидается true или false".to_owned())
            }
        }
    }
}

impl Task {
    /// Pretty-print one field's textual value for display: a date text
    /// is stripped of quotes and rewritten to minute precision when it
    /// parses; every other field's text is returned unchanged.
    pub fn format_by_key(key: &str, value: String) -> (r: String)
        ensures
            key@ != "date"@ ==> r@ == value@,
            key@ == "date"@ ==> r@ == match chrono_redisplay(
                crate::text::trim_quotes_spec(value@),
            ) {
                Some(s) => s,
                None => value@,
            },
    {
        if str_eq(key, "date") {
            let trimmed = crate::text::trim_quotes(value.as_str());
            match redisplay_datetime(trimmed.as_str()) {
                Some(out) => out,
                None => value,
            }
        } else {
            value
        }
    }
}

/// What chrono's reformatting of a date text yields: the text parsed
/// with the ISO seconds format (`%Y-%m-%dT%H:%M:%S`) and written back
/// to minute precision (`%Y-%m-%d %H:%M`), or `None` when it does not
/// parse.
pub uninterp spec fn chrono_redisplay(s: Seq<char>) -> Option<Seq<char>>;

/// Relies on chrono's `NaiveDateTime::parse_from_str` and on its
/// `format`: the result depends on the text alone.
#[verifier::external_body]
fn redisplay_datetime(s: &str) -> (r: Option<String>)
    ensures
        match r {
            Some(out) => chrono_redisplay(s@) == Some(out@),
            None => chrono_redisplay(s@) is None,
        },
{
    match chrono::NaiveDateTime::parse_from_str(s, "%Y-%m-%dT%H:%M:%S") {
        Ok(dt) => Some(dt.format("%Y-%m-%d %H:%M").to_string()),
        Err(_) => None,
    }
}

/// The value of one task field, tagged by the field's kind.
#[derive(Clone, Debug)]
pub enum FieldValue {
    Str(String),
    Date(Date),
    Bool(bool),
}

impl Table for Task {
    type Key = String;

    type Value = FieldValue;

    fn get_keys() -> Vec<String> {
        let mut keys: Vec<String> = Vec::new();
        keys.push("title".to_owned());
        keys.push("descr".to_owned());
        keys.push("date".to_owned());
        keys.push("category".to_owned());
        keys.push("is_done".to_owned());
        keys
    }

    fn get_values(&self) -> Vec<FieldValue> {
        let mut values: Vec<FieldValue> = Vec::new();
        values.push(FieldValue::Str(self.title.clone()));
        values.push(FieldValue::Str(self.descr.clone()));
        values.push(FieldValue::Date(self.date));
        values.push(FieldValue::Str(self.category.clone()));
        values.push(FieldValue::Bool(self.is_done));
        values
    }

    fn get_entries(&self) -> Vec<(String, FieldValue)> {
        let mut entries: Vec<(String, FieldValue)> = Vec::new();
        entries.push(("title".to_owned(), FieldValue::Str(self.title.clone())));
        entries.push(("descr".to_owned(), FieldValue::Str(self.descr.clone())));
        entries.push(("date".to_owned(), FieldValue::Date(self.date)));
        entries.push(("category".to_owned(), FieldValue::Str(self.category.clone())));
        entries.push(("is_done".to_owned(), FieldValue::Bool(self.is_done)));
        entries
    }

    fn get_value(&self, key: &String) -> Option<FieldValue> {
        if str_eq(key.as_str(), "title") {
            Some(FieldValue::Str(self.title.clone()))
        } else if str_eq(key.as_str(), "descr") {
            Some(FieldValue::Str(self.descr.clone()))
        } else if str_eq(key.as_str(), "date") {
            Some(FieldValue::Date(self.date))
        } else if str_eq(key.as_str(), "category") {
            Some(FieldValue::Str(self.category.clone()))
        } else if str_eq(key.as_str(), "is_done") {
            Some(FieldValue::Bool(self.is_done))
        } else {
            None
        }
    }
}

} // verus!
