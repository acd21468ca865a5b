//! JSON values, as the library reads and builds them.

use vstd::prelude::*;

use crate::text::same_text;

verus! {

/// A JSON value. A fraction is given by its bit pattern, and a time in
/// milliseconds; both are written as JSON numbers.
#[derive(Debug)]
pub enum Json {
    Null,
    Bool(bool),
    Number(u64),
    /// A double-precision number, by its bit pattern.
    Fraction(u64),
    /// A time, written as a number of seconds.
    Millis(i64),
    Text(String),
    Array(Vec<Json>),
    Object(Vec<(String, Json)>),
}

/// A JSON value, with texts and sequences.
pub ghost enum JsonView {
    Null,
    Bool(bool),
    Number(u64),
    Fraction(u64),
    Millis(i64),
    Text(Seq<char>),
    Array(Seq<JsonView>),
    Object(Seq<(Seq<char>, JsonView)>),
}

impl Json {
    /// The value as texts and sequences.
    pub open spec fn value(self) -> JsonView
        decreases self,
    {
        match self {
            Json::Null => JsonView::Null,
            Json::Bool(b) => JsonView::Bool(b),
            Json::Number(n) => JsonView::Number(n),
            Json::Fraction(bits) => JsonView::Fraction(bits),
            Json::Millis(t) => JsonView::Millis(t),
            Json::Text(text) => JsonView::Text(text@),
            Json::Array(items) => JsonView::Array(
                Seq::new(
                    items@.len(),
                    |i: int|
                        if 0 <= i < items@.len() {
                            items@[i].value()
                        } else {
                            JsonView::Null
                        },
                ),
            ),
            Json::Object(fields) => JsonView::Object(
                Seq::new(
                    fields@.len(),
                    |i: int|
                        if 0 <= i < fields@.len() {
                            (fields@[i].0@, fields@[i].1.value())
                        } else {
                            (Seq::empty(), JsonView::Null)
                        },
                ),
            ),
        }
    }
}

impl View for Json {
    type V = JsonView;

    open spec fn view(&self) -> JsonView {
        self.value()
    }
}

impl JsonView {
    /// The value of a field of an object.
    pub open spec fn get(self, name: Seq<char>) -> Option<JsonView> {
        match self {
            JsonView::Object(fields) => field(fields, name),
            _ => None,
        }
    }

    /// The text of a string.
    pub open spec fn text(self) -> Option<Seq<char>> {
        match self {
            JsonView::Text(text) => Some(text),
            _ => None,
        }
    }

    /// The items of an array.
    pub open spec fn items(self) -> Option<Seq<JsonView>> {
        match self {
            JsonView::Array(items) => Some(items),
            _ => None,
        }
    }
}

/// The first field with a name.
pub open spec fn field(fields: Seq<(Seq<char>, JsonView)>, name: Seq<char>) -> Option<JsonView>
    decreases fields.len(),
{
    if fields.len() == 0 {
        None
    } else if fields[0].0 == name {
        Some(fields[0].1)
    } else {
        field(fields.drop_first(), name)
    }
}

impl Json {
    /// The value of a field of an object.
    pub fn get(&self, name: &str) -> (r: Option<&Json>)
        ensures
            match r {
                Some(value) => self@.get(name@) == Some(value@),
                None => self@.get(name@) is None,
            },
    {
        match self {
            Json::Object(fields) => {
                let ghost views = self@->Object_0;
                let mut i: usize = 0;
                assert(views.skip(0) =~= views);
                while i < fields.len()
                    invariant
                        i <= fields.len(),
                        *self == Json::Object(*fields),
                        views == self@->Object_0,
                        self@ is Object,
                        field(views, name@) == field(views.skip(i as int), name@),
                    decreases fields.len() - i,
                {
                    assert(views.skip(i as int).drop_first() =~= views.skip(i as int + 1));
                    assert(views[i as int] == (fields@[i as int].0@, fields@[i as int].1@));
                    if same_text(fields[i].0.as_str(), name) {
                        return Some(&fields[i].1);
                    }
                    i = i + 1;
                }
                None
            },
            _ => None,
        }
    }

    /// The text of a string.
    pub fn as_str(&self) -> (r: Option<&str>)
        ensures
            match r {
                Some(text) => self@.text() == Some(text@),
                None => self@.text() is None,
            },
    {
        match self {
            Json::Text(text) => Some(text.as_str()),
            _ => None,
        }
    }

    /// The items of an array.
    pub fn as_array(&self) -> (r: Option<&Vec<Json>>)
        ensures
            match r {
                Some(items) => self@.items() == Some(items@.map_values(|j: Json| j@)),
                None => self@.items() is None,
            },
    {
        match self {
            Json::Array(items) => {
                assert(self@->Array_0 =~= items@.map_values(|j: Json| j@));
                Some(items)
            },
            _ => None,
        }
    }
}

/// A field is found by its name where no field before it has that name.
pub proof fn lemma_field_at(fields: Seq<(Seq<char>, JsonView)>, at: int)
    requires
        0 <= at < fields.len(),
        forall|j: int| 0 <= j < at ==> (#[trigger] fields[j]).0 != fields[at].0,
    ensures
        field(fields, fields[at].0) == Some(fields[at].1),
    decreases at,
{
    if at > 0 {
        let rest = fields.drop_first();
        assert(fields[0].0 != fields[at].0);
        assert forall|j: int| 0 <= j < at - 1 implies (#[trigger] rest[j]).0 != rest[at - 1].0 by {
            assert(rest[j] == fields[j + 1]);
        }
        lemma_field_at(rest, at - 1);
    }
}

/// The value of an array is made of the values of its items.
pub proof fn lemma_array_view(items: Vec<Json>)
    ensures
        Json::Array(items)@ == JsonView::Array(items@.map_values(|j: Json| j@)),
{
    assert(Json::Array(items)@->Array_0 =~= items@.map_values(|j: Json| j@));
}

/// The value of an object is made of its names and of the values of its fields.
pub proof fn lemma_object_view(fields: Vec<(String, Json)>)
    ensures
        Json::Object(fields)@ == JsonView::Object(
            fields@.map_values(|f: (String, Json)| (f.0@, f.1@)),
        ),
{
    assert(Json::Object(fields)@->Object_0 =~= fields@.map_values(
        |f: (String, Json)| (f.0@, f.1@),
    ));
}

/// Adds a text field.
pub fn add_text(fields: &mut Vec<(String, Json)>, name: &str, text: &str)
    ensures
        field_views(final(fields)@) == field_views(old(fields)@).push(
            (name@, JsonView::Text(text@)),
        ),
{
    let entry = (name.to_owned(), Json::Text(text.to_owned()));
    assert(field_views(fields@.push(entry)) =~= field_views(fields@).push((entry.0@, entry.1@)));
    fields.push(entry);
}

/// Adds a field.
pub fn add_value(fields: &mut Vec<(String, Json)>, name: &str, value: Json)
    ensures
        field_views(final(fields)@) == field_views(old(fields)@).push((name@, value@)),
{
    let entry = (name.to_owned(), value);
    assert(field_views(fields@.push(entry)) =~= field_views(fields@).push((entry.0@, entry.1@)));
    fields.push(entry);
}

/// The names and values of some fields.
pub open spec fn field_views(fields: Seq<(String, Json)>) -> Seq<(Seq<char>, JsonView)> {
    fields.map_values(|f: (String, Json)| (f.0@, f.1@))
}

} // verus!
