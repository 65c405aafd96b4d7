//! JSON values. The grammar is `serde_json`'s; this module holds its values as
//! plain data, so that what is read from them can be stated and proved.

use vstd::prelude::*;

use serde_json::Value;

use crate::text;

verus! {

broadcast use vstd::string::group_string_axioms;

/// A JSON value. A number is kept as its text. The fields of an object stand in
/// the order of their keys, each key once.
#[derive(Debug, PartialEq, Eq)]
pub enum Json {
    Null,
    Bool(bool),
    Number(String),
    Text(String),
    List(Vec<Json>),
    Object(Vec<(String, Json)>),
}

/// The mathematical value of a [`Json`].
pub enum JsonView {
    Null,
    Bool(bool),
    Number(Seq<char>),
    Text(Seq<char>),
    List(Seq<JsonView>),
    Object(Seq<(Seq<char>, JsonView)>),
}

/// The fields of an object, in order.
pub type Fields = Seq<(Seq<char>, JsonView)>;

impl Json {
    /// The value without its representation.
    pub open spec fn view(&self) -> JsonView
        decreases self,
    {
        match self {
            Json::Null => JsonView::Null,
            Json::Bool(b) => JsonView::Bool(*b),
            Json::Number(n) => JsonView::Number(n@),
            Json::Text(s) => JsonView::Text(s@),
            Json::List(items) => JsonView::List(
                Seq::new(
                    items@.len(),
                    |i: int|
                        if 0 <= i < items@.len() {
                            items@[i].view()
                        } else {
                            JsonView::Null
                        },
                ),
            ),
            Json::Object(fields) => JsonView::Object(
                Seq::new(
                    fields@.len(),
                    |i: int|
                        if 0 <= i < fields@.len() {
                            (fields@[i].0@, fields@[i].1.view())
                        } else {
                            (Seq::empty(), JsonView::Null)
                        },
                ),
            ),
        }
    }

    /// A copy of the value.
    pub fn copy(&self) -> (r: Json)
        ensures
            r@ == self@,
        decreases self,
    {
        match self {
            Json::Null => Json::Null,
            Json::Bool(b) => Json::Bool(*b),
            Json::Number(n) => Json::Number(n.clone()),
            Json::Text(s) => Json::Text(s.clone()),
            Json::List(items) => {
                let mut out: Vec<Json> = Vec::new();
                let mut i: usize = 0;
                while i < items.len()
                    invariant
                        i <= items@.len(),
                        out@.len() == i,
                        *self == Json::List(*items),
                        forall|j: int| 0 <= j < i ==> (#[trigger] out@[j])@ == items@[j]@,
                    decreases items@.len() - i,
                {
                    let item = &items[i];
                    assert(decreases_to!(*self => self->List_0));
                    assert(decreases_to!(*items => items@));
                    assert(decreases_to!(items@ => items@[i as int]));
                    out.push(item.copy());
                    i += 1;
                }
                let r = Json::List(out);
                assert(r@->List_0 == self@->List_0);
                r
            },
            Json::Object(fields) => {
                let mut out: Vec<(String, Json)> = Vec::new();
                let mut i: usize = 0;
                while i < fields.len()
                    invariant
                        i <= fields@.len(),
                        out@.len() == i,
                        *self == Json::Object(*fields),
                        forall|j: int|
                            0 <= j < i ==> (#[trigger] out@[j]).0@ == fields@[j].0@ && out@[j].1@
                                == fields@[j].1@,
                    decreases fields@.len() - i,
                {
                    let field = &fields[i];
                    assert(decreases_to!(*self => self->Object_0));
                    assert(decreases_to!(*fields => fields@));
                    assert(decreases_to!(fields@ => fields@[i as int]));
                    assert(decreases_to!(fields@[i as int] => fields@[i as int].1));
                    out.push((field.0.clone(), field.1.copy()));
                    i += 1;
                }
                let r = Json::Object(out);
                assert(r@->Object_0 == self@->Object_0);
                r
            },
        }
    }
}

// ---------------------------------------------------------------------------
// Reading

/// The value of a key, if the fields have it.
pub open spec fn lookup(fields: Fields, key: Seq<char>) -> Option<JsonView>
    decreases fields.len(),
{
    if fields.len() == 0 {
        None
    } else if fields[0].0 == key {
        Some(fields[0].1)
    } else {
        lookup(fields.drop_first(), key)
    }
}

/// Whether the keys stand in order, each once.
pub open spec fn sorted(fields: Fields) -> bool {
    forall|i: int, j: int|
        0 <= i < j < fields.len() ==> text::before(#[trigger] fields[i].0, #[trigger] fields[j].0)
}

/// The mathematical value of a list of fields.
pub open spec fn fields_view(fields: Seq<(String, Json)>) -> Fields {
    Seq::new(fields.len(), |i: int| (fields[i].0@, fields[i].1@))
}

/// The mathematical value of a list of values.
pub open spec fn items_view(items: Seq<Json>) -> Seq<JsonView> {
    Seq::new(items.len(), |i: int| items[i]@)
}

pub proof fn lemma_list_view(items: Vec<Json>)
    ensures
        Json::List(items)@ == JsonView::List(items_view(items@)),
{
    assert(Json::List(items)@->List_0 =~= items_view(items@));
}

pub proof fn lemma_object_view(fields: Vec<(String, Json)>)
    ensures
        Json::Object(fields)@ == JsonView::Object(fields_view(fields@)),
{
    assert(Json::Object(fields)@->Object_0 =~= fields_view(fields@));
}

pub proof fn lemma_lookup_at(fields: Fields, key: Seq<char>, i: int)
    requires
        0 <= i < fields.len(),
        fields[i].0 == key,
        forall|j: int| 0 <= j < i ==> (#[trigger] fields[j]).0 != key,
    ensures
        lookup(fields, key) == Some(fields[i].1),
    decreases i,
{
    if i > 0 {
        assert(fields[0].0 != key);
        lemma_lookup_at(fields.drop_first(), key, i - 1);
    }
}

pub proof fn lemma_lookup_absent(fields: Fields, key: Seq<char>)
    requires
        forall|j: int| 0 <= j < fields.len() ==> (#[trigger] fields[j]).0 != key,
    ensures
        lookup(fields, key) is None,
    decreases fields.len(),
{
    if fields.len() > 0 {
        assert(fields[0].0 != key);
        assert forall|j: int| 0 <= j < fields.drop_first().len() implies (
        #[trigger] fields.drop_first()[j]).0 != key by {
            assert(fields.drop_first()[j] == fields[j + 1]);
        }
        lemma_lookup_absent(fields.drop_first(), key);
    }
}

/// Where a key stands among the fields.
fn position(fields: &Vec<(String, Json)>, key: &str) -> (r: Option<usize>)
    ensures
        match r {
            Some(i) => i < fields@.len() && fields@[i as int].0@ == key@ && lookup(
                fields_view(fields@),
                key@,
            ) == Some(fields@[i as int].1@) && forall|j: int|
                0 <= j < i ==> (#[trigger] fields@[j]).0@ != key@,
            None => lookup(fields_view(fields@), key@) is None && forall|j: int|
                0 <= j < fields@.len() ==> (#[trigger] fields@[j]).0@ != key@,
        },
{
    let ghost all = fields_view(fields@);
    let mut i: usize = 0;
    while i < fields.len()
        invariant
            i <= fields@.len(),
            all == fields_view(fields@),
            forall|j: int| 0 <= j < i ==> (#[trigger] fields@[j]).0@ != key@,
        decreases fields@.len() - i,
    {
        if text::same(&fields[i].0, key) {
            proof {
                assert forall|j: int| 0 <= j < i implies (#[trigger] all[j]).0 != key@ by {
                    assert(fields@[j].0@ != key@);
                }
                lemma_lookup_at(all, key@, i as int);
            }
            return Some(i);
        }
        i += 1;
    }
    proof {
        assert forall|j: int| 0 <= j < all.len() implies (#[trigger] all[j]).0 != key@ by {
            assert(fields@[j].0@ != key@);
        }
        lemma_lookup_absent(all, key@);
    }
    None
}

/// The value of a key among the fields.
pub fn field<'a>(fields: &'a Vec<(String, Json)>, key: &str) -> (r: Option<&'a Json>)
    ensures
        match r {
            Some(value) => lookup(fields_view(fields@), key@) == Some(value@),
            None => lookup(fields_view(fields@), key@) is None,
        },
{
    match position(fields, key) {
        Some(i) => Some(&fields[i].1),
        None => None,
    }
}

/// Fields with a value under a key: in the place of the value that the key had,
/// or as a new field before the first key that does not come before it.
pub open spec fn put(fields: Fields, key: Seq<char>, value: JsonView) -> Fields
    decreases fields.len(),
{
    if fields.len() == 0 {
        seq![(key, value)]
    } else if fields[0].0 == key {
        seq![(key, value)] + fields.drop_first()
    } else if lookup(fields, key) is None && !text::before(fields[0].0, key) {
        seq![(key, value)] + fields
    } else {
        seq![fields[0]] + put(fields.drop_first(), key, value)
    }
}

proof fn lemma_put_update(fields: Fields, i: int, key: Seq<char>, value: JsonView)
    requires
        0 <= i < fields.len(),
        fields[i].0 == key,
        forall|j: int| 0 <= j < i ==> (#[trigger] fields[j]).0 != key,
    ensures
        put(fields, key, value) == fields.update(i, (key, value)),
    decreases i,
{
    if i > 0 {
        assert(fields[0].0 != key);
        lemma_lookup_at(fields, key, i);
        let rest = fields.drop_first();
        assert forall|j: int| 0 <= j < i - 1 implies (#[trigger] rest[j]).0 != key by {
            assert(rest[j] == fields[j + 1]);
        }
        lemma_put_update(rest, i - 1, key, value);
        assert(seq![fields[0]] + rest.update(i - 1, (key, value)) =~= fields.update(
            i,
            (key, value),
        ));
    } else {
        assert(seq![(key, value)] + fields.drop_first() =~= fields.update(0, (key, value)));
    }
}

proof fn lemma_put_insert(fields: Fields, i: int, key: Seq<char>, value: JsonView)
    requires
        0 <= i <= fields.len(),
        forall|j: int| 0 <= j < fields.len() ==> (#[trigger] fields[j]).0 != key,
        forall|j: int| 0 <= j < i ==> text::before(#[trigger] fields[j].0, key),
        i < fields.len() ==> !text::before(fields[i].0, key),
    ensures
        put(fields, key, value) == fields.insert(i, (key, value)),
    decreases i,
{
    lemma_lookup_absent(fields, key);
    if i > 0 {
        assert(fields[0].0 != key);
        assert(text::before(fields[0].0, key));
        let rest = fields.drop_first();
        assert forall|j: int| 0 <= j < rest.len() implies (#[trigger] rest[j]).0 != key by {
            assert(rest[j] == fields[j + 1]);
        }
        assert forall|j: int| 0 <= j < i - 1 implies text::before(#[trigger] rest[j].0, key) by {
            assert(rest[j] == fields[j + 1]);
        }
        lemma_put_insert(rest, i - 1, key, value);
        assert(seq![fields[0]] + rest.insert(i - 1, (key, value)) =~= fields.insert(
            i,
            (key, value),
        ));
    } else {
        assert(fields.insert(0, (key, value)) =~= seq![(key, value)] + fields);
        if fields.len() > 0 {
            assert(fields[0].0 != key);
        }
    }
}

/// Puts a value under a key: in the place of the value that the key had, or as
/// a new field that keeps the keys in order.
pub fn set_field(fields: &mut Vec<(String, Json)>, key: &str, value: Json)
    ensures
        fields_view(final(fields)@) == put(fields_view(old(fields)@), key@, value@),
        sorted(fields_view(old(fields)@)) ==> sorted(fields_view(final(fields)@)),
        lookup(fields_view(final(fields)@), key@) == Some(value@),
        forall|other: Seq<char>|
            other != key@ ==> #[trigger] lookup(fields_view(final(fields)@), other) == lookup(
                fields_view(old(fields)@),
                other,
            ),
{
    let ghost was = fields_view(fields@);
    match position(fields, key) {
        Some(i) => {
            let ghost old_fields = fields@;
            let entry = (key.to_owned(), value);
            fields.set(i, entry);
            proof {
                let now = fields_view(fields@);
                assert(now =~= was.update(i as int, (key@, value@)));
                assert forall|j: int| 0 <= j < i implies (#[trigger] was[j]).0 != key@ by {
                    assert(old_fields[j].0@ != key@);
                }
                lemma_update(was, i as int, key@, value@);
                lemma_put_update(was, i as int, key@, value@);
            }
        },
        None => {
            let mut at: usize = 0;
            while at < fields.len() && text::comes_before(&fields[at].0, key)
                invariant
                    at <= fields@.len(),
                    was == fields_view(fields@),
                    forall|j: int| 0 <= j < at ==> text::before(#[trigger] was[j].0, key@),
                decreases fields@.len() - at,
            {
                assert(was[at as int].0 == fields@[at as int].0@);
                at += 1;
            }
            proof {
                assert forall|j: int| 0 <= j < was.len() implies (#[trigger] was[j]).0 != key@ by {
                    assert(fields@[j].0@ != key@);
                }
                lemma_put_insert(was, at as int, key@, value@);
                if at < fields@.len() {
                    assert(was[at as int].0 == fields@[at as int].0@);
                    assert(fields@[at as int].0@ != key@);
                    text::lemma_before_total(was[at as int].0, key@);
                }
            }
            fields.insert(at, (key.to_owned(), value));
            proof {
                let now = fields_view(fields@);
                assert(now =~= was.insert(at as int, (key@, value@)));
                lemma_insert(was, at as int, key@, value@);
            }
        },
    }
}

proof fn lemma_update(was: Fields, i: int, key: Seq<char>, value: JsonView)
    requires
        0 <= i < was.len(),
        was[i].0 == key,
        forall|j: int| 0 <= j < i ==> (#[trigger] was[j]).0 != key,
    ensures
        sorted(was) ==> sorted(was.update(i, (key, value))),
        lookup(was.update(i, (key, value)), key) == Some(value),
        forall|other: Seq<char>|
            other != key ==> #[trigger] lookup(was.update(i, (key, value)), other) == lookup(
                was,
                other,
            ),
{
    let now = was.update(i, (key, value));
    if sorted(was) {
        assert forall|a: int, b: int| 0 <= a < b < now.len() implies text::before(
            #[trigger] now[a].0,
            #[trigger] now[b].0,
        ) by {
            assert(text::before(was[a].0, was[b].0));
        }
    }
    assert forall|j: int| 0 <= j < i implies (#[trigger] now[j]).0 != key by {
        assert(was[j].0 != key);
    }
    lemma_lookup_at(now, key, i);
    assert forall|other: Seq<char>| other != key implies #[trigger] lookup(now, other) == lookup(
        was,
        other,
    ) by {
        lemma_update_other(was, i, key, value, other);
    }
}

proof fn lemma_update_other(was: Fields, i: int, key: Seq<char>, value: JsonView, other: Seq<char>)
    requires
        0 <= i < was.len(),
        was[i].0 == key,
        other != key,
    ensures
        lookup(was.update(i, (key, value)), other) == lookup(was, other),
    decreases was.len(),
{
    let now = was.update(i, (key, value));
    if i > 0 {
        assert(now.drop_first() =~= was.drop_first().update(i - 1, (key, value)));
        lemma_update_other(was.drop_first(), i - 1, key, value, other);
    } else {
        assert(now.drop_first() =~= was.drop_first());
    }
}

proof fn lemma_insert(was: Fields, i: int, key: Seq<char>, value: JsonView)
    requires
        0 <= i <= was.len(),
        forall|j: int| 0 <= j < was.len() ==> (#[trigger] was[j]).0 != key,
        forall|j: int| 0 <= j < i ==> text::before(#[trigger] was[j].0, key),
        i < was.len() ==> text::before(key, was[i].0),
    ensures
        sorted(was) ==> sorted(was.insert(i, (key, value))),
        lookup(was.insert(i, (key, value)), key) == Some(value),
        forall|other: Seq<char>|
            other != key ==> #[trigger] lookup(was.insert(i, (key, value)), other) == lookup(
                was,
                other,
            ),
{
    let now = was.insert(i, (key, value));
    if sorted(was) {
        assert forall|a: int, b: int| 0 <= a < b < now.len() implies text::before(
            #[trigger] now[a].0,
            #[trigger] now[b].0,
        ) by {
            if b < i {
                assert(text::before(was[a].0, was[b].0));
            } else if b == i {
                assert(text::before(was[a].0, key));
            } else if a == i {
                if b - 1 > i {
                    assert(text::before(was[i].0, was[b - 1].0));
                    text::lemma_before_transitive(key, was[i].0, was[b - 1].0);
                }
            } else if a < i {
                assert(text::before(was[a].0, was[b - 1].0));
            } else {
                assert(text::before(was[a - 1].0, was[b - 1].0));
            }
        }
    }
    assert forall|j: int| 0 <= j < i implies (#[trigger] now[j]).0 != key by {
        assert(was[j].0 != key);
    }
    lemma_lookup_at(now, key, i);
    assert forall|other: Seq<char>| other != key implies #[trigger] lookup(now, other) == lookup(
        was,
        other,
    ) by {
        lemma_insert_other(was, i, key, value, other);
    }
}

proof fn lemma_insert_other(was: Fields, i: int, key: Seq<char>, value: JsonView, other: Seq<char>)
    requires
        0 <= i <= was.len(),
        other != key,
    ensures
        lookup(was.insert(i, (key, value)), other) == lookup(was, other),
    decreases was.len(),
{
    let now = was.insert(i, (key, value));
    if i > 0 {
        assert(now.drop_first() =~= was.drop_first().insert(i - 1, (key, value)));
        lemma_insert_other(was.drop_first(), i - 1, key, value, other);
    } else {
        assert(now.drop_first() =~= was);
    }
}

/// The value of a key of an object.
pub open spec fn get(value: JsonView, key: Seq<char>) -> Option<JsonView> {
    match value {
        JsonView::Object(fields) => lookup(fields, key),
        _ => None,
    }
}

/// Whether a value has the form of a record with some number of fields: an object
/// names them, and a list gives them in their order, the last of them left out at
/// will.
pub open spec fn is_record(value: JsonView, fields: int) -> bool {
    match value {
        JsonView::Object(_) => true,
        JsonView::List(items) => items.len() <= fields,
        _ => false,
    }
}

/// The value of a field of a record: that of its key in an object, and the one at
/// its place in a list.
pub open spec fn part(value: JsonView, place: int, key: Seq<char>) -> Option<JsonView> {
    match value {
        JsonView::List(items) => if 0 <= place < items.len() {
            Some(items[place])
        } else {
            None
        },
        _ => get(value, key),
    }
}

/// The text of a value, if it is a string.
pub open spec fn text_of(value: Option<JsonView>) -> Option<Seq<char>> {
    match value {
        Some(JsonView::Text(s)) => Some(s),
        _ => None,
    }
}

/// A field that may be absent or null: none of these is no text, a string is
/// its text, and anything else is refused.
pub open spec fn optional_text(value: Option<JsonView>) -> Option<Option<Seq<char>>> {
    match value {
        None => Some(None),
        Some(JsonView::Null) => Some(None),
        Some(JsonView::Text(s)) => Some(Some(s)),
        _ => None,
    }
}

/// A boolean field with a default; anything but a boolean is refused.
pub open spec fn flag(value: Option<JsonView>, default: bool) -> Option<bool> {
    match value {
        None => Some(default),
        Some(JsonView::Bool(b)) => Some(b),
        _ => None,
    }
}

/// The texts of a list of strings; any other item, or a value that is no list,
/// is refused.
pub open spec fn texts_of(value: JsonView) -> Option<Seq<Seq<char>>> {
    match value {
        JsonView::List(items) => if forall|i: int|
            0 <= i < items.len() ==> (#[trigger] items[i]) is Text {
            Some(Seq::new(items.len(), |i: int| items[i]->Text_0))
        } else {
            None
        },
        _ => None,
    }
}

/// The whole number that a value is, if it fits in an `i64`.
pub open spec fn integer_of(value: Option<JsonView>) -> Option<int> {
    match value {
        Some(JsonView::Number(n)) => match text::integer(n) {
            Some(k) => if i64::MIN <= k <= i64::MAX {
                Some(k)
            } else {
                None
            },
            None => None,
        },
        _ => None,
    }
}

/// A list of texts as a value.
pub open spec fn texts_value(list: Seq<Seq<char>>) -> JsonView {
    JsonView::List(list.map_values(|s: Seq<char>| JsonView::Text(s)))
}

/// An optional text as a value: null where there is none.
pub open spec fn text_or_null(s: Option<Seq<char>>) -> JsonView {
    match s {
        Some(t) => JsonView::Text(t),
        None => JsonView::Null,
    }
}

/// The value behind an optional reference.
pub open spec fn opt_value(value: Option<&Json>) -> Option<JsonView> {
    match value {
        Some(v) => Some(v@),
        None => None,
    }
}

/// The text of a value that is a string.
pub fn as_text(value: Option<&Json>) -> (r: Option<String>)
    ensures
        text::opt_view(r) == text_of(opt_value(value)),
{
    match value {
        Some(Json::Text(s)) => Some(s.clone()),
        _ => None,
    }
}

/// The text of a field that may be absent or null.
pub fn as_optional_text(value: Option<&Json>) -> (r: Option<Option<String>>)
    ensures
        match r {
            Some(t) => optional_text(opt_value(value)) == Some(text::opt_view(t)),
            None => optional_text(opt_value(value)) is None,
        },
{
    match value {
        None => Some(None),
        Some(Json::Null) => Some(None),
        Some(Json::Text(s)) => Some(Some(s.clone())),
        _ => None,
    }
}

/// A boolean field with a default.
pub fn as_flag(value: Option<&Json>, default: bool) -> (r: Option<bool>)
    ensures
        r == flag(opt_value(value), default),
{
    match value {
        None => Some(default),
        Some(Json::Bool(b)) => Some(*b),
        _ => None,
    }
}

/// The whole number that a value is, if it fits.
pub fn as_integer(value: Option<&Json>) -> (r: Option<i64>)
    ensures
        match r {
            Some(n) => integer_of(opt_value(value)) == Some(n as int),
            None => integer_of(opt_value(value)) is None,
        },
{
    match value {
        Some(Json::Number(n)) => text::parse_integer(n),
        _ => None,
    }
}

/// The texts of a list of strings.
pub fn as_texts(value: &Json) -> (r: Option<Vec<String>>)
    ensures
        match r {
            Some(list) => texts_of(value@) == Some(text::views(list@)),
            None => texts_of(value@) is None,
        },
{
    match value {
        Json::List(items) => {
            let mut out: Vec<String> = Vec::new();
            let mut i: usize = 0;
            proof {
                lemma_list_view(*items);
            }
            while i < items.len()
                invariant
                    i <= items@.len(),
                    out@.len() == i,
                    value@ == JsonView::List(items_view(items@)),
                    forall|j: int|
                        0 <= j < i ==> (#[trigger] items_view(items@)[j]) == JsonView::Text(
                            out@[j]@,
                        ),
                decreases items@.len() - i,
            {
                match &items[i] {
                    Json::Text(s) => {
                        assert(items_view(items@)[i as int] == JsonView::Text(s@));
                        out.push(s.clone());
                    },
                    _ => {
                        assert(!(items_view(items@)[i as int] is Text));
                        return None;
                    },
                }
                i += 1;
            }
            proof {
                let shown = items_view(items@);
                assert(Seq::new(shown.len(), |i: int| shown[i]->Text_0) =~= text::views(out@));
            }
            Some(out)
        },
        _ => None,
    }
}

/// A list of texts as a value.
pub fn from_texts(list: &Vec<String>) -> (r: Json)
    ensures
        r@ == texts_value(text::views(list@)),
{
    let mut out: Vec<Json> = Vec::new();
    let mut i: usize = 0;
    while i < list.len()
        invariant
            i <= list@.len(),
            out@.len() == i,
            forall|j: int| 0 <= j < i ==> (#[trigger] out@[j])@ == JsonView::Text(list@[j]@),
        decreases list@.len() - i,
    {
        out.push(Json::Text(list[i].clone()));
        i += 1;
    }
    proof {
        lemma_list_view(out);
        assert(items_view(out@) =~= text::views(list@).map_values(
            |s: Seq<char>| JsonView::Text(s),
        ));
    }
    Json::List(out)
}

/// A text as a value.
pub fn text_json(s: &str) -> (r: Json)
    ensures
        r@ == JsonView::Text(s@),
{
    Json::Text(s.to_owned())
}

/// An optional text as a value: null where there is none.
pub fn text_or_null_json(s: &Option<String>) -> (r: Json)
    ensures
        r@ == text_or_null(text::opt_view(*s)),
{
    match s {
        Some(t) => Json::Text(t.clone()),
        None => Json::Null,
    }
}

impl Json {
    /// The value of a key, if this is an object that has it.
    pub fn get(&self, key: &str) -> (r: Option<&Json>)
        ensures
            opt_value(r) == get(self@, key@),
    {
        match self {
            Json::Object(fields) => {
                proof {
                    lemma_object_view(*fields);
                }
                field(fields, key)
            },
            _ => None,
        }
    }

    /// Whether this has the form of a record with some number of fields.
    pub fn is_record(&self, fields: usize) -> (r: bool)
        ensures
            r == is_record(self@, fields as int),
    {
        match self {
            Json::Object(_) => true,
            Json::List(items) => {
                proof {
                    lemma_list_view(*items);
                }
                items.len() <= fields
            },
            _ => false,
        }
    }

    /// The value of a field of a record, by its place in a list or by its key.
    pub fn part(&self, place: usize, key: &str) -> (r: Option<&Json>)
        ensures
            opt_value(r) == part(self@, place as int, key@),
    {
        match self {
            Json::List(items) => {
                proof {
                    lemma_list_view(*items);
                }
                if place < items.len() {
                    Some(&items[place])
                } else {
                    None
                }
            },
            _ => self.get(key),
        }
    }

    /// A whole number as a value.
    pub fn from_i64(n: i64) -> (r: Json)
        ensures
            r@ == JsonView::Number(text::decimal(n as int)),
    {
        Json::Number(text::decimal_i64(n))
    }
}

/// Adds a field at the end of a list under construction.
pub fn add_field(fields: &mut Vec<(String, Json)>, key: &str, value: Json)
    ensures
        fields_view(final(fields)@) == fields_view(old(fields)@).push((key@, value@)),
{
    fields.push((key.to_owned(), value));
    assert(fields_view(fields@) =~= fields_view(old(fields)@).push((key@, value@)));
}

/// Makes an object of its fields.
pub fn object(fields: Vec<(String, Json)>) -> (r: Json)
    ensures
        r@ == JsonView::Object(fields_view(fields@)),
{
    proof {
        lemma_object_view(fields);
    }
    Json::Object(fields)
}

/// Fields with one more at the end, if there is a value for it.
pub open spec fn with(fields: Fields, key: Seq<char>, value: Option<JsonView>) -> Fields {
    match value {
        Some(v) => fields.push((key, v)),
        None => fields,
    }
}

/// What a key has after a field was added: what it had before, or the new value.
pub broadcast proof fn lemma_lookup_with(
    fields: Fields,
    key: Seq<char>,
    value: Option<JsonView>,
    asked: Seq<char>,
)
    ensures
        #[trigger] lookup(with(fields, key, value), asked) == (match lookup(fields, asked) {
            Some(v) => Some(v),
            None => if asked == key {
                value
            } else {
                None
            },
        }),
{
    if let Some(v) = value {
        lemma_lookup_push(fields, key, v, asked);
    }
}

/// The key of no field has no value.
pub broadcast proof fn lemma_lookup_empty(asked: Seq<char>)
    ensures
        #[trigger] lookup(Seq::empty(), asked) is None,
{
}

/// Adds a field at the end, if there is a value for it.
pub fn add_optional(fields: &mut Vec<(String, Json)>, key: &str, value: Option<Json>)
    ensures
        fields_view(final(fields)@) == with(
            fields_view(old(fields)@),
            key@,
            match value {
                Some(v) => Some(v@),
                None => None,
            },
        ),
{
    match value {
        Some(v) => {
            add_field(fields, key, v);
        },
        None => {},
    }
}

/// A field at the end does not hide the fields before it.
pub proof fn lemma_lookup_push(fields: Fields, key: Seq<char>, value: JsonView, asked: Seq<char>)
    ensures
        lookup(fields.push((key, value)), asked) == (match lookup(fields, asked) {
            Some(v) => Some(v),
            None => if asked == key {
                Some(value)
            } else {
                None
            },
        }),
    decreases fields.len(),
{
    reveal_with_fuel(lookup, 2);
    let longer = fields.push((key, value));
    if fields.len() > 0 {
        assert(longer.drop_first() =~= fields.drop_first().push((key, value)));
        lemma_lookup_push(fields.drop_first(), key, value, asked);
    } else {
        assert(longer.drop_first().len() == 0);
    }
}

// ---------------------------------------------------------------------------
// Writing

/// A text as a JSON string literal, as `serde_json` escapes it.
pub uninterp spec fn literal_of(s: Seq<char>) -> Seq<char>;

/// `serde_json::to_string` of a string: the literal is a function of the text
/// alone. Serialising a string does not fail.
#[verifier::external_body]
fn literal(s: &str) -> (r: String)
    ensures
        r@ == literal_of(s@),
{
    serde_json::to_string(s).unwrap_or_default()
}

/// The compact text of a value: no white space, fields in their order.
pub open spec fn encoded(value: JsonView) -> Seq<char>
    decreases value,
{
    match value {
        JsonView::Null => "null"@,
        JsonView::Bool(b) => if b {
            "true"@
        } else {
            "false"@
        },
        JsonView::Number(n) => n,
        JsonView::Text(s) => literal_of(s),
        JsonView::List(items) => "["@ + text::joined(encoded_items(items), ","@) + "]"@,
        JsonView::Object(fields) => "{"@ + text::joined(encoded_fields(fields), ","@) + "}"@,
    }
}

/// The compact text of each item of a list.
pub open spec fn encoded_items(items: Seq<JsonView>) -> Seq<Seq<char>>
    decreases items,
{
    Seq::new(
        items.len(),
        |i: int|
            if 0 <= i < items.len() {
                encoded(items[i])
            } else {
                Seq::empty()
            },
    )
}

/// The compact text of each field of an object.
pub open spec fn encoded_fields(fields: Fields) -> Seq<Seq<char>>
    decreases fields,
{
    Seq::new(
        fields.len(),
        |i: int|
            if 0 <= i < fields.len() {
                literal_of(fields[i].0) + ":"@ + encoded(fields[i].1)
            } else {
                Seq::empty()
            },
    )
}

impl Json {
    /// The compact text of the value.
    pub fn encode(&self) -> (r: String)
        ensures
            r@ == encoded(self@),
        decreases self,
    {
        match self {
            Json::Null => "null".to_owned(),
            Json::Bool(b) => {
                if *b {
                    "true".to_owned()
                } else {
                    "false".to_owned()
                }
            },
            Json::Number(n) => n.clone(),
            Json::Text(s) => literal(s),
            Json::List(items) => {
                let mut parts: Vec<String> = Vec::new();
                let mut i: usize = 0;
                while i < items.len()
                    invariant
                        i <= items@.len(),
                        parts@.len() == i,
                        *self == Json::List(*items),
                        forall|j: int|
                            0 <= j < i ==> (#[trigger] parts@[j])@ == encoded(items@[j]@),
                    decreases items@.len() - i,
                {
                    assert(decreases_to!(*self => self->List_0));
                    assert(decreases_to!(*items => items@));
                    assert(decreases_to!(items@ => items@[i as int]));
                    parts.push(items[i].encode());
                    i += 1;
                }
                proof {
                    let shown = self@->List_0;
                    assert(text::views(parts@) =~= encoded_items(shown));
                }
                text::concat3("[", &text::join(&parts, ","), "]")
            },
            Json::Object(fields) => {
                let mut parts: Vec<String> = Vec::new();
                let mut i: usize = 0;
                while i < fields.len()
                    invariant
                        i <= fields@.len(),
                        parts@.len() == i,
                        *self == Json::Object(*fields),
                        forall|j: int|
                            0 <= j < i ==> (#[trigger] parts@[j])@ == literal_of(fields@[j].0@)
                                + ":"@ + encoded(fields@[j].1@),
                    decreases fields@.len() - i,
                {
                    assert(decreases_to!(*self => self->Object_0));
                    assert(decreases_to!(*fields => fields@));
                    assert(decreases_to!(fields@ => fields@[i as int]));
                    assert(decreases_to!(fields@[i as int] => fields@[i as int].1));
                    let key = literal(&fields[i].0);
                    let value = fields[i].1.encode();
                    parts.push(text::concat3(&key, ":", &value));
                    i += 1;
                }
                proof {
                    let shown = self@->Object_0;
                    assert(text::views(parts@) =~= encoded_fields(shown));
                }
                text::concat3("{", &text::join(&parts, ","), "}")
            },
        }
    }
}

// ---------------------------------------------------------------------------
// Parsing

/// Whether no key occurs twice.
pub open spec fn distinct(fields: Fields) -> bool {
    forall|i: int, j: int|
        0 <= i < j < fields.len() ==> (#[trigger] fields[i]).0 != (#[trigger] fields[j]).0
}

/// Whether a value is one that every JSON reader takes: whole numbers of at
/// most 64 bits, no key twice in an object, and at most `depth` levels.
pub open spec fn plain(value: JsonView, depth: nat) -> bool
    decreases value,
{
    match value {
        JsonView::Number(n) => exists|k: int|
            i64::MIN <= k <= u64::MAX && n == #[trigger] text::decimal(k),
        JsonView::List(items) => depth > 0 && forall|i: int|
            0 <= i < items.len() ==> plain(#[trigger] items[i], (depth - 1) as nat),
        JsonView::Object(fields) => depth > 0 && distinct(fields) && forall|i: int|
            0 <= i < fields.len() ==> plain((#[trigger] fields[i]).1, (depth - 1) as nat),
        _ => true,
    }
}

/// Whether two values are equal but for the order of fields.
pub open spec fn alike(a: JsonView, b: JsonView) -> bool
    decreases a,
{
    match (a, b) {
        (JsonView::List(x), JsonView::List(y)) => x.len() == y.len() && forall|i: int|
            0 <= i < x.len() ==> alike(#[trigger] x[i], y[i]),
        (JsonView::Object(x), JsonView::Object(y)) => {
            &&& x.len() == y.len()
            &&& distinct(x)
            &&& distinct(y)
            &&& forall|i: int|
                0 <= i < x.len() ==> exists|j: int|
                    0 <= j < y.len() && (#[trigger] x[i]).0 == (#[trigger] y[j]).0 && alike(
                        x[i].1,
                        y[j].1,
                    )
        },
        _ => a == b,
    }
}

/// Levels of nesting that `serde_json` reads.
pub const MAX_DEPTH: u8 = 127;

/// The value of a JSON text, or why it is none, as `serde_json` reads it.
pub uninterp spec fn parsed(text: Seq<char>) -> Result<JsonView, Seq<char>>;

/// The value or the reason of a result.
pub open spec fn result_view(r: Result<Json, String>) -> Result<JsonView, Seq<char>> {
    match r {
        Ok(value) => Ok(value@),
        Err(reason) => Err(reason@),
    }
}

/// Whether the keys of an object that was read stand in order.
pub open spec fn in_order(r: Result<JsonView, Seq<char>>) -> bool {
    r matches Ok(JsonView::Object(fields)) ==> sorted(fields)
}

/// Whether a text, if it is the compact text of a plain value, was read as that
/// value, but for the order of fields.
pub open spec fn reads_back(text: Seq<char>, r: Result<JsonView, Seq<char>>) -> bool {
    forall|value: JsonView|
        plain(value, MAX_DEPTH as nat) && text == #[trigger] encoded(value) ==> (r matches Ok(back)
            && alike(value, back))
}

/// `serde_json::Value`, a parsed value of the outside crate.
#[verifier::external_type_specification]
#[verifier::external_body]
pub struct ExValue(serde_json::Value);

/// Holds a `serde_json::Value` as plain data, variant for variant. It is the
/// recursive step of [`Json::parse`].
#[verifier::external_body]
fn from_value(value: &Value) -> Json {
    match value {
        Value::Null => Json::Null,
        Value::Bool(b) => Json::Bool(*b),
        Value::Number(n) => Json::Number(n.to_string()),
        Value::String(s) => Json::Text(s.clone()),
        Value::Array(items) => Json::List(items.iter().map(from_value).collect()),
        Value::Object(map) => Json::Object(
            map.iter().map(|(key, item)| (key.clone(), from_value(item))).collect(),
        ),
    }
}

/// `serde_json::from_str` into a `serde_json::Value`: the value, or the text of
/// the error, is a function of the text alone. Objects come out with their keys
/// in order. Reading the compact text of a plain value gives that value back,
/// but for the order of fields. Of a key that an object repeats the last value is
/// kept; no clause says so.
#[verifier::external_body]
fn parse_text(text: &str) -> (r: Result<Json, String>)
    ensures
        result_view(r) == parsed(text@),
        in_order(result_view(r)),
        reads_back(text@, result_view(r)),
{
    match serde_json::from_str::<Value>(text) {
        Ok(value) => Ok(from_value(&value)),
        Err(err) => Err(err.to_string()),
    }
}

impl Json {
    /// Reads a JSON text.
    pub fn parse(text: &str) -> (r: Result<Json, String>)
        ensures
            result_view(r) == parsed(text@),
            in_order(result_view(r)),
            reads_back(text@, result_view(r)),
    {
        parse_text(text)
    }
}

/// Writing a plain value and reading it again gives the value back, but for the
/// order of fields.
pub fn read_back(value: &Json) -> (r: Result<Json, String>)
    ensures
        plain(value@, MAX_DEPTH as nat) ==> (r matches Ok(back) && alike(value@, back@)),
{
    Json::parse(&value.encode())
}

/// Values that differ in the order of fields alone have the same keys, with
/// values that differ in that alone.
pub proof fn alike_objects_agree_on_every_key(x: Fields, y: Fields, key: Seq<char>)
    requires
        alike(JsonView::Object(x), JsonView::Object(y)),
    ensures
        match (lookup(x, key), lookup(y, key)) {
            (None, None) => true,
            (Some(a), Some(b)) => alike(a, b),
            _ => false,
        },
{
    lemma_lookup_some(x, key);
    lemma_lookup_some(y, key);
    if lookup(x, key) is Some {
        let i = choose|i: int|
            0 <= i < x.len() && (#[trigger] x[i]).0 == key && lookup(x, key) == Some(x[i].1);
        let j = choose|j: int|
            0 <= j < y.len() && x[i].0 == (#[trigger] y[j]).0 && alike(x[i].1, y[j].1);
        assert forall|k: int| 0 <= k < j implies (#[trigger] y[k]).0 != key by {
            assert(y[k].0 != y[j].0);
        }
        lemma_lookup_at(y, key, j);
    } else if lookup(y, key) is Some {
        let j = choose|j: int|
            0 <= j < y.len() && (#[trigger] y[j]).0 == key && lookup(y, key) == Some(y[j].1);
        lemma_keys_onto(x, y, j);
        let i = choose|i: int| 0 <= i < x.len() && (#[trigger] x[i]).0 == y[j].0;
        assert(x[i].0 == key);
    }
}

proof fn lemma_lookup_some(fields: Fields, key: Seq<char>)
    ensures
        match lookup(fields, key) {
            Some(value) => exists|i: int|
                0 <= i < fields.len() && (#[trigger] fields[i]).0 == key && value == fields[i].1,
            None => forall|i: int| 0 <= i < fields.len() ==> (#[trigger] fields[i]).0 != key,
        },
    decreases fields.len(),
{
    if fields.len() > 0 {
        if fields[0].0 == key {
        } else {
            let rest = fields.drop_first();
            lemma_lookup_some(rest, key);
            match lookup(rest, key) {
                Some(value) => {
                    let i = choose|i: int|
                        0 <= i < rest.len() && (#[trigger] rest[i]).0 == key && value == rest[i].1;
                    assert(fields[i + 1] == rest[i]);
                },
                None => {
                    assert forall|i: int| 0 <= i < fields.len() implies (#[trigger] fields[i]).0
                        != key by {
                        if i > 0 {
                            assert(fields[i] == rest[i - 1]);
                        }
                    }
                },
            }
        }
    }
}

/// As many distinct keys on both sides, each of the first among the second:
/// then each of the second is among the first.
proof fn lemma_keys_onto(x: Fields, y: Fields, j: int)
    requires
        x.len() == y.len(),
        distinct(x),
        distinct(y),
        0 <= j < y.len(),
        forall|i: int|
            0 <= i < x.len() ==> exists|k: int|
                0 <= k < y.len() && (#[trigger] x[i]).0 == (#[trigger] y[k]).0,
    ensures
        exists|i: int| 0 <= i < x.len() && (#[trigger] x[i]).0 == y[j].0,
{
    let xs = x.map_values(|f: (Seq<char>, JsonView)| f.0);
    let ys = y.map_values(|f: (Seq<char>, JsonView)| f.0);
    assert(xs.no_duplicates()) by {
        assert forall|a: int, b: int| 0 <= a < xs.len() && 0 <= b < xs.len() && a != b implies xs[a]
            != xs[b] by {
            if a < b {
                assert(x[a].0 != x[b].0);
            } else {
                assert(x[b].0 != x[a].0);
            }
        }
    }
    assert(ys.no_duplicates()) by {
        assert forall|a: int, b: int| 0 <= a < ys.len() && 0 <= b < ys.len() && a != b implies ys[a]
            != ys[b] by {
            if a < b {
                assert(y[a].0 != y[b].0);
            } else {
                assert(y[b].0 != y[a].0);
            }
        }
    }
    xs.unique_seq_to_set();
    ys.unique_seq_to_set();
    assert(xs.to_set().subset_of(ys.to_set())) by {
        assert forall|key: Seq<char>| xs.to_set().contains(key) implies ys.to_set().contains(
            key,
        ) by {
            let i = choose|i: int| 0 <= i < xs.len() && xs[i] == key;
            assert(x[i].0 == key);
            let k = choose|k: int| 0 <= k < y.len() && x[i].0 == (#[trigger] y[k]).0;
            assert(ys[k] == key);
        }
    }
    vstd::set_lib::lemma_subset_equality(xs.to_set(), ys.to_set());
    assert(ys.to_set().contains(ys[j]));
    assert(xs.to_set().contains(ys[j]));
    let i = choose|i: int| 0 <= i < xs.len() && xs[i] == ys[j];
    assert(x[i].0 == y[j].0);
}

/// Whether fields may stand in a plain value of one level more.
pub open spec fn plain_fields(fields: Fields, depth: nat) -> bool {
    distinct(fields) && forall|i: int|
        0 <= i < fields.len() ==> plain((#[trigger] fields[i]).1, depth)
}

/// Fields stay plain with one more under a key of its own.
pub proof fn lemma_plain_with(fields: Fields, key: Seq<char>, value: Option<JsonView>, depth: nat)
    requires
        plain_fields(fields, depth),
        lookup(fields, key) is None,
        value matches Some(v) ==> plain(v, depth),
    ensures
        plain_fields(with(fields, key, value), depth),
{
    lemma_lookup_some(fields, key);
    if let Some(v) = value {
        let more = fields.push((key, v));
        assert forall|i: int, j: int| 0 <= i < j < more.len() implies (#[trigger] more[i]).0 != (
        #[trigger] more[j]).0 by {
            assert(more[i] == fields[i]);
            if j < fields.len() {
                assert(fields[i].0 != fields[j].0);
            }
        }
        assert forall|i: int| 0 <= i < more.len() implies plain((#[trigger] more[i]).1, depth) by {
            if i < fields.len() {
                assert(more[i] == fields[i]);
            }
        }
    }
}

/// What a key has in two values that differ in the order of fields alone.
pub open spec fn same_value(a: Option<JsonView>, b: Option<JsonView>) -> bool {
    match (a, b) {
        (None, None) => true,
        (Some(x), Some(y)) => alike(x, y),
        _ => false,
    }
}

/// Values that differ in the order of fields alone are records alike, and their
/// fields have alike values.
pub proof fn lemma_part_alike(a: JsonView, b: JsonView, place: int, key: Seq<char>)
    requires
        alike(a, b),
    ensures
        forall|fields: int| is_record(a, fields) == is_record(b, fields),
        same_value(part(a, place, key), part(b, place, key)),
{
    if let (JsonView::Object(x), JsonView::Object(y)) = (a, b) {
        alike_objects_agree_on_every_key(x, y, key);
    }
}

/// Values that differ in the order of fields alone hold the same texts.
pub proof fn lemma_texts_alike(a: JsonView, b: JsonView)
    requires
        alike(a, b),
    ensures
        texts_of(a) == texts_of(b),
{
    if let (JsonView::List(x), JsonView::List(y)) = (a, b) {
        assert forall|i: int| 0 <= i < x.len() implies (x[i] is Text <==> (#[trigger] y[i]) is Text)
            && (x[i] is Text ==> x[i] == y[i]) by {
            assert(alike(x[i], y[i]));
        }
        if forall|i: int| 0 <= i < x.len() ==> (#[trigger] x[i]) is Text {
            assert forall|i: int| 0 <= i < y.len() implies (#[trigger] y[i]) is Text by {
                assert(x[i] is Text);
            }
            assert(Seq::new(x.len(), |i: int| x[i]->Text_0) =~= Seq::new(
                y.len(),
                |i: int| y[i]->Text_0,
            ));
        } else {
            let i = choose|i: int| 0 <= i < x.len() && !((#[trigger] x[i]) is Text);
            assert(!(y[i] is Text));
        }
    }
}

/// A key that is put holds the value from then on, and every other key holds what
/// it held.
pub proof fn putting_sets_one_key(
    fields: Fields,
    key: Seq<char>,
    value: JsonView,
    asked: Seq<char>,
)
    ensures
        lookup(put(fields, key, value), asked) == (if asked == key {
            Some(value)
        } else {
            lookup(fields, asked)
        }),
    decreases fields.len(),
{
    reveal_with_fuel(lookup, 2);
    if fields.len() == 0 {
        assert(put(fields, key, value).drop_first() =~= fields);
    } else if fields[0].0 == key {
        assert(put(fields, key, value).drop_first() =~= fields.drop_first());
    } else if lookup(fields, key) is None && !text::before(fields[0].0, key) {
        assert(put(fields, key, value).drop_first() =~= fields);
    } else {
        assert(put(fields, key, value).drop_first() =~= put(fields.drop_first(), key, value));
        putting_sets_one_key(fields.drop_first(), key, value, asked);
    }
}

/// A record's field is what its key holds in an object and what stands at its place
/// in a list; a list of more than the fields is no record, and neither is a value
/// that is not made of parts.
pub proof fn records_are_read_by_key_or_place(
    fields: Fields,
    items: Seq<JsonView>,
    place: int,
    key: Seq<char>,
    n: int,
)
    requires
        0 <= place,
    ensures
        part(JsonView::Object(fields), place, key) == lookup(fields, key),
        place < items.len() ==> part(JsonView::List(items), place, key) == Some(items[place]),
        place >= items.len() ==> part(JsonView::List(items), place, key) is None,
        is_record(JsonView::Object(fields), n),
        is_record(JsonView::List(items), n) <==> items.len() <= n,
        !is_record(JsonView::Null, n),
        !is_record(JsonView::Text(key), n),
{
}

/// The first field of a key is the one that counts.
pub proof fn the_first_field_of_a_key_counts(
    fields: Fields,
    key: Seq<char>,
    value: JsonView,
    asked: Seq<char>,
)
    ensures
        lookup(seq![(key, value)] + fields, key) == Some(value),
        asked != key ==> lookup(seq![(key, value)] + fields, asked) == lookup(fields, asked),
        lookup(seq![], asked) is None,
{
    assert((seq![(key, value)] + fields).drop_first() =~= fields);
}

/// Texts are read from a list of strings one by one, and written as one.
pub proof fn lists_of_texts_are_read_one_by_one(items: Seq<JsonView>, i: int)
    requires
        0 <= i < items.len(),
    ensures
        texts_of(JsonView::List(items)) matches Some(texts) ==> texts.len() == items.len()
            && items[i] == JsonView::Text(texts[i]),
        !(items[i] is Text) ==> texts_of(JsonView::List(items)) is None,
{
}

/// Optional fields may be missing or null; any other value of the wrong kind is
/// refused.
pub proof fn optional_fields_may_be_missing(s: Seq<char>, b: bool, default: bool, n: Seq<char>)
    ensures
        optional_text(None) == Some(None::<Seq<char>>),
        optional_text(Some(JsonView::Null)) == Some(None::<Seq<char>>),
        optional_text(Some(JsonView::Text(s))) == Some(Some(s)),
        optional_text(Some(JsonView::Number(n))) is None,
        optional_text(Some(JsonView::Bool(b))) is None,
        flag(None, default) == Some(default),
        flag(Some(JsonView::Bool(b)), default) == Some(b),
        flag(Some(JsonView::Text(s)), default) is None,
        flag(Some(JsonView::Null), default) is None,
        text_of(Some(JsonView::Text(s))) == Some(s),
        text_of(Some(JsonView::Number(n))) is None,
        text_of(None) is None,
{
}

} // verus!
