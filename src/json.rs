use vstd::prelude::*;

verus! {

broadcast use {vstd::std_specs::vec::axiom_vec_index_decreases, vstd::seq::axiom_seq_index_decreases};

/// serde_json's number, carried through unread.
#[verifier::external_type_specification]
#[verifier::external_body]
pub struct ExNumber(serde_json::Number);

/// serde_json's document, met only where text is read or written.
#[verifier::external_type_specification]
#[verifier::external_body]
pub struct ExValue(serde_json::Value);

/// A JSON document held as plain values.
pub enum Json {
    Null,
    Bool(bool),
    Number(serde_json::Number),
    Str(String),
    Array(Vec<Json>),
    Object(Vec<(String, Json)>),
}

/// The mathematical value of a JSON document; object members keep their order.
pub enum JsonModel {
    Null,
    Bool(bool),
    Number(serde_json::Number),
    Str(Seq<char>),
    Array(Seq<JsonModel>),
    Object(Seq<(Seq<char>, JsonModel)>),
}

/// The model of a document: strings as characters, every nested document as its model.
pub open spec fn json_view(j: Json) -> JsonModel
    decreases j,
{
    match j {
        Json::Null => JsonModel::Null,
        Json::Bool(b) => JsonModel::Bool(b),
        Json::Number(n) => JsonModel::Number(n),
        Json::Str(s) => JsonModel::Str(s@),
        Json::Array(items) => JsonModel::Array(
            Seq::new(items.len() as nat, |i: int| if 0 <= i < items.len() { json_view(items[i]) } else { JsonModel::Null }),
        ),
        Json::Object(members) => JsonModel::Object(
            Seq::new(members.len() as nat, |i: int| if 0 <= i < members.len() { (members[i].0@, json_view(members[i].1)) } else { (Seq::empty(), JsonModel::Null) }),
        ),
    }
}

impl View for Json {
    type V = JsonModel;

    open spec fn view(&self) -> JsonModel {
        json_view(*self)
    }
}

/// The position of the first member named `key` at or after position `i`; the number of
/// members when there is none.
pub open spec fn find_member(members: Seq<(Seq<char>, JsonModel)>, key: Seq<char>, i: int) -> int
    decreases members.len() - i,
{
    if i < 0 || i >= members.len() {
        members.len() as int
    } else if members[i].0 == key {
        i
    } else {
        find_member(members, key, i + 1)
    }
}

/// The member `key` of an object; nothing for other documents.
pub open spec fn member(doc: JsonModel, key: Seq<char>) -> Option<JsonModel> {
    match doc {
        JsonModel::Object(members) => {
            let k = find_member(members, key, 0);
            if 0 <= k < members.len() {
                Some(members[k].1)
            } else {
                None
            }
        },
        _ => None,
    }
}

/// The characters of a string document.
pub open spec fn text_of(doc: Option<JsonModel>) -> Option<Seq<char>> {
    match doc {
        Some(JsonModel::Str(s)) => Some(s),
        _ => None,
    }
}

/// The elements of an array document.
pub open spec fn items_of(doc: Option<JsonModel>) -> Option<Seq<JsonModel>> {
    match doc {
        Some(JsonModel::Array(items)) => Some(items),
        _ => None,
    }
}

/// The string member `key` of an object.
pub open spec fn text_member(doc: JsonModel, key: Seq<char>) -> Option<Seq<char>> {
    text_of(member(doc, key))
}

/// The array member `key` of an object.
pub open spec fn items_member(doc: JsonModel, key: Seq<char>) -> Option<Seq<JsonModel>> {
    items_of(member(doc, key))
}

pub open spec fn views(items: Seq<Json>) -> Seq<JsonModel> {
    Seq::new(items.len(), |i: int| items[i]@)
}

/// The position of the first member named `key`; `members.len()` when there is none.
pub fn find_member_index(members: &Vec<(String, Json)>, key: &str) -> (r: usize)
    ensures
        r as int == find_member(json_view(Json::Object(*members))->Object_0, key@, 0),
        r <= members.len(),
{
    let ghost model = json_view(Json::Object(*members))->Object_0;
    let wanted = key.to_owned();
    let mut i: usize = 0;
    while i < members.len()
        invariant
            i <= members.len(),
            model.len() == members.len(),
            model == json_view(Json::Object(*members))->Object_0,
            wanted@ == key@,
            find_member(model, key@, 0) == find_member(model, key@, i as int),
        decreases members.len() - i,
    {
        assert(model[i as int].0 == members[i as int].0@);
        if members[i].0 == wanted {
            return i;
        }
        i = i + 1;
    }
    i
}

impl Json {
    /// The member `key` of an object.
    pub fn get(&self, key: &str) -> (r: Option<&Json>)
        ensures
            match r {
                Some(j) => member(self@, key@) == Some(j@),
                None => member(self@, key@) is None,
            },
    {
        match self {
            Json::Object(members) => {
                let k = find_member_index(members, key);
                if k < members.len() {
                    assert(self@->Object_0[k as int].1 == members[k as int].1@);
                    Some(&members[k].1)
                } else {
                    None
                }
            },
            _ => None,
        }
    }

    /// The characters of a string document.
    pub fn as_str(&self) -> (r: Option<&str>)
        ensures
            match r {
                Some(s) => self@ == JsonModel::Str(s@),
                None => self@ !is Str,
            },
    {
        match self {
            Json::Str(s) => Some(s.as_str()),
            _ => None,
        }
    }

    /// The elements of an array document.
    pub fn as_array(&self) -> (r: Option<&Vec<Json>>)
        ensures
            match r {
                Some(items) => self@ == JsonModel::Array(views(items@)),
                None => self@ !is Array,
            },
    {
        match self {
            Json::Array(items) => {
                assert(self@->Array_0 =~= views(items@));
                Some(items)
            },
            _ => None,
        }
    }

    pub fn is_null(&self) -> (r: bool)
        ensures
            r == (self@ is Null),
    {
        match self {
            Json::Null => true,
            _ => false,
        }
    }
}

/// Nesting of arrays and objects that serde_json reads back without reaching its recursion limit.
pub open spec fn storable_depth() -> nat {
    100
}

/// The document that `serde_json::from_str` reads from `text`, if `text` is JSON.
pub uninterp spec fn json_parse(text: Seq<char>) -> Option<JsonModel>;

/// The text that `serde_json::to_string_pretty` writes for `doc`.
pub uninterp spec fn json_pretty(doc: JsonModel) -> Seq<char>;

/// `a` comes strictly before `b` in the order of their characters' code points.
pub open spec fn key_before(a: Seq<char>, b: Seq<char>) -> bool
    decreases a.len(),
{
    if b.len() == 0 {
        false
    } else if a.len() == 0 {
        true
    } else if a[0] != b[0] {
        (a[0] as u32) < (b[0] as u32)
    } else {
        key_before(a.drop_first(), b.drop_first())
    }
}

/// Member names strictly ascending, as serde_json's map keeps them.
pub open spec fn keys_ascending(members: Seq<(Seq<char>, JsonModel)>) -> bool {
    forall|i: int| 0 <= i < members.len() - 1 ==> key_before(#[trigger] members[i].0, members[i + 1].0)
}

/// A document without numbers, with ascending member names and at most `depth` levels of
/// arrays and objects: one that serde_json writes out and reads back unchanged.
pub open spec fn json_storable(doc: JsonModel, depth: nat) -> bool
    decreases doc,
{
    match doc {
        JsonModel::Number(_) => false,
        JsonModel::Array(items) => depth > 0 && forall|i: int|
            0 <= i < items.len() ==> json_storable(#[trigger] items[i], (depth - 1) as nat),
        JsonModel::Object(members) => depth > 0 && keys_ascending(members) && forall|i: int|
            0 <= i < members.len() ==> json_storable(#[trigger] members[i].1, (depth - 1) as nat),
        _ => true,
    }
}

/// Moves a `serde_json::Value` into the library's own type, variant for variant; an
/// object's members come in the order of serde_json's map, ascending by name.
#[verifier::external_body]
fn json_from_value(v: serde_json::Value) -> Json {
    match v {
        serde_json::Value::Null => Json::Null,
        serde_json::Value::Bool(b) => Json::Bool(b),
        serde_json::Value::Number(n) => Json::Number(n),
        serde_json::Value::String(s) => Json::Str(s),
        serde_json::Value::Array(a) => Json::Array(a.into_iter().map(json_from_value).collect()),
        serde_json::Value::Object(m) => Json::Object(m.into_iter().map(|(k, x)| (k, json_from_value(x))).collect()),
    }
}

/// Copies a document into a `serde_json::Value`, variant for variant; an object's members
/// are inserted into serde_json's map in order, so a later member of the same name wins.
#[verifier::external_body]
fn json_to_value(j: &Json) -> serde_json::Value {
    match j {
        Json::Null => serde_json::Value::Null,
        Json::Bool(b) => serde_json::Value::Bool(*b),
        Json::Number(n) => serde_json::Value::Number(n.clone()),
        Json::Str(s) => serde_json::Value::String(s.clone()),
        Json::Array(a) => serde_json::Value::Array(a.iter().map(json_to_value).collect()),
        Json::Object(m) => serde_json::Value::Object(m.iter().map(|(k, x)| (k.clone(), json_to_value(x))).collect()),
    }
}

/// Relies on serde_json::from_str into a `serde_json::Value`: the document depends on the
/// text alone, and there is none when the text is not JSON.
#[verifier::external_body]
pub(crate) fn parse_text(text: &str) -> (r: Option<Json>)
    ensures
        match r {
            Some(j) => json_parse(text@) == Some(j@),
            None => json_parse(text@) is None,
        },
{
    match serde_json::from_str::<serde_json::Value>(text) {
        Ok(v) => Some(json_from_value(v)),
        Err(_) => None,
    }
}

/// Relies on serde_json::to_string_pretty of a `serde_json::Value`: the text depends on the
/// document alone, and writing cannot fail (the map keys are strings). Relies too on
/// serde_json::from_str reading that text back unchanged when the document holds no number
/// (a float may not come back bit for bit), names its members in ascending order (serde_json's
/// map sorts them) and nests below from_str's recursion limit of 128.
#[verifier::external_body]
pub(crate) fn render_text(j: &Json) -> (r: String)
    ensures
        r@ == json_pretty(j@),
        json_storable(j@, storable_depth()) ==> json_parse(r@) == Some(j@),
{
    serde_json::to_string_pretty(&json_to_value(j)).unwrap_or_default()
}

} // verus!
