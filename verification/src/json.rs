//! JSON documents as plain values.
//!
//! Parsing and printing are left to `serde_json` and `toml`; what a document
//! holds is read here, from a value of the crate's own.

use crate::text::str_eq;
use vstd::prelude::*;

verus! {

/// A JSON value.
#[derive(Debug)]
pub enum Json {
    Null,
    Bool(bool),
    /// A number that fits `i64`.
    Int(i64),
    /// A number above `i64::MAX` that fits `u64`.
    UInt(u64),
    /// Any other number, as its decimal text.
    Real(String),
    Text(String),
    Array(Vec<Json>),
    /// The members of an object, each key once.
    Object(Vec<(String, Json)>),
}

/// The mathematical value of a [`Json`].
pub enum JsonView {
    Null,
    Bool(bool),
    Int(i64),
    UInt(u64),
    Real(Seq<char>),
    Text(Seq<char>),
    Array(Seq<JsonView>),
    Object(Seq<(Seq<char>, JsonView)>),
}

impl View for Json {
    type V = JsonView;

    open spec fn view(&self) -> JsonView
        decreases self,
    {
        match self {
            Json::Null => JsonView::Null,
            Json::Bool(b) => JsonView::Bool(*b),
            Json::Int(i) => JsonView::Int(*i),
            Json::UInt(u) => JsonView::UInt(*u),
            Json::Real(t) => JsonView::Real(t@),
            Json::Text(t) => JsonView::Text(t@),
            Json::Array(items) => JsonView::Array(Json::items_view(items@)),
            Json::Object(members) => JsonView::Object(Json::members_view(members@)),
        }
    }
}

impl Json {
    /// The members of an object as the view has them.
    pub open spec fn members_view(members: Seq<(String, Json)>) -> Seq<(Seq<char>, JsonView)>
        decreases members,
    {
        Seq::new(
            members.len(),
            |i: int|
                if 0 <= i < members.len() {
                    (members[i].0@, members[i].1@)
                } else {
                    (Seq::empty(), JsonView::Null)
                },
        )
    }

    /// The items of an array as the view has them.
    pub open spec fn items_view(items: Seq<Json>) -> Seq<JsonView>
        decreases items,
    {
        Seq::new(
            items.len(),
            |i: int|
                if 0 <= i < items.len() {
                    items[i]@
                } else {
                    JsonView::Null
                },
        )
    }
}

// ---------------------------------------------------------------------------
// Reading a document
// ---------------------------------------------------------------------------

/// The least index at or after `from` of a member with this key, or `-1`.
pub open spec fn member_index(
    members: Seq<(Seq<char>, JsonView)>,
    key: Seq<char>,
    from: int,
) -> int
    decreases members.len() - from,
{
    if from < 0 || from >= members.len() {
        -1
    } else if members[from].0 == key {
        from
    } else {
        member_index(members, key, from + 1)
    }
}

/// The member of an object that has this key; `None` for a value that is no
/// object or has no such member.
pub open spec fn member(v: JsonView, key: Seq<char>) -> Option<JsonView> {
    match v {
        JsonView::Object(members) => {
            let at = member_index(members, key, 0);
            if at >= 0 {
                Some(members[at].1)
            } else {
                None
            }
        },
        _ => None,
    }
}

/// The text of a value that is a string.
pub open spec fn text_of(v: JsonView) -> Option<Seq<char>> {
    match v {
        JsonView::Text(t) => Some(t),
        _ => None,
    }
}

/// The text of the member with this key, where it is a string.
pub open spec fn text_member(v: JsonView, key: Seq<char>) -> Option<Seq<char>> {
    match member(v, key) {
        Some(m) => text_of(m),
        None => None,
    }
}

/// An object without its first member that has this key; any other value,
/// and an object without such a member, as it is.
pub open spec fn without_member(v: JsonView, key: Seq<char>) -> JsonView {
    match v {
        JsonView::Object(members) => {
            let at = member_index(members, key, 0);
            if at >= 0 {
                JsonView::Object(members.remove(at))
            } else {
                v
            }
        },
        _ => v,
    }
}

pub proof fn lemma_member_index_unique(
    members: Seq<(Seq<char>, JsonView)>,
    key: Seq<char>,
    from: int,
    at: int,
)
    requires
        0 <= from <= at <= members.len(),
        at < members.len() ==> members[at].0 == key,
        forall|i: int| from <= i < at ==> (#[trigger] members[i]).0 != key,
    ensures
        member_index(members, key, from) == (if at < members.len() {
            at
        } else {
            -1
        }),
    decreases at - from,
{
    if from < at {
        lemma_member_index_unique(members, key, from + 1, at);
    }
}

impl Json {
    fn find_member(members: &Vec<(String, Json)>, key: &str) -> (r: Option<usize>)
        ensures
            match r {
                Some(i) => member_index(Json::members_view(members@), key@, 0) == i && i
                    < members@.len(),
                None => member_index(Json::members_view(members@), key@, 0) == -1,
            },
    {
        let ghost mv = Json::members_view(members@);
        let mut i: usize = 0;
        while i < members.len()
            invariant
                i <= members.len(),
                mv == Json::members_view(members@),
                forall|k: int| 0 <= k < i ==> (#[trigger] mv[k]).0 != key@,
            decreases members.len() - i,
        {
            assert(mv[i as int] == (members@[i as int].0@, members@[i as int].1@));
            if str_eq(members[i].0.as_str(), key) {
                proof {
                    lemma_member_index_unique(mv, key@, 0, i as int);
                }
                return Some(i);
            }
            i += 1;
        }
        proof {
            lemma_member_index_unique(mv, key@, 0, mv.len() as int);
        }
        None
    }

    /// This value without its first member that has this key.
    pub fn remove_member(self, key: &str) -> (r: Json)
        ensures
            r@ == without_member(self@, key@),
    {
        match self {
            Json::Object(mut members) => {
                let ghost before = members@;
                match Json::find_member(&members, key) {
                    Some(i) => {
                        members.remove(i);
                        assert(Json::members_view(members@) =~= Json::members_view(before).remove(
                            i as int,
                        ));
                        Json::Object(members)
                    },
                    None => Json::Object(members),
                }
            },
            other => other,
        }
    }

    /// The member of an object that has this key.
    pub fn get(&self, key: &str) -> (r: Option<&Json>)
        ensures
            match r {
                Some(j) => member(self@, key@) == Some(j@),
                None => member(self@, key@) is None,
            },
    {
        match self {
            Json::Object(members) => {
                let ghost mv = Json::members_view(members@);
                assert(self@ == JsonView::Object(mv));
                let mut i: usize = 0;
                while i < members.len()
                    invariant
                        i <= members.len(),
                        mv == Json::members_view(members@),
                        self@ == JsonView::Object(mv),
                        forall|k: int| 0 <= k < i ==> (#[trigger] mv[k]).0 != key@,
                    decreases members.len() - i,
                {
                    assert(mv[i as int] == (members@[i as int].0@, members@[i as int].1@));
                    if str_eq(members[i].0.as_str(), key) {
                        proof {
                            lemma_member_index_unique(mv, key@, 0, i as int);
                        }
                        return Some(&members[i].1);
                    }
                    i += 1;
                }
                proof {
                    lemma_member_index_unique(mv, key@, 0, mv.len() as int);
                }
                None
            },
            _ => None,
        }
    }

    /// The text of a value that is a string.
    pub fn as_str(&self) -> (r: Option<&str>)
        ensures
            match r {
                Some(t) => text_of(self@) == Some(t@),
                None => text_of(self@) is None,
            },
    {
        match self {
            Json::Text(t) => Some(t.as_str()),
            _ => None,
        }
    }

    /// The text of the member with this key, where it is a string.
    pub fn text_at(&self, key: &str) -> (r: Option<&str>)
        ensures
            match r {
                Some(t) => text_member(self@, key@) == Some(t@),
                None => text_member(self@, key@) is None,
            },
    {
        match self.get(key) {
            Some(m) => m.as_str(),
            None => None,
        }
    }

    /// The items of a value that is an array.
    pub fn as_array(&self) -> (r: Option<&Vec<Json>>)
        ensures
            match r {
                Some(items) => self@ == JsonView::Array(Json::items_view(items@)),
                None => !(self@ is Array),
            },
    {
        match self {
            Json::Array(items) => Some(items),
            _ => None,
        }
    }

    /// The members of a value that is an object.
    pub fn as_object(&self) -> (r: Option<&Vec<(String, Json)>>)
        ensures
            match r {
                Some(members) => self@ == JsonView::Object(Json::members_view(members@)),
                None => !(self@ is Object),
            },
    {
        match self {
            Json::Object(members) => Some(members),
            _ => None,
        }
    }

    /// Whether this value is `null`.
    pub fn is_null(&self) -> (r: bool)
        ensures
            r == (self@ is Null),
    {
        match self {
            Json::Null => true,
            _ => false,
        }
    }
}

// ---------------------------------------------------------------------------
// Parsing and printing
// ---------------------------------------------------------------------------

/// `serde_json::Value`, the parser's own document. Nothing is seen of what
/// it holds; it is turned into a [`Json`] as soon as it is there.
#[verifier::external_type_specification]
#[verifier::external_body]
pub struct ExJsonValue(serde_json::Value);

/// The document that `serde_json` reads from a text, or `None` where the
/// text is no JSON.
pub uninterp spec fn parsed_json(text: Seq<char>) -> Option<JsonView>;

/// The document that `toml` reads from a text, seen as JSON, or `None` where
/// the text is no TOML.
pub uninterp spec fn parsed_toml(text: Seq<char>) -> Option<JsonView>;

/// The indented JSON text that `serde_json` prints for a document.
pub uninterp spec fn pretty_json(doc: JsonView) -> Option<Seq<char>>;

/// The TOML text that `toml` prints for a document.
pub uninterp spec fn printed_toml(doc: JsonView) -> Option<Seq<char>>;

/// A text in quotes with its special characters escaped, as the `Debug`
/// format of `str` prints it.
pub uninterp spec fn quoted(text: Seq<char>) -> Seq<char>;

/// Turns a `serde_json::Value` into the crate's own value, variant by
/// variant. A number becomes `Int` where `as_i64` has it, `UInt` where only
/// `as_u64` has it, and its printed text otherwise.
#[verifier::external_body]
fn json_from_value(v: serde_json::Value) -> Json {
    match v {
        serde_json::Value::Null => Json::Null,
        serde_json::Value::Bool(b) => Json::Bool(b),
        serde_json::Value::Number(n) => n.as_i64().map(Json::Int).or(
            n.as_u64().map(Json::UInt),
        ).unwrap_or_else(|| Json::Real(n.to_string())),
        serde_json::Value::String(s) => Json::Text(s),
        serde_json::Value::Array(a) => Json::Array(a.into_iter().map(json_from_value).collect()),
        serde_json::Value::Object(m) => Json::Object(
            m.into_iter().map(|(k, v)| (k, json_from_value(v))).collect(),
        ),
    }
}

/// Turns the crate's own value into a `serde_json::Value`, variant by
/// variant. The text of a `Real` is read back as a number.
#[verifier::external_body]
fn json_to_value(j: &Json) -> serde_json::Value {
    match j {
        Json::Null => serde_json::Value::Null,
        Json::Bool(b) => serde_json::Value::Bool(*b),
        Json::Int(i) => serde_json::Value::from(*i),
        Json::UInt(u) => serde_json::Value::from(*u),
        Json::Real(t) => serde_json::from_str(t).unwrap_or(serde_json::Value::Null),
        Json::Text(t) => serde_json::Value::String(t.clone()),
        Json::Array(a) => serde_json::Value::Array(a.iter().map(json_to_value).collect()),
        Json::Object(m) => serde_json::Value::Object(
            m.iter().map(|(k, v)| (k.clone(), json_to_value(v))).collect(),
        ),
    }
}

/// `serde_json::from_str` reads a text as one JSON document. What it reads
/// depends on the text alone; the error is its message.
#[verifier::external_body]
pub(crate) fn parse_json(text: &str) -> (r: Result<Json, String>)
    ensures
        match r {
            Ok(doc) => parsed_json(text@) == Some(doc@),
            Err(_) => parsed_json(text@) is None,
        },
{
    serde_json::from_str::<serde_json::Value>(text).map(json_from_value).map_err(|e| e.to_string())
}

/// Why a TOML text could not be read as a document.
#[derive(Debug)]
pub enum TomlError {
    /// The text is no TOML; this is the parser's message.
    Syntax { message: String },
    /// The TOML document has no JSON form; this is the converter's message.
    Conversion { message: String },
}

/// `toml::from_str` reads a text as one TOML document, which
/// `serde_json::to_value` then turns into JSON. What comes out depends on
/// the text alone.
#[verifier::external_body]
pub(crate) fn parse_toml(text: &str) -> (r: Result<Json, TomlError>)
    ensures
        match r {
            Ok(doc) => parsed_toml(text@) == Some(doc@),
            Err(_) => parsed_toml(text@) is None,
        },
{
    match toml::from_str::<toml::Value>(text) {
        Err(e) => Err(TomlError::Syntax { message: e.to_string() }),
        Ok(v) => match serde_json::to_value(v) {
            Err(e) => Err(TomlError::Conversion { message: e.to_string() }),
            Ok(j) => Ok(json_from_value(j)),
        },
    }
}

/// `serde_json::to_string_pretty` prints a document as indented JSON. What
/// it prints depends on the document alone; the error is its message.
#[verifier::external_body]
pub(crate) fn print_json_pretty(doc: &Json) -> (r: Result<String, String>)
    ensures
        match r {
            Ok(text) => pretty_json(doc@) == Some(text@),
            Err(_) => pretty_json(doc@) is None,
        },
{
    serde_json::to_string_pretty(&json_to_value(doc)).map_err(|e| e.to_string())
}

/// `toml::to_string` prints a document as TOML. What it prints depends on
/// the document alone; the error is its message.
#[verifier::external_body]
pub(crate) fn print_toml(doc: &Json) -> (r: Result<String, String>)
    ensures
        match r {
            Ok(text) => printed_toml(doc@) == Some(text@),
            Err(_) => printed_toml(doc@) is None,
        },
{
    toml::to_string(&json_to_value(doc)).map_err(|e| e.to_string())
}

/// The `Debug` format of `str` puts a text in quotes and escapes its special
/// characters. What it prints depends on the text alone.
#[verifier::external_body]
pub(crate) fn quote(text: &str) -> (r: String)
    ensures
        r@ == quoted(text@),
{
    format!("{:?}", text)
}

/// Reads a text as one JSON document; `None` where it is none.
pub fn read_json(text: &str) -> (r: Option<Json>)
    ensures
        match r {
            Some(doc) => parsed_json(text@) == Some(doc@),
            None => parsed_json(text@) is None,
        },
{
    match parse_json(text) {
        Ok(doc) => Some(doc),
        Err(_) => None,
    }
}

// ---------------------------------------------------------------------------
// Leaving out what is null
// ---------------------------------------------------------------------------

/// A document without its nulls: no object has a member that is null, no
/// array an item that is null, at any depth. A document that is itself
/// null stays.
pub open spec fn stripped(v: JsonView) -> JsonView
    decreases v,
{
    match v {
        JsonView::Object(members) => JsonView::Object(stripped_members(members)),
        JsonView::Array(items) => JsonView::Array(stripped_items(items)),
        _ => v,
    }
}

/// The members that are not null, each without its nulls.
pub open spec fn stripped_members(members: Seq<(Seq<char>, JsonView)>) -> Seq<
    (Seq<char>, JsonView),
>
    decreases members,
{
    if members.len() == 0 {
        Seq::empty()
    } else {
        let front = stripped_members(members.drop_last());
        if members.last().1 is Null {
            front
        } else {
            front.push((members.last().0, stripped(members.last().1)))
        }
    }
}

/// The items that are not null, each without its nulls.
pub open spec fn stripped_items(items: Seq<JsonView>) -> Seq<JsonView>
    decreases items,
{
    if items.len() == 0 {
        Seq::empty()
    } else {
        let front = stripped_items(items.drop_last());
        if items.last() is Null {
            front
        } else {
            front.push(stripped(items.last()))
        }
    }
}

/// Leaves out every member and every item that is null, at any depth.
pub fn strip_nulls(value: Json) -> (r: Json)
    ensures
        r@ == stripped(value@),
    decreases value,
{
    let ghost whole = value;
    match value {
        Json::Object(members) => {
            let mut rest = members;
            let ghost all = Json::members_view(rest@);
            let mut out: Vec<(String, Json)> = Vec::new();
            assert(stripped_members(all) + Json::members_view(out@) =~= stripped_members(all));
            while rest.len() > 0
                invariant
                    whole == value,
                    forall|i: int|
                        0 <= i < rest@.len() ==> decreases_to!(whole => (#[trigger] rest@[i]).1),
                    stripped_members(all) == stripped_members(Json::members_view(rest@))
                        + Json::members_view(out@),
                decreases rest.len(),
            {
                let ghost before = rest@;
                let ghost kept = out@;
                let n = rest.len();
                let (key, item) = rest.remove(n - 1);
                proof {
                    assert(rest@ =~= before.drop_last());
                    assert(Json::members_view(rest@) =~= Json::members_view(before).drop_last());
                    assert(Json::members_view(before).last() == (key@, item@));
                    assert(before[n - 1].1 == item);
                }
                if !item.is_null() {
                    let clean = strip_nulls(item);
                    let ghost cv = clean@;
                    out.insert(0, (key, clean));
                    assert(Json::members_view(out@) =~= seq![(key@, cv)] + Json::members_view(
                        kept,
                    ));
                    assert(stripped_members(Json::members_view(rest@)).push((key@, cv))
                        + Json::members_view(kept) =~= stripped_members(
                        Json::members_view(rest@),
                    ) + Json::members_view(out@));
                }
            }
            assert(stripped_members(Json::members_view(rest@)) + Json::members_view(out@)
                =~= Json::members_view(out@));
            Json::Object(out)
        },
        Json::Array(items) => {
            let mut rest = items;
            let ghost all = Json::items_view(rest@);
            let mut out: Vec<Json> = Vec::new();
            assert(stripped_items(all) + Json::items_view(out@) =~= stripped_items(all));
            while rest.len() > 0
                invariant
                    whole == value,
                    forall|i: int|
                        0 <= i < rest@.len() ==> decreases_to!(whole => #[trigger] rest@[i]),
                    stripped_items(all) == stripped_items(Json::items_view(rest@))
                        + Json::items_view(out@),
                decreases rest.len(),
            {
                let ghost before = rest@;
                let ghost kept = out@;
                let n = rest.len();
                let item = rest.remove(n - 1);
                proof {
                    assert(rest@ =~= before.drop_last());
                    assert(Json::items_view(rest@) =~= Json::items_view(before).drop_last());
                    assert(Json::items_view(before).last() == item@);
                    assert(before[n - 1] == item);
                }
                if !item.is_null() {
                    let clean = strip_nulls(item);
                    let ghost cv = clean@;
                    out.insert(0, clean);
                    assert(Json::items_view(out@) =~= seq![cv] + Json::items_view(kept));
                    assert(stripped_items(Json::items_view(rest@)).push(cv) + Json::items_view(
                        kept,
                    ) =~= stripped_items(Json::items_view(rest@)) + Json::items_view(out@));
                }
            }
            assert(stripped_items(Json::items_view(rest@)) + Json::items_view(out@)
                =~= Json::items_view(out@));
            Json::Array(out)
        },
        other => other,
    }
}

} // verus!
