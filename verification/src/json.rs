//! JSON values, as far as the blocks are read from them.

use crate::text::text_eq;
use vstd::prelude::*;
use vstd::string::*;

verus! {

/// A JSON value.
#[derive(Debug, PartialEq, Eq)]
pub enum Json {
    Null,
    Bool(bool),
    /// A number, as it is written.
    Number(String),
    Str(String),
    Array(Vec<Json>),
    /// An object: its members, no two of them under one key.
    Object(Vec<Member>),
}

/// One member of a JSON object.
#[derive(Debug, PartialEq, Eq)]
pub struct Member {
    pub key: String,
    pub value: Json,
}

/// A JSON value as a mathematical value.
pub enum JsonView {
    Null,
    Bool(bool),
    Number(Seq<char>),
    Str(Seq<char>),
    Array(Seq<JsonView>),
    Object(Seq<MemberView>),
}

/// One member of a JSON object as a mathematical value.
pub struct MemberView {
    pub key: Seq<char>,
    pub value: JsonView,
}

/// What the first `n` of `values` hold.
pub open spec fn views_upto(values: Seq<Json>, n: nat) -> Seq<JsonView>
    decreases values, n,
{
    if n == 0 || n > values.len() {
        Seq::empty()
    } else {
        views_upto(values, (n - 1) as nat).push(values[n - 1].model())
    }
}

/// What the first `n` of `members` hold.
pub open spec fn members_upto(members: Seq<Member>, n: nat) -> Seq<MemberView>
    decreases members, n,
{
    if n == 0 || n > members.len() {
        Seq::empty()
    } else {
        members_upto(members, (n - 1) as nat).push(
            MemberView { key: members[n - 1].key@, value: members[n - 1].value.model() },
        )
    }
}

/// What `values` hold, one by one.
pub open spec fn views(values: Seq<Json>) -> Seq<JsonView> {
    views_upto(values, values.len())
}

/// What `members` hold, one by one.
pub open spec fn member_views(members: Seq<Member>) -> Seq<MemberView> {
    members_upto(members, members.len())
}

impl Json {
    /// The value as a mathematical value.
    pub open spec fn model(self) -> JsonView
        decreases self, 0nat,
    {
        match self {
            Json::Null => JsonView::Null,
            Json::Bool(b) => JsonView::Bool(b),
            Json::Number(n) => JsonView::Number(n@),
            Json::Str(s) => JsonView::Str(s@),
            Json::Array(values) => JsonView::Array(views_upto(values@, values@.len())),
            Json::Object(members) => JsonView::Object(members_upto(members@, members@.len())),
        }
    }
}

impl View for Json {
    type V = JsonView;

    open spec fn view(&self) -> JsonView {
        self.model()
    }
}

proof fn lemma_views_upto(values: Seq<Json>, n: nat)
    requires
        n <= values.len(),
    ensures
        views_upto(values, n).len() == n,
        forall|i: int| 0 <= i < n ==> views_upto(values, n)[i] == values[i]@,
    decreases n,
{
    if n > 0 {
        lemma_views_upto(values, (n - 1) as nat);
    }
}

proof fn lemma_members_upto(members: Seq<Member>, n: nat)
    requires
        n <= members.len(),
    ensures
        members_upto(members, n).len() == n,
        forall|i: int|
            0 <= i < n ==> members_upto(members, n)[i] == (MemberView {
                key: members[i].key@,
                value: members[i].value@,
            }),
    decreases n,
{
    if n > 0 {
        lemma_members_upto(members, (n - 1) as nat);
    }
}

/// `views` goes value by value.
pub proof fn lemma_views(values: Seq<Json>)
    ensures
        views(values).len() == values.len(),
        forall|i: int| 0 <= i < values.len() ==> views(values)[i] == values[i]@,
{
    lemma_views_upto(values, values.len());
}

/// `member_views` goes member by member.
pub proof fn lemma_member_views(members: Seq<Member>)
    ensures
        member_views(members).len() == members.len(),
        forall|i: int|
            0 <= i < members.len() ==> member_views(members)[i] == (MemberView {
                key: members[i].key@,
                value: members[i].value@,
            }),
{
    lemma_members_upto(members, members.len());
}

/// The value of the first of the first `n` members that stands under `key`.
pub open spec fn find(members: Seq<MemberView>, key: Seq<char>, n: nat) -> Option<JsonView>
    decreases n,
{
    if n == 0 || n > members.len() {
        None
    } else {
        match find(members, key, (n - 1) as nat) {
            Some(value) => Some(value),
            None => if members[n - 1].key == key {
                Some(members[n - 1].value)
            } else {
                None
            },
        }
    }
}

impl JsonView {
    /// The member of an object under `key`; `None` where there is none, or
    /// the value is no object.
    pub open spec fn get(self, key: Seq<char>) -> Option<JsonView> {
        match self {
            JsonView::Object(members) => find(members, key, members.len()),
            _ => None,
        }
    }

    /// The member under `key`, but `None` where it is `null`.
    pub open spec fn get_some(self, key: Seq<char>) -> Option<JsonView> {
        match self.get(key) {
            Some(JsonView::Null) => None,
            other => other,
        }
    }

    /// The string under `key`.
    pub open spec fn text_at(self, key: Seq<char>) -> Option<Seq<char>> {
        match self.get(key) {
            Some(JsonView::Str(s)) => Some(s),
            _ => None,
        }
    }
}

impl Json {
    /// Looks up the member of an object: see `JsonView::get`.
    pub fn get(&self, key: &str) -> (r: Option<&Json>)
        ensures
            match r {
                Some(value) => self@.get(key@) == Some(value@),
                None => self@.get(key@) is None,
            },
    {
        match self {
            Json::Object(members) => {
                proof {
                    lemma_member_views(members@);
                }
                let ghost all = member_views(members@);
                let mut i: usize = 0;
                while i < members.len()
                    invariant
                        i <= members.len(),
                        self@ == JsonView::Object(all),
                        all == member_views(members@),
                        all.len() == members.len(),
                        forall|k: int|
                            0 <= k < members.len() ==> all[k] == (MemberView {
                                key: members@[k].key@,
                                value: members@[k].value@,
                            }),
                        find(all, key@, i as nat) is None,
                    decreases members.len() - i,
                {
                    if text_eq(members[i].key.as_str(), key) {
                        assert(find(all, key@, (i + 1) as nat) == Some(members@[i as int].value@));
                        proof {
                            lemma_find_stays(all, key@, (i + 1) as nat, all.len());
                        }
                        return Some(&members[i].value);
                    }
                    i = i + 1;
                }
                None
            },
            _ => None,
        }
    }

    /// Looks up a member that is not `null`: see `JsonView::get_some`.
    pub fn get_some(&self, key: &str) -> (r: Option<&Json>)
        ensures
            match r {
                Some(value) => self@.get_some(key@) == Some(value@),
                None => self@.get_some(key@) is None,
            },
    {
        match self.get(key) {
            Some(Json::Null) => None,
            other => other,
        }
    }

    /// The values of an array, if the value is one.
    pub fn as_items(&self) -> (r: Option<&Vec<Json>>)
        ensures
            match r {
                Some(items) => self@ == JsonView::Array(views(items@)),
                None => !(self@ is Array),
            },
    {
        match self {
            Json::Array(items) => Some(items),
            _ => None,
        }
    }

    /// Looks up a string: see `JsonView::text_at`.
    pub fn text_at(&self, key: &str) -> (r: Option<&String>)
        ensures
            match r {
                Some(s) => self@.text_at(key@) == Some(s@),
                None => self@.text_at(key@) is None,
            },
    {
        match self.get(key) {
            Some(Json::Str(s)) => Some(s),
            _ => None,
        }
    }
}

/// What is found among the first members is found among all of them.
pub proof fn lemma_find_stays(members: Seq<MemberView>, key: Seq<char>, n: nat, m: nat)
    requires
        n <= m <= members.len(),
        find(members, key, n) is Some,
    ensures
        find(members, key, m) == find(members, key, n),
    decreases m,
{
    if n < m {
        lemma_find_stays(members, key, n, (m - 1) as nat);
    }
}

/// What a JSON text says, where it is well-formed.
pub uninterp spec fn json_of_text(text: Seq<char>) -> Option<JsonView>;

/// Reads a JSON text with `serde_json::from_str`, into a `serde_json::Value`.
/// The result is the value that the text says, and the same for the same
/// text; a text that is not well-formed JSON gets `None`. What value a text
/// says is the parser's matter: nothing is stated of it here.
#[verifier::external_body]
pub(crate) fn parse_json(text: &str) -> (r: Option<Json>)
    ensures
        match r {
            Some(value) => json_of_text(text@) == Some(value@),
            None => json_of_text(text@) is None,
        },
{
    match serde_json::from_str::<serde_json::Value>(text) {
        Ok(value) => Some(json_from_value(value)),
        Err(_) => None,
    }
}

/// `serde_json::Value`: any JSON value. Nothing is known of what one holds.
#[verifier::external_type_specification]
#[verifier::external_body]
pub struct ExValue(serde_json::Value);

/// Takes a `serde_json::Value` over variant by variant. A number is kept as
/// its `Display` text; the members of an object come in the order in which
/// the map gives them.
#[verifier::external_body]
pub(crate) fn json_from_value(value: serde_json::Value) -> Json {
    match value {
        serde_json::Value::Null => Json::Null,
        serde_json::Value::Bool(b) => Json::Bool(b),
        serde_json::Value::Number(n) => Json::Number(n.to_string()),
        serde_json::Value::String(s) => Json::Str(s),
        serde_json::Value::Array(a) => Json::Array(a.into_iter().map(json_from_value).collect()),
        serde_json::Value::Object(o) => Json::Object(
            o.into_iter().map(|(key, v)| Member { key, value: json_from_value(v) }).collect(),
        ),
    }
}

} // verus!
