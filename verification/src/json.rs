//! JSON values, as the gateway sends them.

use vstd::prelude::*;

use crate::text::{i64_text, joined, same, Duplicate};

verus! {

/// A JSON value. An integer that fits `i64` is an `Int`; any other number keeps its
/// JSON notation. The members of an object have distinct names.
#[derive(Debug, PartialEq)]
pub enum Json {
    Null,
    Bool(bool),
    Int(i64),
    Number(String),
    Str(String),
    Array(Vec<Json>),
    Object(Vec<(String, Json)>),
}

/// What a JSON value stands for.
pub enum JsonView {
    Null,
    Bool(bool),
    Int(i64),
    Number(Seq<char>),
    Str(Seq<char>),
    Array(Seq<JsonView>),
    Object(Seq<(Seq<char>, JsonView)>),
}

/// The value that a JSON value stands for.
pub open spec fn json_view(json: Json) -> JsonView
    decreases json,
{
    match json {
        Json::Null => JsonView::Null,
        Json::Bool(b) => JsonView::Bool(b),
        Json::Int(n) => JsonView::Int(n),
        Json::Number(s) => JsonView::Number(s@),
        Json::Str(s) => JsonView::Str(s@),
        Json::Array(items) => JsonView::Array(
            Seq::new(
                items@.len(),
                |i: int|
                    if 0 <= i < items@.len() {
                        json_view(items@[i])
                    } else {
                        JsonView::Null
                    },
            ),
        ),
        Json::Object(members) => JsonView::Object(
            Seq::new(
                members@.len(),
                |i: int|
                    if 0 <= i < members@.len() {
                        (members@[i].0@, json_view(members@[i].1))
                    } else {
                        (Seq::empty(), JsonView::Null)
                    },
            ),
        ),
    }
}

impl View for Json {
    type V = JsonView;

    open spec fn view(&self) -> JsonView {
        json_view(*self)
    }
}

impl JsonView {
    /// The member of an object by name: the first with that name.
    pub open spec fn get(self, key: Seq<char>) -> Option<JsonView> {
        match self {
            JsonView::Object(members) => find_member(members, key),
            _ => None,
        }
    }

    /// The text of a JSON string.
    pub open spec fn as_str(self) -> Option<Seq<char>> {
        match self {
            JsonView::Str(s) => Some(s),
            _ => None,
        }
    }

    /// The integer of a JSON number that is one and fits `i64`.
    pub open spec fn as_i64(self) -> Option<i64> {
        match self {
            JsonView::Int(n) => Some(n),
            _ => None,
        }
    }

    /// The member `key`, where it is a string.
    pub open spec fn get_str(self, key: Seq<char>) -> Option<Seq<char>> {
        match self.get(key) {
            Some(v) => v.as_str(),
            None => None,
        }
    }

    /// The member `key`, where it is an integer.
    pub open spec fn get_i64(self, key: Seq<char>) -> Option<i64> {
        match self.get(key) {
            Some(v) => v.as_i64(),
            None => None,
        }
    }
}

/// The first of `members` that is named `key`.
pub open spec fn find_member(members: Seq<(Seq<char>, JsonView)>, key: Seq<char>) -> Option<
    JsonView,
>
    decreases members.len(),
{
    if members.len() == 0 {
        None
    } else if members[0].0 == key {
        Some(members[0].1)
    } else {
        find_member(members.drop_first(), key)
    }
}

/// A member of an object is smaller than the object.
pub proof fn lemma_member_smaller(json: JsonView, key: Seq<char>)
    ensures
        json.get(key) matches Some(v) ==> decreases_to!(json => v),
{
    if json is Object {
        lemma_find_member(json->Object_0, key);
        if json.get(key) is Some {
            let i = choose|i: int|
                0 <= i < json->Object_0.len() && (#[trigger] json->Object_0[i]).1 == json.get(key)->0;
            assert(decreases_to!(json => json->Object_0[i]));
            assert(decreases_to!(json => json->Object_0[i].1));
        }
    }
}

proof fn lemma_find_member(members: Seq<(Seq<char>, JsonView)>, key: Seq<char>)
    ensures
        find_member(members, key) matches Some(v) ==> exists|i: int|
            0 <= i < members.len() && (#[trigger] members[i]).1 == v,
    decreases members.len(),
{
    if members.len() > 0 && members[0].0 != key {
        let rest = members.drop_first();
        lemma_find_member(rest, key);
        if find_member(rest, key) is Some {
            let i = choose|i: int|
                0 <= i < rest.len() && (#[trigger] rest[i]).1 == find_member(rest, key)->0;
            assert(members[i + 1].1 == find_member(rest, key)->0);
        }
    }
}

/// A copy of a JSON value.
fn duplicate_json(json: &Json) -> (r: Json)
    ensures
        r@ == json@,
    decreases json,
{
    match json {
        Json::Null => Json::Null,
        Json::Bool(b) => Json::Bool(*b),
        Json::Int(n) => Json::Int(*n),
        Json::Number(s) => Json::Number(s.clone()),
        Json::Str(s) => Json::Str(s.clone()),
        Json::Array(items) => {
            let mut out: Vec<Json> = Vec::new();
            let mut i: usize = 0;
            while i < items.len()
                invariant
                    i <= items.len(),
                    out.len() == i,
                    *json == Json::Array(*items),
                    forall|k: int| 0 <= k < i ==> json_view(#[trigger] out@[k]) == json_view(items@[k]),
                decreases items.len() - i,
            {
                proof {
                    assert(decreases_to!(*json => json->Array_0@[i as int]));
                }
                out.push(duplicate_json(&items[i]));
                i = i + 1;
            }
            let copy = Json::Array(out);
            proof {
                assert(copy@->Array_0 =~= json@->Array_0);
            }
            copy
        },
        Json::Object(members) => {
            let mut out: Vec<(String, Json)> = Vec::new();
            let mut i: usize = 0;
            while i < members.len()
                invariant
                    i <= members.len(),
                    out.len() == i,
                    *json == Json::Object(*members),
                    forall|k: int|
                        0 <= k < i ==> (#[trigger] out@[k]).0@ == members@[k].0@ && json_view(out@[k].1)
                            == json_view(members@[k].1),
                decreases members.len() - i,
            {
                proof {
                    assert(decreases_to!(*json => json->Object_0@[i as int]));
                    assert(decreases_to!(*json => json->Object_0@[i as int].1));
                }
                let name = members[i].0.clone();
                out.push((name, duplicate_json(&members[i].1)));
                i = i + 1;
            }
            let copy = Json::Object(out);
            proof {
                assert(copy@->Object_0 =~= json@->Object_0);
            }
            copy
        },
    }
}

/// Whether two JSON values stand for the same.
pub fn same_json(a: &Json, b: &Json) -> (r: bool)
    ensures
        r == (a@ == b@),
    decreases *a,
{
    match (a, b) {
        (Json::Null, Json::Null) => true,
        (Json::Bool(x), Json::Bool(y)) => *x == *y,
        (Json::Int(x), Json::Int(y)) => *x == *y,
        (Json::Number(x), Json::Number(y)) => same(x.as_str(), y.as_str()),
        (Json::Str(x), Json::Str(y)) => same(x.as_str(), y.as_str()),
        (Json::Array(x), Json::Array(y)) => {
            if x.len() != y.len() {
                proof {
                    assert(a@->Array_0.len() != b@->Array_0.len());
                }
                return false;
            }
            let mut i: usize = 0;
            while i < x.len()
                invariant
                    i <= x@.len(),
                    x@.len() == y@.len(),
                    *a == Json::Array(*x),
                    *b == Json::Array(*y),
                    forall|k: int| 0 <= k < i ==> json_view(#[trigger] x@[k]) == json_view(y@[k]),
                decreases x.len() - i,
            {
                proof {
                    assert(decreases_to!(*a => a->Array_0@[i as int]));
                    assert(a@->Array_0[i as int] == json_view(x@[i as int]));
                    assert(b@->Array_0[i as int] == json_view(y@[i as int]));
                }
                if !same_json(&x[i], &y[i]) {
                    return false;
                }
                i = i + 1;
            }
            proof {
                assert(a@->Array_0 =~= b@->Array_0);
            }
            true
        },
        (Json::Object(x), Json::Object(y)) => {
            if x.len() != y.len() {
                proof {
                    assert(a@->Object_0.len() != b@->Object_0.len());
                }
                return false;
            }
            let mut i: usize = 0;
            while i < x.len()
                invariant
                    i <= x@.len(),
                    x@.len() == y@.len(),
                    *a == Json::Object(*x),
                    *b == Json::Object(*y),
                    forall|k: int|
                        0 <= k < i ==> (#[trigger] x@[k]).0@ == y@[k].0@ && json_view(x@[k].1)
                            == json_view(y@[k].1),
                decreases x.len() - i,
            {
                proof {
                    assert(decreases_to!(*a => a->Object_0@[i as int]));
                    assert(decreases_to!(*a => a->Object_0@[i as int].1));
                    assert(a@->Object_0[i as int] == (x@[i as int].0@, json_view(x@[i as int].1)));
                    assert(b@->Object_0[i as int] == (y@[i as int].0@, json_view(y@[i as int].1)));
                }
                if !same(x[i].0.as_str(), y[i].0.as_str()) || !same_json(&x[i].1, &y[i].1) {
                    return false;
                }
                i = i + 1;
            }
            proof {
                assert(a@->Object_0 =~= b@->Object_0);
            }
            true
        },
        _ => false,
    }
}

impl Duplicate for Json {
    fn duplicate(&self) -> (r: Self) {
        duplicate_json(self)
    }
}

impl Clone for Json {
    fn clone(&self) -> (r: Self)
        ensures
            r@ == self@,
    {
        duplicate_json(self)
    }
}

impl Json {
    /// The member of an object by name.
    pub fn get(&self, key: &str) -> (r: Option<&Json>)
        ensures
            crate::text::opt_view(r) == self@.get(key@),
            r matches Some(v) ==> decreases_to!(*self => *v),
    {
        match self {
            Json::Object(members) => {
                let mut i: usize = 0;
                let ghost all = self@->Object_0;
                proof {
                    assert(all.skip(0) =~= all);
                }
                while i < members.len()
                    invariant
                        i <= members.len(),
                        *self == Json::Object(*members),
                        all == self@->Object_0,
                        find_member(all.skip(i as int), key@) == find_member(all, key@),
                    decreases members.len() - i,
                {
                    if same(members[i].0.as_str(), key) {
                        proof {
                            assert(all.skip(i as int)[0] == all[i as int]);
                            assert(decreases_to!(*self => members@[i as int]));
                            assert(decreases_to!(*self => members@[i as int].1));
                        }
                        return Some(&members[i].1);
                    }
                    proof {
                        assert(all.skip(i as int)[0] == all[i as int]);
                        assert(all.skip(i as int).drop_first() =~= all.skip(i + 1));
                    }
                    i = i + 1;
                }
                None
            },
            _ => None,
        }
    }

    /// The text of a JSON string.
    pub fn as_str(&self) -> (r: Option<&str>)
        ensures
            crate::text::opt_view(r) == self@.as_str(),
    {
        match self {
            Json::Str(s) => Some(s.as_str()),
            _ => None,
        }
    }

    /// The integer of a JSON number that is one and fits `i64`.
    pub fn as_i64(&self) -> (r: Option<i64>)
        ensures
            r == self@.as_i64(),
    {
        match self {
            Json::Int(n) => Some(*n),
            _ => None,
        }
    }

    /// The member `key`, where it is a string.
    pub fn get_str(&self, key: &str) -> (r: Option<&str>)
        ensures
            crate::text::opt_view(r) == self@.get_str(key@),
    {
        match self.get(key) {
            Some(v) => v.as_str(),
            None => None,
        }
    }

    /// The member `key`, where it is an integer.
    pub fn get_i64(&self, key: &str) -> (r: Option<i64>)
        ensures
            r == self@.get_i64(key@),
    {
        match self.get(key) {
            Some(v) => v.as_i64(),
            None => None,
        }
    }
}

/// A hexadecimal digit, in lower case.
pub open spec fn low_hex(n: int) -> char {
    if n < 10 {
        (n + 48) as char
    } else {
        (n + 87) as char
    }
}

/// A character of a JSON string: the quote, the backslash and the control characters are
/// escaped, those with a letter of their own by it.
pub open spec fn escaped(c: char) -> Seq<char> {
    if c == '"' || c == '\\' {
        seq!['\\', c]
    } else if c == '\u{8}' {
        seq!['\\', 'b']
    } else if c == '\t' {
        seq!['\\', 't']
    } else if c == '\n' {
        seq!['\\', 'n']
    } else if c == '\u{c}' {
        seq!['\\', 'f']
    } else if c == '\r' {
        seq!['\\', 'r']
    } else if (c as int) < 32 {
        seq!['\\', 'u', '0', '0', low_hex(c as int / 16), low_hex(c as int % 16)]
    } else {
        seq![c]
    }
}

/// The characters of a JSON string, one behind the other.
pub open spec fn escaped_text(s: Seq<char>) -> Seq<char>
    decreases s.len(),
{
    if s.len() == 0 {
        Seq::empty()
    } else {
        escaped_text(s.drop_last()) + escaped(s.last())
    }
}

/// A text as a JSON string: escaped, in quotes.
pub open spec fn quoted(s: Seq<char>) -> Seq<char> {
    seq!['"'] + escaped_text(s) + seq!['"']
}

/// `serde_json::Value::to_string` of a string value: the text in quotes, with the characters
/// escaped that JSON does not take as they are.
#[verifier::external_body]
fn quote(s: &str) -> (r: String)
    ensures
        r@ == quoted(s@),
{
    serde_json::Value::from(s).to_string()
}

/// A JSON value in its compact notation.
pub open spec fn json_text(json: JsonView) -> Seq<char>
    decreases json, 0nat,
{
    match json {
        JsonView::Null => "null"@,
        JsonView::Bool(b) => if b {
            "true"@
        } else {
            "false"@
        },
        JsonView::Int(n) => crate::text::int_decimal(n as int),
        JsonView::Number(s) => s,
        JsonView::Str(s) => quoted(s),
        JsonView::Array(items) => "["@ + items_text(items, items.len()) + "]"@,
        JsonView::Object(members) => "{"@ + members_text(members, members.len()) + "}"@,
    }
}

/// The first `n` items of an array.
pub open spec fn items_text(items: Seq<JsonView>, n: nat) -> Seq<char>
    decreases items, n,
{
    if n == 0 || n > items.len() {
        Seq::empty()
    } else {
        let before = items_text(items, (n - 1) as nat);
        (if n > 1 {
            before + ","@
        } else {
            before
        }) + json_text(items[n - 1])
    }
}

/// The first `n` members of an object.
pub open spec fn members_text(members: Seq<(Seq<char>, JsonView)>, n: nat) -> Seq<char>
    decreases members, n,
{
    if n == 0 || n > members.len() {
        Seq::empty()
    } else {
        let before = members_text(members, (n - 1) as nat);
        proof {
            assert(decreases_to!(members => members[n - 1]));
            assert(decreases_to!(members[n - 1] => members[n - 1].1));
        }
        (if n > 1 {
            before + ","@
        } else {
            before
        }) + quoted(members[n - 1].0) + ":"@ + json_text(members[n - 1].1)
    }
}

/// A JSON value in its compact notation.
pub fn json_string(json: &Json) -> (r: String)
    ensures
        r@ == json_text(json@),
    decreases json,
{
    match json {
        Json::Null => "null".to_owned(),
        Json::Bool(b) => if *b {
            "true".to_owned()
        } else {
            "false".to_owned()
        },
        Json::Int(n) => i64_text(*n),
        Json::Number(s) => s.clone(),
        Json::Str(s) => quote(s.as_str()),
        Json::Array(items) => {
            let ghost all = json@->Array_0;
            let mut body = String::new();
            let mut i: usize = 0;
            proof {
                assert(body@ =~= items_text(all, 0));
            }
            while i < items.len()
                invariant
                    i <= items.len(),
                    *json == Json::Array(*items),
                    all == json@->Array_0,
                    all.len() == items@.len(),
                    body@ == items_text(all, i as nat),
                decreases items.len() - i,
            {
                proof {
                    assert(decreases_to!(*json => json->Array_0@[i as int]));
                    assert(all[i as int] == json_view(items@[i as int]));
                }
                if i > 0 {
                    body.append(",");
                }
                body.append(json_string(&items[i]).as_str());
                i = i + 1;
            }
            let mut out = joined("[", body.as_str());
            out.append("]");
            out
        },
        Json::Object(members) => {
            let ghost all = json@->Object_0;
            let mut body = String::new();
            let mut i: usize = 0;
            proof {
                assert(body@ =~= members_text(all, 0));
            }
            while i < members.len()
                invariant
                    i <= members.len(),
                    *json == Json::Object(*members),
                    all == json@->Object_0,
                    all.len() == members@.len(),
                    body@ == members_text(all, i as nat),
                decreases members.len() - i,
            {
                proof {
                    assert(decreases_to!(*json => json->Object_0@[i as int]));
                    assert(decreases_to!(*json => json->Object_0@[i as int].1));
                    assert(all[i as int] == (members@[i as int].0@, json_view(members@[i as int].1)));
                }
                if i > 0 {
                    body.append(",");
                }
                body.append(quote(members[i].0.as_str()).as_str());
                body.append(":");
                body.append(json_string(&members[i].1).as_str());
                i = i + 1;
            }
            let mut out = joined("{", body.as_str());
            out.append("}");
            out
        },
    }
}

} // verus!
