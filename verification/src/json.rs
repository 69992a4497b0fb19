//! JSON documents: a parsed document as far as the library reads one, and its parsing.

use crate::text::same;
use vstd::prelude::*;

verus! {

/// A parsed JSON value.
#[derive(Debug)]
pub enum Json {
    Null,
    Bool(bool),
    /// A whole number that is not negative.
    Natural(u64),
    /// A negative whole number.
    Negative(i64),
    /// Any other number.
    Fraction,
    Text(String),
    List(Vec<Json>),
    /// An object: its members by name.
    Object(Vec<(String, Json)>),
}

/// A JSON value, as a value.
pub enum Tree {
    Null,
    Bool(bool),
    Natural(u64),
    Negative(i64),
    Fraction,
    Text(Seq<char>),
    List(Seq<Tree>),
    Object(Seq<(Seq<char>, Tree)>),
}

impl Json {
    /// The value `self` holds.
    pub open spec fn tree(self) -> Tree
        decreases self,
    {
        match self {
            Json::Null => Tree::Null,
            Json::Bool(b) => Tree::Bool(b),
            Json::Natural(n) => Tree::Natural(n),
            Json::Negative(n) => Tree::Negative(n),
            Json::Fraction => Tree::Fraction,
            Json::Text(s) => Tree::Text(s@),
            Json::List(v) => Tree::List(
                Seq::new(
                    v@.len(),
                    |i: int|
                        if 0 <= i < v@.len() {
                            v@[i].tree()
                        } else {
                            Tree::Null
                        },
                ),
            ),
            Json::Object(v) => Tree::Object(
                Seq::new(
                    v@.len(),
                    |i: int|
                        if 0 <= i < v@.len() {
                            (v@[i].0@, v@[i].1.tree())
                        } else {
                            (seq![], Tree::Null)
                        },
                ),
            ),
        }
    }
}

impl View for Json {
    type V = Tree;

    open spec fn view(&self) -> Tree {
        self.tree()
    }
}

/// The first of `members`, from `k` on, with this name.
pub open spec fn named(members: Seq<(Seq<char>, Tree)>, name: Seq<char>, k: int) -> Option<Tree>
    decreases members.len() - k,
{
    if k < 0 || k >= members.len() {
        None
    } else if members[k].0 == name {
        Some(members[k].1)
    } else {
        named(members, name, k + 1)
    }
}

impl Tree {
    /// The member of an object with this name.
    pub open spec fn member(self, name: Seq<char>) -> Option<Tree> {
        match self {
            Tree::Object(members) => named(members, name, 0),
            _ => None,
        }
    }

    /// The value as a truth value.
    pub open spec fn truth(self) -> Option<bool> {
        match self {
            Tree::Bool(b) => Some(b),
            _ => None,
        }
    }

    /// The value as a natural number.
    pub open spec fn natural(self) -> Option<u64> {
        match self {
            Tree::Natural(n) => Some(n),
            _ => None,
        }
    }

    /// The value as an integer of 64 bits.
    pub open spec fn integer(self) -> Option<i64> {
        match self {
            Tree::Natural(n) => if n <= i64::MAX {
                Some(n as i64)
            } else {
                None
            },
            Tree::Negative(n) => Some(n),
            _ => None,
        }
    }

    /// The value as a text.
    pub open spec fn text(self) -> Option<Seq<char>> {
        match self {
            Tree::Text(s) => Some(s),
            _ => None,
        }
    }

    /// The value as a list.
    pub open spec fn list(self) -> Option<Seq<Tree>> {
        match self {
            Tree::List(v) => Some(v),
            _ => None,
        }
    }
}

/// The values in `v`.
pub open spec fn trees(v: Seq<Json>) -> Seq<Tree> {
    v.map_values(|j: Json| j@)
}

impl Json {
    /// The member of an object with this name.
    pub fn get(&self, name: &str) -> (r: Option<&Json>)
        ensures
            match r {
                Some(j) => self@.member(name@) == Some(j@),
                None => self@.member(name@) is None,
            },
    {
        match self {
            Json::Object(members) => {
                let ghost all = self@->Object_0;
                for i in 0..members.len()
                    invariant
                        *self == Json::Object(*members),
                        self@ == Tree::Object(all),
                        all.len() == members@.len(),
                        forall|j: int|
                            0 <= j < members@.len() ==> #[trigger] all[j] == (
                                members@[j].0@,
                                members@[j].1@,
                            ),
                        named(all, name@, 0) == named(all, name@, i as int),
                {
                    if same(members[i].0.as_str(), name) {
                        return Some(&members[i].1);
                    }
                }
                None
            },
            _ => None,
        }
    }

    /// The value as a truth value.
    pub fn as_bool(&self) -> (r: Option<bool>)
        ensures
            r == self@.truth(),
    {
        match self {
            Json::Bool(b) => Some(*b),
            _ => None,
        }
    }

    /// The value as a natural number.
    pub fn as_u64(&self) -> (r: Option<u64>)
        ensures
            r == self@.natural(),
    {
        match self {
            Json::Natural(n) => Some(*n),
            _ => None,
        }
    }

    /// The value as an integer.
    pub fn as_i64(&self) -> (r: Option<i64>)
        ensures
            r == self@.integer(),
    {
        match self {
            Json::Natural(n) => if *n <= 0x7fff_ffff_ffff_ffff {
                Some(*n as i64)
            } else {
                None
            },
            Json::Negative(n) => Some(*n),
            _ => None,
        }
    }

    /// The value as a text.
    pub fn as_str(&self) -> (r: Option<&str>)
        ensures
            match r {
                Some(s) => self@.text() == Some(s@),
                None => self@.text() is None,
            },
    {
        match self {
            Json::Text(s) => Some(s.as_str()),
            _ => None,
        }
    }

    /// The value as a list.
    pub fn as_array(&self) -> (r: Option<&Vec<Json>>)
        ensures
            match r {
                Some(v) => self@.list() == Some(trees(v@)),
                None => self@.list() is None,
            },
    {
        match self {
            Json::List(v) => {
                assert(self@->List_0 =~= trees(v@));
                Some(v)
            },
            _ => None,
        }
    }
}

/// `serde_json`'s JSON value.
#[verifier::external_type_specification]
#[verifier::external_body]
pub struct ExJsonValue(serde_json::Value);

/// What a `serde_json` value holds.
pub uninterp spec fn json_tree(v: serde_json::Value) -> Tree;

/// The document `serde_json` reads in a text, where it reads one.
pub uninterp spec fn json_document(text: Seq<u8>) -> Option<Tree>;

/// `serde_json::from_slice` into a `serde_json::Value`. What it reads, and whether it reads
/// anything, depends on nothing but the text.
#[verifier::external_body]
fn json_from_slice(text: &[u8]) -> (r: Option<serde_json::Value>)
    ensures
        match r {
            Some(v) => json_document(text@) == Some(json_tree(v)),
            None => json_document(text@) is None,
        },
{
    serde_json::from_slice(text).ok()
}

/// One level of a `serde_json` value.
enum Level<'a> {
    Null,
    Bool(bool),
    /// A number: as a natural number, and as an integer.
    Number(Option<u64>, Option<i64>),
    Text(&'a str),
    List(&'a Vec<serde_json::Value>),
    Object(Vec<(&'a String, &'a serde_json::Value)>),
}

impl Level<'_> {
    /// The value this is a level of.
    spec fn tree(self) -> Tree {
        match self {
            Level::Null => Tree::Null,
            Level::Bool(b) => Tree::Bool(b),
            Level::Number(Some(n), _) => Tree::Natural(n),
            Level::Number(None, Some(n)) => Tree::Negative(n),
            Level::Number(None, None) => Tree::Fraction,
            Level::Text(s) => Tree::Text(s@),
            Level::List(v) => Tree::List(v@.map_values(|j: serde_json::Value| json_tree(j))),
            Level::Object(m) => Tree::Object(
                m@.map_values(|p: (&String, &serde_json::Value)| (p.0@, json_tree(*p.1))),
            ),
        }
    }
}

/// The variants of `serde_json::Value`, and of a number what `serde_json::Number::as_u64`
/// and `as_i64` give. A number has the first unless it is negative or no whole number, and
/// then the second if it is a whole number. An object's members come in its own order.
#[verifier::external_body]
fn json_level(v: &serde_json::Value) -> (r: Level<'_>)
    ensures
        r.tree() == json_tree(*v),
{
    match v {
        serde_json::Value::Null => Level::Null,
        serde_json::Value::Bool(b) => Level::Bool(*b),
        serde_json::Value::Number(n) => Level::Number(n.as_u64(), n.as_i64()),
        serde_json::Value::String(s) => Level::Text(s),
        serde_json::Value::Array(a) => Level::List(a),
        serde_json::Value::Object(m) => Level::Object(m.iter().collect()),
    }
}

/// The value `v` holds.
fn json_value(v: &serde_json::Value) -> (r: Json)
    ensures
        r@ == json_tree(*v),
    decreases json_tree(*v),
{
    match json_level(v) {
        Level::Null => Json::Null,
        Level::Bool(b) => Json::Bool(b),
        Level::Number(Some(n), _) => Json::Natural(n),
        Level::Number(None, Some(n)) => Json::Negative(n),
        Level::Number(None, None) => Json::Fraction,
        Level::Text(s) => Json::Text(s.to_owned()),
        Level::List(list) => {
            let ghost items = json_tree(*v)->List_0;
            let mut out: Vec<Json> = Vec::new();
            for i in 0..list.len()
                invariant
                    json_tree(*v) == Tree::List(items),
                    items.len() == list@.len(),
                    forall|j: int|
                        0 <= j < list@.len() ==> #[trigger] items[j] == json_tree(list@[j]),
                    out@.len() == i,
                    forall|j: int| 0 <= j < i ==> (#[trigger] out@[j])@ == items[j],
            {
                assert(items[i as int] == json_tree(list@[i as int]));
                assert(decreases_to!(json_tree(*v) => json_tree(*v)->List_0));
                assert(decreases_to!(items => items[i as int]));
                out.push(json_value(&list[i]));
            }
            let r = Json::List(out);
            assert(r@->List_0 =~= items);
            r
        },
        Level::Object(list) => {
            let ghost items = json_tree(*v)->Object_0;
            let mut out: Vec<(String, Json)> = Vec::new();
            for i in 0..list.len()
                invariant
                    json_tree(*v) == Tree::Object(items),
                    items.len() == list@.len(),
                    forall|j: int|
                        0 <= j < list@.len() ==> #[trigger] items[j] == (
                            list@[j].0@,
                            json_tree(*list@[j].1),
                        ),
                    out@.len() == i,
                    forall|j: int|
                        0 <= j < i ==> ((#[trigger] out@[j]).0@, out@[j].1@) == items[j],
            {
                assert(items[i as int] == (list@[i as int].0@, json_tree(*list@[i as int].1)));
                assert(decreases_to!(json_tree(*v) => json_tree(*v)->Object_0));
                assert(decreases_to!(items => items[i as int]));
                assert(decreases_to!(items[i as int] => items[i as int].1));
                let member = list[i];
                let value = json_value(member.1);
                out.push((member.0.clone(), value));
            }
            let r = Json::Object(out);
            assert(r@->Object_0 =~= items);
            r
        },
    }
}

/// The document in `text`; `None` where it is not JSON.
pub fn read(text: &[u8]) -> (r: Option<Json>)
    ensures
        match r {
            Some(j) => json_document(text@) == Some(j@),
            None => json_document(text@) is None,
        },
{
    match json_from_slice(text) {
        Some(v) => Some(json_value(&v)),
        None => None,
    }
}

/// An object's member is found by its name, the first that has it.
pub proof fn a_member_is_found_by_its_name(
    members: Vec<(String, Json)>,
    name: &str,
    r: Option<&Json>,
    k: int,
)
    requires
        call_ensures(Json::get, (&Json::Object(members), name), r),
        0 <= k < members@.len(),
        members@[k].0@ == name@,
        forall|j: int| 0 <= j < k ==> (#[trigger] members@[j]).0@ != name@,
    ensures
        r matches Some(j) && j@ == members@[k].1@,
{
    let t = Json::Object(members)@;
    let all = t->Object_0;
    assert forall|j: int| 0 <= j < k implies (#[trigger] all[j]).0 != name@ by {
        assert(members@[j].0@ != name@);
    }
    member_stands(all, name@, 0, k);
}

proof fn member_stands(members: Seq<(Seq<char>, Tree)>, name: Seq<char>, k: int, n: int)
    requires
        0 <= k <= n < members.len(),
        members[n].0 == name,
        forall|j: int| k <= j < n ==> (#[trigger] members[j]).0 != name,
    ensures
        named(members, name, k) == Some(members[n].1),
    decreases n - k,
{
    if k < n {
        assert(members[k].0 != name);
        member_stands(members, name, k + 1, n);
    }
}

/// What a value reads as is what it is: only a truth value as one, only a text as one, and a
/// number as an integer where it fits.
pub proof fn a_value_reads_as_what_it_is(
    j: Json,
    b: Option<bool>,
    n: Option<u64>,
    i: Option<i64>,
)
    requires
        call_ensures(Json::as_bool, (&j,), b),
        call_ensures(Json::as_u64, (&j,), n),
        call_ensures(Json::as_i64, (&j,), i),
    ensures
        b is Some <==> j is Bool,
        j matches Json::Bool(v) ==> b == Some(v),
        n is Some <==> j is Natural,
        j matches Json::Natural(v) ==> n == Some(v) && (i matches Some(w) ==> w == v) && (v
            <= i64::MAX ==> i is Some),
        j matches Json::Negative(v) ==> i == Some(v) && n is None,
        i is Some ==> j is Natural || j is Negative,
{
}

} // verus!
