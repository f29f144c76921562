//! JSON documents as plain values.

use vstd::prelude::*;

use crate::text::same_text;

verus! {

/// A JSON document. A number is kept as its text.
pub enum Json {
    Null,
    Bool(bool),
    Number(String),
    Text(String),
    Array(Vec<Json>),
    /// The members, each a name and a value.
    Object(Vec<(String, Json)>),
}

/// What a [`Json`] says, with its strings and lists as sequences.
pub enum JsonModel {
    Null,
    Bool(bool),
    Number(Seq<char>),
    Text(Seq<char>),
    Array(Seq<JsonModel>),
    Object(Seq<(Seq<char>, JsonModel)>),
}

impl View for Json {
    type V = JsonModel;

    open spec fn view(&self) -> JsonModel {
        self.model()
    }
}

/// The value of the first member called `name`.
pub open spec fn member_value(
    members: Seq<(Seq<char>, JsonModel)>,
    name: Seq<char>,
) -> Option<JsonModel>
    decreases members.len(),
{
    if members.len() == 0 {
        None
    } else if members[0].0 == name {
        Some(members[0].1)
    } else {
        member_value(members.skip(1), name)
    }
}

impl JsonModel {
    /// The value of the member called `name`, where this is an object that has one.
    pub open spec fn get(self, name: Seq<char>) -> Option<JsonModel> {
        match self {
            JsonModel::Object(members) => member_value(members, name),
            _ => None,
        }
    }
}

impl Json {
    /// What this document says.
    pub open spec fn model(self) -> JsonModel
        decreases self,
    {
        match self {
            Json::Null => JsonModel::Null,
            Json::Bool(b) => JsonModel::Bool(b),
            Json::Number(text) => JsonModel::Number(text@),
            Json::Text(text) => JsonModel::Text(text@),
            Json::Array(items) => JsonModel::Array(
                Seq::new(
                    items@.len(),
                    |i: int|
                        if 0 <= i < items@.len() {
                            items@[i].model()
                        } else {
                            JsonModel::Null
                        },
                ),
            ),
            Json::Object(members) => JsonModel::Object(
                Seq::new(
                    members@.len(),
                    |i: int|
                        if 0 <= i < members@.len() {
                            (members@[i].0@, members@[i].1.model())
                        } else {
                            (Seq::<char>::empty(), JsonModel::Null)
                        },
                ),
            ),
        }
    }

    /// The value of the member called `name`, where this is an object that has one.
    pub fn get(&self, name: &str) -> (r: Option<&Json>)
        ensures
            match r {
                Some(value) => self@.get(name@) == Some(value@),
                None => self@.get(name@) is None,
            },
    {
        match self {
            Json::Object(members) => {
                let ghost all = self@->Object_0;
                let mut i: usize = 0;
                assert(all.skip(0) =~= all);
                while i < members.len()
                    invariant
                        i <= members.len(),
                        members@.len() == all.len(),
                        self@ == JsonModel::Object(all),
                        forall|j: int|
                            0 <= j < members@.len() ==> all[j] == (
                                (#[trigger] members@[j]).0@,
                                members@[j].1@,
                            ),
                        member_value(all, name@) == member_value(all.skip(i as int), name@),
                    decreases members.len() - i,
                {
                    assert(all.skip(i as int)[0] == (members@[i as int].0@, members@[i as int].1@));
                    if same_text(members[i].0.as_str(), name) {
                        return Some(&members[i].1);
                    }
                    assert(all.skip(i as int).skip(1) =~= all.skip(i + 1));
                    i += 1;
                }
                None
            },
            _ => None,
        }
    }

    /// The string that this document is, where it is one.
    pub fn as_str(&self) -> (r: Option<&str>)
        ensures
            match r {
                Some(text) => self@ == JsonModel::Text(text@),
                None => !(self@ is Text),
            },
    {
        match self {
            Json::Text(text) => Some(text.as_str()),
            _ => None,
        }
    }
}

/// Whether `a` comes before `b` where strings are ordered character by character.
pub open spec fn text_before(a: Seq<char>, b: Seq<char>) -> bool {
    exists|k: int| #[trigger] differs_first_at(a, b, k)
}

/// Whether `a` and `b` agree on their first `k` characters, and `a` then ends or goes on with a
/// smaller character.
pub open spec fn differs_first_at(a: Seq<char>, b: Seq<char>, k: int) -> bool {
    &&& 0 <= k <= a.len()
    &&& k < b.len()
    &&& a.take(k) == b.take(k)
    &&& k < a.len() ==> a[k] < b[k]
}

/// Whether the names of the members strictly ascend.
pub open spec fn names_ascend(members: Seq<(Seq<char>, JsonModel)>) -> bool {
    forall|i: int, j: int|
        0 <= i < j < members.len() ==> text_before(
            (#[trigger] members[i]).0,
            (#[trigger] members[j]).0,
        )
}

impl JsonModel {
    /// Whether the names of the members of every object, at any depth, strictly ascend.
    pub open spec fn sorted(self) -> bool
        decreases self,
    {
        match self {
            JsonModel::Array(items) => forall|i: int|
                0 <= i < items.len() ==> (#[trigger] items[i]).sorted(),
            JsonModel::Object(members) => {
                &&& names_ascend(members)
                &&& forall|i: int| 0 <= i < members.len() ==> (#[trigger] members[i]).1.sorted()
            },
            _ => true,
        }
    }
}

/// The values of the members of a sorted object are sorted.
pub proof fn lemma_member_sorted(members: Seq<(Seq<char>, JsonModel)>, name: Seq<char>)
    requires
        forall|i: int| 0 <= i < members.len() ==> (#[trigger] members[i]).1.sorted(),
    ensures
        member_value(members, name) matches Some(value) ==> value.sorted(),
    decreases members.len(),
{
    if members.len() > 0 {
        assert(members[0].1.sorted());
        let rest = members.skip(1);
        assert forall|i: int| 0 <= i < rest.len() implies (#[trigger] rest[i]).1.sorted() by {
            assert(rest[i] == members[i + 1]);
        }
        lemma_member_sorted(rest, name);
    }
}

/// `serde_json::Value`, a JSON document. What it holds is [`value_model`].
#[verifier::external_type_specification]
#[verifier::external_body]
pub struct ExValue(serde_json::Value);

/// `serde_json::Error`, why a text is no document. Nothing is claimed of it.
#[verifier::external_type_specification]
#[verifier::external_body]
pub struct ExError(serde_json::Error);

/// The document that a `serde_json::Value` holds.
pub uninterp spec fn value_model(value: serde_json::Value) -> JsonModel;

/// The document that `serde_json::from_str` reads from `text`, or `None` where it fails.
pub uninterp spec fn json_of_text(text: Seq<char>) -> Option<JsonModel>;

/// One level of a `serde_json::Value`.
enum ValueParts {
    Null,
    Bool(bool),
    Number(String),
    Text(String),
    Array(Vec<serde_json::Value>),
    Object(Vec<(String, serde_json::Value)>),
}

impl ValueParts {
    spec fn model(self) -> JsonModel {
        match self {
            ValueParts::Null => JsonModel::Null,
            ValueParts::Bool(b) => JsonModel::Bool(b),
            ValueParts::Number(text) => JsonModel::Number(text@),
            ValueParts::Text(text) => JsonModel::Text(text@),
            ValueParts::Array(items) => JsonModel::Array(
                Seq::new(items@.len(), |i: int| value_model(items@[i])),
            ),
            ValueParts::Object(members) => JsonModel::Object(
                Seq::new(members@.len(), |i: int| (members@[i].0@, value_model(members@[i].1))),
            ),
        }
    }
}

/// `serde_json::from_str`, into a `serde_json::Value`. Whether it succeeds, and the document it
/// then reads, depend on the text alone.
#[verifier::external_body]
fn read_value(text: &str) -> (r: Result<serde_json::Value, serde_json::Error>)
    ensures
        match r {
            Ok(value) => json_of_text(text@) == Some(value_model(value)),
            Err(_) => json_of_text(text@) is None,
        },
{
    serde_json::from_str(text)
}

/// Tells the variants of `serde_json::Value` apart and moves out what each holds. A
/// `serde_json::Map` is backed by a `BTreeMap`, since the feature `preserve_order` is off, so its
/// `into_iter` hands out the members in ascending order of their names, each name once. The text
/// of a `serde_json::Number` is the one that its `Display` writes.
#[verifier::external_body]
fn value_parts(value: serde_json::Value) -> (r: ValueParts)
    ensures
        r.model() == value_model(value),
        r.model() matches JsonModel::Object(members) ==> names_ascend(members),
{
    match value {
        serde_json::Value::Null => ValueParts::Null,
        serde_json::Value::Bool(b) => ValueParts::Bool(b),
        serde_json::Value::Number(n) => ValueParts::Number(n.to_string()),
        serde_json::Value::String(s) => ValueParts::Text(s),
        serde_json::Value::Array(items) => ValueParts::Array(items),
        serde_json::Value::Object(map) => ValueParts::Object(map.into_iter().collect()),
    }
}

/// The document that `value` holds.
fn document(value: serde_json::Value) -> (r: Json)
    ensures
        r@ == value_model(value),
        r@.sorted(),
    decreases value_model(value),
{
    let ghost whole = value_model(value);
    match value_parts(value) {
        ValueParts::Null => Json::Null,
        ValueParts::Bool(b) => Json::Bool(b),
        ValueParts::Number(text) => Json::Number(text),
        ValueParts::Text(text) => Json::Text(text),
        ValueParts::Array(items) => {
            let ghost all = items@;
            let ghost models = Seq::new(all.len(), |i: int| value_model(all[i]));
            let mut out: Vec<Json> = Vec::new();
            for item in it: items
                invariant
                    it.seq() == all,
                    whole == value_model(value),
                    whole == JsonModel::Array(models),
                    models == Seq::new(all.len(), |i: int| value_model(all[i])),
                    out@.len() == it.index(),
                    forall|j: int| 0 <= j < out@.len() ==> (#[trigger] out@[j])@ == models[j],
                    forall|j: int| 0 <= j < out@.len() ==> (#[trigger] models[j]).sorted(),
            {
                let ghost at = it.index() as int;
                proof {
                    assert(models[at] == value_model(item));
                    assert(decreases_to!(whole => whole->Array_0));
                    assert(decreases_to!(models => models[at]));
                }
                out.push(document(item));
                assert(out@[at]@ == models[at]);
            }
            let r = Json::Array(out);
            assert(r@->Array_0 =~= models);
            r
        },
        ValueParts::Object(members) => {
            let ghost all = members@;
            let ghost models = Seq::new(
                all.len(),
                |i: int| (all[i].0@, value_model(all[i].1)),
            );
            let mut out: Vec<(String, Json)> = Vec::new();
            for member in it: members
                invariant
                    it.seq() == all,
                    whole == value_model(value),
                    whole == JsonModel::Object(models),
                    models == Seq::new(all.len(), |i: int| (all[i].0@, value_model(all[i].1))),
                    out@.len() == it.index(),
                    forall|j: int|
                        0 <= j < out@.len() ==> (#[trigger] out@[j]).0@ == models[j].0
                            && out@[j].1@ == models[j].1 && models[j].1.sorted(),
            {
                proof {
                    let at = it.index() as int;
                    assert(models[at] == (member.0@, value_model(member.1)));
                    assert(decreases_to!(whole => whole->Object_0));
                    assert(decreases_to!(models => models[at]));
                    assert(decreases_to!(models[at] => models[at].1));
                }
                out.push((member.0, document(member.1)));
            }
            let r = Json::Object(out);
            assert(r@->Object_0 =~= models);
            r
        },
    }
}

/// Reads a JSON document. `None` where the text is not one.
pub fn parse_json(text: &str) -> (r: Option<Json>)
    ensures
        match r {
            Some(json) => json_of_text(text@) == Some(json@) && json@.sorted(),
            None => json_of_text(text@) is None,
        },
{
    match read_value(text) {
        Ok(value) => Some(document(value)),
        Err(_) => None,
    }
}

/// An object gives, for a name, the value of its first member of that name, wherever that stands
/// and whatever the other members are.
pub proof fn law_first_member_of_a_name_is_got(
    members: Seq<(Seq<char>, JsonModel)>,
    name: Seq<char>,
    at: int,
)
    requires
        0 <= at < members.len(),
        members[at].0 == name,
        forall|i: int| 0 <= i < at ==> (#[trigger] members[i]).0 != name,
    ensures
        JsonModel::Object(members).get(name) == Some(members[at].1),
    decreases at,
{
    if at > 0 {
        assert(members[0].0 != name);
        let rest = members.skip(1);
        assert forall|i: int| 0 <= i < at - 1 implies (#[trigger] rest[i]).0 != name by {
            assert(rest[i] == members[i + 1]);
        }
        law_first_member_of_a_name_is_got(rest, name, at - 1);
    }
}

/// An object without a member of a name gives nothing for it.
pub proof fn law_absent_member_is_not_got(members: Seq<(Seq<char>, JsonModel)>, name: Seq<char>)
    requires
        forall|i: int| 0 <= i < members.len() ==> (#[trigger] members[i]).0 != name,
    ensures
        JsonModel::Object(members).get(name) is None,
    decreases members.len(),
{
    if members.len() > 0 {
        assert(members[0].0 != name);
        let rest = members.skip(1);
        assert forall|i: int| 0 <= i < rest.len() implies (#[trigger] rest[i]).0 != name by {
            assert(rest[i] == members[i + 1]);
        }
        law_absent_member_is_not_got(rest, name);
    }
}

/// A document that is no object gives nothing for any name.
pub proof fn law_only_objects_have_members(document: JsonModel, name: Seq<char>)
    requires
        !(document is Object),
    ensures
        document.get(name) is None,
{
}

/// A document says what it holds: its kind, its text character by character, and its items or
/// members one by one.
pub proof fn law_document_says_what_it_holds(
    flag: bool,
    text: String,
    items: Vec<Json>,
    members: Vec<(String, Json)>,
    i: int,
)
    ensures
        Json::Null@ == JsonModel::Null,
        Json::Bool(flag)@ == JsonModel::Bool(flag),
        Json::Number(text)@ == JsonModel::Number(text@),
        Json::Text(text)@ == JsonModel::Text(text@),
        Json::Array(items)@ matches JsonModel::Array(said) && said.len() == items@.len() && (0 <= i
            < items@.len() ==> said[i] == items@[i]@),
        Json::Object(members)@ matches JsonModel::Object(said) && said.len() == members@.len() && (
        0 <= i < members@.len() ==> said[i] == (members@[i].0@, members@[i].1@)),
{
}

/// Of two different names the one that ends first, or has the smaller character where they first
/// differ, comes before the other, and not the other way round.
pub proof fn law_names_are_ordered(
    common: Seq<char>,
    x: char,
    xs: Seq<char>,
    y: char,
    ys: Seq<char>,
)
    requires
        x < y,
    ensures
        text_before(common.push(x) + xs, common.push(y) + ys),
        !text_before(common.push(y) + ys, common.push(x) + xs),
        text_before(common, common.push(y) + ys),
        !text_before(common.push(y) + ys, common),
        !text_before(common, common),
{
    let n: int = common.len() as int;
    let a = common.push(x) + xs;
    let b = common.push(y) + ys;
    assert(a.take(n) =~= common);
    assert(b.take(n) =~= common);
    assert(common.take(n) =~= common);
    assert(differs_first_at(a, b, n));
    assert(differs_first_at(common, b, n));
    assert forall|k: int| !(#[trigger] differs_first_at(b, a, k)) by {
        if differs_first_at(b, a, k) {
            if k < n {
                assert(b[k] == common[k] && a[k] == common[k]);
            } else if k > n {
                assert(b.take(k)[n] == y && a.take(k)[n] == x);
            }
        }
    }
    assert forall|k: int| !(#[trigger] differs_first_at(b, common, k)) by {
        if differs_first_at(b, common, k) {
            assert(b[k] == common[k]);
        }
    }
    assert forall|k: int| !(#[trigger] differs_first_at(common, common, k)) by {}
}

} // verus!
