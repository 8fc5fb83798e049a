//! JSON documents in which members of objects are looked up and replaced.

use vstd::prelude::*;

verus! {

/// A JSON value, `serde_json::Value`. Nothing is known of what it holds.
#[verifier::external_type_specification]
#[verifier::external_body]
pub struct ExValue(serde_json::Value);

/// A copy of a JSON value, `<serde_json::Value as Clone>::clone`, is that value.
pub assume_specification[ <serde_json::Value as Clone>::clone ](value: &serde_json::Value) -> (copy:
    serde_json::Value)
    ensures
        copy == *value,
;

/// A JSON document that is open as far as its objects go.
#[derive(Debug)]
pub enum Json {
    /// An object: its members, which `distinct_names` says have names of their own.
    Object(Vec<(String, Json)>),
    /// A whole number.
    Number(i64),
    /// Any value that is not an object.
    Other(serde_json::Value),
}

/// `Json` with its names and members taken by their views.
pub enum JsonView {
    Object(Seq<(Seq<char>, JsonView)>),
    Number(int),
    Other(serde_json::Value),
}

/// The members of an object.
pub type Members = Seq<(Seq<char>, JsonView)>;

impl Json {
    /// The document as contracts see it.
    pub open spec fn tree(self) -> JsonView
        decreases self,
    {
        match self {
            Json::Object(members) => JsonView::Object(
                Seq::new(
                    members@.len(),
                    |i: int|
                        if 0 <= i < members@.len() {
                            (members@[i].0@, members@[i].1.tree())
                        } else {
                            arbitrary()
                        },
                ),
            ),
            Json::Number(n) => JsonView::Number(n as int),
            Json::Other(value) => JsonView::Other(value),
        }
    }
}

/// The place of the first member of that name, or the number of members where
/// there is none.
pub open spec fn position(members: Members, name: Seq<char>) -> nat
    decreases members.len(),
{
    if members.len() == 0 || members[0].0 == name {
        0
    } else {
        1 + position(members.drop_first(), name)
    }
}

/// The member of that name, where `document` is an object that has one.
pub open spec fn member(document: JsonView, name: Seq<char>) -> Option<JsonView> {
    match document {
        JsonView::Object(members) => if position(members, name) < members.len() {
            Some(members[position(members, name) as int].1)
        } else {
            None
        },
        _ => None,
    }
}

/// The object with the member of that name set to `value`.
pub open spec fn with_member(document: JsonView, name: Seq<char>, value: JsonView) -> JsonView {
    match document {
        JsonView::Object(members) => if position(members, name) < members.len() {
            JsonView::Object(members.update(position(members, name) as int, (name, value)))
        } else {
            JsonView::Object(members.push((name, value)))
        },
        _ => document,
    }
}

/// Whether no two members of an object have the same name, at any depth.
pub open spec fn distinct_names(document: JsonView) -> bool
    decreases document,
{
    match document {
        JsonView::Object(members) => {
            &&& forall|i: int, j: int|
                0 <= i < j < members.len() ==> (#[trigger] members[i]).0 != (
                #[trigger] members[j]).0
            &&& forall|i: int|
                0 <= i < members.len() ==> distinct_names((#[trigger] members[i]).1)
        },
        _ => true,
    }
}

/// Whether `document` is an object with a member "version" that is an object.
pub open spec fn has_version(document: JsonView) -> bool {
    member(document, "version"@) matches Some(JsonView::Object(_))
}

/// The document with its member "protocol" of "version" set to `protocol`.
pub open spec fn with_protocol(document: JsonView, protocol: int) -> JsonView {
    match member(document, "version"@) {
        Some(version) => with_member(
            document,
            "version"@,
            with_member(version, "protocol"@, JsonView::Number(protocol)),
        ),
        None => document,
    }
}

/// The value that `serde_json::Value::from_iter` makes of named members.
pub uninterp spec fn object_value(members: Seq<(Seq<char>, serde_json::Value)>) -> serde_json::Value;

/// The value that `serde_json::Value::from` makes of a number.
pub uninterp spec fn number_value(n: int) -> serde_json::Value;

/// The text that `serde_json::to_string` gives for a value.
pub uninterp spec fn value_text(value: serde_json::Value) -> Seq<char>;

/// The names and values as contracts see them.
pub open spec fn entries(members: Seq<(String, serde_json::Value)>) -> Seq<
    (Seq<char>, serde_json::Value),
> {
    Seq::new(members.len(), |i: int| (members[i].0@, members[i].1))
}

/// `<serde_json::Value as FromIterator<(String, serde_json::Value)>>::from_iter`
/// makes an object of names and values. Which object that is has no more said
/// of it than that the names and values, in their order, decide it.
#[verifier::external_body]
fn make_object(members: Vec<(String, serde_json::Value)>) -> (value: serde_json::Value)
    ensures
        value == object_value(entries(members@)),
{
    serde_json::Value::from_iter(members)
}

/// `<serde_json::Value as From<i64>>::from` makes a number, and `n` decides
/// which.
#[verifier::external_body]
fn make_number(n: i64) -> (value: serde_json::Value)
    ensures
        value == number_value(n as int),
{
    serde_json::Value::from(n)
}

/// `serde_json::to_string` writes a value, and the value decides how. It fails
/// only for a map with names that are not strings, which no value holds.
#[verifier::external_body]
fn write_value(value: &serde_json::Value) -> (text: String)
    ensures
        text@ == value_text(*value),
{
    serde_json::to_string(value).expect("valid json")
}

/// The document as a value of `serde_json`.
pub open spec fn value_of(document: JsonView) -> serde_json::Value
    decreases document,
{
    match document {
        JsonView::Object(members) => object_value(values_of(members)),
        JsonView::Number(n) => number_value(n),
        JsonView::Other(value) => value,
    }
}

/// The members as values of `serde_json`, under their names.
pub open spec fn values_of(members: Members) -> Seq<(Seq<char>, serde_json::Value)>
    decreases members,
{
    Seq::new(
        members.len(),
        |i: int|
            if 0 <= i < members.len() {
                (members[i].0, value_of(members[i].1))
            } else {
                arbitrary()
            },
    )
}

/// The document as text.
pub open spec fn json_text(document: JsonView) -> Seq<char> {
    value_text(value_of(document))
}

/// The members as contracts see them.
pub open spec fn members_view(members: Seq<(String, Json)>) -> Members {
    Seq::new(members.len(), |i: int| (members[i].0@, members[i].1.tree()))
}

proof fn lemma_object_tree(members: Vec<(String, Json)>)
    ensures
        Json::Object(members).tree() == JsonView::Object(members_view(members@)),
{
    if let JsonView::Object(inner) = Json::Object(members).tree() {
        assert(inner =~= members_view(members@));
    }
}

fn find(members: &Vec<(String, Json)>, name: &String) -> (place: usize)
    ensures
        place == position(members_view(members@), name@),
        place <= members@.len(),
{
    let mut i: usize = 0;
    let ghost all = members_view(members@);
    assert(all.skip(0) =~= all);
    while i < members.len()
        invariant
            i <= members@.len(),
            all == members_view(members@),
            position(all, name@) == i + position(all.skip(i as int), name@),
        decreases members@.len() - i,
    {
        assert(all.skip(i as int)[0] == all[i as int]);
        if members[i].0 == *name {
            return i;
        }
        assert(all.skip(i as int).drop_first() =~= all.skip(i + 1));
        i = i + 1;
    }
    i
}

impl Json {
    /// A copy of the document.
    pub fn copy(&self) -> (copy: Json)
        ensures
            copy.tree() == self.tree(),
        decreases self,
    {
        match self {
            Json::Object(members) => {
                let mut copied: Vec<(String, Json)> = Vec::new();
                let mut i: usize = 0;
                while i < members.len()
                    invariant
                        i <= members@.len(),
                        *self == Json::Object(*members),
                        members_view(copied@) == members_view(members@).take(i as int),
                    decreases members@.len() - i,
                {
                    let ghost before = members_view(copied@);
                    let name = members[i].0.clone();
                    assert(decreases_to!(*self => self->Object_0));
                    assert(decreases_to!(*members => members@));
                    assert(decreases_to!(members@ => members@[i as int]));
                    assert(decreases_to!(members@[i as int] => members@[i as int].1));
                    let value = members[i].1.copy();
                    copied.push((name, value));
                    proof {
                        let last = members_view(members@)[i as int];
                        assert(members_view(copied@) =~= before.push(last));
                        assert(members_view(members@).take(i + 1) =~= before.push(last));
                    }
                    i = i + 1;
                }
                proof {
                    assert(members_view(members@).take(i as int) =~= members_view(members@));
                    lemma_object_tree(copied);
                    lemma_object_tree(*members);
                }
                Json::Object(copied)
            },
            Json::Number(n) => Json::Number(*n),
            Json::Other(value) => Json::Other(value.clone()),
        }
    }

    /// Whether the document is an object with an object as member "version".
    pub fn has_version(&self) -> (yes: bool)
        ensures
            yes == has_version(self.tree()),
    {
        match self {
            Json::Object(members) => {
                proof {
                    lemma_object_tree(*members);
                }
                let i = find(members, &crate::text::owned("version"));
                if i < members.len() {
                    match &members[i].1 {
                        Json::Object(inner) => {
                            proof {
                                lemma_object_tree(*inner);
                            }
                            true
                        },
                        _ => false,
                    }
                } else {
                    false
                }
            },
            _ => false,
        }
    }

    /// The document with its member of that name set to `value`; a document
    /// that is not an object stays as it is.
    pub fn set_member(self, name: String, value: Json) -> (changed: Json)
        ensures
            changed.tree() == with_member(self.tree(), name@, value.tree()),
            distinct_names(self.tree()) && distinct_names(value.tree()) ==> distinct_names(
                changed.tree(),
            ),
    {
        proof {
            if distinct_names(self.tree()) && distinct_names(value.tree()) {
                theorem_distinct_names_kept(self.tree(), name@, value.tree());
            }
        }
        match self {
            Json::Object(members) => {
                let ghost old_members = members;
                let mut members = members;
                let i = find(&members, &name);
                let ghost entry = (name@, value.tree());
                if i < members.len() {
                    members.set(i, (name, value));
                    assert(members_view(members@) =~= members_view(old_members@).update(
                        i as int,
                        entry,
                    ));
                } else {
                    members.push((name, value));
                    assert(members_view(members@) =~= members_view(old_members@).push(entry));
                }
                proof {
                    lemma_object_tree(old_members);
                    lemma_object_tree(members);
                }
                Json::Object(members)
            },
            other => other,
        }
    }

    /// The document with the member "protocol" of its "version" set to
    /// `protocol`.
    pub fn with_protocol(&self, protocol: i32) -> (changed: Json)
        requires
            has_version(self.tree()),
        ensures
            changed.tree() == with_protocol(self.tree(), protocol as int),
            distinct_names(self.tree()) ==> distinct_names(changed.tree()),
    {
        proof {
            if distinct_names(self.tree()) {
                theorem_distinct_names_kept_with_protocol(self.tree(), protocol as int);
            }
        }
        match self {
            Json::Object(members) => {
                proof {
                    lemma_object_tree(*members);
                }
                let i = find(members, &crate::text::owned("version"));
                let version = members[i].1.copy().set_member(
                    crate::text::owned("protocol"),
                    Json::Number(protocol as i64),
                );
                self.copy().set_member(crate::text::owned("version"), version)
            },
            _ => self.copy(),
        }
    }

    /// The document as a value of `serde_json`.
    fn value(&self) -> (value: serde_json::Value)
        ensures
            value == value_of(self.tree()),
        decreases self,
    {
        match self {
            Json::Object(members) => {
                let mut made: Vec<(String, serde_json::Value)> = Vec::new();
                let mut i: usize = 0;
                while i < members.len()
                    invariant
                        i <= members@.len(),
                        *self == Json::Object(*members),
                        made@.len() == i,
                        forall|j: int|
                            0 <= j < i ==> #[trigger] made@[j].0@ == members@[j].0@ && made@[j].1
                                == value_of(members@[j].1.tree()),
                    decreases members@.len() - i,
                {
                    let name = members[i].0.clone();
                    assert(decreases_to!(*self => self->Object_0));
                    assert(decreases_to!(*members => members@));
                    assert(decreases_to!(members@ => members@[i as int]));
                    assert(decreases_to!(members@[i as int] => members@[i as int].1));
                    let value = members[i].1.value();
                    made.push((name, value));
                    i = i + 1;
                }
                proof {
                    lemma_object_tree(*members);
                    assert(entries(made@) =~= values_of(members_view(members@)));
                }
                make_object(made)
            },
            Json::Number(n) => make_number(*n),
            Json::Other(value) => value.clone(),
        }
    }

    /// The document as text.
    pub fn text(&self) -> (text: String)
        ensures
            text@ == json_text(self.tree()),
    {
        write_value(&self.value())
    }
}

proof fn lemma_position(members: Members, name: Seq<char>)
    ensures
        position(members, name) <= members.len(),
        position(members, name) < members.len() ==> members[position(members, name) as int].0
            == name,
        forall|i: int| 0 <= i < position(members, name) ==> members[i].0 != name,
    decreases members.len(),
{
    if members.len() > 0 && members[0].0 != name {
        let rest = members.drop_first();
        lemma_position(rest, name);
        assert forall|i: int| 0 <= i < position(members, name) implies members[i].0 != name by {
            if i > 0 {
                assert(members[i] == rest[i - 1]);
            }
        }
    }
}

/// Only the first place that holds the name is its position.
proof fn lemma_position_is(members: Members, name: Seq<char>, at: int)
    requires
        0 <= at <= members.len(),
        at < members.len() ==> members[at].0 == name,
        forall|i: int| 0 <= i < at ==> members[i].0 != name,
    ensures
        position(members, name) == at,
{
    lemma_position(members, name);
    let found = position(members, name) as int;
    if found < at {
        assert(members[found].0 == name);
    }
    if at < found {
        assert(members[at].0 != name);
    }
}

/// A member that was set is found again.
pub proof fn theorem_member_set(document: JsonView, name: Seq<char>, value: JsonView)
    requires
        document is Object,
    ensures
        member(with_member(document, name, value), name) == Some(value),
{
    let members = document->Object_0;
    lemma_position(members, name);
    let at = position(members, name) as int;
    let changed = with_member(document, name, value)->Object_0;
    assert forall|i: int| 0 <= i < at implies changed[i].0 != name by {
        assert(changed[i] == members[i]);
    }
    lemma_position_is(changed, name, at);
}

/// Where names are distinct, every member is found under its name: there is no
/// second one that a writer or a reader could take in its place.
pub proof fn theorem_members_are_found(members: Members, i: int)
    requires
        distinct_names(JsonView::Object(members)),
        0 <= i < members.len(),
    ensures
        member(JsonView::Object(members), members[i].0) == Some(members[i].1),
{
    lemma_position_is(members, members[i].0, i);
}

/// Where names are distinct, no name is written twice.
pub proof fn theorem_names_written_once(members: Members, i: int, j: int)
    requires
        distinct_names(JsonView::Object(members)),
        0 <= i < j < members.len(),
    ensures
        values_of(members).len() == members.len(),
        values_of(members)[i].0 != values_of(members)[j].0,
{
    assert(JsonView::Object(members)->Object_0 == members);
    assert(members[i].0 != members[j].0);
}

/// Names stay distinct when a member is set.
pub proof fn theorem_distinct_names_kept(document: JsonView, name: Seq<char>, value: JsonView)
    requires
        distinct_names(document),
        distinct_names(value),
    ensures
        distinct_names(with_member(document, name, value)),
{
    if let JsonView::Object(members) = document {
        lemma_position(members, name);
        let at = position(members, name) as int;
        let changed = with_member(document, name, value)->Object_0;
        assert forall|i: int, j: int| 0 <= i < j < changed.len() implies (
        #[trigger] changed[i]).0 != (#[trigger] changed[j]).0 by {
            if i != at && j != at {
                assert(changed[i] == members[i] && changed[j] == members[j]);
            } else if i == at {
                assert(members[i].0 != members[j].0);
            } else {
                assert(members[i].0 != name);
            }
        }
        assert forall|i: int| 0 <= i < changed.len() implies distinct_names(
            (#[trigger] changed[i]).1,
        ) by {
            if i != at {
                assert(changed[i] == members[i]);
            }
        }
    }
}

/// Names stay distinct when the protocol is faked.
pub proof fn theorem_distinct_names_kept_with_protocol(document: JsonView, protocol: int)
    requires
        distinct_names(document),
    ensures
        distinct_names(with_protocol(document, protocol)),
{
    if let Some(version) = member(document, "version"@) {
        let members = document->Object_0;
        let at = position(members, "version"@) as int;
        assert(version == members[at].1);
        theorem_distinct_names_kept(version, "protocol"@, JsonView::Number(protocol));
        let changed = with_member(version, "protocol"@, JsonView::Number(protocol));
        theorem_distinct_names_kept(document, "version"@, changed);
    }
}

/// Every other member stays as it was.
pub proof fn theorem_other_members_kept(
    document: JsonView,
    name: Seq<char>,
    value: JsonView,
    other: Seq<char>,
)
    requires
        document is Object,
        other != name,
    ensures
        member(with_member(document, name, value), other) == member(document, other),
{
    let members = document->Object_0;
    lemma_position(members, name);
    lemma_position(members, other);
    let changed = with_member(document, name, value)->Object_0;
    let at = position(members, other) as int;
    if at < members.len() {
        assert forall|i: int| 0 <= i < at implies changed[i].0 != other by {
            if i != position(members, name) {
                assert(changed[i] == members[i]);
            }
        }
        lemma_position_is(changed, other, at);
    } else {
        assert forall|i: int| 0 <= i < changed.len() implies changed[i].0 != other by {
            if i != position(members, name) {
                assert(changed[i] == members[i]);
            }
        }
        lemma_position_is(changed, other, changed.len() as int);
    }
}

/// A status that fakes the protocol announces the client's own protocol and is
/// otherwise as configured: every member of the document but "version" is kept,
/// and so is every member of "version" but "protocol".
pub proof fn theorem_protocol_faked(
    document: JsonView,
    protocol: int,
    other: Seq<char>,
    inner: Seq<char>,
)
    requires
        has_version(document),
        other != "version"@,
        inner != "protocol"@,
    ensures
        member(with_protocol(document, protocol), "version"@) matches Some(version) && {
            &&& member(version, "protocol"@) == Some(JsonView::Number(protocol))
            &&& member(version, inner) == member(member(document, "version"@)->0, inner)
        },
        member(with_protocol(document, protocol), other) == member(document, other),
{
    let old_version = member(document, "version"@)->0;
    let number = JsonView::Number(protocol);
    let version = with_member(old_version, "protocol"@, number);
    theorem_member_set(old_version, "protocol"@, number);
    theorem_other_members_kept(old_version, "protocol"@, number, inner);
    theorem_member_set(document, "version"@, version);
    theorem_other_members_kept(document, "version"@, version, other);
}

/// A document is written as the value that it is: a number as that number, an
/// object as an object of all its members under their names, each written in
/// the same way, and what is not open as it is.
pub proof fn theorem_documents_written(
    members: Members,
    n: int,
    value: serde_json::Value,
    document: JsonView,
)
    ensures
        value_of(JsonView::Number(n)) == number_value(n),
        value_of(JsonView::Other(value)) == value,
        exists|written: Seq<(Seq<char>, serde_json::Value)>|
            {
                &&& value_of(JsonView::Object(members)) == #[trigger] object_value(written)
                &&& written.len() == members.len()
                &&& forall|i: int|
                    0 <= i < members.len() ==> (#[trigger] written[i]).0 == members[i].0
                        && written[i].1 == value_of(members[i].1)
            },
        json_text(document) == value_text(value_of(document)),
{
    let written = values_of(members);
    assert(value_of(JsonView::Object(members)) == object_value(written));
}

/// A member that no name leads to is not found, and what is not an object has
/// none.
pub proof fn theorem_absent_members(document: JsonView, name: Seq<char>)
    ensures
        document !is Object ==> member(document, name) is None,
        document matches JsonView::Object(members) ==> (member(document, name) is None <==> forall|
            i: int,
        |
            0 <= i < members.len() ==> (#[trigger] members[i]).0 != name),
{
    if let JsonView::Object(members) = document {
        lemma_position(members, name);
        if member(document, name) is Some {
            assert(members[position(members, name) as int].0 == name);
        }
    }
}

/// What contracts see of a document is the document.
pub proof fn theorem_documents_seen(document: Json)
    ensures
        document matches Json::Number(n) ==> document.tree() == JsonView::Number(n as int),
        document matches Json::Other(value) ==> document.tree() == JsonView::Other(value),
        document matches Json::Object(members) ==> (document.tree() matches JsonView::Object(inner)
            && inner.len() == members@.len() && forall|i: int|
            0 <= i < inner.len() ==> (#[trigger] inner[i]).0 == members@[i].0@ && inner[i].1
                == members@[i].1.tree()),
{
    if let Json::Object(members) = document {
        lemma_object_tree(members);
    }
}

} // verus!
