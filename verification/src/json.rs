//! JSON documents: the mathematical model and the executable tree.

use vstd::prelude::*;

verus! {

/// A JSON document as a mathematical value. The members of an object form a
/// map, so their order carries no meaning and no name occurs twice.
pub enum JsonValue {
    Null,
    Bool(bool),
    /// A number that is an integer.
    Int(int),
    /// Any other number, by its decimal notation.
    Real(Seq<char>),
    Str(Seq<char>),
    Array(Seq<JsonValue>),
    Object(Map<Seq<char>, JsonValue>),
}

/// A JSON document held in memory.
///
/// An object keeps its members in the order in which they were written. Where
/// a name occurs twice, the later member is the one that counts.
#[derive(Debug, PartialEq, Eq)]
pub enum Json {
    Null,
    Bool(bool),
    /// An integer within the range of `i64`.
    Int(i64),
    /// An integer within the range of `u64`.
    UInt(u64),
    /// A number that is no integer, in decimal notation.
    Real(String),
    Str(String),
    Array(Vec<Json>),
    Object(Vec<(String, Json)>),
}

/// The map that a list of members stands for: each member is entered in turn,
/// so that a later member replaces an earlier one of the same name.
pub open spec fn members_map(members: Seq<(Seq<char>, JsonValue)>) -> Map<Seq<char>, JsonValue>
    decreases members.len(),
{
    if members.len() == 0 {
        Map::empty()
    } else {
        members_map(members.drop_last()).insert(members.last().0, members.last().1)
    }
}

/// The documents that a list of trees stands for, one by one.
pub open spec fn items_view(items: Seq<Json>) -> Seq<JsonValue>
    decreases items, 0nat,
{
    Seq::new(
        items.len(),
        |i: int| if 0 <= i < items.len() { json_view(items[i]) } else { JsonValue::Null },
    )
}

/// The members that a list of named trees stands for, one by one.
pub open spec fn pairs_view(members: Seq<(String, Json)>) -> Seq<(Seq<char>, JsonValue)>
    decreases members, 0nat,
{
    Seq::new(
        members.len(),
        |i: int| if 0 <= i < members.len() {
            (members[i].0@, json_view(members[i].1))
        } else {
            (Seq::empty(), JsonValue::Null)
        },
    )
}

/// The document that a tree stands for.
pub open spec fn json_view(j: Json) -> JsonValue
    decreases j, 1nat,
{
    match j {
        Json::Null => JsonValue::Null,
        Json::Bool(b) => JsonValue::Bool(b),
        Json::Int(i) => JsonValue::Int(i as int),
        Json::UInt(u) => JsonValue::Int(u as int),
        Json::Real(text) => JsonValue::Real(text@),
        Json::Str(text) => JsonValue::Str(text@),
        Json::Array(items) => JsonValue::Array(items_view(items@)),
        Json::Object(members) => JsonValue::Object(members_map(pairs_view(members@))),
    }
}

impl View for Json {
    type V = JsonValue;

    open spec fn view(&self) -> JsonValue {
        json_view(*self)
    }
}

/// The place of the last member called `name`, or -1 where there is none.
pub open spec fn last_index(members: Seq<(Seq<char>, JsonValue)>, name: Seq<char>) -> int
    decreases members.len(),
{
    if members.len() == 0 {
        -1
    } else if members.last().0 == name {
        members.len() - 1
    } else {
        last_index(members.drop_last(), name)
    }
}

impl JsonValue {
    /// The member called `name`, where this is an object that has one.
    pub open spec fn member(self, name: Seq<char>) -> Option<JsonValue> {
        match self {
            JsonValue::Object(m) => if m.dom().contains(name) {
                Some(m[name])
            } else {
                None
            },
            _ => None,
        }
    }
}

/// The items of a list stand for their own documents, place by place.
pub proof fn lemma_items_view(items: Seq<Json>)
    ensures
        items_view(items).len() == items.len(),
        forall|i: int| 0 <= i < items.len() ==> #[trigger] items_view(items)[i] == items[i]@,
{
}

/// The members of a list keep their names and stand for their own documents,
/// place by place.
pub proof fn lemma_pairs_view(members: Seq<(String, Json)>)
    ensures
        pairs_view(members).len() == members.len(),
        forall|i: int|
            0 <= i < members.len() ==> #[trigger] pairs_view(members)[i] == (
                members[i].0@,
                members[i].1@,
            ),
{
}

/// `last_index` finds the last member of the name, and no other.
pub proof fn lemma_last_index(members: Seq<(Seq<char>, JsonValue)>, name: Seq<char>)
    ensures
        -1 <= last_index(members, name) < members.len(),
        last_index(members, name) >= 0 ==> members[last_index(members, name)].0 == name,
        forall|j: int|
            last_index(members, name) < j < members.len() ==> (#[trigger] members[j]).0 != name,
    decreases members.len(),
{
    if members.len() > 0 && members.last().0 != name {
        let front = members.drop_last();
        lemma_last_index(front, name);
        assert forall|j: int| last_index(members, name) < j < members.len() implies (
        #[trigger] members[j]).0 != name by {
            if j < members.len() - 1 {
                assert(front[j] == members[j]);
            }
        }
    }
}

/// A member that no later member of the same name follows is the last of
/// its name.
pub proof fn lemma_last_index_is(members: Seq<(Seq<char>, JsonValue)>, name: Seq<char>, at: int)
    requires
        -1 <= at < members.len(),
        at >= 0 ==> members[at].0 == name,
        forall|j: int| at < j < members.len() ==> (#[trigger] members[j]).0 != name,
    ensures
        last_index(members, name) == at,
{
    lemma_last_index(members, name);
}

/// The map of a list of members holds a name exactly where some member has
/// it, and then with the value of the last such member.
pub proof fn lemma_members_map(members: Seq<(Seq<char>, JsonValue)>, name: Seq<char>)
    ensures
        members_map(members).dom().contains(name) <==> last_index(members, name) >= 0,
        last_index(members, name) >= 0 ==> members_map(members)[name] == members[last_index(
            members,
            name,
        )].1,
    decreases members.len(),
{
    if members.len() > 0 {
        lemma_members_map(members.drop_last(), name);
        lemma_last_index(members.drop_last(), name);
    }
}

/// Entering one more member at the end of a list enters it last in the map.
pub proof fn lemma_members_map_push(
    members: Seq<(Seq<char>, JsonValue)>,
    name: Seq<char>,
    value: JsonValue,
)
    ensures
        members_map(members.push((name, value))) == members_map(members).insert(name, value),
{
    assert(members.push((name, value)).drop_last() =~= members);
}

/// The map of two lists of members, one after the other, is the map of the
/// first with the members of the second entered over it.
pub proof fn lemma_members_map_concat(
    front: Seq<(Seq<char>, JsonValue)>,
    back: Seq<(Seq<char>, JsonValue)>,
)
    ensures
        members_map(front + back) == members_map(front).union_prefer_right(members_map(back)),
    decreases back.len(),
{
    if back.len() == 0 {
        assert(front + back =~= front);
        assert(members_map(front).union_prefer_right(members_map(back)) =~= members_map(front));
    } else {
        lemma_members_map_concat(front, back.drop_last());
        assert((front + back).drop_last() =~= front + back.drop_last());
        assert(members_map(front + back) =~= members_map(front).union_prefer_right(
            members_map(back),
        ));
    }
}

/// Whether two texts are the same, character by character.
pub fn same_text(a: &str, b: &str) -> (same: bool)
    ensures
        same == (a@ == b@),
{
    let left = a.to_owned();
    let right = b.to_owned();
    left == right
}

/// The place in `members` of the last member called `name`.
pub fn find_member(members: &Vec<(String, Json)>, name: &str) -> (at: Option<usize>)
    ensures
        match at {
            Some(i) => i < members.len() && i as int == last_index(pairs_view(members@), name@),
            None => last_index(pairs_view(members@), name@) == -1,
        },
{
    let mut i: usize = members.len();
    proof {
        lemma_pairs_view(members@);
    }
    while i > 0
        invariant
            i <= members.len(),
            pairs_view(members@).len() == members.len(),
            forall|k: int|
                0 <= k < members.len() ==> #[trigger] pairs_view(members@)[k] == (
                    members@[k].0@,
                    members@[k].1@,
                ),
            forall|k: int| i <= k < members.len() ==> (#[trigger] pairs_view(members@)[k]).0 != name@,
        decreases i,
    {
        i -= 1;
        if same_text(members[i].0.as_str(), name) {
            proof {
                lemma_last_index_is(pairs_view(members@), name@, i as int);
            }
            return Some(i);
        }
    }
    proof {
        lemma_last_index_is(pairs_view(members@), name@, -1);
    }
    None
}

/// The value of the last member called `name` in a list of members.
pub fn lookup<'a>(members: &'a Vec<(String, Json)>, name: &str) -> (found: Option<&'a Json>)
    ensures
        members_map(pairs_view(members@)).dom().contains(name@) <==> found is Some,
        found matches Some(j) ==> members_map(pairs_view(members@))[name@] == j@,
{
    proof {
        lemma_pairs_view(members@);
        lemma_members_map(pairs_view(members@), name@);
    }
    match find_member(members, name) {
        Some(i) => Some(&members[i].1),
        None => None,
    }
}

impl Json {
    /// The member called `name` of an object; `None` for an object without
    /// it and for a document that is no object.
    pub fn get(&self, name: &str) -> (found: Option<&Json>)
        ensures
            match found {
                Some(j) => self@.member(name@) == Some(j@),
                None => self@.member(name@) is None,
            },
    {
        match self {
            Json::Object(members) => lookup(members, name),
            _ => None,
        }
    }

    /// Whether the document is `null`.
    pub fn is_null(&self) -> (null: bool)
        ensures
            null == (self@ is Null),
    {
        match self {
            Json::Null => true,
            _ => false,
        }
    }
}

impl Clone for Json {
    /// A copy of the whole tree, which stands for the same document.
    fn clone(&self) -> (copy: Json)
        ensures
            copy@ == self@,
        decreases self,
    {
        match self {
            Json::Null => Json::Null,
            Json::Bool(b) => Json::Bool(*b),
            Json::Int(i) => Json::Int(*i),
            Json::UInt(u) => Json::UInt(*u),
            Json::Real(text) => Json::Real(text.clone()),
            Json::Str(text) => Json::Str(text.clone()),
            Json::Array(items) => {
                let mut copies: Vec<Json> = Vec::new();
                let mut i: usize = 0;
                while i < items.len()
                    invariant
                        i <= items.len(),
                        copies.len() == i,
                        self is Array && self->Array_0 == *items,
                        forall|k: int| 0 <= k < i ==> copies@[k]@ == items@[k]@,
                    decreases items.len() - i,
                {
                    proof {
                        vstd::std_specs::vec::axiom_vec_index_decreases(*items, i as int);
                    }
                    copies.push(items[i].clone());
                    i += 1;
                }
                proof {
                    lemma_items_view(items@);
                    lemma_items_view(copies@);
                    assert(items_view(copies@) =~= items_view(items@));
                }
                Json::Array(copies)
            },
            Json::Object(members) => {
                let mut copies: Vec<(String, Json)> = Vec::new();
                let mut i: usize = 0;
                while i < members.len()
                    invariant
                        i <= members.len(),
                        copies.len() == i,
                        self is Object && self->Object_0 == *members,
                        forall|k: int|
                            0 <= k < i ==> copies@[k].0@ == members@[k].0@ && copies@[k].1@
                                == members@[k].1@,
                    decreases members.len() - i,
                {
                    proof {
                        vstd::std_specs::vec::axiom_vec_index_decreases(*members, i as int);
                    }
                    copies.push((members[i].0.clone(), members[i].1.clone()));
                    i += 1;
                }
                proof {
                    lemma_pairs_view(members@);
                    lemma_pairs_view(copies@);
                    assert(pairs_view(copies@) =~= pairs_view(members@));
                }
                Json::Object(copies)
            },
        }
    }
}

} // verus!
