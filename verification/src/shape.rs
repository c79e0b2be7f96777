//! Typed results: a record of declared fields that keeps every other member
//! in an extension map, and sets of alternative records of which the first
//! that fits a payload is taken.

use crate::error::{ShapeError, ShapeErrorView};
use crate::json::{
    Json, JsonValue, items_view, lemma_items_view, lemma_members_map_concat, lemma_pairs_view,
    lookup,
    members_map, pairs_view, same_text,
};
use vstd::prelude::*;

verus! {

/// The kind of value that a declared field takes.
#[derive(Debug, PartialEq, Eq)]
pub enum FieldKind {
    /// Any value, `null` too.
    Any,
    Bool,
    /// A number that is an integer.
    Integer,
    /// Any number.
    Number,
    Text,
    /// Any array.
    Array,
    /// Any object.
    Object,
    /// An array whose items are all of one kind.
    ArrayOf(Box<FieldKind>),
    /// An object that has a shape.
    Shaped(RecordShape),
}

/// One declared field of a record.
#[derive(Debug, PartialEq, Eq)]
pub struct FieldSpec {
    pub name: String,
    pub kind: FieldKind,
    /// A required field must have a member that fits. A field that is not
    /// required may be left out or be `null`.
    pub required: bool,
}

/// The shape of a record: its declared fields, in the order of declaration.
#[derive(Debug, PartialEq, Eq)]
pub struct RecordShape {
    pub fields: Vec<FieldSpec>,
}

/// A `FieldKind` as a mathematical value.
pub enum KindView {
    Any,
    Bool,
    Integer,
    Number,
    Text,
    Array,
    Object,
    ArrayOf(Box<KindView>),
    Shaped(Seq<FieldSpecView>),
}

/// A `FieldSpec` as a mathematical value.
pub struct FieldSpecView {
    pub name: Seq<char>,
    pub kind: KindView,
    pub required: bool,
}

/// The declared fields that a list of field declarations stands for.
pub open spec fn fields_view(fields: Seq<FieldSpec>) -> Seq<FieldSpecView>
    decreases fields, 0nat,
{
    Seq::new(
        fields.len(),
        |i: int| if 0 <= i < fields.len() {
            FieldSpecView {
                name: fields[i].name@,
                kind: kind_view(fields[i].kind),
                required: fields[i].required,
            }
        } else {
            FieldSpecView { name: Seq::empty(), kind: KindView::Any, required: false }
        },
    )
}

/// The kind that a `FieldKind` stands for.
pub open spec fn kind_view(kind: FieldKind) -> KindView
    decreases kind, 1nat,
{
    match kind {
        FieldKind::Any => KindView::Any,
        FieldKind::Bool => KindView::Bool,
        FieldKind::Integer => KindView::Integer,
        FieldKind::Number => KindView::Number,
        FieldKind::Text => KindView::Text,
        FieldKind::Array => KindView::Array,
        FieldKind::Object => KindView::Object,
        FieldKind::ArrayOf(inner) => KindView::ArrayOf(Box::new(kind_view(*inner))),
        FieldKind::Shaped(shape) => KindView::Shaped(fields_view(shape.fields@)),
    }
}

impl View for FieldKind {
    type V = KindView;

    open spec fn view(&self) -> KindView {
        kind_view(*self)
    }
}

impl View for FieldSpec {
    type V = FieldSpecView;

    open spec fn view(&self) -> FieldSpecView {
        FieldSpecView { name: self.name@, kind: self.kind@, required: self.required }
    }
}

impl View for RecordShape {
    type V = Seq<FieldSpecView>;

    open spec fn view(&self) -> Seq<FieldSpecView> {
        fields_view(self.fields@)
    }
}

/// The declarations of a list stand for their own fields, place by place.
pub proof fn lemma_fields_view(fields: Seq<FieldSpec>)
    ensures
        fields_view(fields).len() == fields.len(),
        forall|i: int| 0 <= i < fields.len() ==> #[trigger] fields_view(fields)[i] == fields[i]@,
{
}

/// A decoded record: the members of the declared fields, and every other
/// member of the payload in the extension map.
#[derive(Debug, PartialEq, Eq)]
pub struct Record {
    pub fields: Vec<(String, Json)>,
    pub extra: Vec<(String, Json)>,
}

/// A `Record` as a mathematical value.
pub struct RecordView {
    pub fields: Map<Seq<char>, JsonValue>,
    pub extra: Map<Seq<char>, JsonValue>,
}

impl View for Record {
    type V = RecordView;

    open spec fn view(&self) -> RecordView {
        RecordView {
            fields: members_map(pairs_view(self.fields@)),
            extra: members_map(pairs_view(self.extra@)),
        }
    }
}

/// Whether every value of a list is of a kind.
pub open spec fn all_fit(kind: KindView, values: Seq<JsonValue>) -> bool
    decreases kind, 0nat, 1nat,
{
    forall|i: int| 0 <= i < values.len() ==> fits(kind, #[trigger] values[i])
}

/// Whether a value is of a kind.
pub open spec fn fits(kind: KindView, value: JsonValue) -> bool
    decreases kind, 0nat, 0nat,
{
    match kind {
        KindView::Any => true,
        KindView::Bool => value is Bool,
        KindView::Integer => value is Int,
        KindView::Number => value is Int || value is Real,
        KindView::Text => value is Str,
        KindView::Array => value is Array,
        KindView::Object => value is Object,
        KindView::ArrayOf(inner) => value is Array && all_fit(*inner, value->Array_0),
        KindView::Shaped(shape) => value is Object && first_refusal(shape, value->Object_0, 0)
            == shape.len(),
    }
}

/// Whether the members of a payload satisfy a declared field: its member is
/// of the declared kind; or the field is not required and its member is
/// `null` or not there.
pub open spec fn accepts(field: FieldSpecView, members: Map<Seq<char>, JsonValue>) -> bool
    decreases field, 0nat, 0nat,
{
    if members.dom().contains(field.name) {
        fits(field.kind, members[field.name]) || (!field.required && members[field.name] is Null)
    } else {
        !field.required
    }
}

/// The place of the first declared field from `from` on that the members do
/// not satisfy, or the number of fields where they satisfy all of them.
pub open spec fn first_refusal(
    shape: Seq<FieldSpecView>,
    members: Map<Seq<char>, JsonValue>,
    from: int,
) -> int
    decreases shape, 1nat, shape.len() - from,
{
    if from < 0 || from >= shape.len() {
        shape.len() as int
    } else if !accepts(shape[from], members) {
        from
    } else {
        first_refusal(shape, members, from + 1)
    }
}

/// The names that a shape declares.
pub open spec fn declared(shape: Seq<FieldSpecView>) -> Set<Seq<char>> {
    Set::new(|name: Seq<char>| exists|i: int| 0 <= i < shape.len() && (#[trigger] shape[i]).name == name)
}

/// Whether a payload has a shape: it is an object whose members satisfy every
/// declared field. Members that the shape does not declare never stand in
/// the way.
pub open spec fn has_shape(shape: Seq<FieldSpecView>, doc: JsonValue) -> bool {
    doc matches JsonValue::Object(members) && first_refusal(shape, members, 0) == shape.len()
}

/// What decoding a payload as a record of a shape gives. A payload of the
/// shape gives the record: the members with declared names as the fields,
/// all others in the extension map. Another payload gives the error of the
/// first declared field that it does not satisfy.
pub open spec fn decoded(shape: Seq<FieldSpecView>, doc: JsonValue) -> Result<
    RecordView,
    ShapeErrorView,
> {
    match doc {
        JsonValue::Object(members) => {
            let at = first_refusal(shape, members, 0);
            if at < shape.len() {
                if members.dom().contains(shape[at].name) {
                    Err(ShapeErrorView::WrongKind { name: shape[at].name })
                } else {
                    Err(ShapeErrorView::MissingField { name: shape[at].name })
                }
            } else {
                Ok(
                    RecordView {
                        fields: members.restrict(declared(shape)),
                        extra: members.remove_keys(declared(shape)),
                    },
                )
            }
        },
        _ => Err(ShapeErrorView::NotAnObject),
    }
}

/// The payload that a record is written back as: an object with the fields
/// and the members of the extension map.
pub open spec fn encoded(record: RecordView) -> JsonValue {
    JsonValue::Object(record.fields.union_prefer_right(record.extra))
}

/// A set of alternative shapes, in the order of declaration.
#[derive(Debug, PartialEq, Eq)]
pub struct VariantSet {
    pub variants: Vec<RecordShape>,
}

impl View for VariantSet {
    type V = Seq<Seq<FieldSpecView>>;

    open spec fn view(&self) -> Seq<Seq<FieldSpecView>> {
        Seq::new(self.variants@.len(), |i: int| self.variants@[i]@)
    }
}

/// A payload decoded as one variant of a set: the place of the variant in
/// the set, counted from 0, and the record.
#[derive(Debug, PartialEq, Eq)]
pub struct Variant {
    pub index: usize,
    pub record: Record,
}

/// A `Variant` as a mathematical value.
pub struct VariantView {
    pub index: int,
    pub record: RecordView,
}

impl View for Variant {
    type V = VariantView;

    open spec fn view(&self) -> VariantView {
        VariantView { index: self.index as int, record: self.record@ }
    }
}

/// The place of the first variant from `from` on whose shape the payload
/// has, or the number of variants where it has none of their shapes.
pub open spec fn first_fit(variants: Seq<Seq<FieldSpecView>>, doc: JsonValue, from: int) -> int
    decreases variants.len() - from,
{
    if from < 0 || from >= variants.len() {
        variants.len() as int
    } else if has_shape(variants[from], doc) {
        from
    } else {
        first_fit(variants, doc, from + 1)
    }
}

/// What decoding a payload as one of a set of variants gives: the record of
/// the first variant, in the order of declaration, whose shape the payload
/// has; and an error of its own where it has none of the shapes.
pub open spec fn resolved(variants: Seq<Seq<FieldSpecView>>, doc: JsonValue) -> Result<
    VariantView,
    ShapeErrorView,
> {
    let at = first_fit(variants, doc, 0);
    if at < variants.len() {
        Ok(VariantView { index: at, record: decoded(variants[at], doc)->Ok_0 })
    } else {
        Err(ShapeErrorView::NoVariant)
    }
}

/// A way to decode the result of a call into a value of a type of its own.
/// The client is written against this interface alone and knows nothing of
/// the shapes of particular methods.
pub trait Decoder {
    /// The type of the decoded value.
    type Target: View;

    /// What decoding a payload gives: the value, or why the payload does not
    /// have the expected shape.
    spec fn decoding(&self, doc: JsonValue) -> Result<<Self::Target as View>::V, ShapeErrorView>;

    /// Decodes a payload.
    fn decode(&self, doc: &Json) -> (r: Result<Self::Target, ShapeError>)
        ensures
            match r {
                Ok(target) => self.decoding(doc@) == Ok::<<Self::Target as View>::V, ShapeErrorView>(
                    target@,
                ),
                Err(e) => self.decoding(doc@) == Err::<<Self::Target as View>::V, ShapeErrorView>(
                    e@,
                ),
            },
    ;
}

/// The decoder that takes every payload as it is.
#[derive(Debug, PartialEq, Eq, Clone, Copy)]
pub struct Untyped;

impl Decoder for Untyped {
    type Target = Json;

    open spec fn decoding(&self, doc: JsonValue) -> Result<JsonValue, ShapeErrorView> {
        Ok(doc)
    }

    fn decode(&self, doc: &Json) -> (r: Result<Json, ShapeError>) {
        Ok(doc.clone())
    }
}

/// `first_refusal` finds the first field that is not satisfied, and no other.
pub proof fn lemma_first_refusal(
    shape: Seq<FieldSpecView>,
    members: Map<Seq<char>, JsonValue>,
    from: int,
)
    requires
        0 <= from <= shape.len(),
    ensures
        from <= first_refusal(shape, members, from) <= shape.len(),
        first_refusal(shape, members, from) < shape.len() ==> !accepts(
            shape[first_refusal(shape, members, from)],
            members,
        ),
        forall|k: int|
            from <= k < first_refusal(shape, members, from) ==> accepts(#[trigger] shape[k], members),
    decreases shape.len() - from,
{
    if from < shape.len() && accepts(shape[from], members) {
        lemma_first_refusal(shape, members, from + 1);
    }
}

/// A field that is not satisfied, after fields that all are, is the first
/// refusal.
pub proof fn lemma_first_refusal_is(
    shape: Seq<FieldSpecView>,
    members: Map<Seq<char>, JsonValue>,
    from: int,
    at: int,
)
    requires
        0 <= from <= at <= shape.len(),
        at < shape.len() ==> !accepts(shape[at], members),
        forall|k: int| from <= k < at ==> accepts(#[trigger] shape[k], members),
    ensures
        first_refusal(shape, members, from) == at,
    decreases at - from,
{
    if from < at {
        lemma_first_refusal_is(shape, members, from + 1, at);
    }
}

/// Whether a value is of a kind.
pub fn kind_fits(kind: &FieldKind, value: &Json) -> (fit: bool)
    ensures
        fit == fits(kind@, value@),
    decreases kind, 0nat,
{
    match kind {
        FieldKind::Any => true,
        FieldKind::Bool => match value {
            Json::Bool(_) => true,
            _ => false,
        },
        FieldKind::Integer => match value {
            Json::Int(_) => true,
            Json::UInt(_) => true,
            _ => false,
        },
        FieldKind::Number => match value {
            Json::Int(_) => true,
            Json::UInt(_) => true,
            Json::Real(_) => true,
            _ => false,
        },
        FieldKind::Text => match value {
            Json::Str(_) => true,
            _ => false,
        },
        FieldKind::Array => match value {
            Json::Array(_) => true,
            _ => false,
        },
        FieldKind::Object => match value {
            Json::Object(_) => true,
            _ => false,
        },
        FieldKind::ArrayOf(inner) => match value {
            Json::Array(items) => {
                proof {
                    lemma_items_view(items@);
                }
                let mut i: usize = 0;
                while i < items.len()
                    invariant
                        i <= items.len(),
                        kind is ArrayOf && kind->ArrayOf_0 == *inner,
                        kind@ == KindView::ArrayOf(Box::new(inner@)),
                        value@ == JsonValue::Array(items_view(items@)),
                        items_view(items@).len() == items.len(),
                        forall|k: int|
                            0 <= k < items.len() ==> #[trigger] items_view(items@)[k]
                                == items@[k]@,
                        forall|k: int|
                            0 <= k < i ==> fits(inner@, #[trigger] items_view(items@)[k]),
                    decreases items.len() - i,
                {
                    if !kind_fits(inner, &items[i]) {
                        assert(!fits(inner@, items_view(items@)[i as int]));
                        return false;
                    }
                    i += 1;
                }
                true
            },
            _ => false,
        },
        FieldKind::Shaped(shape) => match value {
            Json::Object(members) => find_refusal(&shape.fields, members) == shape.fields.len(),
            _ => false,
        },
    }
}

/// Whether the members of a payload satisfy a declared field.
pub fn field_accepts(field: &FieldSpec, members: &Vec<(String, Json)>) -> (ok: bool)
    ensures
        ok == accepts(field@, members_map(pairs_view(members@))),
    decreases field, 0nat,
{
    match lookup(members, field.name.as_str()) {
        Some(value) => kind_fits(&field.kind, value) || (!field.required && value.is_null()),
        None => !field.required,
    }
}

/// The place of the first declared field that the members of a payload do
/// not satisfy, or the number of fields.
pub fn find_refusal(fields: &Vec<FieldSpec>, members: &Vec<(String, Json)>) -> (at: usize)
    ensures
        at == first_refusal(fields_view(fields@), members_map(pairs_view(members@)), 0),
        at <= fields.len(),
    decreases fields, 1nat,
{
    let ghost shape = fields_view(fields@);
    let ghost map = members_map(pairs_view(members@));
    proof {
        lemma_fields_view(fields@);
    }
    let mut i: usize = 0;
    while i < fields.len()
        invariant
            i <= fields.len(),
            shape == fields_view(fields@),
            shape.len() == fields.len(),
            forall|k: int| 0 <= k < fields.len() ==> #[trigger] shape[k] == fields@[k]@,
            map == members_map(pairs_view(members@)),
            forall|k: int| 0 <= k < i ==> accepts(#[trigger] shape[k], map),
        decreases fields.len() - i,
    {
        proof {
            vstd::std_specs::vec::axiom_vec_index_decreases(*fields, i as int);
        }
        if !field_accepts(&fields[i], members) {
            proof {
                lemma_first_refusal_is(shape, map, 0, i as int);
            }
            return i;
        }
        i += 1;
    }
    proof {
        lemma_first_refusal_is(shape, map, 0, shape.len() as int);
    }
    i
}

impl RecordShape {
    /// Whether the shape declares a field called `name`.
    pub fn declares(&self, name: &str) -> (found: bool)
        ensures
            found == declared(self@).contains(name@),
    {
        proof {
            lemma_fields_view(self.fields@);
        }
        let mut i: usize = 0;
        while i < self.fields.len()
            invariant
                i <= self.fields.len(),
                self@.len() == self.fields.len(),
                forall|k: int| 0 <= k < self.fields.len() ==> #[trigger] self@[k] == self.fields@[k]@,
                forall|k: int| 0 <= k < i ==> (#[trigger] self@[k]).name != name@,
            decreases self.fields.len() - i,
        {
            if same_text(self.fields[i].name.as_str(), name) {
                assert(self@[i as int].name == name@);
                return true;
            }
            i += 1;
        }
        false
    }
}

impl Decoder for RecordShape {
    type Target = Record;

    open spec fn decoding(&self, doc: JsonValue) -> Result<RecordView, ShapeErrorView> {
        decoded(self@, doc)
    }

    /// Decodes a payload as a record of this shape.
    fn decode(&self, doc: &Json) -> (r: Result<Record, ShapeError>) {
        let members = match doc {
            Json::Object(members) => members,
            _ => {
                return Err(ShapeError::NotAnObject);
            },
        };
        let ghost shape = self@;
        let ghost pairs = pairs_view(members@);
        let ghost map = members_map(pairs);
        proof {
            lemma_fields_view(self.fields@);
        }
        let at = find_refusal(&self.fields, members);
        if at < self.fields.len() {
            let field = &self.fields[at];
            assert(shape[at as int] == field@);
            return if lookup(members, field.name.as_str()).is_some() {
                Err(ShapeError::WrongKind { name: field.name.clone() })
            } else {
                Err(ShapeError::MissingField { name: field.name.clone() })
            };
        }
        let ghost names = declared(shape);
        let mut fields: Vec<(String, Json)> = Vec::new();
        let mut extra: Vec<(String, Json)> = Vec::new();
        let mut j: usize = 0;
        proof {
            lemma_pairs_view(members@);
            lemma_pairs_view(fields@);
            lemma_pairs_view(extra@);
            assert(pairs_view(fields@) =~= Seq::empty());
            assert(pairs_view(extra@) =~= Seq::empty());
            assert(pairs.take(0) =~= Seq::empty());
            assert(members_map(pairs.take(0)).restrict(names) =~= Map::empty());
            assert(members_map(pairs.take(0)).remove_keys(names) =~= Map::empty());
        }
        while j < members.len()
            invariant
                j <= members.len(),
                shape == self@,
                names == declared(shape),
                pairs == pairs_view(members@),
                pairs.len() == members.len(),
                members_map(pairs_view(fields@)) == members_map(pairs.take(j as int)).restrict(names),
                members_map(pairs_view(extra@)) == members_map(pairs.take(j as int)).remove_keys(
                    names,
                ),
            decreases members.len() - j,
        {
            let ghost before = members_map(pairs.take(j as int));
            let ghost old_fields = pairs_view(fields@);
            let ghost old_extra = pairs_view(extra@);
            let name = &members[j].0;
            let value = &members[j].1;
            proof {
                lemma_pairs_view(members@);
                lemma_pairs_view(fields@);
                lemma_pairs_view(extra@);
                assert(pairs.take(j + 1).drop_last() =~= pairs.take(j as int));
                assert(pairs.take(j + 1).last() == (name@, value@));
            }
            let ghost after = members_map(pairs.take(j + 1));
            assert(after == before.insert(name@, value@));
            if self.declares(name.as_str()) {
                fields.push((name.clone(), value.clone()));
                proof {
                    lemma_pairs_view(fields@);
                    assert(pairs_view(fields@) =~= old_fields.push((name@, value@)));
                    assert(pairs_view(fields@).drop_last() =~= old_fields);
                    assert(after.restrict(names) =~= before.restrict(names).insert(name@, value@));
                    assert(after.remove_keys(names) =~= before.remove_keys(names));
                }
            } else {
                extra.push((name.clone(), value.clone()));
                proof {
                    lemma_pairs_view(extra@);
                    assert(pairs_view(extra@) =~= old_extra.push((name@, value@)));
                    assert(pairs_view(extra@).drop_last() =~= old_extra);
                    assert(after.restrict(names) =~= before.restrict(names));
                    assert(after.remove_keys(names) =~= before.remove_keys(names).insert(
                        name@,
                        value@,
                    ));
                }
            }
            j += 1;
        }
        proof {
            assert(pairs.take(members.len() as int) =~= pairs);
        }
        Ok(Record { fields, extra })
    }
}

/// `first_fit` finds the first variant that fits, and no other.
pub proof fn lemma_first_fit(variants: Seq<Seq<FieldSpecView>>, doc: JsonValue, from: int)
    requires
        0 <= from <= variants.len(),
    ensures
        from <= first_fit(variants, doc, from) <= variants.len(),
        first_fit(variants, doc, from) < variants.len() ==> has_shape(
            variants[first_fit(variants, doc, from)],
            doc,
        ),
        forall|k: int|
            from <= k < first_fit(variants, doc, from) ==> !has_shape(#[trigger] variants[k], doc),
    decreases variants.len() - from,
{
    if from < variants.len() && !has_shape(variants[from], doc) {
        lemma_first_fit(variants, doc, from + 1);
    }
}

/// A variant that fits, after variants of which none does, is the first fit.
pub proof fn lemma_first_fit_is(
    variants: Seq<Seq<FieldSpecView>>,
    doc: JsonValue,
    from: int,
    at: int,
)
    requires
        0 <= from <= at <= variants.len(),
        at < variants.len() ==> has_shape(variants[at], doc),
        forall|k: int| from <= k < at ==> !has_shape(#[trigger] variants[k], doc),
    ensures
        first_fit(variants, doc, from) == at,
    decreases at - from,
{
    if from < at {
        lemma_first_fit_is(variants, doc, from + 1, at);
    }
}

/// Decoding as a record succeeds exactly for the payloads of the shape.
pub proof fn lemma_decoded_ok(shape: Seq<FieldSpecView>, doc: JsonValue)
    ensures
        decoded(shape, doc) is Ok <==> has_shape(shape, doc),
{
    if let JsonValue::Object(members) = doc {
        lemma_first_refusal(shape, members, 0);
    }
}

impl Decoder for VariantSet {
    type Target = Variant;

    open spec fn decoding(&self, doc: JsonValue) -> Result<VariantView, ShapeErrorView> {
        resolved(self@, doc)
    }

    /// Decodes a payload as the first variant whose shape it has.
    fn decode(&self, doc: &Json) -> (r: Result<Variant, ShapeError>) {
        let ghost variants = self@;
        let mut i: usize = 0;
        while i < self.variants.len()
            invariant
                i <= self.variants.len(),
                variants == self@,
                variants.len() == self.variants.len(),
                forall|k: int| 0 <= k < i ==> !has_shape(#[trigger] variants[k], doc@),
            decreases self.variants.len() - i,
        {
            let shape = &self.variants[i];
            assert(variants[i as int] == shape@);
            proof {
                lemma_decoded_ok(shape@, doc@);
            }
            match shape.decode(doc) {
                Ok(record) => {
                    proof {
                        lemma_first_fit_is(variants, doc@, 0, i as int);
                    }
                    return Ok(Variant { index: i, record });
                },
                Err(_) => {},
            }
            i += 1;
        }
        proof {
            lemma_first_fit_is(variants, doc@, 0, variants.len() as int);
        }
        Err(ShapeError::NoVariant)
    }
}

/// A copy of a list of members.
pub fn clone_members(members: &Vec<(String, Json)>) -> (copy: Vec<(String, Json)>)
    ensures
        pairs_view(copy@) == pairs_view(members@),
{
    let mut copy: Vec<(String, Json)> = Vec::new();
    let mut i: usize = 0;
    while i < members.len()
        invariant
            i <= members.len(),
            copy.len() == i,
            forall|k: int|
                0 <= k < i ==> copy@[k].0@ == members@[k].0@ && copy@[k].1@ == members@[k].1@,
        decreases members.len() - i,
    {
        copy.push((members[i].0.clone(), members[i].1.clone()));
        i += 1;
    }
    proof {
        lemma_pairs_view(members@);
        lemma_pairs_view(copy@);
        assert(pairs_view(copy@) =~= pairs_view(members@));
    }
    copy
}

impl Record {
    /// The member of the declared field called `name`, where the payload
    /// had one.
    pub fn field(&self, name: &str) -> (found: Option<&Json>)
        ensures
            self@.fields.dom().contains(name@) <==> found is Some,
            found matches Some(j) ==> self@.fields[name@] == j@,
    {
        lookup(&self.fields, name)
    }

    /// The member called `name` of the extension map.
    pub fn extension(&self, name: &str) -> (found: Option<&Json>)
        ensures
            self@.extra.dom().contains(name@) <==> found is Some,
            found matches Some(j) ==> self@.extra[name@] == j@,
    {
        lookup(&self.extra, name)
    }

    /// Writes the record back as a payload: an object with the fields and
    /// the members of the extension map.
    pub fn encode(&self) -> (doc: Json)
        ensures
            doc@ == encoded(self@),
    {
        let mut members = clone_members(&self.fields);
        let mut rest = clone_members(&self.extra);
        let ghost front = members@;
        members.append(&mut rest);
        proof {
            lemma_pairs_view(members@);
            lemma_pairs_view(front);
            lemma_pairs_view(self.fields@);
            lemma_pairs_view(self.extra@);
            assert(pairs_view(members@) =~= pairs_view(self.fields@) + pairs_view(self.extra@));
            lemma_members_map_concat(pairs_view(self.fields@), pairs_view(self.extra@));
        }
        Json::Object(members)
    }
}

/// Decoding a payload and writing the record back gives the payload again:
/// no member is lost, none is changed, whether the shape declares it or not.
pub proof fn law_encode_restores(shape: Seq<FieldSpecView>, doc: JsonValue)
    requires
        decoded(shape, doc) is Ok,
    ensures
        encoded(decoded(shape, doc)->Ok_0) == doc,
{
    let members = doc->Object_0;
    let record = decoded(shape, doc)->Ok_0;
    assert(record.fields.union_prefer_right(record.extra) =~= members);
}

/// Round trip: a record that was decoded, written back and decoded again is
/// the same record, with the same declared fields and the same members in
/// the extension map.
pub proof fn law_round_trip(shape: Seq<FieldSpecView>, doc: JsonValue)
    requires
        decoded(shape, doc) is Ok,
    ensures
        decoded(shape, encoded(decoded(shape, doc)->Ok_0)) == decoded(shape, doc),
{
    law_encode_restores(shape, doc);
}

/// Decoding never fails over a member that the shape does not declare: a
/// payload with one more such member has the shape if the payload without it
/// has, keeps its declared fields, and has the member in its extension map.
pub proof fn law_unknown_member_kept(
    shape: Seq<FieldSpecView>,
    members: Map<Seq<char>, JsonValue>,
    name: Seq<char>,
    value: JsonValue,
)
    requires
        !declared(shape).contains(name),
        decoded(shape, JsonValue::Object(members)) is Ok,
    ensures
        decoded(shape, JsonValue::Object(members.insert(name, value))) is Ok,
        decoded(shape, JsonValue::Object(members.insert(name, value)))->Ok_0.fields == decoded(
            shape,
            JsonValue::Object(members),
        )->Ok_0.fields,
        decoded(shape, JsonValue::Object(members.insert(name, value)))->Ok_0.extra == decoded(
            shape,
            JsonValue::Object(members),
        )->Ok_0.extra.insert(name, value),
{
    let more = members.insert(name, value);
    lemma_first_refusal(shape, members, 0);
    assert forall|k: int| 0 <= k < shape.len() implies accepts(#[trigger] shape[k], more) by {
        assert(accepts(shape[k], members));
        assert(shape[k].name != name);
    }
    lemma_first_refusal_is(shape, more, 0, shape.len() as int);
    assert(more.restrict(declared(shape)) =~= members.restrict(declared(shape)));
    assert(more.remove_keys(declared(shape)) =~= members.remove_keys(declared(shape)).insert(
        name,
        value,
    ));
}

/// Variant resolution: a payload that has the shape of exactly one variant of
/// a set is decoded as that variant.
pub proof fn law_single_variant(variants: Seq<Seq<FieldSpecView>>, doc: JsonValue, only: int)
    requires
        0 <= only < variants.len(),
        has_shape(variants[only], doc),
        forall|k: int| 0 <= k < variants.len() && k != only ==> !has_shape(#[trigger] variants[k], doc),
    ensures
        resolved(variants, doc) == Ok::<VariantView, ShapeErrorView>(
            VariantView { index: only, record: decoded(variants[only], doc)->Ok_0 },
        ),
{
    lemma_first_fit_is(variants, doc, 0, only);
}

/// Variant resolution: a payload that has the shape of no variant of a set
/// fails with the error kept for that, and is never taken as the first
/// candidate.
pub proof fn law_no_variant(variants: Seq<Seq<FieldSpecView>>, doc: JsonValue)
    requires
        forall|k: int| 0 <= k < variants.len() ==> !has_shape(#[trigger] variants[k], doc),
    ensures
        resolved(variants, doc) == Err::<VariantView, ShapeErrorView>(ShapeErrorView::NoVariant),
{
    lemma_first_fit_is(variants, doc, 0, variants.len() as int);
}

/// Variant resolution: where a payload has the shape of several variants,
/// the one declared first is taken.
pub proof fn law_first_variant_wins(variants: Seq<Seq<FieldSpecView>>, doc: JsonValue, at: int)
    requires
        0 <= at < variants.len(),
        has_shape(variants[at], doc),
    ensures
        resolved(variants, doc) is Ok,
        resolved(variants, doc)->Ok_0.index <= at,
        has_shape(variants[resolved(variants, doc)->Ok_0.index], doc),
{
    lemma_first_fit(variants, doc, 0);
}

} // verus!
