//! A generic JSON tree: what a request body holds once it is decoded.

use vstd::prelude::*;

verus! {

/// A decoded JSON value.
#[derive(Debug, PartialEq, Eq)]
pub enum JsonValue {
    Null,
    Bool(bool),
    /// A number, kept as the text it was written with.
    Number(String),
    Str(String),
    Array(Vec<JsonValue>),
    /// The members of an object, in the order they are held.
    Object(Vec<JsonMember>),
}

/// One member of a JSON object.
#[derive(Debug, PartialEq, Eq)]
pub struct JsonMember {
    pub name: String,
    pub value: JsonValue,
}

/// The mathematical value of a [`JsonValue`].
pub enum JsonView {
    Null,
    Bool(bool),
    Number(Seq<char>),
    Str(Seq<char>),
    Array(Seq<JsonView>),
    Object(Seq<MemberView>),
}

/// The mathematical value of a [`JsonMember`].
pub struct MemberView {
    pub name: Seq<char>,
    pub value: JsonView,
}

impl View for JsonValue {
    type V = JsonView;

    open spec fn view(&self) -> JsonView
        decreases self,
    {
        match self {
            JsonValue::Null => JsonView::Null,
            JsonValue::Bool(b) => JsonView::Bool(*b),
            JsonValue::Number(text) => JsonView::Number(text@),
            JsonValue::Str(text) => JsonView::Str(text@),
            JsonValue::Array(items) => JsonView::Array(
                Seq::new(
                    items@.len(),
                    |i: int|
                        if 0 <= i < items@.len() {
                            items@[i].view()
                        } else {
                            JsonView::Null
                        },
                ),
            ),
            JsonValue::Object(members) => JsonView::Object(
                Seq::new(
                    members@.len(),
                    |i: int|
                        if 0 <= i < members@.len() {
                            MemberView { name: members@[i].name@, value: members@[i].value.view() }
                        } else {
                            MemberView { name: Seq::empty(), value: JsonView::Null }
                        },
                ),
            ),
        }
    }
}

impl View for JsonMember {
    type V = MemberView;

    open spec fn view(&self) -> MemberView {
        MemberView { name: self.name@, value: self.value@ }
    }
}

/// The views of a list of values, in order.
pub open spec fn json_views(items: Seq<JsonValue>) -> Seq<JsonView> {
    Seq::new(items.len(), |i: int| items[i]@)
}

/// The views of the members of an object, in order.
pub open spec fn member_views(members: Seq<JsonMember>) -> Seq<MemberView> {
    Seq::new(members.len(), |i: int| members[i]@)
}

/// The view of an array is the array of its items' views.
pub proof fn lemma_array_view(value: JsonValue)
    requires
        value is Array,
    ensures
        value@ == JsonView::Array(json_views(value->Array_0@)),
{
    assert(value@->Array_0 =~= json_views(value->Array_0@));
}

/// The view of an object is the list of its members' views.
pub proof fn lemma_object_view(value: JsonValue)
    requires
        value is Object,
    ensures
        value@ == JsonView::Object(member_views(value->Object_0@)),
{
    assert(value@->Object_0 =~= member_views(value->Object_0@));
}

} // verus!
