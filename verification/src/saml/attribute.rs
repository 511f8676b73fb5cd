//! Attributes, and the attributes a service provider asks for.

use crate::text::{as_opt_str, opt_text, to_opt_string};
use vstd::prelude::*;

verus! {

/// A `<saml:AttributeValue>`.
#[derive(Debug, PartialEq, Eq)]
pub enum AttributeValue {
    /// A text value.
    String(String),
}

impl View for AttributeValue {
    type V = Seq<char>;

    open spec fn view(&self) -> Seq<char> {
        match *self {
            AttributeValue::String(s) => s@,
        }
    }
}

impl AttributeValue {
    /// The text of the value.
    pub fn as_str(&self) -> (result: &str)
        ensures
            result@ == self@,
    {
        match self {
            AttributeValue::String(s) => s.as_str(),
        }
    }
}

impl Clone for AttributeValue {
    fn clone(&self) -> (result: Self)
        ensures
            result@ == self@,
    {
        AttributeValue::String(self.as_str().to_owned())
    }
}

/// The texts of a list of values.
pub open spec fn value_texts(v: Seq<AttributeValue>) -> Seq<Seq<char>> {
    Seq::new(v.len(), |i: int| v[i]@)
}

/// A `<saml:Attribute>`.
#[derive(Debug, PartialEq, Eq)]
pub struct Attribute {
    /// The `Name` attribute.
    pub name: String,
    /// The `NameFormat` attribute.
    pub name_format: Option<String>,
    /// The `FriendlyName` attribute.
    pub friendly_name: Option<String>,
    /// The values.
    pub values: Vec<AttributeValue>,
}

/// What an [`Attribute`] says.
#[verifier::ext_equal]
pub struct AttributeView {
    pub name: Seq<char>,
    pub name_format: Option<Seq<char>>,
    pub friendly_name: Option<Seq<char>>,
    pub values: Seq<Seq<char>>,
}

impl View for Attribute {
    type V = AttributeView;

    open spec fn view(&self) -> AttributeView {
        AttributeView {
            name: self.name@,
            name_format: opt_text(self.name_format),
            friendly_name: opt_text(self.friendly_name),
            values: value_texts(self.values@),
        }
    }
}

/// A copy of a list of values.
pub fn clone_values(values: &[AttributeValue]) -> (result: Vec<AttributeValue>)
    ensures
        value_texts(result@) == value_texts(values@),
{
    let mut out: Vec<AttributeValue> = Vec::new();
    let mut i: usize = 0;
    while i < values.len()
        invariant
            i <= values@.len(),
            value_texts(out@) == value_texts(values@).take(i as int),
        decreases values@.len() - i,
    {
        let ghost before = value_texts(out@);
        out.push(values[i].clone());
        assert(value_texts(out@) == before.push(values@[i as int]@));
        assert(value_texts(values@).take(i + 1) == before.push(values@[i as int]@));
        i += 1;
    }
    assert(value_texts(values@).take(values@.len() as int) == value_texts(values@));
    out
}

impl Clone for Attribute {
    fn clone(&self) -> (result: Self)
        ensures
            result@ == self@,
    {
        Attribute {
            name: self.name.clone(),
            name_format: to_opt_string(as_opt_str(&self.name_format)),
            friendly_name: to_opt_string(as_opt_str(&self.friendly_name)),
            values: clone_values(self.values.as_slice()),
        }
    }
}

/// What a list of attributes says.
pub open spec fn attribute_views(v: Seq<Attribute>) -> Seq<AttributeView> {
    Seq::new(v.len(), |i: int| v[i]@)
}

/// A copy of a list of attributes.
pub fn clone_attributes(attributes: &[Attribute]) -> (result: Vec<Attribute>)
    ensures
        attribute_views(result@) == attribute_views(attributes@),
{
    let mut out: Vec<Attribute> = Vec::new();
    let mut i: usize = 0;
    while i < attributes.len()
        invariant
            i <= attributes@.len(),
            attribute_views(out@) == attribute_views(attributes@).take(i as int),
        decreases attributes@.len() - i,
    {
        let ghost before = attribute_views(out@);
        out.push(attributes[i].clone());
        assert(attribute_views(out@) == before.push(attributes@[i as int]@));
        assert(attribute_views(attributes@).take(i + 1) == before.push(attributes@[i as int]@));
        i += 1;
    }
    assert(attribute_views(attributes@).take(attributes@.len() as int) == attribute_views(
        attributes@,
    ));
    out
}

/// A `<md:RequestedAttribute>`: an attribute that a service provider asks for.
/// Where it lists values, it asks for one of these.
#[derive(Debug, PartialEq, Eq)]
pub struct RequestedAttribute {
    /// The attribute.
    pub attribute: Attribute,
    /// The `isRequired` attribute.
    pub is_required: Option<bool>,
}

/// What a [`RequestedAttribute`] says.
#[verifier::ext_equal]
pub struct RequestedAttributeView {
    pub attribute: AttributeView,
    pub is_required: Option<bool>,
}

impl View for RequestedAttribute {
    type V = RequestedAttributeView;

    open spec fn view(&self) -> RequestedAttributeView {
        RequestedAttributeView { attribute: self.attribute@, is_required: self.is_required }
    }
}

impl Clone for RequestedAttribute {
    fn clone(&self) -> (result: Self)
        ensures
            result@ == self@,
    {
        RequestedAttribute { attribute: self.attribute.clone(), is_required: self.is_required }
    }
}

/// What a list of requested attributes says.
pub open spec fn requested_views(v: Seq<RequestedAttribute>) -> Seq<RequestedAttributeView> {
    Seq::new(v.len(), |i: int| v[i]@)
}

/// A copy of requested attributes.
pub fn clone_requests(rs: &[RequestedAttribute]) -> (result: Vec<RequestedAttribute>)
    ensures
        requested_views(result@) == requested_views(rs@),
{
    let mut out: Vec<RequestedAttribute> = Vec::new();
    let mut i: usize = 0;
    while i < rs.len()
        invariant
            i <= rs@.len(),
            requested_views(out@) == requested_views(rs@).take(i as int),
        decreases rs@.len() - i,
    {
        let ghost before = requested_views(out@);
        out.push(rs[i].clone());
        assert(requested_views(out@) == before.push(rs@[i as int]@));
        assert(requested_views(rs@).take(i + 1) == before.push(rs@[i as int]@));
        i += 1;
    }
    assert(requested_views(rs@).take(rs@.len() as int) == requested_views(rs@));
    out
}

} // verus!
