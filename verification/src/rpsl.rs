//! Plain owned representation of RPSL components: attributes with string
//! names, objects as attribute sequences, and collections of objects.
//!
//! Unlike the validated model in [`crate::attribute`], construction here
//! performs no character-class validation — only the empty-to-absent
//! coercion of value lines. It suits consumers that assemble already
//! parsed data.

use vstd::prelude::*;

use crate::attribute::ValueModel;
use crate::attribute::coerced;
use crate::attribute::line_view;
use crate::attribute::lines_view;
use crate::lexis;

verus! {

/// The value of a plain RPSL attribute: one optional line, or one optional
/// line per physical line of a multi-line attribute. An empty value or one
/// containing only whitespace is represented as absent.
#[derive(Debug, PartialEq, Eq)]
pub enum AttributeValue {
    SingleLine(Option<String>),
    MultiLine(Vec<Option<String>>),
}

impl View for AttributeValue {
    type V = ValueModel;

    open spec fn view(&self) -> ValueModel {
        match self {
            AttributeValue::SingleLine(line) => ValueModel::Single(line_view(*line)),
            AttributeValue::MultiLine(lines) => ValueModel::Multi(lines_view(lines@)),
        }
    }
}

impl AttributeValue {
    /// Build a single-line value from a string, storing a blank string as
    /// absent.
    pub fn from_line(value: &str) -> (r: AttributeValue)
        ensures
            r@ == ValueModel::Single(coerced(value@)),
    {
        if lexis::str_is_blank(value) {
            AttributeValue::SingleLine(None)
        } else {
            AttributeValue::SingleLine(Some(value.to_owned()))
        }
    }

    /// Build a value from a list of lines, coercing each blank line to
    /// absent. A one-element list collapses to a single-line value.
    pub fn from_lines(values: Vec<&str>) -> (r: AttributeValue)
        ensures
            values@.len() == 1 ==> r@ == ValueModel::Single(coerced(values@[0]@)),
            values@.len() != 1 ==> r@ == ValueModel::Multi(
                Seq::new(values@.len(), |i: int| coerced(values@[i]@)),
            ),
    {
        if values.len() == 1 {
            let first: &str = values[0];
            AttributeValue::from_line(first)
        } else {
            let mut out: Vec<Option<String>> = Vec::new();
            let n: usize = values.len();
            let mut i: usize = 0;
            while i < n
                invariant
                    i <= n,
                    n == values@.len(),
                    out@.len() == i,
                    forall|j: int|
                        0 <= j < i ==> line_view(#[trigger] out@[j]) == coerced(values@[j]@),
                decreases n - i,
            {
                let line: &str = values[i];
                if lexis::str_is_blank(line) {
                    out.push(None);
                } else {
                    out.push(Some(line.to_owned()));
                }
                i = i + 1;
            }
            let r = AttributeValue::MultiLine(out);
            proof {
                assert(lines_view(out@) =~= Seq::new(values@.len(), |i: int| coerced(values@[i]@)));
            }
            r
        }
    }
}

/// A plain RPSL attribute: a string name with its value.
#[derive(Debug, PartialEq, Eq)]
pub struct Attribute {
    /// The name of the attribute.
    pub name: String,
    /// The values of the attribute. A single-line attribute has one value,
    /// while for a multi-line attribute every line is a value.
    pub value: AttributeValue,
}

impl Attribute {
    /// Create a new plain RPSL attribute from a name and an attribute value.
    pub fn new(name: String, value: AttributeValue) -> (r: Attribute)
        ensures
            r.name == name,
            r.value == value,
    {
        Attribute { name, value }
    }

    /// Create an attribute from a name and one value line, coercing a
    /// blank line to absent.
    pub fn from_pair(name: &str, value: &str) -> (r: Attribute)
        ensures
            r.name@ == name@,
            r.value@ == ValueModel::Single(coerced(value@)),
    {
        Attribute { name: name.to_owned(), value: AttributeValue::from_line(value) }
    }

    /// Create an attribute from a name and a list of value lines, coercing
    /// each blank line to absent. A one-element list collapses to a
    /// single-line value.
    pub fn from_multi(name: &str, values: Vec<&str>) -> (r: Attribute)
        ensures
            r.name@ == name@,
            values@.len() == 1 ==> r.value@ == ValueModel::Single(coerced(values@[0]@)),
            values@.len() != 1 ==> r.value@ == ValueModel::Multi(
                Seq::new(values@.len(), |i: int| coerced(values@[i]@)),
            ),
    {
        Attribute { name: name.to_owned(), value: AttributeValue::from_lines(values) }
    }
}

/// An RPSL object: an ordered sequence of attributes.
#[derive(Debug, PartialEq, Eq)]
pub struct Object(Vec<Attribute>);

impl View for Object {
    type V = Seq<Attribute>;

    closed spec fn view(&self) -> Seq<Attribute> {
        self.0@
    }
}

impl Object {
    /// Create a new RPSL object from a vector of attributes.
    pub fn new(attributes: Vec<Attribute>) -> (r: Object)
        ensures
            r@ == attributes@,
    {
        Object(attributes)
    }

    /// Create an object from name/value pairs, one attribute per pair.
    pub fn from_pairs(pairs: Vec<(&str, &str)>) -> (r: Object)
        ensures
            r@.len() == pairs@.len(),
            forall|i: int|
                0 <= i < pairs@.len() ==> (#[trigger] r@[i]).name@ == pairs@[i].0@ && r@[i].value@
                    == ValueModel::Single(coerced(pairs@[i].1@)),
    {
        let mut attributes: Vec<Attribute> = Vec::new();
        let n: usize = pairs.len();
        let mut i: usize = 0;
        while i < n
            invariant
                i <= n,
                n == pairs@.len(),
                attributes@.len() == i,
                forall|j: int|
                    0 <= j < i ==> (#[trigger] attributes@[j]).name@ == pairs@[j].0@
                        && attributes@[j].value@ == ValueModel::Single(coerced(pairs@[j].1@)),
            decreases n - i,
        {
            let pair: (&str, &str) = pairs[i];
            attributes.push(Attribute::from_pair(pair.0, pair.1));
            i = i + 1;
        }
        Object(attributes)
    }

    /// The number of attributes in the object.
    pub fn len(&self) -> (r: usize)
        ensures
            r == self@.len(),
    {
        self.0.len()
    }

    /// The attribute at the given position.
    pub fn get(&self, index: usize) -> (r: &Attribute)
        requires
            index < self@.len(),
        ensures
            *r == self@[index as int],
    {
        &self.0[index]
    }

    /// Consume the object, yielding its attributes in order.
    pub fn into_attributes(self) -> (r: Vec<Attribute>)
        ensures
            r@ == self@,
    {
        self.0
    }
}

/// A collection of RPSL objects, for example the result of a whois query.
#[derive(Debug, PartialEq, Eq)]
pub struct ObjectCollection(Vec<Object>);

impl View for ObjectCollection {
    type V = Seq<Object>;

    closed spec fn view(&self) -> Seq<Object> {
        self.0@
    }
}

impl ObjectCollection {
    /// Create a new RPSL object collection from a vector of objects.
    pub fn new(objects: Vec<Object>) -> (r: ObjectCollection)
        ensures
            r@ == objects@,
    {
        ObjectCollection(objects)
    }

    /// Create a collection from attribute slices, wrapping each slice in
    /// an object.
    pub fn from_slices(object_slices: Vec<Vec<Attribute>>) -> (r: ObjectCollection)
        ensures
            r@.len() == object_slices@.len(),
            forall|i: int|
                0 <= i < object_slices@.len() ==> (#[trigger] r@[i])@ == object_slices@[i]@,
    {
        let mut objects: Vec<Object> = Vec::new();
        let mut slices = object_slices;
        let ghost slices_view = slices@;
        while slices.len() > 0
            invariant
                objects@.len() + slices@.len() == slices_view.len(),
                slices@ == slices_view.skip(objects@.len() as int),
                forall|j: int|
                    0 <= j < objects@.len() ==> (#[trigger] objects@[j])@ == slices_view[j]@,
            decreases slices@.len(),
        {
            let ghost done = objects@.len() as int;
            let slice = slices.remove(0);
            objects.push(Object::new(slice));
            proof {
                assert(slices@ =~= slices_view.skip(done + 1));
                assert(slice == slices_view[done]);
            }
        }
        ObjectCollection(objects)
    }

    /// The number of objects in the collection.
    pub fn len(&self) -> (r: usize)
        ensures
            r == self@.len(),
    {
        self.0.len()
    }

    /// The object at the given position.
    pub fn get(&self, index: usize) -> (r: &Object)
        requires
            index < self@.len(),
        ensures
            *r == self@[index as int],
    {
        &self.0[index]
    }

    /// Consume the collection, yielding its objects in order.
    pub fn into_objects(self) -> (r: Vec<Object>)
        ensures
            r@ == self@,
    {
        self.0
    }
}

} // verus!
