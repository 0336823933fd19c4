//! A read-only element tree, as an XML parser hands it over, with the three
//! queries the importer needs: a child by name, the children by name, an
//! attribute by name.

use crate::text::str_eq;
use vstd::prelude::*;

verus! {

/// A node of the tree.
#[derive(Debug, PartialEq)]
pub enum Xml {
    /// An element.
    ElementNode(Element),
    /// Character data.
    CharacterNode(String),
    /// A CDATA section.
    CDATANode(String),
    /// A comment.
    CommentNode(String),
    /// A processing instruction.
    PINode(String),
}

/// An attribute of an element. No two attributes of one element share both
/// name and namespace; a lookup takes the first that matches.
#[derive(Clone, Debug, PartialEq)]
pub struct Attribute {
    /// The name of the attribute.
    pub name: String,
    /// The namespace of the attribute, if it has one.
    pub ns: Option<String>,
    /// The value of the attribute.
    pub value: String,
}

/// An element: its name, its namespace, its attributes and its child nodes in
/// document order.
#[derive(Debug, PartialEq)]
pub struct Element {
    /// The name of the element.
    pub name: String,
    /// The namespace of the element, if it has one.
    pub ns: Option<String>,
    /// The attributes of the element.
    pub attributes: Vec<Attribute>,
    /// The child nodes of the element, in document order.
    pub children: Vec<Xml>,
}

/// The characters of an optional owned string.
pub open spec fn owned_text(text: Option<String>) -> Option<Seq<char>> {
    match text {
        Some(s) => Some(s@),
        None => None,
    }
}

/// The characters of an optional string slice.
pub open spec fn slice_text(text: Option<&str>) -> Option<Seq<char>> {
    match text {
        Some(s) => Some(s@),
        None => None,
    }
}

/// The element that an optional reference points at.
pub open spec fn referent(found: Option<&Element>) -> Option<Element> {
    match found {
        Some(element) => Some(*element),
        None => None,
    }
}

/// The child elements among `children` that carry the given name and
/// namespace, in document order.
pub open spec fn elements_named(children: Seq<Xml>, name: Seq<char>, ns: Option<Seq<char>>) -> Seq<
    Element,
>
    decreases children.len(),
{
    if children.len() == 0 {
        Seq::empty()
    } else {
        let earlier = elements_named(children.drop_last(), name, ns);
        match children.last() {
            Xml::ElementNode(element) => if element.is_named(name, ns) {
                earlier.push(element)
            } else {
                earlier
            },
            _ => earlier,
        }
    }
}

/// The value of the first attribute with the given name and namespace.
pub open spec fn attribute_value(
    attributes: Seq<Attribute>,
    name: Seq<char>,
    ns: Option<Seq<char>>,
) -> Option<Seq<char>>
    decreases attributes.len(),
{
    if attributes.len() == 0 {
        None
    } else {
        match attribute_value(attributes.drop_last(), name, ns) {
            Some(value) => Some(value),
            None => {
                let last = attributes.last();
                if last.name@ == name && owned_text(last.ns) == ns {
                    Some(last.value@)
                } else {
                    None
                }
            },
        }
    }
}

/// The matching elements of a prefix of `children` come first among the
/// matching elements of all of them.
proof fn lemma_elements_named_prefix(
    children: Seq<Xml>,
    n: int,
    name: Seq<char>,
    ns: Option<Seq<char>>,
)
    requires
        0 <= n <= children.len(),
    ensures
        elements_named(children.take(n), name, ns).is_prefix_of(
            elements_named(children, name, ns),
        ),
    decreases children.len() - n,
{
    if n < children.len() {
        assert(children.take(n + 1).drop_last() =~= children.take(n));
        lemma_elements_named_prefix(children, n + 1, name, ns);
    } else {
        assert(children.take(n) =~= children);
    }
}

/// An attribute found among the first `n` attributes is the one found among
/// all of them.
proof fn lemma_attribute_value_prefix(
    attributes: Seq<Attribute>,
    n: int,
    name: Seq<char>,
    ns: Option<Seq<char>>,
)
    requires
        0 <= n <= attributes.len(),
        attribute_value(attributes.take(n), name, ns) is Some,
    ensures
        attribute_value(attributes, name, ns) == attribute_value(attributes.take(n), name, ns),
    decreases attributes.len() - n,
{
    if n < attributes.len() {
        assert(attributes.take(n + 1).drop_last() =~= attributes.take(n));
        lemma_attribute_value_prefix(attributes, n + 1, name, ns);
    } else {
        assert(attributes.take(n) =~= attributes);
    }
}

/// Whether an optional slice and an optional owned string hold the same text.
fn same_text(a: Option<&str>, b: &Option<String>) -> (same: bool)
    ensures
        same == (slice_text(a) == owned_text(*b)),
{
    match (a, b) {
        (Some(x), Some(y)) => str_eq(x, y.as_str()),
        (None, None) => true,
        _ => false,
    }
}

impl Element {
    /// Whether the element carries the given name and namespace.
    pub open spec fn is_named(&self, name: Seq<char>, ns: Option<Seq<char>>) -> bool {
        self.name@ == name && owned_text(self.ns) == ns
    }

    /// The first child element with the given name and namespace.
    pub open spec fn child(&self, name: Seq<char>, ns: Option<Seq<char>>) -> Option<Element> {
        let all = elements_named(self.children@, name, ns);
        if all.len() > 0 {
            Some(all[0])
        } else {
            None
        }
    }

    /// The value of the attribute with the given name and namespace.
    pub open spec fn attribute(&self, name: Seq<char>, ns: Option<Seq<char>>) -> Option<
        Seq<char>,
    > {
        attribute_value(self.attributes@, name, ns)
    }

    /// Decides `is_named`.
    pub fn has_name(&self, name: &str, ns: Option<&str>) -> (named: bool)
        ensures
            named == self.is_named(name@, slice_text(ns)),
    {
        str_eq(name, self.name.as_str()) && same_text(ns, &self.ns)
    }

    /// Gets the attribute with the given name and namespace, if the element
    /// has one.
    pub fn get_attribute<'a>(&'a self, name: &str, ns: Option<&str>) -> (value: Option<&'a str>)
        ensures
            slice_text(value) == self.attribute(name@, slice_text(ns)),
    {
        let mut i: usize = 0;
        while i < self.attributes.len()
            invariant
                0 <= i <= self.attributes.len(),
                attribute_value(self.attributes@.take(i as int), name@, slice_text(ns)) is None,
            decreases self.attributes.len() - i,
        {
            proof {
                assert(self.attributes@.take(i + 1).drop_last() =~= self.attributes@.take(
                    i as int,
                ));
            }
            let attribute = &self.attributes[i];
            if str_eq(name, attribute.name.as_str()) && same_text(ns, &attribute.ns) {
                proof {
                    lemma_attribute_value_prefix(
                        self.attributes@,
                        i + 1,
                        name@,
                        slice_text(ns),
                    );
                }
                return Some(attribute.value.as_str());
            }
            i = i + 1;
        }
        assert(self.attributes@.take(self.attributes@.len() as int) =~= self.attributes@);
        None
    }

    /// Gets the child elements with the given name and namespace, in
    /// document order.
    pub fn get_children<'a>(&'a self, name: &str, ns: Option<&str>) -> (found: Vec<&'a Element>)
        ensures
            found@.unref() == elements_named(self.children@, name@, slice_text(ns)),
    {
        let mut found: Vec<&'a Element> = Vec::new();
        let mut i: usize = 0;
        while i < self.children.len()
            invariant
                0 <= i <= self.children.len(),
                found@.len() == elements_named(
                    self.children@.take(i as int),
                    name@,
                    slice_text(ns),
                ).len(),
                forall|k: int|
                    0 <= k < found@.len() ==> *(#[trigger] found@[k]) == elements_named(
                        self.children@.take(i as int),
                        name@,
                        slice_text(ns),
                    )[k],
            decreases self.children.len() - i,
        {
            proof {
                assert(self.children@.take(i + 1).drop_last() =~= self.children@.take(i as int));
            }
            match &self.children[i] {
                Xml::ElementNode(element) => {
                    if element.has_name(name, ns) {
                        found.push(element);
                    }
                },
                _ => {},
            }
            i = i + 1;
        }
        assert(self.children@.take(self.children@.len() as int) =~= self.children@);
        assert(found@.unref() =~= elements_named(self.children@, name@, slice_text(ns)));
        found
    }

    /// Gets the first child element with the given name and namespace, if
    /// there is one.
    pub fn get_child<'a>(&'a self, name: &str, ns: Option<&str>) -> (found: Option<&'a Element>)
        ensures
            referent(found) == self.child(name@, slice_text(ns)),
    {
        let mut i: usize = 0;
        while i < self.children.len()
            invariant
                0 <= i <= self.children.len(),
                elements_named(self.children@.take(i as int), name@, slice_text(ns)).len() == 0,
            decreases self.children.len() - i,
        {
            proof {
                assert(self.children@.take(i + 1).drop_last() =~= self.children@.take(i as int));
            }
            match &self.children[i] {
                Xml::ElementNode(element) => {
                    if element.has_name(name, ns) {
                        proof {
                            lemma_elements_named_prefix(
                                self.children@,
                                i + 1,
                                name@,
                                slice_text(ns),
                            );
                            let first = elements_named(
                                self.children@.take(i + 1),
                                name@,
                                slice_text(ns),
                            );
                            assert(first.len() == 1 && first[0] == *element);
                            assert(elements_named(self.children@, name@, slice_text(ns))[0]
                                == first[0]);
                        }
                        return Some(element);
                    }
                },
                _ => {},
            }
            i = i + 1;
        }
        assert(self.children@.take(self.children@.len() as int) =~= self.children@);
        None
    }
}

} // verus!
