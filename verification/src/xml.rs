//! The element tree that the `spex` crate builds from XML text.
//!
//! `spex` does the reading. Its documents and elements are opaque here: the
//! spec functions without a body below name what an element holds, and the
//! functions that call into `spex` state their results over those names.
//! Nothing in this file is proved; the rest of the library is proved from it.

use spex::common::XmlError;
use spex::parsing::XmlReader;
use spex::xml::{Element, XmlDocument};
use vstd::prelude::*;

verus! {

#[verifier::external_type_specification]
#[verifier::external_body]
pub struct ExElement(Element);

#[verifier::external_type_specification]
#[verifier::external_body]
pub struct ExXmlDocument(XmlDocument);

#[verifier::external_type_specification]
#[verifier::external_body]
pub struct ExXmlError(XmlError);

#[verifier::external_type_specification]
#[verifier::external_body]
pub struct ExIoError(std::io::Error);

/// The document that `XmlReader::parse_auto` builds from these bytes, or
/// `None` where it reports an error.
pub uninterp spec fn parsed_document(content: Seq<u8>) -> Option<XmlDocument>;

/// The root element of a document.
pub uninterp spec fn document_root(document: XmlDocument) -> Element;

/// The name of an element: its local part, and the namespace that the name
/// lies in, if it lies in one.
pub uninterp spec fn element_name(element: Element) -> (Seq<char>, Option<Seq<char>>);

/// The child elements of an element, in document order.
pub uninterp spec fn element_children(element: Element) -> Seq<Element>;

/// The value of the attribute of an element that has this local name and lies
/// in no namespace, if the element has such an attribute.
pub uninterp spec fn element_attribute(element: Element, name: Seq<char>) -> Option<Seq<char>>;

/// The text of an element whose content is text alone (the empty text for an
/// element without content), or `None` for an element that holds child
/// elements or processing instructions.
pub uninterp spec fn element_text(element: Element) -> Option<Seq<char>>;

/// The local part of an element's name.
pub open spec fn local_part(element: Element) -> Seq<char> {
    element_name(element).0
}

/// The first of `children` whose name has the local part `name` and lies in no
/// namespace.
pub open spec fn first_unqualified(children: Seq<Element>, name: Seq<char>) -> Option<Element>
    decreases children.len(),
{
    if children.len() == 0 {
        None
    } else if element_name(children[0]) == (name, None::<Seq<char>>) {
        Some(children[0])
    } else {
        first_unqualified(children.drop_first(), name)
    }
}

/// Calls `XmlReader::parse_auto` on a byte slice.
///
/// Claimed: the outcome depends on the bytes alone. Reading succeeds exactly
/// where `parsed_document` holds a document, and then returns that document.
#[verifier::external_body]
pub(crate) fn read_document(content: &[u8]) -> (document: Result<XmlDocument, std::io::Error>)
    ensures
        match parsed_document(content@) {
            Some(expected) => document matches Ok(found) && found == expected,
            None => document is Err,
        },
{
    XmlReader::parse_auto(content)
}

/// Calls `XmlDocument::root`.
///
/// Claimed: the element returned is the document's root.
#[verifier::external_body]
pub(crate) fn root_of(document: &XmlDocument) -> (root: &Element)
    ensures
        *root == document_root(*document),
{
    document.root()
}

/// Calls `Element::name` and `Name::local_part`.
///
/// Claimed: the text returned is the local part of the element's name.
#[verifier::external_body]
pub(crate) fn local_name(element: &Element) -> (name: &str)
    ensures
        name@ == element_name(*element).0,
{
    element.name().local_part()
}

/// Calls `Element::elements` and collects what it yields.
///
/// Claimed: the vector holds the child elements, each once, in document order.
#[verifier::external_body]
pub(crate) fn child_elements(element: &Element) -> (children: Vec<&Element>)
    ensures
        children@.len() == element_children(*element).len(),
        forall|i: int|
            0 <= i < children@.len() ==> *children@[i] == #[trigger] element_children(*element)[i],
{
    element.elements().collect()
}

/// Calls `Element::att_req` with a name that has no namespace.
///
/// Claimed: the value of the attribute is returned where the element has an
/// attribute of that local name in no namespace, and an error where it has
/// none.
#[verifier::external_body]
pub(crate) fn required_attribute<'a>(element: &'a Element, name: &str) -> (value: Result<
    &'a str,
    XmlError,
>)
    ensures
        match element_attribute(*element, name@) {
            Some(expected) => value matches Ok(found) && found@ == expected,
            None => value is Err,
        },
{
    element.att_req(name)
}

/// Calls `Element::opt` with a name that has no namespace, and then
/// `OptionalCursor::text`.
///
/// Claimed: `opt` points at the first child element whose name has that local
/// part and lies in no namespace. Without such a child the result is
/// `Ok(None)`; with one, the result is that child's text, or an error where
/// the content of the child is not text alone.
#[verifier::external_body]
pub(crate) fn optional_child_text<'a>(element: &'a Element, name: &str) -> (text: Result<
    Option<&'a str>,
    XmlError,
>)
    ensures
        match first_unqualified(element_children(*element), name@) {
            None => text matches Ok(None),
            Some(child) => match element_text(child) {
                Some(expected) => text matches Ok(Some(found)) && found@ == expected,
                None => text is Err,
            },
        },
{
    element.opt(name).text()
}

} // verus!
