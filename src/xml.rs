//! Writing elements and documents through xml_builder, with a model of what
//! each element holds.

use vstd::prelude::*;

verus! {

/// xml_builder's element; built through the functions below, never inspected.
#[verifier::external_type_specification]
#[verifier::external_body]
pub struct ExXMLElement(xml_builder::XMLElement);

/// xml_builder's error; carried, never inspected.
#[verifier::external_type_specification]
#[verifier::external_body]
pub struct ExXMLError(xml_builder::XMLError);

/// What an element holds inside its tags.
pub enum XmlContent {
    Empty,
    Text(Seq<char>),
    Elements(Seq<XmlNode>),
}

/// An element: its name, its attributes in the order they were added (values
/// as given, before escaping), and its content.
pub struct XmlNode {
    pub name: Seq<char>,
    pub attributes: Seq<(Seq<char>, Seq<char>)>,
    pub content: XmlContent,
}

/// What an xml_builder element holds.
pub uninterp spec fn xml_model(e: xml_builder::XMLElement) -> XmlNode;

/// The text that xml_builder generates for an XML 1.1, UTF-8 document whose
/// root element holds `root`.
pub uninterp spec fn xml_document_of(root: XmlNode) -> Seq<char>;

/// The child elements of `c`.
pub open spec fn children_of(c: XmlContent) -> Seq<XmlNode> {
    match c {
        XmlContent::Elements(cs) => cs,
        _ => Seq::empty(),
    }
}

/// The content made of the elements `cs`; none makes an empty element.
pub open spec fn elements(cs: Seq<XmlNode>) -> XmlContent {
    if cs.len() == 0 {
        XmlContent::Empty
    } else {
        XmlContent::Elements(cs)
    }
}

/// An element named `name` with `attributes` whose content is the elements `cs`.
pub open spec fn parent_node(
    name: Seq<char>,
    attributes: Seq<(Seq<char>, Seq<char>)>,
    cs: Seq<XmlNode>,
) -> XmlNode {
    XmlNode { name, attributes, content: elements(cs) }
}

/// An element named `name` with `attributes` whose content is `text`.
pub open spec fn text_node(
    name: Seq<char>,
    attributes: Seq<(Seq<char>, Seq<char>)>,
    text: Seq<char>,
) -> XmlNode {
    XmlNode { name, attributes, content: XmlContent::Text(text) }
}

/// Relies on `xml_builder::XMLElement::new`: an element named `name`, with no
/// attributes and no content.
#[verifier::external_body]
pub(crate) fn element(name: &str) -> (r: xml_builder::XMLElement)
    ensures
        xml_model(r) == parent_node(name@, Seq::empty(), Seq::empty()),
{
    xml_builder::XMLElement::new(name)
}

/// Relies on `xml_builder::XMLElement::add_attribute`: appends the attribute
/// (xml_builder escapes its value when it writes the document).
#[verifier::external_body]
pub(crate) fn add_attribute(e: &mut xml_builder::XMLElement, name: &str, value: &str)
    ensures
        xml_model(*final(e)) == (XmlNode {
            attributes: xml_model(*old(e)).attributes.push((name@, value@)),
            ..xml_model(*old(e))
        }),
{
    e.add_attribute(name, value)
}

/// Relies on `xml_builder::XMLElement::add_text`: sets the element's text,
/// written as it is, where the element is empty; an error, with the element
/// unchanged, where it already has content.
#[verifier::external_body]
pub(crate) fn add_text(e: &mut xml_builder::XMLElement, text: String) -> (r: Result<
    (),
    xml_builder::XMLError,
>)
    ensures
        r is Ok <==> xml_model(*old(e)).content is Empty,
        r is Ok ==> xml_model(*final(e)) == (XmlNode {
            content: XmlContent::Text(text@),
            ..xml_model(*old(e))
        }),
        r is Err ==> *final(e) == *old(e),
{
    e.add_text(text)
}

/// Relies on `xml_builder::XMLElement::add_child`: appends `child` where the
/// element holds no text; an error, with the element unchanged, where it does.
#[verifier::external_body]
pub(crate) fn add_child(e: &mut xml_builder::XMLElement, child: xml_builder::XMLElement) -> (r:
    Result<(), xml_builder::XMLError>)
    ensures
        r is Ok <==> !(xml_model(*old(e)).content is Text),
        r is Ok ==> xml_model(*final(e)) == (XmlNode {
            content: XmlContent::Elements(children_of(xml_model(*old(e)).content).push(xml_model(child))),
            ..xml_model(*old(e))
        }),
        r is Err ==> *final(e) == *old(e),
{
    e.add_child(child)
}

/// Relies on `xml_builder::XMLBuilder` (XML 1.1, UTF-8) and `XML::generate`
/// into a `Vec<u8>`: the text of the document whose root is `root`. Writing
/// into a `Vec` does not fail, and xml_builder fails on nothing else there.
#[verifier::external_body]
pub(crate) fn document(root: xml_builder::XMLElement) -> (r: Result<String, xml_builder::XMLError>)
    ensures
        r is Ok,
        r matches Ok(s) ==> s@ == xml_document_of(xml_model(root)),
{
    let mut xml = xml_builder::XMLBuilder::new().version(xml_builder::XMLVersion::XML1_1).encoding(
        "UTF-8".into(),
    ).build();
    xml.set_root_element(root);
    let mut buf: Vec<u8> = Vec::new();
    xml.generate(&mut buf)?;
    Ok(String::from_utf8_lossy(&buf).into_owned())
}

} // verus!
