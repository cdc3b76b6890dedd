use vstd::prelude::*;

verus! {

/// One node of a parsed XML document, as far as the probe reads it: the
/// tag's local name (empty for a node that is not an element) and the values
/// of two attributes, where present.
pub struct XmlNode {
    pub tag: String,
    pub key: Option<String>,
    pub title: Option<String>,
}

/// The mathematical form of an [`XmlNode`].
pub type NodeModel = (Seq<char>, Option<Seq<char>>, Option<Seq<char>>);

pub open spec fn opt_view(o: Option<String>) -> Option<Seq<char>> {
    match o {
        Some(s) => Some(s@),
        None => None,
    }
}

impl XmlNode {
    pub open spec fn model(&self) -> NodeModel {
        (self.tag@, opt_view(self.key), opt_view(self.title))
    }
}

pub open spec fn nodes_model(v: Seq<XmlNode>) -> Seq<NodeModel> {
    v.map_values(|n: XmlNode| n.model())
}

/// The nodes, in document order, that roxmltree finds in `text`, each with
/// the values of the attributes named `key_name` and `title_name`; `None`
/// where the text is not a well-formed document.
pub uninterp spec fn xml_nodes_of(
    text: Seq<char>,
    key_name: Seq<char>,
    title_name: Seq<char>,
) -> Option<Seq<NodeModel>>;

/// Relies on roxmltree's `Document::parse`, `Node::descendants`,
/// `Node::tag_name` and `Node::attribute`: the document's nodes, root first,
/// in document order, each with its local tag name and the two attributes
/// (without namespace) looked up by name.
#[verifier::external_body]
pub(crate) fn parse_xml_nodes(text: &str, key_name: &str, title_name: &str) -> (r: Option<Vec<XmlNode>>)
    ensures
        match r {
            Some(v) => xml_nodes_of(text@, key_name@, title_name@) == Some(nodes_model(v@)),
            None => xml_nodes_of(text@, key_name@, title_name@) is None,
        },
{
    let doc = roxmltree::Document::parse(text).ok()?;
    Some(doc.descendants().map(|n| XmlNode {
        tag: n.tag_name().name().to_string(),
        key: n.attribute(key_name).map(|v| v.to_string()),
        title: n.attribute(title_name).map(|v| v.to_string()),
    }).collect())
}

} // verus!
