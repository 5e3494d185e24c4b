//! HTML documents, as `scraper` reads them.

use scraper::{Html, Selector};
use vstd::prelude::*;

use crate::text::{same_text, text_opt, texts};

verus! {

/// An element around a node.
#[derive(Debug)]
pub struct Ancestor {
    pub name: String,
    pub id: Option<String>,
    pub classes: Vec<String>,
}

/// An element that a selector found, with its attributes in order and the
/// elements around it from the inside out. The name of an attribute that has a
/// namespace stands behind the address of the namespace.
#[derive(Debug)]
pub struct HtmlNode {
    pub text: String,
    pub inner_html: String,
    pub attributes: Vec<(String, String)>,
    pub ancestors: Vec<Ancestor>,
}

pub ghost struct AncestorView {
    pub name: Seq<char>,
    pub id: Option<Seq<char>>,
    pub classes: Seq<Seq<char>>,
}

pub ghost struct NodeView {
    pub text: Seq<char>,
    pub inner_html: Seq<char>,
    pub attributes: Seq<(Seq<char>, Seq<char>)>,
    pub ancestors: Seq<AncestorView>,
}

impl View for Ancestor {
    type V = AncestorView;

    open spec fn view(&self) -> AncestorView {
        AncestorView { name: self.name@, id: text_opt(self.id), classes: texts(self.classes@) }
    }
}

pub open spec fn ancestor_views(s: Seq<Ancestor>) -> Seq<AncestorView> {
    s.map_values(|a: Ancestor| a@)
}

pub open spec fn attribute_views(s: Seq<(String, String)>) -> Seq<(Seq<char>, Seq<char>)> {
    s.map_values(|a: (String, String)| (a.0@, a.1@))
}

impl View for HtmlNode {
    type V = NodeView;

    open spec fn view(&self) -> NodeView {
        NodeView {
            text: self.text@,
            inner_html: self.inner_html@,
            attributes: attribute_views(self.attributes@),
            ancestors: ancestor_views(self.ancestors@),
        }
    }
}

pub open spec fn node_views(s: Seq<HtmlNode>) -> Seq<NodeView> {
    s.map_values(|n: HtmlNode| n@)
}

/// The elements of a document that a selector finds, in document order; none
/// where the selector cannot be read.
pub uninterp spec fn html_selected(html: Seq<char>, selector: Seq<char>) -> Seq<NodeView>;

/// `Html::parse_document` and `Html::select`: a function of the document and
/// the selector alone.
#[verifier::external_body]
pub(crate) fn select(html: &str, selector: &str) -> (r: Vec<HtmlNode>)
    ensures
        node_views(r@) == html_selected(html@, selector@),
{
    let Ok(wanted) = Selector::parse(selector) else { return Vec::new() };
    Html::parse_document(html).select(&wanted).map(|node| HtmlNode {
        text: node.text().collect(),
        inner_html: node.inner_html(),
        attributes: node.value().attrs.iter().map(
            |(k, v)| (format!("{}{}", k.ns, k.local), v.to_string())
        ).collect(),
        ancestors: node.ancestors().filter_map(|n| n.value().as_element()).map(|e| Ancestor {
            name: e.name().to_owned(),
            id: e.id().map(str::to_owned),
            classes: e.classes().map(str::to_owned).collect()
        }).collect()
    }).collect()
}

/// The value of an attribute.
pub open spec fn attribute(node: NodeView, name: Seq<char>) -> Option<Seq<char>> {
    value_of(node.attributes, name)
}

pub open spec fn value_of(attributes: Seq<(Seq<char>, Seq<char>)>, name: Seq<char>) -> Option<
    Seq<char>,
>
    decreases attributes.len(),
{
    if attributes.len() == 0 {
        None
    } else {
        match value_of(attributes.drop_last(), name) {
            Some(value) => Some(value),
            None => if attributes.last().0 == name {
                Some(attributes.last().1)
            } else {
                None
            },
        }
    }
}

impl HtmlNode {
    pub fn attr(&self, name: &str) -> (r: Option<&String>)
        ensures
            match r {
                Some(value) => attribute(self@, name@) == Some(value@),
                None => attribute(self@, name@) is None,
            },
    {
        let ghost all = attribute_views(self.attributes@);
        let mut found: Option<usize> = None;
        let mut i: usize = 0;
        while i < self.attributes.len()
            invariant
                i <= self.attributes.len(),
                all == attribute_views(self.attributes@),
                match found {
                    Some(k) => k < i && value_of(all.take(i as int), name@) == Some(
                        self.attributes@[k as int].1@,
                    ),
                    None => value_of(all.take(i as int), name@) is None,
                },
            decreases self.attributes.len() - i,
        {
            proof {
                assert(all.take(i + 1).drop_last() =~= all.take(i as int));
                assert(all.take(i + 1).last() == all[i as int]);
            }
            if found.is_none() && same_text(&self.attributes[i].0, name) {
                found = Some(i);
            }
            i += 1;
        }
        proof {
            assert(all.take(all.len() as int) =~= all);
        }
        match found {
            Some(k) => Some(&self.attributes[k].1),
            None => None,
        }
    }

    pub fn attr_is(&self, name: &str, value: &str) -> (r: bool)
        ensures
            r == (attribute(self@, name@) == Some(value@)),
    {
        match self.attr(name) {
            Some(found) => same_text(found, value),
            None => false,
        }
    }
}

/// Of several attributes of a name the first counts.
pub proof fn the_first_attribute_of_a_name_counts(
    attributes: Seq<(Seq<char>, Seq<char>)>,
    i: int,
)
    requires
        0 <= i < attributes.len(),
        forall|j: int| 0 <= j < i ==> (#[trigger] attributes[j]).0 != attributes[i].0,
    ensures
        value_of(attributes, attributes[i].0) == Some(attributes[i].1),
    decreases attributes.len(),
{
    let rest = attributes.drop_last();
    if i < rest.len() {
        assert(rest[i] == attributes[i]);
        assert forall|j: int| 0 <= j < i implies (#[trigger] rest[j]).0 != rest[i].0 by {
            assert(rest[j] == attributes[j]);
        }
        the_first_attribute_of_a_name_counts(rest, i);
    } else {
        assert forall|j: int| 0 <= j < rest.len() implies (#[trigger] rest[j]).0
            != attributes[i].0 by {
            assert(rest[j] == attributes[j]);
        }
        missing_attributes_have_no_value(rest, attributes[i].0);
    }
}

/// An attribute that is not there has no value.
pub proof fn missing_attributes_have_no_value(
    attributes: Seq<(Seq<char>, Seq<char>)>,
    name: Seq<char>,
)
    requires
        forall|j: int| 0 <= j < attributes.len() ==> (#[trigger] attributes[j]).0 != name,
    ensures
        value_of(attributes, name) is None,
    decreases attributes.len(),
{
    if attributes.len() > 0 {
        let rest = attributes.drop_last();
        assert forall|j: int| 0 <= j < rest.len() implies (#[trigger] rest[j]).0 != name by {
            assert(rest[j] == attributes[j]);
        }
        missing_attributes_have_no_value(rest, name);
        assert(attributes[attributes.len() - 1].0 != name);
    }
}

} // verus!
