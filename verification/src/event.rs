//! The tag events the walker consumes. The underlying tokenizer that turns
//! raw document text into events is `magnesium`; its output is carried
//! across the trust boundary as plain owned values.

use vstd::prelude::*;

verus! {

/// One tag event of the document, as the walker sees it: comments and
/// whitespace-only text are already filtered away by the tokenizer.
#[derive(Debug, Clone, PartialEq, Eq)]
pub enum XmlEvent {
    /// An opening tag with its raw attribute text.
    Start {
        /// The tag's name.
        name: String,
        /// The tag's raw attribute text.
        attrs: String,
    },
    /// A closing tag.
    End {
        /// The name of the tag being closed.
        name: String,
    },
    /// A self-closing tag with its raw attribute text.
    Empty {
        /// The tag's name.
        name: String,
        /// The tag's raw attribute text.
        attrs: String,
    },
    /// Text between tags.
    Text {
        /// The text, verbatim.
        text: String,
    },
}

/// Mathematical view of an [`XmlEvent`].
#[verifier::ext_equal]
pub ghost enum XmlEventV {
    /// View of [`XmlEvent::Start`].
    Start {
        /// View of the name.
        name: Seq<char>,
        /// View of the raw attribute text.
        attrs: Seq<char>,
    },
    /// View of [`XmlEvent::End`].
    End {
        /// View of the name.
        name: Seq<char>,
    },
    /// View of [`XmlEvent::Empty`].
    Empty {
        /// View of the name.
        name: Seq<char>,
        /// View of the raw attribute text.
        attrs: Seq<char>,
    },
    /// View of [`XmlEvent::Text`].
    Text {
        /// View of the text.
        text: Seq<char>,
    },
}

impl DeepView for XmlEvent {
    type V = XmlEventV;

    open spec fn deep_view(&self) -> XmlEventV {
        match self {
            XmlEvent::Start { name, attrs } => XmlEventV::Start { name: name@, attrs: attrs@ },
            XmlEvent::End { name } => XmlEventV::End { name: name@ },
            XmlEvent::Empty { name, attrs } => XmlEventV::Empty { name: name@, attrs: attrs@ },
            XmlEvent::Text { text } => XmlEventV::Text { text: text@ },
        }
    }
}

/// The events of the document text `doc`, in order, with comments and
/// whitespace-only text already dropped; they depend on the text alone.
pub uninterp spec fn events_of(doc: Seq<char>) -> Seq<XmlEventV>;

/// Relies on magnesium's `ElementIterator` with its `skip_empty_text_elements`
/// filter: the elements it yields depend on the document text alone, and the
/// comment elements are dropped here.
#[verifier::external_body]
pub(crate) fn tokenize(doc: &str) -> (r: Vec<XmlEvent>)
    ensures
        r.deep_view() == events_of(doc@),
{
    magnesium::ElementIterator::new(doc)
        .filter_map(magnesium::skip_empty_text_elements)
        .filter_map(|el| match el {
            magnesium::XmlElement::StartTag { name, attrs } =>
                Some(XmlEvent::Start { name: name.to_owned(), attrs: attrs.to_owned() }),
            magnesium::XmlElement::EndTag { name } =>
                Some(XmlEvent::End { name: name.to_owned() }),
            magnesium::XmlElement::EmptyTag { name, attrs } =>
                Some(XmlEvent::Empty { name: name.to_owned(), attrs: attrs.to_owned() }),
            magnesium::XmlElement::Text(t) => Some(XmlEvent::Text { text: t.to_owned() }),
            magnesium::XmlElement::Comment(_) => None,
        })
        .collect()
}

} // verus!
