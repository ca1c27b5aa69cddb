//! The events that the cursor hands to the loaders.

use vstd::prelude::*;
use crate::text::{same_text, text_of, views};

verus! {

/// One attribute of an opening tag, by local name.
#[derive(Debug, Clone)]
pub struct Attribute {
    pub name: String,
    pub value: String,
}

/// Mathematical view of an [`Attribute`].
pub struct AttributeView {
    pub name: Seq<char>,
    pub value: Seq<char>,
}

impl View for Attribute {
    type V = AttributeView;

    open spec fn view(&self) -> AttributeView {
        AttributeView { name: self.name@, value: self.value@ }
    }
}

/// One event of the token stream, reduced to what the loaders read.
#[derive(Debug, Clone)]
pub enum Event {
    /// An opening tag, with its local name and its attributes in document order.
    Start { name: String, attributes: Vec<Attribute> },
    /// A closing tag.
    End,
    /// Character data between tags.
    Text(String),
    /// The end of the document.
    EndDocument,
    /// Anything else: declaration, comment, processing instruction, CDATA, whitespace.
    Other,
    /// The stream is malformed or could not be read.
    Failure,
}

/// Mathematical view of an [`Event`].
pub enum Token {
    Start { name: Seq<char>, attributes: Seq<AttributeView> },
    End,
    Text(Seq<char>),
    EndDocument,
    Other,
    Failure,
}

impl Token {
    /// A terminal token ends the stream: nothing new follows it.
    pub open spec fn is_terminal(self) -> bool {
        self is EndDocument || self is Failure
    }
}

impl View for Event {
    type V = Token;

    open spec fn view(&self) -> Token {
        match *self {
            Event::Start { name, attributes } => Token::Start {
                name: name@,
                attributes: views(attributes@),
            },
            Event::End => Token::End,
            Event::Text(text) => Token::Text(text@),
            Event::EndDocument => Token::EndDocument,
            Event::Other => Token::Other,
            Event::Failure => Token::Failure,
        }
    }
}

/// The value of the last attribute called `name`, if there is one.
pub open spec fn attribute_named(attributes: Seq<AttributeView>, name: Seq<char>) -> Option<
    Seq<char>,
>
    decreases attributes.len(),
{
    if attributes.len() == 0 {
        None
    } else if attributes.last().name == name {
        Some(attributes.last().value)
    } else {
        attribute_named(attributes.drop_last(), name)
    }
}

/// The value of the first attribute, if there is one.
pub open spec fn first_attribute(attributes: Seq<AttributeView>) -> Option<Seq<char>> {
    if attributes.len() > 0 {
        Some(attributes[0].value)
    } else {
        None
    }
}

/// Looks an attribute up by its local name. Of several with that name the last counts.
pub fn attribute_value(attributes: &Vec<Attribute>, name: &str) -> (value: Option<String>)
    ensures
        text_of(value) == attribute_named(views(attributes@), name@),
{
    let mut i: usize = attributes.len();
    assert(views(attributes@).take(i as int) =~= views(attributes@));
    while i > 0
        invariant
            i <= attributes.len(),
            attribute_named(views(attributes@), name@) == attribute_named(
                views(attributes@).take(i as int),
                name@,
            ),
        decreases i,
    {
        let ghost upto = views(attributes@).take(i as int);
        i -= 1;
        assert(upto.drop_last() =~= views(attributes@).take(i as int));
        if same_text(attributes[i].name.as_str(), name) {
            return Some(attributes[i].value.clone());
        }
    }
    None
}

/// The value of the first attribute of a tag.
pub fn first_attribute_value(attributes: &Vec<Attribute>) -> (value: Option<String>)
    ensures
        text_of(value) == first_attribute(views(attributes@)),
{
    if attributes.len() > 0 {
        Some(attributes[0].value.clone())
    } else {
        None
    }
}

} // verus!
