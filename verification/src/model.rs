//! In-memory model of a parsed localization resource.
//!
//! A resource is an ordered sequence of entries; order is significant and is
//! preserved on output. Each executable type has a mathematical view used by
//! every contract in the crate.

use crate::text::str_eq;
use vstd::prelude::*;
use vstd::string::*;

verus! {

/// An expression embedded in a pattern as a placeable.
///
/// Function references, select expressions and nested placeables are opaque:
/// they cannot be partially translated and render as the bare sentinel.
pub enum Expression {
    StringLiteral(String),
    NumberLiteral(String),
    MessageReference(String),
    TermReference(String),
    VariableReference(String),
    FunctionReference,
    SelectExpression,
}

/// One run of a pattern: literal text or a placeable expression.
pub enum Element {
    Text(String),
    Placeable(Expression),
}

/// The value of a message or term: ordered runs of text and placeables.
pub struct Pattern {
    pub elements: Vec<Element>,
}

/// A comment; the scope decides the marker the writer emits (`#`, `##`, `###`).
/// Only a standalone comment attached to a message can carry tags.
pub enum Comment {
    Comment { content: Vec<String> },
    GroupComment { content: Vec<String> },
    ResourceComment { content: Vec<String> },
}

/// A named translatable unit. A message without a value has no directly
/// renderable text and is never sent for translation.
pub struct Message {
    pub id: String,
    pub value: Option<Pattern>,
    pub comment: Option<Comment>,
}

/// A named unit that is never machine-translated; passed through verbatim.
pub struct Term {
    pub id: String,
    pub value: Pattern,
    pub comment: Option<Comment>,
}

/// One entry of a resource.
pub enum Entry {
    Message(Message),
    Term(Term),
    Comment(Comment),
}

/// A whole parsed resource: its entries in file order.
pub struct Resource {
    pub entries: Vec<Entry>,
}

/// Mathematical view of an expression.
#[verifier::ext_equal]
pub enum ExpressionV {
    StringLiteral(Seq<char>),
    NumberLiteral(Seq<char>),
    MessageReference(Seq<char>),
    TermReference(Seq<char>),
    VariableReference(Seq<char>),
    FunctionReference,
    SelectExpression,
}

/// Mathematical view of a pattern element.
#[verifier::ext_equal]
pub enum ElementV {
    Text(Seq<char>),
    Placeable(ExpressionV),
}

/// Mathematical view of a pattern.
#[verifier::ext_equal]
pub struct PatternV {
    pub elements: Seq<ElementV>,
}

/// Mathematical view of a comment.
#[verifier::ext_equal]
pub enum CommentV {
    Comment { content: Seq<Seq<char>> },
    GroupComment { content: Seq<Seq<char>> },
    ResourceComment { content: Seq<Seq<char>> },
}

/// Mathematical view of a message.
#[verifier::ext_equal]
pub struct MessageV {
    pub id: Seq<char>,
    pub value: Option<PatternV>,
    pub comment: Option<CommentV>,
}

/// Mathematical view of a term.
#[verifier::ext_equal]
pub struct TermV {
    pub id: Seq<char>,
    pub value: PatternV,
    pub comment: Option<CommentV>,
}

/// Mathematical view of an entry.
#[verifier::ext_equal]
pub enum EntryV {
    Message(MessageV),
    Term(TermV),
    Comment(CommentV),
}

/// Mathematical view of a resource.
#[verifier::ext_equal]
pub struct ResourceV {
    pub entries: Seq<EntryV>,
}

impl View for Expression {
    type V = ExpressionV;

    open spec fn view(&self) -> ExpressionV {
        match self {
            Expression::StringLiteral(s) => ExpressionV::StringLiteral(s@),
            Expression::NumberLiteral(s) => ExpressionV::NumberLiteral(s@),
            Expression::MessageReference(s) => ExpressionV::MessageReference(s@),
            Expression::TermReference(s) => ExpressionV::TermReference(s@),
            Expression::VariableReference(s) => ExpressionV::VariableReference(s@),
            Expression::FunctionReference => ExpressionV::FunctionReference,
            Expression::SelectExpression => ExpressionV::SelectExpression,
        }
    }
}

impl View for Element {
    type V = ElementV;

    open spec fn view(&self) -> ElementV {
        match self {
            Element::Text(s) => ElementV::Text(s@),
            Element::Placeable(e) => ElementV::Placeable(e@),
        }
    }
}

impl View for Pattern {
    type V = PatternV;

    open spec fn view(&self) -> PatternV {
        PatternV { elements: self.elements@.map_values(|e: Element| e@) }
    }
}

impl View for Comment {
    type V = CommentV;

    open spec fn view(&self) -> CommentV {
        match self {
            Comment::Comment { content } => CommentV::Comment { content: content.deep_view() },
            Comment::GroupComment { content } => CommentV::GroupComment {
                content: content.deep_view(),
            },
            Comment::ResourceComment { content } => CommentV::ResourceComment {
                content: content.deep_view(),
            },
        }
    }
}

impl View for Message {
    type V = MessageV;

    open spec fn view(&self) -> MessageV {
        MessageV {
            id: self.id@,
            value: match self.value {
                Some(p) => Some(p@),
                None => None,
            },
            comment: match self.comment {
                Some(c) => Some(c@),
                None => None,
            },
        }
    }
}

impl View for Term {
    type V = TermV;

    open spec fn view(&self) -> TermV {
        TermV {
            id: self.id@,
            value: self.value@,
            comment: match self.comment {
                Some(c) => Some(c@),
                None => None,
            },
        }
    }
}

impl View for Entry {
    type V = EntryV;

    open spec fn view(&self) -> EntryV {
        match self {
            Entry::Message(m) => EntryV::Message(m@),
            Entry::Term(t) => EntryV::Term(t@),
            Entry::Comment(c) => EntryV::Comment(c@),
        }
    }
}

impl View for Resource {
    type V = ResourceV;

    open spec fn view(&self) -> ResourceV {
        ResourceV { entries: self.entries@.map_values(|e: Entry| e@) }
    }
}

/// Structural equality of two expressions, decided over their views.
pub fn expr_eq(a: &Expression, b: &Expression) -> (r: bool)
    ensures
        r == (a@ == b@),
{
    match (a, b) {
        (Expression::StringLiteral(x), Expression::StringLiteral(y)) => str_eq(
            x.as_str(),
            y.as_str(),
        ),
        (Expression::NumberLiteral(x), Expression::NumberLiteral(y)) => str_eq(
            x.as_str(),
            y.as_str(),
        ),
        (Expression::MessageReference(x), Expression::MessageReference(y)) => str_eq(
            x.as_str(),
            y.as_str(),
        ),
        (Expression::TermReference(x), Expression::TermReference(y)) => str_eq(
            x.as_str(),
            y.as_str(),
        ),
        (Expression::VariableReference(x), Expression::VariableReference(y)) => str_eq(
            x.as_str(),
            y.as_str(),
        ),
        (Expression::FunctionReference, Expression::FunctionReference) => true,
        (Expression::SelectExpression, Expression::SelectExpression) => true,
        _ => false,
    }
}

/// Structural equality of two pattern elements, decided over their views.
pub fn elem_eq(a: &Element, b: &Element) -> (r: bool)
    ensures
        r == (a@ == b@),
{
    match (a, b) {
        (Element::Text(x), Element::Text(y)) => str_eq(x.as_str(), y.as_str()),
        (Element::Placeable(x), Element::Placeable(y)) => expr_eq(x, y),
        _ => false,
    }
}

/// Structural equality of two patterns, decided over their views.
pub fn pattern_eq(a: &Pattern, b: &Pattern) -> (r: bool)
    ensures
        r == (a@ == b@),
{
    let n = a.elements.len();
    proof {
        assert(a@.elements.len() == a.elements@.len());
        assert(b@.elements.len() == b.elements@.len());
    }
    if n != b.elements.len() {
        proof {
            assert(a@.elements.len() != b@.elements.len());
        }
        return false;
    }
    let mut i: usize = 0;
    while i < n
        invariant
            i <= n,
            n == a.elements.len(),
            n == b.elements.len(),
            a@.elements.len() == n,
            b@.elements.len() == n,
            forall|k: int| 0 <= k < i ==> a@.elements[k] == b@.elements[k],
        decreases n - i,
    {
        if !elem_eq(&a.elements[i], &b.elements[i]) {
            proof {
                assert(a@.elements[i as int] == a.elements@[i as int]@);
                assert(b@.elements[i as int] == b.elements@[i as int]@);
                assert(a@.elements[i as int] != b@.elements[i as int]);
            }
            return false;
        }
        i += 1;
    }
    proof {
        assert(a@.elements =~= b@.elements);
    }
    true
}

/// Structural equality of two optional patterns, decided over their views.
pub fn opt_pattern_eq(a: &Option<Pattern>, b: &Option<Pattern>) -> (r: bool)
    ensures
        r == ((match a {
            Some(p) => Some(p@),
            None => None::<PatternV>,
        }) == (match b {
            Some(p) => Some(p@),
            None => None::<PatternV>,
        })),
{
    match (a, b) {
        (Some(x), Some(y)) => pattern_eq(x, y),
        (None, None) => true,
        _ => false,
    }
}

/// The first message with the given id among `entries[i..]`, if any.
pub open spec fn find_message_from(entries: Seq<EntryV>, id: Seq<char>, i: int) -> Option<
    MessageV,
>
    decreases entries.len() - i,
{
    if i < 0 || i >= entries.len() {
        None
    } else {
        match entries[i] {
            EntryV::Message(m) => if m.id == id {
                Some(m)
            } else {
                find_message_from(entries, id, i + 1)
            },
            _ => find_message_from(entries, id, i + 1),
        }
    }
}

/// The first message with the given id in the resource, if any.
pub open spec fn spec_find_message(r: ResourceV, id: Seq<char>) -> Option<MessageV> {
    find_message_from(r.entries, id, 0)
}

/// O(n) lookup of the first message with the given id.
pub fn find_message<'a>(resource: &'a Resource, id: &str) -> (r: Option<&'a Message>)
    ensures
        match r {
            Some(m) => spec_find_message(resource@, id@) == Some(m@),
            None => spec_find_message(resource@, id@) is None,
        },
{
    let n = resource.entries.len();
    let mut i: usize = 0;
    while i < n
        invariant
            i <= n,
            n == resource.entries.len(),
            find_message_from(resource@.entries, id@, 0) == find_message_from(
                resource@.entries,
                id@,
                i as int,
            ),
        decreases n - i,
    {
        match &resource.entries[i] {
            Entry::Message(m) => {
                if str_eq(m.id.as_str(), id) {
                    return Some(m);
                }
            },
            _ => {},
        }
        i += 1;
    }
    None
}

} // verus!
