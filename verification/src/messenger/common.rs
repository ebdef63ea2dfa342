//! What the two dialect engines share: markup events and the tokenizer that
//! yields them, attribute lookup, and the path of open elements.

use crate::messenger::error::ErrorKind;
use crate::messenger::error::MessengerError;
use crate::messenger::text::same_text;
use std::io::Cursor;
use std::path::Path;
use vstd::prelude::*;
use vstd::string::*;
use xml::reader::EventReader;
use xml::reader::XmlEvent;

verus! {

/// An attribute of an element: its local name and its value.
#[derive(PartialEq, Debug)]
pub struct Attribute {
    pub name: String,
    pub value: String,
}

/// What an [`Attribute`] holds.
pub struct AttributeView {
    pub name: Seq<char>,
    pub value: Seq<char>,
}

impl View for Attribute {
    type V = AttributeView;

    open spec fn view(&self) -> AttributeView {
        AttributeView { name: self.name@, value: self.value@ }
    }
}

/// The views of a list of attributes, in the same order.
pub open spec fn attribute_views(attributes: Seq<Attribute>) -> Seq<AttributeView> {
    attributes.map_values(|attribute: Attribute| attribute@)
}

/// One step of a document as the tokenizer tells it.
#[derive(PartialEq, Debug)]
pub enum MarkupEvent {
    /// An element opens.
    Open { name: String, attributes: Vec<Attribute> },
    /// Character data inside the innermost open element.
    Characters(String),
    /// The innermost open element closes.
    Close { name: String },
    /// The document is over.
    EndDocument,
    /// Anything else: comments, white space, declarations.
    Other,
}

/// What a [`MarkupEvent`] holds.
pub enum MarkupEventView {
    Open { name: Seq<char>, attributes: Seq<AttributeView> },
    Characters(Seq<char>),
    Close { name: Seq<char> },
    EndDocument,
    Other,
}

impl View for MarkupEvent {
    type V = MarkupEventView;

    open spec fn view(&self) -> MarkupEventView {
        match self {
            MarkupEvent::Open { name, attributes } => MarkupEventView::Open {
                name: name@,
                attributes: attribute_views(attributes@),
            },
            MarkupEvent::Characters(text) => MarkupEventView::Characters(text@),
            MarkupEvent::Close { name } => MarkupEventView::Close { name: name@ },
            MarkupEvent::EndDocument => MarkupEventView::EndDocument,
            MarkupEvent::Other => MarkupEventView::Other,
        }
    }
}

/// What one pull on the tokenizer gives: an event, or the fault that ends
/// the document early.
pub enum Token {
    Event(MarkupEventView),
    Fault,
}

impl Token {
    /// After a terminal token the tokenizer gives nothing new.
    pub open spec fn is_terminal(self) -> bool {
        self == Token::Fault || self == Token::Event(MarkupEventView::EndDocument)
    }
}

/// The token that a pull's result stands for.
pub open spec fn token_of(pulled: Result<MarkupEvent, xml::reader::Error>) -> Token {
    match pulled {
        Ok(event) => Token::Event(event@),
        Err(_) => Token::Fault,
    }
}

/// The fault that `xml::reader::EventReader::next` may report.
#[verifier::external_type_specification]
#[verifier::external_body]
pub struct ExReaderError(xml::reader::Error);

/// `xml::reader::EventReader` over a document held in memory. The verifier
/// cannot take the reader's own declaration, whose parameter is bound by
/// `std::io::Read`, so the reader is kept here and nothing inside it is
/// seen: what it has yet to give is named by [`pending`].
#[verifier::external_body]
pub struct Tokenizer {
    reader: EventReader<Cursor<Vec<u8>>>,
}

/// The tokens that a tokenizer has yet to give: what the calls of
/// `xml::reader::EventReader::next` on it will return, one after the
/// other, up to and with the first terminal one.
pub uninterp spec fn pending(tokenizer: Tokenizer) -> Seq<Token>;

/// The tokens of a whole document: what a reader made by
/// `xml::reader::EventReader::new` over its bytes has to give.
pub uninterp spec fn document_tokens(document: Seq<u8>) -> Seq<Token>;

/// `xml::reader::EventReader::new` over the bytes of a document. What the
/// reader will give depends on the bytes alone, and is given the name
/// [`document_tokens`].
#[verifier::external_body]
pub fn get_parser(document: Vec<u8>) -> (tokenizer: Tokenizer)
    ensures
        pending(tokenizer) == document_tokens(document@),
{
    Tokenizer { reader: EventReader::new(Cursor::new(document)) }
}

/// `xml::reader::EventReader::next`, with the event told in the library's
/// own terms: names are local names, and the kinds of event that no engine
/// reads are told as `Other`. The reader always has a token to give, and
/// gives the first. After the end of the document or a fault it gives the
/// same again on every call; any other token is used up.
#[verifier::external_body]
pub(crate) fn pull_event(tokenizer: &mut Tokenizer) -> (pulled: Result<
    MarkupEvent,
    xml::reader::Error,
>)
    ensures
        pending(*old(tokenizer)).len() > 0,
        token_of(pulled) == pending(*old(tokenizer)).first(),
        pending(*final(tokenizer)) == if pending(*old(tokenizer)).first().is_terminal() {
            pending(*old(tokenizer))
        } else {
            pending(*old(tokenizer)).drop_first()
        },
{
    match tokenizer.reader.next() {
        Ok(XmlEvent::StartElement { name, attributes, .. }) => Ok(MarkupEvent::Open {
            name: name.local_name,
            attributes: attributes.into_iter().map(|a| Attribute { name: a.name.local_name, value: a.value }).collect(),
        }),
        Ok(XmlEvent::Characters(text)) => Ok(MarkupEvent::Characters(text)),
        Ok(XmlEvent::EndElement { name }) => Ok(MarkupEvent::Close { name: name.local_name }),
        Ok(XmlEvent::EndDocument) => Ok(MarkupEvent::EndDocument),
        Ok(_) => Ok(MarkupEvent::Other),
        Err(fault) => Err(fault),
    }
}

/// The `Display` text of a fault of `xml::reader`. Nothing is said of it.
#[verifier::external_body]
pub(crate) fn fault_text(fault: &xml::reader::Error) -> (text: String) {
    fault.to_string()
}

/// The error that a fault of the tokenizer becomes.
pub fn fault_error(fault: &xml::reader::Error) -> (e: MessengerError)
    ensures
        e@.kind == ErrorKind::MalformedStructure,
{
    let text = fault_text(fault);
    MessengerError::of_kind(ErrorKind::MalformedStructure, text.as_str())
}

/// The text after the last `/` of a path.
pub open spec fn last_segment(path: Seq<char>) -> Seq<char>
    decreases path.len(),
{
    if path.len() == 0 || path.last() == '/' {
        Seq::empty()
    } else {
        last_segment(path.drop_last()).push(path.last())
    }
}

/// A path that every platform reads in the same way, and that ends in the
/// name of a file: its parts are set apart by `/` alone, it has neither
/// `\` nor `:`, it does not begin with two `/`, and what follows its
/// last `/` is a name, neither empty nor `.` nor `..`.
pub open spec fn plain_path(path: Seq<char>) -> bool {
    &&& forall|i: int| 0 <= i < path.len() ==> path[i] != '\\' && path[i] != ':'
    &&& !(path.len() >= 2 && path[0] == '/' && path[1] == '/')
    &&& last_segment(path).len() > 0
    &&& last_segment(path) != seq!['.']
    &&& last_segment(path) != seq!['.', '.']
}

/// `std::path::Path::file_name` of a path: its final component, empty
/// where the path has none or it is no text. Which characters set the
/// components apart depends on the platform. On each, the name is a part
/// of the path as written; and `/` sets components apart on all, so that
/// the name of a plain path is what follows its last `/`.
#[verifier::external_body]
pub(crate) fn file_name(path: &str) -> (name: String)
    ensures
        is_part_of(name@, path@),
        plain_path(path@) ==> name@ == last_segment(path@),
{
    Path::new(path).file_name().unwrap_or_default().to_str().unwrap_or_default().to_string()
}

/// `part` is a run of consecutive characters of `whole`.
pub open spec fn is_part_of(part: Seq<char>, whole: Seq<char>) -> bool {
    exists|i: int, j: int| 0 <= i <= j <= whole.len() && part == #[trigger] whole.subrange(i, j)
}

/// Where the last `.` of a name stands; -1 where it has none.
pub open spec fn last_dot(name: Seq<char>) -> int
    decreases name.len(),
{
    if name.len() == 0 {
        -1
    } else if name.last() == '.' {
        name.len() - 1
    } else {
        last_dot(name.drop_last())
    }
}

/// The stem of a file's name: what stands before its last `.`, or the
/// whole name where it has no `.` or only one that it begins with.
pub open spec fn stem_of(name: Seq<char>) -> Seq<char> {
    if last_dot(name) <= 0 {
        name
    } else {
        name.subrange(0, last_dot(name))
    }
}

proof fn lemma_last_dot_in_range(name: Seq<char>)
    ensures
        -1 <= last_dot(name) < name.len(),
    decreases name.len(),
{
    if name.len() > 0 && name.last() != '.' {
        lemma_last_dot_in_range(name.drop_last());
    }
}

/// The stem of a file's name.
pub fn stem(name: &str) -> (r: String)
    ensures
        r@ == stem_of(name@),
{
    let n = name.unicode_len();
    let mut i: usize = n;
    assert(name@.subrange(0, n as int) =~= name@);
    while i > 0 && name.get_char(i - 1) != '.'
        invariant
            i <= n,
            n == name@.len(),
            last_dot(name@) == last_dot(name@.subrange(0, i as int)),
        decreases i,
    {
        assert(name@.subrange(0, i as int).drop_last() =~= name@.subrange(0, i as int - 1));
        i = i - 1;
    }
    if i <= 1 {
        String::from_str(name)
    } else {
        String::from_str(name.substring_char(0, i - 1))
    }
}

/// The recipient that the path of an archive names: the stem of the
/// file's name.
pub fn recipient_of(path: &str) -> (r: String)
    ensures
        is_part_of(r@, path@),
        plain_path(path@) ==> r@ == stem_of(last_segment(path@)),
{
    let name = file_name(path);
    let r = stem(name.as_str());
    proof {
        lemma_last_dot_in_range(name@);
        let (i, j) = choose|i: int, j: int|
            0 <= i <= j <= path@.len() && name@ == #[trigger] path@.subrange(i, j);
        if last_dot(name@) <= 0 {
            assert(r@ == path@.subrange(i, j));
        } else {
            assert(r@ =~= path@.subrange(i, i + last_dot(name@)));
        }
    }
    r
}

/// The values of a list of attributes by name. Where a name stands twice,
/// the later value counts.
pub open spec fn attribute_map(attributes: Seq<AttributeView>) -> Map<Seq<char>, Seq<char>>
    decreases attributes.len(),
{
    if attributes.len() == 0 {
        Map::empty()
    } else {
        attribute_map(attributes.drop_last()).insert(
            attributes.last().name,
            attributes.last().value,
        )
    }
}

/// The value of the attribute of a given name, if there is one.
pub open spec fn value_of(attributes: Seq<AttributeView>, name: Seq<char>) -> Option<Seq<char>> {
    attribute_map(attributes).get(name)
}

/// The attributes of an element, to be asked by name.
pub struct AttributeMap<'a> {
    entries: &'a Vec<Attribute>,
}

impl<'a> View for AttributeMap<'a> {
    type V = Map<Seq<char>, Seq<char>>;

    closed spec fn view(&self) -> Map<Seq<char>, Seq<char>> {
        attribute_map(attribute_views(self.entries@))
    }
}

proof fn lemma_later_value_counts(attributes: Seq<AttributeView>, name: Seq<char>, i: int)
    requires
        0 <= i < attributes.len(),
        attributes[i].name == name,
        forall|j: int| i < j < attributes.len() ==> attributes[j].name != name,
    ensures
        value_of(attributes, name) == Some(attributes[i].value),
    decreases attributes.len(),
{
    if i < attributes.len() - 1 {
        lemma_later_value_counts(attributes.drop_last(), name, i);
    }
}

proof fn lemma_absent_name(attributes: Seq<AttributeView>, name: Seq<char>)
    requires
        forall|j: int| 0 <= j < attributes.len() ==> attributes[j].name != name,
    ensures
        value_of(attributes, name).is_none(),
    decreases attributes.len(),
{
    if attributes.len() > 0 {
        lemma_absent_name(attributes.drop_last(), name);
    }
}

pub fn parse_attributes<'a>(attributes: &'a Vec<Attribute>) -> (map: AttributeMap<'a>)
    ensures
        map@ == attribute_map(attribute_views(attributes@)),
{
    AttributeMap { entries: attributes }
}

impl<'a> AttributeMap<'a> {
    /// The value of the attribute of the given name.
    pub fn get(&self, name: &str) -> (value: Option<&'a str>)
        ensures
            match value {
                Some(text) => self@.get(name@) == Some(text@),
                None => self@.get(name@).is_none(),
            },
    {
        let ghost views = attribute_views(self.entries@);
        let mut i: usize = self.entries.len();
        while i > 0
            invariant
                views == attribute_views(self.entries@),
                i <= self.entries@.len(),
                forall|j: int| i <= j < views.len() ==> views[j].name != name@,
            decreases i,
        {
            i = i - 1;
            let entry = &self.entries[i];
            if same_text(entry.name.as_str(), name) {
                proof {
                    lemma_later_value_counts(views, name@, i as int);
                }
                return Some(entry.value.as_str());
            }
        }
        proof {
            lemma_absent_name(views, name@);
        }
        None
    }

    /// Whether the attribute of the given name is there and has the given
    /// value.
    pub fn has(&self, name: &str, value: &str) -> (r: bool)
        ensures
            r == (self@.get(name@) == Some(value@)),
    {
        match self.get(name) {
            Some(text) => same_text(text, value),
            None => false,
        }
    }
}

} // verus!
