//! The conversation record: message, content runs, archive details, and
//! their mathematical views.

use crate::messenger::error::ErrorKind;
use crate::messenger::error::MessengerError;
use crate::messenger::text::same_text;
use vstd::prelude::*;

pub mod clock;
pub mod common;
pub mod context;
pub mod error;
pub mod messenger_plus_parser;
pub mod plus_laws;
pub mod text;
pub mod xml_laws;
pub mod xml_parser;

verus! {

/// Indicates the type of archive.
#[derive(Clone, Copy, PartialEq, Eq, Debug, Structural)]
pub enum FileType {
    /// A standard Windows Live Messenger XML archive.
    XML,
    /// A Messenger Plus! plugin HTML archive.
    MessengerPlus,
}

impl Default for FileType {
    fn default() -> (r: FileType)
        ensures
            r == FileType::XML,
    {
        FileType::XML
    }
}

/// A part of a message body, containing some formatted text.
#[derive(PartialEq, Debug)]
pub struct Text {
    /// A CSS-like string indicating the style of the text.
    pub style: String,
    /// The text.
    pub content: String,
}

/// What a [`Text`] holds.
pub struct TextView {
    pub style: Seq<char>,
    pub content: Seq<char>,
}

impl View for Text {
    type V = TextView;

    open spec fn view(&self) -> TextView {
        TextView { style: self.style@, content: self.content@ }
    }
}

impl Default for Text {
    fn default() -> (r: Text)
        ensures
            r@ == (TextView { style: Seq::empty(), content: Seq::empty() }),
    {
        Text { style: String::new(), content: String::new() }
    }
}

/// A part of a message body, containing an image.
#[derive(PartialEq, Debug)]
pub struct Image {
    /// The path to the image file.
    pub src: String,
    /// The alternative text if the image cannot be shown.
    pub alt: String,
    /// A buffer containing the image data.
    pub content: Vec<u8>,
}

/// What an [`Image`] holds.
pub struct ImageView {
    pub src: Seq<char>,
    pub alt: Seq<char>,
    pub content: Seq<u8>,
}

impl View for Image {
    type V = ImageView;

    open spec fn view(&self) -> ImageView {
        ImageView { src: self.src@, alt: self.alt@, content: self.content@ }
    }
}

impl Default for Image {
    fn default() -> (r: Image)
        ensures
            r@ == (ImageView { src: Seq::empty(), alt: Seq::empty(), content: Seq::empty() }),
    {
        Image { src: String::new(), alt: String::new(), content: Vec::new() }
    }
}

/// The various type of parts of the message body.
#[derive(PartialEq, Debug)]
pub enum Data {
    /// Some formatted text.
    Text(Text),
    /// An image.
    Image(Image),
    /// A note saved by the plugin when a user went on or off line.
    System(String),
}

/// What a [`Data`] holds.
pub enum DataView {
    Text(TextView),
    Image(ImageView),
    System(Seq<char>),
}

impl View for Data {
    type V = DataView;

    open spec fn view(&self) -> DataView {
        match self {
            Data::Text(text) => DataView::Text(text@),
            Data::Image(image) => DataView::Image(image@),
            Data::System(note) => DataView::System(note@),
        }
    }
}

/// The views of a sequence of content runs, in the same order.
pub open spec fn run_views(runs: Seq<Data>) -> Seq<DataView> {
    runs.map_values(|run: Data| run@)
}

/// A message, exchanged by two messenger's users.
#[derive(PartialEq, Debug)]
pub struct Message {
    /// The date and time of the message. The minutes are always present, the
    /// seconds and fractions of them only where the archive kept them.
    pub datetime: String,
    /// The minutes difference between UTC and the local timezone, may be
    /// negative; `None` where the timezone is unknown.
    pub timezone_offset: Option<i64>,
    /// The ID of the session the message belongs to.
    pub session_id: String,
    /// The nickname of the sending user at the time of the message.
    pub sender_friendly_name: String,
    /// The nickname of the receiving user at the time of the message.
    pub receiver_friendly_name: String,
    /// The body of the message, one entry per run, in the order of the archive.
    pub data: Vec<Data>,
}

/// What a [`Message`] holds.
pub struct MessageView {
    pub datetime: Seq<char>,
    pub timezone_offset: Option<i64>,
    pub session_id: Seq<char>,
    pub sender_friendly_name: Seq<char>,
    pub receiver_friendly_name: Seq<char>,
    pub data: Seq<DataView>,
}

impl View for Message {
    type V = MessageView;

    open spec fn view(&self) -> MessageView {
        MessageView {
            datetime: self.datetime@,
            timezone_offset: self.timezone_offset,
            session_id: self.session_id@,
            sender_friendly_name: self.sender_friendly_name@,
            receiver_friendly_name: self.receiver_friendly_name@,
            data: run_views(self.data@),
        }
    }
}

/// The message with every text empty, no offset and no content.
pub open spec fn blank_message() -> MessageView {
    MessageView {
        datetime: Seq::empty(),
        timezone_offset: None,
        session_id: Seq::empty(),
        sender_friendly_name: Seq::empty(),
        receiver_friendly_name: Seq::empty(),
        data: Seq::empty(),
    }
}

impl Default for Message {
    fn default() -> (r: Message)
        ensures
            r@ == blank_message(),
    {
        let r = Message {
            datetime: String::new(),
            timezone_offset: None,
            session_id: String::new(),
            sender_friendly_name: String::new(),
            receiver_friendly_name: String::new(),
            data: Vec::new(),
        };
        assert(r@.data =~= Seq::empty());
        r
    }
}

/// Some general details about the current archive.
#[derive(PartialEq, Debug)]
pub struct ArchiveDetails {
    /// Standard archive or Messenger Plus!
    pub file_type: FileType,
    /// An archive may be composed of multiple conversation sessions, this is
    /// the ID of the first session.
    pub first_session_id: String,
    /// The ID of the last session (see `first_session_id`).
    pub last_session_id: String,
    /// The ID of the user exchanging with the one owning the archive.
    pub recipient_id: String,
}

/// What an [`ArchiveDetails`] holds.
pub struct ArchiveDetailsView {
    pub file_type: FileType,
    pub first_session_id: Seq<char>,
    pub last_session_id: Seq<char>,
    pub recipient_id: Seq<char>,
}

impl View for ArchiveDetails {
    type V = ArchiveDetailsView;

    open spec fn view(&self) -> ArchiveDetailsView {
        ArchiveDetailsView {
            file_type: self.file_type,
            first_session_id: self.first_session_id@,
            last_session_id: self.last_session_id@,
            recipient_id: self.recipient_id@,
        }
    }
}

impl Default for ArchiveDetails {
    fn default() -> (r: ArchiveDetails)
        ensures
            r@ == (ArchiveDetailsView {
                file_type: FileType::XML,
                first_session_id: Seq::empty(),
                last_session_id: Seq::empty(),
                recipient_id: Seq::empty(),
            }),
    {
        ArchiveDetails {
            file_type: FileType::XML,
            first_session_id: String::new(),
            last_session_id: String::new(),
            recipient_id: String::new(),
        }
    }
}

/// What one advance of a parser gives.
#[derive(PartialEq, Debug)]
pub enum Step {
    /// A message is complete.
    Message(Message),
    /// The document refers to an image, by the source given as written. Its
    /// bytes are owed to the parser before it advances again.
    Asset(String),
    /// The document is over.
    End,
}

/// What a [`Step`] holds.
pub enum StepView {
    Message(MessageView),
    Asset(Seq<char>),
    End,
}

impl View for Step {
    type V = StepView;

    open spec fn view(&self) -> StepView {
        match self {
            Step::Message(message) => StepView::Message(message@),
            Step::Asset(source) => StepView::Asset(source@),
            Step::End => StepView::End,
        }
    }
}

/// The view of a step that may not have been made.
pub open spec fn step_view(step: Option<Step>) -> Option<StepView> {
    match step {
        Some(step) => Some(step@),
        None => None,
    }
}

/// A parser that tells the messages of an archive one by one.
pub trait MessengerArchive {
    /// What the parser knows of the archive so far.
    spec fn known(&self) -> ArchiveDetailsView;

    /// What the next advance will tell, or the kind of its failure.
    spec fn upcoming(&self) -> Result<StepView, ErrorKind>;

    /// The details of the archive as far as they are known. The dialect
    /// and the recipient are known from the start, the first session once
    /// it was read, the last at the end of the document.
    fn details(&self) -> (details: Option<&ArchiveDetails>)
        ensures
            details matches Some(known) && known@ == self.known(),
    ;

    /// Advances to the next thing that the document has to tell. An error
    /// ends the parse.
    fn advance(&mut self) -> (r: Result<Step, MessengerError>)
        ensures
            match old(self).upcoming() {
                Ok(step) => r matches Ok(given) && given@ == step,
                Err(kind) => r matches Err(e) && e@.kind == kind,
            },
    ;
}

/// An image file beside the archive: its source as the document writes it,
/// and its bytes.
#[derive(PartialEq, Debug)]
pub struct Asset {
    pub source: String,
    pub content: Vec<u8>,
}

/// What an [`Asset`] holds.
pub struct AssetView {
    pub source: Seq<char>,
    pub content: Seq<u8>,
}

impl View for Asset {
    type V = AssetView;

    open spec fn view(&self) -> AssetView {
        AssetView { source: self.source@, content: self.content@ }
    }
}

/// The views of a list of assets, in the same order.
pub open spec fn asset_views(assets: Seq<Asset>) -> Seq<AssetView> {
    assets.map_values(|asset: Asset| asset@)
}

/// The bytes of the first asset of a given source, if there is one.
pub open spec fn asset_of(assets: Seq<AssetView>, source: Seq<char>) -> Option<Seq<u8>>
    decreases assets.len(),
{
    if assets.len() == 0 {
        None
    } else if assets.first().source == source {
        Some(assets.first().content)
    } else {
        asset_of(assets.drop_first(), source)
    }
}

/// A copy of some bytes.
pub fn copy_bytes(bytes: &Vec<u8>) -> (copy: Vec<u8>)
    ensures
        copy@ == bytes@,
{
    let mut copy: Vec<u8> = Vec::new();
    let mut i: usize = 0;
    while i < bytes.len()
        invariant
            i <= bytes@.len(),
            copy@ == bytes@.subrange(0, i as int),
        decreases bytes@.len() - i,
    {
        copy.push(bytes[i]);
        assert(copy@ =~= bytes@.subrange(0, i as int + 1));
        i = i + 1;
    }
    assert(copy@ =~= bytes@);
    copy
}

/// The bytes of the first asset of the given source.
pub fn find_asset(assets: &Vec<Asset>, source: &str) -> (found: Option<Vec<u8>>)
    ensures
        match found {
            Some(bytes) => asset_of(asset_views(assets@), source@) == Some(bytes@),
            None => asset_of(asset_views(assets@), source@).is_none(),
        },
{
    let ghost views = asset_views(assets@);
    let mut i: usize = 0;
    assert(views.subrange(0, views.len() as int) =~= views);
    while i < assets.len()
        invariant
            views == asset_views(assets@),
            i <= assets@.len(),
            asset_of(views, source@) == asset_of(views.subrange(i as int, views.len() as int), source@),
        decreases assets@.len() - i,
    {
        let ghost rest = views.subrange(i as int, views.len() as int);
        assert(rest.first() == views[i as int]);
        assert(rest.drop_first() =~= views.subrange(i as int + 1, views.len() as int));
        if same_text(assets[i].source.as_str(), source) {
            return Some(copy_bytes(&assets[i].content));
        }
        i = i + 1;
    }
    None
}

/// The views of a sequence of messages, in the same order.
pub open spec fn message_views(messages: Seq<Message>) -> Seq<MessageView> {
    messages.map_values(|message: Message| message@)
}

/// A whole conversation: the details of the archive and its messages in the
/// order of the document.
#[derive(PartialEq, Debug)]
pub struct Archive {
    pub details: ArchiveDetails,
    pub messages: Vec<Message>,
}

/// What an [`Archive`] holds.
pub struct ArchiveView {
    pub details: ArchiveDetailsView,
    pub messages: Seq<MessageView>,
}

impl View for Archive {
    type V = ArchiveView;

    open spec fn view(&self) -> ArchiveView {
        ArchiveView { details: self.details@, messages: message_views(self.messages@) }
    }
}

} // verus!
