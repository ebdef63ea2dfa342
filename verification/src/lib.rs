//! Reading of instant-messenger conversation archives, in the messenger's
//! own XML dialect or in the HTML dialect of its plugin, into ordered
//! messages.

use crate::messenger::asset_views;
use crate::messenger::common::document_tokens;
use crate::messenger::common::is_part_of;
use crate::messenger::common::last_segment;
use crate::messenger::common::plain_path;
use crate::messenger::common::stem_of;
use crate::messenger::error::ErrorKind;
use crate::messenger::error::ErrorView;
use crate::messenger::error::MessengerError;
use crate::messenger::messenger_plus_parser::archive_agrees;
use crate::messenger::messenger_plus_parser::plus_archive;
use crate::messenger::text::ends_with;
use crate::messenger::xml_parser::xml_archive;
use crate::messenger::xml_parser::xml_archive_agrees;
use crate::messenger::Archive;
use crate::messenger::ArchiveView;
use crate::messenger::Asset;
use crate::messenger::AssetView;
use crate::messenger::FileType;
use vstd::prelude::*;

pub mod messenger;

verus! {

/// The dialect that the name of a file stands for.
pub open spec fn dialect_of(path: Seq<char>) -> Option<FileType> {
    if ".xml"@.is_suffix_of(path) {
        Some(FileType::XML)
    } else if ".html"@.is_suffix_of(path) {
        Some(FileType::MessengerPlus)
    } else {
        None
    }
}

/// What is said of a file whose name stands for no dialect.
pub open spec fn unrecognized() -> ErrorView {
    ErrorView {
        kind: ErrorKind::UnrecognizedDialect,
        details: "Invalid messenger archive. Expected format: .html or .xml"@,
    }
}

/// The dialect of an archive, by the name of its file. Nothing of the
/// file itself is needed to tell.
pub fn dialect(path: &str) -> (r: Result<FileType, MessengerError>)
    ensures
        match dialect_of(path@) {
            Some(file_type) => r matches Ok(given) && given == file_type,
            None => r matches Err(e) && e@ == unrecognized(),
        },
{
    if ends_with(path, ".xml") {
        Ok(FileType::XML)
    } else if ends_with(path, ".html") {
        Ok(FileType::MessengerPlus)
    } else {
        Err(MessengerError::new("Invalid messenger archive. Expected format: .html or .xml"))
    }
}

/// The archive that a document read from a plain path holds, by the
/// dialect that the path stands for.
pub open spec fn archive_at(
    path: Seq<char>,
    document: Seq<u8>,
    assets: Seq<AssetView>,
) -> Result<ArchiveView, ErrorKind> {
    match dialect_of(path) {
        Some(FileType::XML) => xml_archive(stem_of(last_segment(path)), document_tokens(document)),
        Some(FileType::MessengerPlus) => plus_archive(
            stem_of(last_segment(path)),
            document_tokens(document),
            assets,
        ),
        None => Err(ErrorKind::UnrecognizedDialect),
    }
}

/// Interprets a document as a conversation archive. `path` is where the
/// document was read from: it tells the dialect and names the recipient.
/// `assets` holds the image files that stand beside the document.
///
/// Archives generated by the plugin are supported too.
pub fn parse(path: String, document: Vec<u8>, assets: &Vec<Asset>) -> (r: Result<
    Archive,
    MessengerError,
>)
    ensures
        match dialect_of(path@) {
            Some(FileType::XML) => exists|recipient_id: Seq<char>|
                is_part_of(recipient_id, path@) && #[trigger] xml_archive_agrees(
                    xml_archive(recipient_id, document_tokens(document@)),
                    r,
                ),
            Some(FileType::MessengerPlus) => exists|recipient_id: Seq<char>|
                is_part_of(recipient_id, path@) && #[trigger] archive_agrees(
                    plus_archive(recipient_id, document_tokens(document@), asset_views(assets@)),
                    r,
                ),
            None => r matches Err(e) && e@ == unrecognized(),
        },
        plain_path(path@) ==> archive_agrees(
            archive_at(path@, document@, asset_views(assets@)),
            r,
        ),
{
    match dialect(path.as_str()) {
        Ok(FileType::XML) => messenger::xml_parser::parse(path.as_str(), document),
        Ok(FileType::MessengerPlus) => messenger::messenger_plus_parser::parse(
            path.as_str(),
            document,
            assets,
        ),
        Err(e) => Err(e),
    }
}

/// Two parses of the document at one plain path, with the same image
/// files beside it, end alike: both give the same archive, or both fail
/// in the same way.
pub proof fn law_same_path_same_archive(
    path: Seq<char>,
    document: Seq<u8>,
    assets: Seq<AssetView>,
    first: Result<Archive, MessengerError>,
    second: Result<Archive, MessengerError>,
)
    requires
        plain_path(path),
        archive_agrees(archive_at(path, document, assets), first),
        archive_agrees(archive_at(path, document, assets), second),
    ensures
        first is Ok <==> second is Ok,
        first is Ok ==> first->Ok_0@ == second->Ok_0@,
        first is Err ==> first->Err_0@.kind == second->Err_0@.kind,
{
}

} // verus!
