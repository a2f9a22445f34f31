//! The upload engine: what is sent for one file, and what the server's
//! answer means for the ledger and for the collection.

use crate::files::{extension, extension_of, FileInfo, LocalFile};
use crate::text::{decimal, push_decimal, push_signed_decimal, signed_decimal, text_view};
use vstd::prelude::*;
use vstd::string::*;

verus! {

/// The label under which this client's uploads are filed on the server.
pub const DEVICE_ID: &'static str = "rust-uploader-v1";

/// The server's status for an asset that it has stored.
pub const STATUS_CREATED: u16 = 201;

/// The server's status for an asset that it already had and hands back.
pub const STATUS_OK: u16 = 200;

/// The server's status for an asset that it refuses as a duplicate.
pub const STATUS_CONFLICT: u16 = 409;

/// The media type that mime_guess gives for a file extension, as text: the
/// first guess, or `application/octet-stream` where it has none.
pub uninterp spec fn guessed_media_type(ext: Seq<char>) -> Seq<char>;

/// Trusted: mime_guess's `from_ext(ext).first_or_octet_stream()`, written out
/// as text. The guess is a lookup of `ext` in the crate's table and depends
/// on nothing else, so it is named `guessed_media_type`; nothing more is
/// claimed of it.
#[verifier::external_body]
fn guess_media_type(ext: &str) -> (r: String)
    ensures
        r@ == guessed_media_type(ext@),
{
    let mime = mime_guess::from_ext(ext).first_or_octet_stream();
    let text: &str = mime.as_ref();
    text.to_string()
}

/// The extension by which a file's media type is guessed: empty for a name
/// without one.
pub open spec fn extension_or_empty(name: Seq<char>) -> Seq<char> {
    match extension(name) {
        Some(ext) => ext,
        None => Seq::empty(),
    }
}

/// The media type under which a file of this name is sent.
pub open spec fn media_type(name: Seq<char>) -> Seq<char> {
    guessed_media_type(extension_or_empty(name))
}

/// The media type under which a file of this name is sent.
pub fn media_type_of(name: &str) -> (r: String)
    ensures
        r@ == media_type(name@),
{
    match extension_of(name) {
        Some(ext) => guess_media_type(ext),
        None => {
            proof {
                reveal_strlit("");
                assert(""@ =~= Seq::<char>::empty());
            }
            guess_media_type("")
        },
    }
}

/// The identifier that this device gives an asset: the file's name, its size
/// and the second of its last modification, joined by hyphens.
pub open spec fn device_asset_id(file: FileInfo) -> Seq<char> {
    file.filename + seq!['-'] + decimal(file.size) + seq!['-'] + signed_decimal(
        file.modified.secs,
    )
}

/// The identifier that this device gives the asset of `file`.
pub fn device_asset_id_of(file: &LocalFile) -> (r: String)
    ensures
        r@ == device_asset_id(file@),
{
    proof {
        reveal_strlit("-");
    }
    let mut id = file.filename.clone();
    id.append("-");
    push_decimal(&mut id, file.size);
    id.append("-");
    push_signed_decimal(&mut id, file.modified.secs());
    assert(id@ =~= device_asset_id(file@));
    id
}

/// One text field of the upload form.
#[derive(Clone, Debug, PartialEq, Eq)]
pub struct FormField {
    pub name: String,
    pub value: String,
}

/// A text field as mathematical values.
pub struct Field {
    pub name: Seq<char>,
    pub value: Seq<char>,
}

impl View for FormField {
    type V = Field;

    open spec fn view(&self) -> Field {
        Field { name: self.name@, value: self.value@ }
    }
}

/// The views of a sequence of form fields.
pub open spec fn field_views(fields: Seq<FormField>) -> Seq<Field> {
    fields.map_values(|f: FormField| f@)
}

/// The upload of one file: a multipart form sent to `url` with the
/// credential `api_key`. The part `part_name` carries the bytes of the file
/// at `path` under `file_name` and `media_type`; `fields` are the text
/// fields, in order.
#[derive(Clone, Debug, PartialEq, Eq)]
pub struct UploadRequest {
    pub url: String,
    pub api_key: String,
    pub part_name: String,
    pub path: String,
    pub file_name: String,
    pub media_type: String,
    pub fields: Vec<FormField>,
}

/// An upload request as mathematical values.
pub struct Upload {
    pub url: Seq<char>,
    pub api_key: Seq<char>,
    pub part_name: Seq<char>,
    pub path: Seq<char>,
    pub file_name: Seq<char>,
    pub media_type: Seq<char>,
    pub fields: Seq<Field>,
}

impl View for UploadRequest {
    type V = Upload;

    open spec fn view(&self) -> Upload {
        Upload {
            url: self.url@,
            api_key: self.api_key@,
            part_name: self.part_name@,
            path: self.path@,
            file_name: self.file_name@,
            media_type: self.media_type@,
            fields: field_views(self.fields@),
        }
    }
}

/// The text fields that accompany a file: the device's identifier for the
/// asset, the device label, the two timestamps and the favourite flag, which
/// is always off.
pub open spec fn upload_fields(
    file: FileInfo,
    created_at: Seq<char>,
    modified_at: Seq<char>,
) -> Seq<Field> {
    seq![
        Field { name: "deviceAssetId"@, value: device_asset_id(file) },
        Field { name: "deviceId"@, value: DEVICE_ID@ },
        Field { name: "fileCreatedAt"@, value: created_at },
        Field { name: "fileModifiedAt"@, value: modified_at },
        Field { name: "isFavorite"@, value: "false"@ },
    ]
}

/// The upload of `file` to the server at `base_url`, given the media type
/// and the texts of the two timestamps.
pub open spec fn assembled_upload(
    file: FileInfo,
    base_url: Seq<char>,
    api_key: Seq<char>,
    media_type: Seq<char>,
    created_at: Seq<char>,
    modified_at: Seq<char>,
) -> Upload {
    Upload {
        url: base_url + "/api/assets"@,
        api_key,
        part_name: "assetData"@,
        path: file.path,
        file_name: file.filename,
        media_type,
        fields: upload_fields(file, created_at, modified_at),
    }
}

/// The upload of `file` to the server at `base_url`.
pub open spec fn upload_of(file: FileInfo, base_url: Seq<char>, api_key: Seq<char>) -> Upload {
    assembled_upload(
        file,
        base_url,
        api_key,
        media_type(file.filename),
        file.created.text(),
        file.modified.text(),
    )
}

/// The text field `name` with the value `value`.
fn form_field(name: &str, value: String) -> (r: FormField)
    ensures
        r@ == (Field { name: name@, value: value@ }),
{
    FormField { name: name.to_owned(), value }
}

impl UploadRequest {
    /// Puts the upload of `file` together from its parts: the media type and
    /// the texts of the creation and modification times are given.
    pub fn assemble(
        file: &LocalFile,
        base_url: &str,
        api_key: &str,
        media_type: String,
        created_at: String,
        modified_at: String,
    ) -> (r: UploadRequest)
        ensures
            r@ == assembled_upload(
                file@,
                base_url@,
                api_key@,
                media_type@,
                created_at@,
                modified_at@,
            ),
    {
        let mut fields: Vec<FormField> = Vec::new();
        fields.push(form_field("deviceAssetId", device_asset_id_of(file)));
        fields.push(form_field("deviceId", DEVICE_ID.to_owned()));
        fields.push(form_field("fileCreatedAt", created_at));
        fields.push(form_field("fileModifiedAt", modified_at));
        fields.push(form_field("isFavorite", "false".to_owned()));
        assert(field_views(fields@) =~= upload_fields(file@, created_at@, modified_at@));
        let mut url = base_url.to_owned();
        url.append("/api/assets");
        UploadRequest {
            url,
            api_key: api_key.to_owned(),
            part_name: "assetData".to_owned(),
            path: file.path.clone(),
            file_name: file.filename.clone(),
            media_type,
            fields,
        }
    }

    /// The upload of `file` to the server at `base_url`.
    pub fn for_file(file: &LocalFile, base_url: &str, api_key: &str) -> (r: UploadRequest)
        ensures
            r@ == upload_of(file@, base_url@, api_key@),
    {
        let media = media_type_of(file.filename.as_str());
        let created_at = file.created.to_rfc3339();
        let modified_at = file.modified.to_rfc3339();
        UploadRequest::assemble(file, base_url, api_key, media, created_at, modified_at)
    }
}

/// What an upload attempt came to.
#[derive(Clone, Debug, PartialEq, Eq)]
pub enum UploadOutcome {
    /// The server stored the asset under this identifier.
    Created(String),
    /// The server already had the asset and returned its identifier.
    Deduplicated(String),
    /// The server refused the asset as a duplicate; the identifier of the
    /// asset it has is known only if the answer carried one.
    RejectedDuplicate(Option<String>),
    /// The upload did not succeed; the file stays eligible.
    Failed,
}

/// An upload outcome as mathematical values.
pub enum Outcome {
    Created(Seq<char>),
    Deduplicated(Seq<char>),
    RejectedDuplicate(Option<Seq<char>>),
    Failed,
}

impl Outcome {
    /// Whether the file counts as synchronised: every outcome but `Failed`.
    pub open spec fn recorded(self) -> bool {
        !(self is Failed)
    }

    /// The asset to link into the collection, where the outcome names one.
    pub open spec fn link_target(self) -> Option<Seq<char>> {
        match self {
            Outcome::Created(id) => Some(id),
            Outcome::Deduplicated(id) => Some(id),
            Outcome::RejectedDuplicate(id) => id,
            Outcome::Failed => None,
        }
    }
}

impl View for UploadOutcome {
    type V = Outcome;

    open spec fn view(&self) -> Outcome {
        match self {
            UploadOutcome::Created(id) => Outcome::Created(id@),
            UploadOutcome::Deduplicated(id) => Outcome::Deduplicated(id@),
            UploadOutcome::RejectedDuplicate(id) => Outcome::RejectedDuplicate(text_view(*id)),
            UploadOutcome::Failed => Outcome::Failed,
        }
    }
}

/// The outcome that a server answer stands for. `asset_id` is the
/// identifier read from the answer's body, if the body held one.
pub open spec fn classified(status: int, asset_id: Option<Seq<char>>) -> Outcome {
    if status == STATUS_CREATED {
        match asset_id {
            Some(id) => Outcome::Created(id),
            None => Outcome::Failed,
        }
    } else if status == STATUS_OK {
        match asset_id {
            Some(id) => Outcome::Deduplicated(id),
            None => Outcome::Failed,
        }
    } else if status == STATUS_CONFLICT {
        Outcome::RejectedDuplicate(asset_id)
    } else {
        Outcome::Failed
    }
}

/// Classifies the server's answer to an upload by its status code.
/// `asset_id` is the identifier read from the body, `None` if the body could
/// not be read as one.
pub fn classify_response(status: u16, asset_id: Option<String>) -> (r: UploadOutcome)
    ensures
        r@ == classified(status as int, text_view(asset_id)),
{
    if status == STATUS_CREATED {
        match asset_id {
            Some(id) => UploadOutcome::Created(id),
            None => UploadOutcome::Failed,
        }
    } else if status == STATUS_OK {
        match asset_id {
            Some(id) => UploadOutcome::Deduplicated(id),
            None => UploadOutcome::Failed,
        }
    } else if status == STATUS_CONFLICT {
        UploadOutcome::RejectedDuplicate(asset_id)
    } else {
        UploadOutcome::Failed
    }
}

impl UploadOutcome {
    /// Whether the file counts as synchronised after this outcome.
    pub fn is_recorded(&self) -> (r: bool)
        ensures
            r == self@.recorded(),
    {
        match self {
            UploadOutcome::Failed => false,
            _ => true,
        }
    }

    /// The asset to link into the collection, where the outcome names one.
    pub fn link_target(&self) -> (r: Option<String>)
        ensures
            text_view(r) == self@.link_target(),
    {
        match self {
            UploadOutcome::Created(id) => Some(id.clone()),
            UploadOutcome::Deduplicated(id) => Some(id.clone()),
            UploadOutcome::RejectedDuplicate(Some(id)) => Some(id.clone()),
            UploadOutcome::RejectedDuplicate(None) => None,
            UploadOutcome::Failed => None,
        }
    }
}

} // verus!
