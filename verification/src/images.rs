use vstd::prelude::*;

use crate::text::{decimal, push_decimal, push_signed_decimal, signed_decimal, string_of};

verus! {

// ---------------------------------------------------------------------------
// Checksums
// ---------------------------------------------------------------------------

/// The CRC-32C (Castagnoli) checksum of a byte string, as computed by the
/// `crc32c` crate.
pub uninterp spec fn crc32c_of(data: Seq<u8>) -> u32;

/// Calls `crc32c::crc32c`, which computes the CRC-32C checksum of its input
/// (starting from 0). The contract only names the result: it is the same for
/// the same bytes; the algorithm itself is not restated.
#[verifier::external_body]
fn checksum(data: &[u8]) -> (r: u32)
    ensures
        r == crc32c_of(data@),
{
    crc32c::crc32c(data)
}

/// An uploaded image together with its checksum.
#[derive(Clone, Debug, PartialEq, Eq)]
pub struct UploadedImage {
    pub bytes: Vec<u8>,
    pub crc32c: u32,
}

/// Reads the bytes of an uploaded image field into an image with its
/// CRC-32C checksum.
pub fn uploaded_image(data: Vec<u8>) -> (r: UploadedImage)
    ensures
        r.bytes@ == data@,
        r.crc32c == crc32c_of(data@),
{
    let crc = checksum(data.as_slice());
    UploadedImage { bytes: data, crc32c: crc }
}

// ---------------------------------------------------------------------------
// The upload form
// ---------------------------------------------------------------------------

/// Why an image upload form was refused.
#[derive(Clone, Debug, PartialEq, Eq)]
pub enum UploadFormError {
    /// A field came without a name.
    MissingFieldName,
    /// A field other than `image` came.
    UnexpectedField { name: String },
    /// No `image` field came.
    MissingImage,
}

impl UploadFormError {
    /// The description of the refusal.
    pub fn message(&self) -> (r: String)
        ensures
            r@ == (match *self {
                UploadFormError::MissingFieldName => "A form field was missing a name"@,
                UploadFormError::UnexpectedField { name } => "Encountered unexpected field \""@
                    + name@ + "\""@,
                UploadFormError::MissingImage => "Missing field \"image\""@,
            }),
    {
        match self {
            UploadFormError::MissingFieldName => string_of("A form field was missing a name"),
            UploadFormError::UnexpectedField { name } => {
                let mut s = string_of("Encountered unexpected field \"");
                s.append(name.as_str());
                s.append("\"");
                s
            },
            UploadFormError::MissingImage => string_of("Missing field \"image\""),
        }
    }
}

/// What to do with one field of an upload form.
#[derive(Clone, Debug, PartialEq, Eq)]
pub enum FormFieldAction {
    /// Read the field's bytes as the image.
    ReadImage,
    /// Refuse the whole form.
    Refuse(UploadFormError),
}

/// Decides what to do with a form field from its name (`None` when it has
/// none): `image` is read, anything else refuses the form.
pub fn form_field_action(name: Option<&str>) -> (r: FormFieldAction)
    ensures
        match name {
            None => r == FormFieldAction::Refuse(UploadFormError::MissingFieldName),
            Some(n) => if n@ == "image"@ {
                r is ReadImage
            } else {
                r matches FormFieldAction::Refuse(UploadFormError::UnexpectedField { name: t })
                    && t@ == n@
            },
        },
{
    match name {
        None => FormFieldAction::Refuse(UploadFormError::MissingFieldName),
        Some(n) => {
            proof {
                reveal_strlit("image");
            }
            if crate::text::str_eq(n, "image") {
                FormFieldAction::ReadImage
            } else {
                FormFieldAction::Refuse(UploadFormError::UnexpectedField { name: string_of(n) })
            }
        },
    }
}

/// The image of a finished form: the last `image` field read, or a refusal
/// when none came.
pub fn finish_upload_form(image: Option<UploadedImage>) -> (r: Result<
    UploadedImage,
    UploadFormError,
>)
    ensures
        match image {
            Some(i) => r == Ok::<UploadedImage, UploadFormError>(i),
            None => r == Err::<UploadedImage, UploadFormError>(UploadFormError::MissingImage),
        },
{
    match image {
        Some(i) => Ok(i),
        None => Err(UploadFormError::MissingImage),
    }
}

/// The log line (and answer) of an upload.
pub open spec fn upload_text(new_image_id: i32, item_id: u16) -> Seq<char> {
    "Uploaded image #"@ + signed_decimal(new_image_id as int) + " for item #"@ + decimal(
        item_id as nat,
    )
}

/// The log line of an upload, which is also its answer.
pub fn upload_action(new_image_id: i32, item_id: u16) -> (r: String)
    ensures
        r@ == upload_text(new_image_id, item_id),
{
    let mut s = string_of("Uploaded image #");
    push_signed_decimal(&mut s, new_image_id as i64);
    s.append(" for item #");
    push_decimal(&mut s, item_id as u64);
    s
}

// ---------------------------------------------------------------------------
// Deleting an image and choosing the primary one
// ---------------------------------------------------------------------------

/// Why a change to an item's images was refused.
#[derive(Copy, Clone, Debug, PartialEq, Eq, Structural)]
pub enum ImageEditError {
    /// No image has this id.
    NoSuchImage { image_id: u32 },
    /// The image could not be deleted.
    NotDeleted { image_id: u32 },
    /// The image belongs to another item.
    NotOwnedBy { image_id: u32, item_id: u16 },
    /// The image could not be made primary.
    NotMadePrimary { image_id: u32, item_id: u16 },
}

/// The description of a refused image change.
pub open spec fn image_edit_error_text(e: ImageEditError) -> Seq<char> {
    match e {
        ImageEditError::NoSuchImage { image_id } => "No item image with id "@ + decimal(
            image_id as nat,
        ) + " exists"@,
        ImageEditError::NotDeleted { image_id } => "Could not delete image "@ + decimal(
            image_id as nat,
        ) + "; the image did not exist"@,
        ImageEditError::NotOwnedBy { image_id, item_id } => "Image #"@ + decimal(image_id as nat)
            + " does not belong to item #"@ + decimal(item_id as nat),
        ImageEditError::NotMadePrimary { image_id, item_id } => "Could not set image #"@
            + decimal(image_id as nat) + " as primary for item #"@ + decimal(item_id as nat),
    }
}

impl ImageEditError {
    /// The description of the refusal.
    pub fn message(&self) -> (r: String)
        ensures
            r@ == image_edit_error_text(*self),
    {
        match *self {
            ImageEditError::NoSuchImage { image_id } => {
                let mut s = string_of("No item image with id ");
                push_decimal(&mut s, image_id as u64);
                s.append(" exists");
                s
            },
            ImageEditError::NotDeleted { image_id } => {
                let mut s = string_of("Could not delete image ");
                push_decimal(&mut s, image_id as u64);
                s.append("; the image did not exist");
                s
            },
            ImageEditError::NotOwnedBy { image_id, item_id } => {
                let mut s = string_of("Image #");
                push_decimal(&mut s, image_id as u64);
                s.append(" does not belong to item #");
                push_decimal(&mut s, item_id as u64);
                s
            },
            ImageEditError::NotMadePrimary { image_id, item_id } => {
                let mut s = string_of("Could not set image #");
                push_decimal(&mut s, image_id as u64);
                s.append(" as primary for item #");
                push_decimal(&mut s, item_id as u64);
                s
            },
        }
    }
}

/// The item an image belongs to, from the lookup of its owner.
pub fn image_owner(image_id: u32, owner: Option<u16>) -> (r: Result<u16, ImageEditError>)
    ensures
        match owner {
            Some(o) => r == Ok::<u16, ImageEditError>(o),
            None => r == Err::<u16, ImageEditError>(ImageEditError::NoSuchImage { image_id }),
        },
{
    match owner {
        Some(o) => Ok(o),
        None => Err(ImageEditError::NoSuchImage { image_id }),
    }
}

/// The log line (and answer) of deleting an image.
pub open spec fn deleted_image_text(image_id: u32) -> Seq<char> {
    "Deleted image #"@ + decimal(image_id as nat)
}

/// The outcome of deleting an image from the number of rows the deletion
/// touched: exactly one means it was deleted, with its log line (which is
/// also the answer); anything else refuses.
pub fn deleted_image_outcome(image_id: u32, rows_affected: u64) -> (r: Result<
    String,
    ImageEditError,
>)
    ensures
        rows_affected == 1 ==> (r matches Ok(t) && t@ == deleted_image_text(image_id)),
        rows_affected != 1 ==> r == Err::<String, ImageEditError>(
            ImageEditError::NotDeleted { image_id },
        ),
{
    if rows_affected != 1 {
        return Err(ImageEditError::NotDeleted { image_id });
    }
    let mut s = string_of("Deleted image #");
    push_decimal(&mut s, image_id as u64);
    Ok(s)
}

/// Checks that the image to make primary belongs to the item, from the
/// lookup of its owner.
pub fn check_image_owner(item_id: u16, image_id: u32, owner: Option<u16>) -> (r: Result<
    (),
    ImageEditError,
>)
    ensures
        match owner {
            None => r == Err::<(), ImageEditError>(ImageEditError::NoSuchImage { image_id }),
            Some(o) => if o == item_id {
                r is Ok
            } else {
                r == Err::<(), ImageEditError>(ImageEditError::NotOwnedBy { image_id, item_id })
            },
        },
{
    match owner {
        None => Err(ImageEditError::NoSuchImage { image_id }),
        Some(o) => if o != item_id {
            Err(ImageEditError::NotOwnedBy { image_id, item_id })
        } else {
            Ok(())
        },
    }
}

/// The log line and the answer of making an image primary.
#[derive(Clone, Debug, PartialEq, Eq)]
pub struct PrimaryImageChange {
    pub log: String,
    pub answer: String,
}

/// The log line of making an image primary.
pub open spec fn primary_log_text(item_id: u16, image_id: u32) -> Seq<char> {
    "Set image #"@ + decimal(image_id as nat) + " as primary for item #"@ + decimal(
        item_id as nat,
    )
}

/// The answer to making an image primary.
pub open spec fn primary_answer_text(item_id: u16) -> Seq<char> {
    "Primary image changed for item "@ + decimal(item_id as nat)
}

/// The outcome of making an image primary from the number of rows the update
/// touched: exactly one means it changed, with its log line and answer;
/// anything else refuses.
pub fn primary_image_outcome(item_id: u16, image_id: u32, rows_affected: u64) -> (r: Result<
    PrimaryImageChange,
    ImageEditError,
>)
    ensures
        rows_affected == 1 ==> (r matches Ok(c) && c.log@ == primary_log_text(item_id, image_id)
            && c.answer@ == primary_answer_text(item_id)),
        rows_affected != 1 ==> r == Err::<PrimaryImageChange, ImageEditError>(
            ImageEditError::NotMadePrimary { image_id, item_id },
        ),
{
    if rows_affected != 1 {
        return Err(ImageEditError::NotMadePrimary { image_id, item_id });
    }
    let mut log = string_of("Set image #");
    push_decimal(&mut log, image_id as u64);
    log.append(" as primary for item #");
    push_decimal(&mut log, item_id as u64);
    let mut answer = string_of("Primary image changed for item ");
    push_decimal(&mut answer, item_id as u64);
    Ok(PrimaryImageChange { log, answer })
}

} // verus!
