use qcext_server::images::{
    check_image_owner, deleted_image_outcome, finish_upload_form, form_field_action, image_owner,
    primary_image_outcome, upload_action, uploaded_image, FormFieldAction, ImageEditError,
    UploadFormError,
};
use qcext_server::mime::detect_mime_type;

#[test]
fn uploaded_image_carries_its_crc32c() {
    let image = uploaded_image(b"Hello world!".to_vec());
    assert_eq!(image.crc32c, 0x7B98_E751);
    assert_eq!(image.bytes, b"Hello world!".to_vec());
}

#[test]
fn form_fields_are_read_or_refused() {
    assert_eq!(form_field_action(Some("image")), FormFieldAction::ReadImage);
    assert_eq!(
        form_field_action(None),
        FormFieldAction::Refuse(UploadFormError::MissingFieldName)
    );
    let refused = form_field_action(Some("picture"));
    assert_eq!(
        refused,
        FormFieldAction::Refuse(UploadFormError::UnexpectedField { name: "picture".to_string() })
    );
    if let FormFieldAction::Refuse(e) = refused {
        assert_eq!(e.message(), "Encountered unexpected field \"picture\"");
    }
    assert_eq!(UploadFormError::MissingFieldName.message(), "A form field was missing a name");
}

#[test]
fn a_form_without_image_is_refused() {
    let err = finish_upload_form(None).unwrap_err();
    assert_eq!(err, UploadFormError::MissingImage);
    assert_eq!(err.message(), "Missing field \"image\"");
    let image = uploaded_image(vec![1, 2, 3]);
    assert_eq!(finish_upload_form(Some(image.clone())), Ok(image));
}

#[test]
fn upload_log_line() {
    assert_eq!(upload_action(17, 4), "Uploaded image #17 for item #4");
    assert_eq!(upload_action(-1, 4), "Uploaded image #-1 for item #4");
}

#[test]
fn deleting_images() {
    assert_eq!(image_owner(8, Some(3)), Ok(3));
    let missing = image_owner(8, None).unwrap_err();
    assert_eq!(missing.message(), "No item image with id 8 exists");
    assert_eq!(deleted_image_outcome(8, 1), Ok("Deleted image #8".to_string()));
    let err = deleted_image_outcome(8, 0).unwrap_err();
    assert_eq!(err, ImageEditError::NotDeleted { image_id: 8 });
    assert_eq!(err.message(), "Could not delete image 8; the image did not exist");
}

#[test]
fn choosing_the_primary_image() {
    assert_eq!(check_image_owner(3, 8, Some(3)), Ok(()));
    let other = check_image_owner(3, 8, Some(4)).unwrap_err();
    assert_eq!(other.message(), "Image #8 does not belong to item #3");
    assert_eq!(
        check_image_owner(3, 8, None),
        Err(ImageEditError::NoSuchImage { image_id: 8 })
    );
    let change = primary_image_outcome(3, 8, 1).unwrap();
    assert_eq!(change.log, "Set image #8 as primary for item #3");
    assert_eq!(change.answer, "Primary image changed for item 3");
    let err = primary_image_outcome(3, 8, 2).unwrap_err();
    assert_eq!(err.message(), "Could not set image #8 as primary for item #3");
}

#[test]
fn mime_types_from_signatures() {
    assert_eq!(detect_mime_type(b"\x89PNG\r\n\x1a\nrest"), "image/png");
    assert_eq!(detect_mime_type(b"\xff\xd8\xff\xe0"), "image/jpeg");
    assert_eq!(detect_mime_type(b"GIF87a..."), "image/gif");
    assert_eq!(detect_mime_type(b"GIF89a"), "image/gif");
    assert_eq!(detect_mime_type(b"GIF8"), "application/octet-stream");
    assert_eq!(detect_mime_type(b""), "application/octet-stream");
}
