use vstd::prelude::*;

verus! {

/// Whether `bytes` begins with `prefix`.
pub open spec fn has_prefix(bytes: Seq<u8>, prefix: Seq<u8>) -> bool {
    prefix.len() <= bytes.len() && bytes.subrange(0, prefix.len() as int) == prefix
}

/// The signature of a PNG file.
pub open spec fn png_signature() -> Seq<u8> {
    seq![0x89u8, 0x50u8, 0x4eu8, 0x47u8, 0x0du8, 0x0au8, 0x1au8, 0x0au8]
}

/// The signature of a JPEG file.
pub open spec fn jpeg_signature() -> Seq<u8> {
    seq![0xffu8, 0xd8u8, 0xffu8]
}

/// The signatures of the two GIF versions (`GIF87a` and `GIF89a`).
pub open spec fn gif87_signature() -> Seq<u8> {
    seq![0x47u8, 0x49u8, 0x46u8, 0x38u8, 0x37u8, 0x61u8]
}

pub open spec fn gif89_signature() -> Seq<u8> {
    seq![0x47u8, 0x49u8, 0x46u8, 0x38u8, 0x39u8, 0x61u8]
}

/// The media type announced for an image, chosen from its leading bytes.
pub open spec fn mime_type_of(bytes: Seq<u8>) -> Seq<char> {
    if has_prefix(bytes, png_signature()) {
        "image/png"@
    } else if has_prefix(bytes, jpeg_signature()) {
        "image/jpeg"@
    } else if has_prefix(bytes, gif87_signature()) || has_prefix(bytes, gif89_signature()) {
        "image/gif"@
    } else {
        "application/octet-stream"@
    }
}

fn starts_with(bytes: &[u8], prefix: &[u8]) -> (r: bool)
    ensures
        r == has_prefix(bytes@, prefix@),
{
    if prefix.len() > bytes.len() {
        return false;
    }
    let mut i: usize = 0;
    while i < prefix.len()
        invariant
            prefix@.len() <= bytes@.len(),
            i <= prefix@.len(),
            forall|j: int| 0 <= j < i ==> bytes@[j] == prefix@[j],
        decreases prefix@.len() - i,
    {
        if bytes[i] != prefix[i] {
            assert(bytes@.subrange(0, prefix@.len() as int)[i as int] != prefix@[i as int]);
            return false;
        }
        i = i + 1;
    }
    assert(bytes@.subrange(0, prefix@.len() as int) =~= prefix@);
    true
}

/// Chooses the media type of an image from its leading bytes.
pub fn detect_mime_type(bytes: &[u8]) -> (r: &'static str)
    ensures
        r@ == mime_type_of(bytes@),
{
    let png: [u8; 8] = [0x89, 0x50, 0x4e, 0x47, 0x0d, 0x0a, 0x1a, 0x0a];
    let jpeg: [u8; 3] = [0xff, 0xd8, 0xff];
    let gif87: [u8; 6] = [0x47, 0x49, 0x46, 0x38, 0x37, 0x61];
    let gif89: [u8; 6] = [0x47, 0x49, 0x46, 0x38, 0x39, 0x61];
    assert(png@ =~= png_signature());
    assert(jpeg@ =~= jpeg_signature());
    assert(gif87@ =~= gif87_signature());
    assert(gif89@ =~= gif89_signature());
    if starts_with(bytes, png.as_slice()) {
        "image/png"
    } else if starts_with(bytes, jpeg.as_slice()) {
        "image/jpeg"
    } else if starts_with(bytes, gif87.as_slice()) || starts_with(bytes, gif89.as_slice()) {
        "image/gif"
    } else {
        "application/octet-stream"
    }
}

} // verus!
