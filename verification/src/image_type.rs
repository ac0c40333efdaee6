use vstd::prelude::*;

verus! {

/// The file format of a comic's image.
#[derive(Copy, Clone, Debug, PartialEq, Eq, Hash, Structural)]
pub enum ImageType {
    Unknown,
    Png,
    Gif,
    Jpeg,
}

/// The stored number of each image format.
pub open spec fn image_type_code(t: ImageType) -> i32 {
    match t {
        ImageType::Unknown => 0,
        ImageType::Png => 1,
        ImageType::Gif => 2,
        ImageType::Jpeg => 3,
    }
}

impl ImageType {
    /// The image format stored under `trusted_image_type`, which must be one
    /// of the stored numbers 0 to 3.
    pub fn from_trusted(trusted_image_type: i32) -> (r: Self)
        requires
            0 <= trusted_image_type <= 3,
        ensures
            image_type_code(r) == trusted_image_type,
    {
        if trusted_image_type == 0 {
            ImageType::Unknown
        } else if trusted_image_type == 1 {
            ImageType::Png
        } else if trusted_image_type == 2 {
            ImageType::Gif
        } else {
            ImageType::Jpeg
        }
    }

    /// The stored number of this image format.
    pub fn code(&self) -> (r: i32)
        ensures
            r == image_type_code(*self),
    {
        match self {
            ImageType::Unknown => 0,
            ImageType::Png => 1,
            ImageType::Gif => 2,
            ImageType::Jpeg => 3,
        }
    }
}

/// Law: reading the stored number of a format gives the format back.
pub proof fn lemma_image_type_code_roundtrip(t: ImageType, u: ImageType)
    ensures
        0 <= image_type_code(t) <= 3,
        image_type_code(t) == image_type_code(u) ==> t == u,
{
}

} // verus!
