use vstd::prelude::*;

verus! {

/// How the pixels of a photo must be turned to be seen upright.
#[derive(Clone, Copy, PartialEq, Eq, Debug, Structural)]
pub enum Orientation {
    Normal,
    Rotate180,
    Rotate90,
    Rotate270,
}

/// The orientation that an EXIF `Orientation` value asks for: 3 is a half
/// turn, 6 a quarter turn clockwise, 8 a quarter turn counter-clockwise;
/// every other value, and a missing one (read as 1), leaves the image as it is.
pub open spec fn orientation_for_value(value: Option<u32>) -> Orientation {
    let v = match value {
        Some(v) => v,
        None => 1u32,
    };
    if v == 3 {
        Orientation::Rotate180
    } else if v == 6 {
        Orientation::Rotate90
    } else if v == 8 {
        Orientation::Rotate270
    } else {
        Orientation::Normal
    }
}

/// The first value of the `Orientation` field of the primary image, as
/// kamadak-exif reads it from the bytes of an image file; `None` where the
/// bytes hold no readable EXIF data, no such field, or no unsigned value.
pub uninterp spec fn exif_orientation_value(data: Seq<u8>) -> Option<u32>;

/// Reads the `Orientation` tag with kamadak-exif: `Reader::read_from_container`
/// on the file's bytes, then `Exif::get_field(Tag::Orientation, In::PRIMARY)`
/// and `Value::get_uint(0)` on its value. The contract claims only that the
/// result is a function of the bytes, named `exif_orientation_value`.
#[verifier::external_body]
fn primary_orientation_value(data: &[u8]) -> (value: Option<u32>)
    ensures
        value == exif_orientation_value(data@),
{
    let mut cursor = std::io::Cursor::new(data);
    let exif = ::exif::Reader::new().read_from_container(&mut cursor).ok()?;
    let field = exif.get_field(::exif::Tag::Orientation, ::exif::In::PRIMARY)?;
    field.value.get_uint(0)
}

/// Maps an EXIF `Orientation` value to the turn it asks for.
pub fn orientation_from_value(value: Option<u32>) -> (o: Orientation)
    ensures
        o == orientation_for_value(value),
{
    let v = match value {
        Some(v) => v,
        None => 1,
    };
    if v == 3 {
        Orientation::Rotate180
    } else if v == 6 {
        Orientation::Rotate90
    } else if v == 8 {
        Orientation::Rotate270
    } else {
        Orientation::Normal
    }
}

/// The orientation recorded in an image file. `contents` is `None` when
/// the file could not be opened, which leaves the image as it is.
pub fn read_orientation(contents: Option<&[u8]>) -> (o: Orientation)
    ensures
        match contents {
            None => o == Orientation::Normal,
            Some(data) => o == orientation_for_value(exif_orientation_value(data@)),
        },
{
    match contents {
        None => Orientation::Normal,
        Some(data) => orientation_from_value(primary_orientation_value(data)),
    }
}

/// Only the EXIF values 3, 6 and 8 turn an image: 3 a half turn, 6 a
/// quarter turn clockwise, 8 a quarter turn counter-clockwise. Every other
/// value (1, 2, 4, 5, 7, ...) and a missing tag leave it as it is.
pub proof fn lemma_only_3_6_8_turn(value: Option<u32>)
    ensures
        value == Some(3u32) ==> orientation_for_value(value) == Orientation::Rotate180,
        value == Some(6u32) ==> orientation_for_value(value) == Orientation::Rotate90,
        value == Some(8u32) ==> orientation_for_value(value) == Orientation::Rotate270,
        value != Some(3u32) && value != Some(6u32) && value != Some(8u32) ==> orientation_for_value(
            value,
        ) == Orientation::Normal,
{
}

} // verus!
