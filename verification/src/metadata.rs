use vstd::prelude::*;

verus! {

/// What the library reads of a metadata field's value: the byte strings of
/// an ASCII-typed field; every other value type is opaque to this logic.
#[derive(Clone, Debug)]
pub enum FieldValue {
    /// Byte strings of 7-bit ASCII characters, trailing nulls excluded.
    Ascii(Vec<Vec<u8>>),
    /// A value of any other type.
    Other,
}

/// The metadata tags this library reads.
#[derive(Clone, Copy, Debug, PartialEq, Eq, Structural)]
pub enum ExifTag {
    Make,
    Model,
    Software,
    DateTimeOriginal,
    DateTimeDigitized,
    DateTime,
}

/// Camera body information from an image's metadata.
#[derive(Clone, Debug)]
pub struct CameraExif {
    pub make: Option<String>,
    pub model: Option<String>,
    pub software: Option<String>,
}

/// Timestamps from an image's metadata.
#[derive(Clone, Debug)]
pub struct DateTimeExif {
    pub original: Option<String>,
    pub digitized: Option<String>,
    pub modified: Option<String>,
}

#[verifier::external_type_specification]
#[verifier::external_body]
pub struct ExExif(exif::Exif);

/// What decoding a byte string as UTF-8 yields; a function of the bytes
/// alone.
pub uninterp spec fn utf8_decode(b: Seq<u8>) -> Option<Seq<char>>;

/// Relies on core::str::from_utf8: decodes the bytes when they form valid
/// UTF-8 and refuses them otherwise, the outcome depending on the bytes
/// alone.
#[verifier::external_body]
fn bytes_to_str(b: &[u8]) -> (r: Option<&str>)
    ensures
        r is Some <==> utf8_decode(b@) is Some,
        r is Some ==> r->Some_0@ == utf8_decode(b@)->Some_0,
{
    core::str::from_utf8(b).ok()
}

/// Relies on exif::Exif::get_field: looks the tag up in the primary image's
/// directory and hands over what the library reads of the field's value.
/// Nothing is promised of the result: it depends on the metadata inside the
/// opaque `Exif` value.
#[verifier::external_body]
fn field_value(exif: &exif::Exif, tag: ExifTag) -> (r: Option<FieldValue>) {
    let t = match tag {
        ExifTag::Make => exif::Tag::Make,
        ExifTag::Model => exif::Tag::Model,
        ExifTag::Software => exif::Tag::Software,
        ExifTag::DateTimeOriginal => exif::Tag::DateTimeOriginal,
        ExifTag::DateTimeDigitized => exif::Tag::DateTimeDigitized,
        ExifTag::DateTime => exif::Tag::DateTime,
    };
    exif.get_field(t, exif::In::PRIMARY).map(|f| match &f.value {
        exif::Value::Ascii(v) => FieldValue::Ascii(v.clone()),
        _ => FieldValue::Other,
    })
}

/// The text an ASCII field carries: its first byte string decoded as UTF-8;
/// nothing for a missing field, another value type, an empty vector, or
/// bytes that are not valid UTF-8.
pub open spec fn ascii_field_spec(field: Option<&FieldValue>) -> Option<Seq<char>> {
    match field {
        Some(fv) => match *fv {
            FieldValue::Ascii(v) => if v@.len() > 0 {
                utf8_decode(v@[0]@)
            } else {
                None
            },
            FieldValue::Other => None,
        },
        None => None,
    }
}

/// Extracts the text of an ASCII field: the first of its byte strings,
/// decoded as UTF-8.
pub fn get_ascii(field: Option<&FieldValue>) -> (r: Option<String>)
    ensures
        r is Some <==> ascii_field_spec(field) is Some,
        r is Some ==> r->Some_0@ == ascii_field_spec(field)->Some_0,
{
    match field {
        Some(fv) => match fv {
            FieldValue::Ascii(v) => {
                if v.len() > 0 {
                    let first: &Vec<u8> = &v[0];
                    match bytes_to_str(first.as_slice()) {
                        Some(s) => Some(s.to_owned()),
                        None => None,
                    }
                } else {
                    None
                }
            },
            FieldValue::Other => None,
        },
        None => None,
    }
}

/// Gathers the camera make, model and software fields of the primary image.
/// Always succeeds; each field is there exactly when the metadata carries it
/// as readable text.
pub fn get_camera_exif(exif: &exif::Exif) -> (r: Option<CameraExif>)
    ensures
        r is Some,
{
    let make_field = field_value(exif, ExifTag::Make);
    let model_field = field_value(exif, ExifTag::Model);
    let software_field = field_value(exif, ExifTag::Software);
    Some(
        CameraExif {
            make: get_ascii(make_field.as_ref()),
            model: get_ascii(model_field.as_ref()),
            software: get_ascii(software_field.as_ref()),
        },
    )
}

/// Gathers the original, digitized and modified timestamps of the primary
/// image. Always succeeds; each field is there exactly when the metadata
/// carries it as readable text.
pub fn get_date_time_exif(exif: &exif::Exif) -> (r: Option<DateTimeExif>)
    ensures
        r is Some,
{
    let original_field = field_value(exif, ExifTag::DateTimeOriginal);
    let digitized_field = field_value(exif, ExifTag::DateTimeDigitized);
    let modified_field = field_value(exif, ExifTag::DateTime);
    Some(
        DateTimeExif {
            original: get_ascii(original_field.as_ref()),
            digitized: get_ascii(digitized_field.as_ref()),
            modified: get_ascii(modified_field.as_ref()),
        },
    )
}

} // verus!
