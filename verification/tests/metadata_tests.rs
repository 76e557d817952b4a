use exif::experimental::Writer;
use exif::{Field, In, Rational, Tag, Value};
use kuvasivu::metadata::{
    camera_name, clean_exif_value, exif_field, exif_info, read_exif, read_exif_date,
    read_exif_info, ExifInfo, TagContext, TagId,
};

fn ascii(tag: Tag, text: &str) -> Field {
    Field { tag, ifd_num: In::PRIMARY, value: Value::Ascii(vec![text.as_bytes().to_vec()]) }
}

fn rational(tag: Tag, num: u32, denom: u32) -> Field {
    Field { tag, ifd_num: In::PRIMARY, value: Value::Rational(vec![Rational { num, denom }]) }
}

fn tiff_with(fields: &[Field]) -> Vec<u8> {
    let mut writer = Writer::new();
    for field in fields {
        writer.push_field(field);
    }
    let mut buf = std::io::Cursor::new(Vec::new());
    writer.write(&mut buf, false).unwrap();
    buf.into_inner()
}

/// A container with the metadata of a photo taken with a FUJIFILM X-T5.
fn fixture() -> Vec<u8> {
    tiff_with(&[
        ascii(Tag::Make, "FUJIFILM"),
        ascii(Tag::Model, "X-T5"),
        ascii(Tag::LensModel, "Fujifilm Fujinon XF18mmF1.4 R LM WR"),
        rational(Tag::FocalLength, 1800, 100),
        rational(Tag::FNumber, 560, 100),
        rational(Tag::ExposureTime, 1, 280),
        Field {
            tag: Tag::PhotographicSensitivity,
            ifd_num: In::PRIMARY,
            value: Value::Short(vec![125]),
        },
        ascii(Tag::DateTimeOriginal, "2026:02:01 15:01:06"),
    ])
}

/// What the reader of files hands to the library for a path that it cannot
/// open: no bytes.
fn unreadable(_path: &str) -> Vec<u8> {
    Vec::new()
}

#[test]
fn read_exif_info_from_jpeg() {
    let info = read_exif_info(&fixture());

    assert_eq!(info.camera.as_deref(), Some("FUJIFILM X-T5"));
    assert_eq!(info.lens.as_deref(), Some("Fujifilm Fujinon XF18mmF1.4 R LM WR"));
    assert_eq!(info.focal_length.as_deref(), Some("18 mm"));
    assert_eq!(info.aperture.as_deref(), Some("5.6"));
    assert_eq!(info.exposure.as_deref(), Some("1/280"));
    assert_eq!(info.iso.as_deref(), Some("125"));
}

#[test]
fn read_exif_date_from_jpeg() {
    let date = read_exif_date(&fixture());
    assert_eq!(date.as_deref(), Some("2026-02-01 15:01:06"));
}

#[test]
fn read_exif_info_missing_file() {
    let info = read_exif_info(&unreadable("/nonexistent/photo.jpg"));

    assert!(info.camera.is_none());
    assert!(info.lens.is_none());
    assert!(info.focal_length.is_none());
    assert!(info.aperture.is_none());
    assert!(info.exposure.is_none());
    assert!(info.iso.is_none());
}

#[test]
fn read_exif_date_missing_file() {
    assert!(read_exif_date(&unreadable("/nonexistent/photo.jpg")).is_none());
}

#[test]
fn summary_all_fields() {
    let info = read_exif_info(&fixture());
    let summary = info.summary();

    assert!(summary.contains("FUJIFILM X-T5"));
    assert!(summary.contains("XF18mmF1.4"));
    assert!(summary.contains("18 mm"));
    assert!(summary.contains("\u{192}/5.6"));
    assert!(summary.contains("1/280s"));
    assert!(summary.contains("ISO 125"));
}

#[test]
fn summary_all_fields_exact() {
    let info = read_exif_info(&fixture());
    assert_eq!(
        info.summary(),
        "FUJIFILM X-T5 \u{b7} Fujifilm Fujinon XF18mmF1.4 R LM WR \u{b7} 18 mm  \u{192}/5.6  1/280s  ISO 125"
    );
}

#[test]
fn summary_empty() {
    let info = ExifInfo::default();
    assert_eq!(info.summary(), "");
}

#[test]
fn summary_camera_only() {
    let info = ExifInfo { camera: Some("FUJIFILM X-T5".to_string()), ..Default::default() };
    assert_eq!(info.summary(), "FUJIFILM X-T5");
}

#[test]
fn summary_settings_only() {
    let info = ExifInfo {
        aperture: Some("2.8".to_string()),
        iso: Some("400".to_string()),
        ..Default::default()
    };
    assert_eq!(info.summary(), "\u{192}/2.8  ISO 400");
}

#[test]
fn summary_camera_and_lens_without_settings() {
    let info = ExifInfo {
        camera: Some("Canon EOS R5".to_string()),
        lens: Some("RF 50mm".to_string()),
        ..Default::default()
    };
    assert_eq!(info.summary(), "Canon EOS R5 \u{b7} RF 50mm");
}

#[test]
fn summary_leaves_out_settings_that_come_to_nothing() {
    let info = ExifInfo {
        camera: Some("X-T5".to_string()),
        focal_length: Some(String::new()),
        ..Default::default()
    };
    assert_eq!(info.summary(), "X-T5");
}

#[test]
fn camera_deduplicates_make_in_model() {
    let info = read_exif_info(&fixture());
    assert_eq!(info.camera.as_deref(), Some("FUJIFILM X-T5"));

    let canon = read_exif_info(&tiff_with(&[
        ascii(Tag::Make, "Canon"),
        ascii(Tag::Model, "Canon EOS R5"),
    ]));
    assert_eq!(canon.camera.as_deref(), Some("Canon EOS R5"));
}

#[test]
fn camera_name_model_starts_with_make() {
    let result = camera_name(Some("Canon".into()), Some("Canon EOS R5".into()));
    assert_eq!(result.as_deref(), Some("Canon EOS R5"));
}

#[test]
fn camera_name_make_and_model() {
    let result = camera_name(Some("FUJIFILM".into()), Some("X-T5".into()));
    assert_eq!(result.as_deref(), Some("FUJIFILM X-T5"));
}

#[test]
fn camera_name_model_only() {
    let result = camera_name(None, Some("X-T5".into()));
    assert_eq!(result.as_deref(), Some("X-T5"));
}

#[test]
fn camera_name_make_only() {
    let result = camera_name(Some("FUJIFILM".into()), None);
    assert_eq!(result.as_deref(), Some("FUJIFILM"));
}

#[test]
fn camera_name_none() {
    assert!(camera_name(None, None).is_none());
}

#[test]
fn camera_name_make_longer_than_model() {
    let result = camera_name(Some("FUJIFILM".into()), Some("FUJI".into()));
    assert_eq!(result.as_deref(), Some("FUJIFILM FUJI"));
}

#[test]
fn clean_exif_value_normal() {
    assert_eq!(clean_exif_value("hello"), Some("hello".into()));
}

#[test]
fn clean_exif_value_quoted() {
    assert_eq!(clean_exif_value("\"hello\""), Some("hello".into()));
}

#[test]
fn clean_exif_value_empty() {
    assert!(clean_exif_value("").is_none());
}

#[test]
fn clean_exif_value_only_quotes() {
    assert!(clean_exif_value("\"\"").is_none());
}

#[test]
fn clean_exif_value_takes_off_one_pair_only() {
    assert_eq!(clean_exif_value("\"\"hello\"\""), Some("\"hello\"".into()));
    assert_eq!(clean_exif_value("\"a\", \"b\""), Some("a\", \"b".into()));
}

#[test]
fn clean_exif_value_one_sided_quote() {
    assert_eq!(clean_exif_value("\"hello"), Some("hello".into()));
    assert_eq!(clean_exif_value("hello\""), Some("hello".into()));
    assert!(clean_exif_value("\"").is_none());
}

#[test]
fn clean_exif_value_quotes_all_through() {
    assert!(clean_exif_value("\"\"\"").is_none());
    assert!(clean_exif_value("\"\"\"\"\"").is_none());
}

#[test]
fn exif_field_missing_tag() {
    let exif = read_exif(&fixture()).unwrap();
    let latitude = TagId { context: TagContext::Gps, number: Tag::GPSLatitude.number() };
    assert!(exif_field(&exif, latitude).is_none());
}

#[test]
fn exif_field_reads_the_tag_it_is_asked_for() {
    let exif = read_exif(&fixture()).unwrap();
    assert_eq!(exif_field(&exif, TagId::tiff(Tag::Make.number())).as_deref(), Some("FUJIFILM"));
    assert_eq!(exif_field(&exif, TagId::tiff(Tag::Model.number())).as_deref(), Some("X-T5"));
    assert_eq!(
        exif_field(&exif, TagId::exif(Tag::ExposureTime.number())).as_deref(),
        Some("1/280")
    );
    // The same number in another directory is another tag.
    assert!(exif_field(&exif, TagId::exif(Tag::Make.number())).is_none());
}

#[test]
fn tag_numbers_are_those_of_the_reader() {
    assert_eq!(kuvasivu::metadata::MAKE, Tag::Make.number());
    assert_eq!(kuvasivu::metadata::MODEL, Tag::Model.number());
    assert_eq!(kuvasivu::metadata::LENS_MODEL, Tag::LensModel.number());
    assert_eq!(kuvasivu::metadata::FOCAL_LENGTH, Tag::FocalLength.number());
    assert_eq!(kuvasivu::metadata::F_NUMBER, Tag::FNumber.number());
    assert_eq!(kuvasivu::metadata::EXPOSURE_TIME, Tag::ExposureTime.number());
    assert_eq!(
        kuvasivu::metadata::PHOTOGRAPHIC_SENSITIVITY,
        Tag::PhotographicSensitivity.number()
    );
    assert_eq!(kuvasivu::metadata::DATE_TIME_ORIGINAL, Tag::DateTimeOriginal.number());
}

#[test]
fn read_exif_rejects_what_is_no_container() {
    assert!(read_exif(b"not a real jpeg").is_none());
    assert!(read_exif(&[]).is_none());
}

#[test]
fn exif_info_without_container() {
    let info = exif_info(None);
    assert!(info.camera.is_none());
    assert_eq!(info.summary(), "");
}

#[test]
fn read_exif_info_without_tags() {
    let info = read_exif_info(&tiff_with(&[ascii(Tag::ImageDescription, "a view")]));
    assert!(info.camera.is_none());
    assert!(info.lens.is_none());
    assert!(info.focal_length.is_none());
    assert!(info.aperture.is_none());
    assert!(info.exposure.is_none());
    assert!(info.iso.is_none());
}

#[test]
fn read_exif_info_blank_make() {
    let info = read_exif_info(&tiff_with(&[ascii(Tag::Make, ""), ascii(Tag::Model, "X-T5")]));
    assert_eq!(info.camera.as_deref(), Some("X-T5"));
}
