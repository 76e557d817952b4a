//! Camera metadata of a photo: reading the tags, cleaning their display text
//! and rendering the one-line summary.

use vstd::prelude::*;
use crate::text::{
    chars_of, extend_chars, join, opt_text, present, slice_of, starts_with, string_of,
};

verus! {

/// Display-ready camera metadata. A field is absent where the photo does not
/// carry the tag, or carries nothing but quotes in it.
#[derive(Clone, Debug)]
pub struct ExifInfo {
    pub camera: Option<String>,
    pub lens: Option<String>,
    pub focal_length: Option<String>,
    pub aperture: Option<String>,
    pub exposure: Option<String>,
    pub iso: Option<String>,
}

/// The mathematical value of an [`ExifInfo`].
pub struct ExifInfoView {
    pub camera: Option<Seq<char>>,
    pub lens: Option<Seq<char>>,
    pub focal_length: Option<Seq<char>>,
    pub aperture: Option<Seq<char>>,
    pub exposure: Option<Seq<char>>,
    pub iso: Option<Seq<char>>,
}

impl View for ExifInfo {
    type V = ExifInfoView;

    open spec fn view(&self) -> ExifInfoView {
        ExifInfoView {
            camera: opt_text(self.camera),
            lens: opt_text(self.lens),
            focal_length: opt_text(self.focal_length),
            aperture: opt_text(self.aperture),
            exposure: opt_text(self.exposure),
            iso: opt_text(self.iso),
        }
    }
}

/// Metadata with every field absent.
pub open spec fn no_metadata() -> ExifInfoView {
    ExifInfoView {
        camera: None,
        lens: None,
        focal_length: None,
        aperture: None,
        exposure: None,
        iso: None,
    }
}

impl Default for ExifInfo {
    fn default() -> (info: ExifInfo)
        ensures
            info@ == no_metadata(),
    {
        ExifInfo {
            camera: None,
            lens: None,
            focal_length: None,
            aperture: None,
            exposure: None,
            iso: None,
        }
    }
}

/// `text` with `prefix` before it and `suffix` after it, where it is present.
pub open spec fn decorated(prefix: Seq<char>, text: Option<Seq<char>>, suffix: Seq<char>) -> Option<
    Seq<char>,
> {
    match text {
        Some(text) => Some(prefix + text + suffix),
        None => None,
    }
}

/// What stands between the camera, the lens and the settings: a middle dot
/// with a space on each side.
pub open spec fn part_separator() -> Seq<char> {
    seq![' ', '\u{b7}', ' ']
}

/// What stands between two settings: two spaces.
pub open spec fn setting_separator() -> Seq<char> {
    seq![' ', ' ']
}

/// The settings cluster: focal length, aperture after `ƒ/`, exposure before
/// `s` and sensitivity after `ISO `, those that are present, two spaces
/// between neighbours.
pub open spec fn settings_text(info: ExifInfoView) -> Seq<char> {
    join(
        present(
            seq![
                info.focal_length,
                decorated(seq!['\u{192}', '/'], info.aperture, Seq::empty()),
                decorated(Seq::empty(), info.exposure, seq!['s']),
                decorated(seq!['I', 'S', 'O', ' '], info.iso, Seq::empty()),
            ],
        ),
        setting_separator(),
    )
}

/// The summary line: camera, lens and the settings cluster, those that are
/// present (the cluster counts as present where it is not empty), with the
/// part separator between neighbours.
pub open spec fn summary_text(info: ExifInfoView) -> Seq<char> {
    let settings = settings_text(info);
    join(
        present(
            seq![
                info.camera,
                info.lens,
                if settings.len() > 0 {
                    Some(settings)
                } else {
                    None
                },
            ],
        ),
        part_separator(),
    )
}

/// The characters of each item that is present.
pub open spec fn item_texts(items: Seq<Option<Vec<char>>>) -> Seq<Option<Seq<char>>> {
    Seq::new(
        items.len(),
        |i: int|
            match items[i] {
                Some(item) => Some(item@),
                None => None,
            },
    )
}

/// Joins the items that are present with `sep` between neighbours.
fn join_present(items: &Vec<Option<Vec<char>>>, sep: &Vec<char>) -> (out: Vec<char>)
    ensures
        out@ == join(present(item_texts(items@)), sep@),
{
    let ghost texts = item_texts(items@);
    let mut out: Vec<char> = Vec::new();
    let mut any: bool = false;
    let mut i: usize = 0;
    assert(texts.take(0) =~= Seq::empty());
    while i < items.len()
        invariant
            i <= items.len(),
            texts == item_texts(items@),
            any == (present(texts.take(i as int)).len() > 0),
            out@ == join(present(texts.take(i as int)), sep@),
        decreases items.len() - i,
    {
        assert(texts.take(i + 1).drop_last() =~= texts.take(i as int));
        assert(texts.take(i + 1).last() == texts[i as int]);
        let ghost before = present(texts.take(i as int));
        match &items[i] {
            Some(item) => {
                assert(before.push(item@).drop_last() =~= before);
                if any {
                    extend_chars(&mut out, sep);
                }
                extend_chars(&mut out, item);
                assert(out@ =~= join(before.push(item@), sep@));
                any = true;
            },
            None => {},
        }
        i += 1;
    }
    assert(texts.take(items.len() as int) =~= texts);
    out
}

/// The characters of an optional string, between `prefix` and `suffix`.
fn decorate(prefix: &Vec<char>, text: &Option<String>, suffix: &Vec<char>) -> (out: Option<
    Vec<char>,
>)
    ensures
        match out {
            Some(v) => decorated(prefix@, opt_text(*text), suffix@) == Some(v@),
            None => decorated(prefix@, opt_text(*text), suffix@) is None,
        },
{
    match text {
        Some(text) => {
            let mut v: Vec<char> = Vec::new();
            extend_chars(&mut v, prefix);
            let body = chars_of(text.as_str());
            extend_chars(&mut v, &body);
            extend_chars(&mut v, suffix);
            assert(v@ =~= prefix@ + text@ + suffix@);
            Some(v)
        },
        None => None,
    }
}

impl ExifInfo {
    /// Renders the metadata as one display line.
    ///
    /// Camera and lens come first, then the settings: focal length, `ƒ/` and
    /// the aperture, the exposure and `s`, `ISO ` and the sensitivity, two
    /// spaces between them. Absent fields are left out; a middle dot between
    /// spaces parts camera, lens and the settings, and the settings are left
    /// out where they come to nothing.
    pub fn summary(&self) -> (line: String)
        ensures
            line@ == summary_text(self@),
    {
        let empty: Vec<char> = Vec::new();
        let mut aperture_mark: Vec<char> = Vec::new();
        aperture_mark.push('\u{192}');
        aperture_mark.push('/');
        let mut seconds: Vec<char> = Vec::new();
        seconds.push('s');
        let mut iso_mark: Vec<char> = Vec::new();
        iso_mark.push('I');
        iso_mark.push('S');
        iso_mark.push('O');
        iso_mark.push(' ');
        let mut two_spaces: Vec<char> = Vec::new();
        two_spaces.push(' ');
        two_spaces.push(' ');
        let mut dot: Vec<char> = Vec::new();
        dot.push(' ');
        dot.push('\u{b7}');
        dot.push(' ');
        assert(aperture_mark@ =~= seq!['\u{192}', '/']);
        assert(seconds@ =~= seq!['s']);
        assert(iso_mark@ =~= seq!['I', 'S', 'O', ' ']);
        assert(two_spaces@ =~= setting_separator());
        assert(dot@ =~= part_separator());
        assert(empty@ =~= Seq::<char>::empty());

        let mut settings: Vec<Option<Vec<char>>> = Vec::new();
        settings.push(decorate(&empty, &self.focal_length, &empty));
        settings.push(decorate(&aperture_mark, &self.aperture, &empty));
        settings.push(decorate(&empty, &self.exposure, &seconds));
        settings.push(decorate(&iso_mark, &self.iso, &empty));
        proof {
            let fl = self@.focal_length;
            assert(decorated(Seq::empty(), fl, Seq::empty()) == fl) by {
                if fl is Some {
                    assert(Seq::<char>::empty() + fl->0 + Seq::<char>::empty() =~= fl->0);
                }
            }
            assert(item_texts(settings@) =~= seq![
                self@.focal_length,
                decorated(seq!['\u{192}', '/'], self@.aperture, Seq::empty()),
                decorated(Seq::empty(), self@.exposure, seq!['s']),
                decorated(seq!['I', 'S', 'O', ' '], self@.iso, Seq::empty()),
            ]);
        }
        let settings_line = join_present(&settings, &two_spaces);
        assert(settings_line@ == settings_text(self@));

        let mut parts: Vec<Option<Vec<char>>> = Vec::new();
        parts.push(decorate(&empty, &self.camera, &empty));
        parts.push(decorate(&empty, &self.lens, &empty));
        if settings_line.len() > 0 {
            parts.push(Some(settings_line));
        } else {
            parts.push(None);
        }
        proof {
            let camera = self@.camera;
            let lens = self@.lens;
            assert(decorated(Seq::empty(), camera, Seq::empty()) == camera) by {
                if camera is Some {
                    assert(Seq::<char>::empty() + camera->0 + Seq::<char>::empty() =~= camera->0);
                }
            }
            assert(decorated(Seq::empty(), lens, Seq::empty()) == lens) by {
                if lens is Some {
                    assert(Seq::<char>::empty() + lens->0 + Seq::<char>::empty() =~= lens->0);
                }
            }
            let cluster = settings_text(self@);
            assert(item_texts(parts@) =~= seq![
                camera,
                lens,
                if cluster.len() > 0 {
                    Some(cluster)
                } else {
                    None
                },
            ]);
        }
        let line = join_present(&parts, &dot);
        string_of(&line)
    }
}

/// `raw` without one quote at its start and without one quote at its end,
/// each where there is one.
pub open spec fn without_quote_pair(raw: Seq<char>) -> Seq<char> {
    let rest = if raw.len() > 0 && raw.first() == '"' {
        raw.drop_first()
    } else {
        raw
    };
    if rest.len() > 0 && rest.last() == '"' {
        rest.drop_last()
    } else {
        rest
    }
}

/// Whether `s` holds nothing but quotes; the empty string does.
pub open spec fn is_only_quotes(s: Seq<char>) -> bool {
    forall|i: int| 0 <= i < s.len() ==> s[i] == '"'
}

/// The cleaned value of a tag's display text: the text without its pair of
/// surrounding quotes, or absent where nothing but quotes is left.
pub open spec fn clean_value(raw: Seq<char>) -> Option<Seq<char>> {
    let value = without_quote_pair(raw);
    if is_only_quotes(value) {
        None
    } else {
        Some(value)
    }
}

/// Cleans the display text of a tag.
///
/// One leading and one trailing quote are taken off. What is left is the
/// value, unless it is empty or holds quotes only: then the value is absent.
pub fn clean_exif_value(raw: &str) -> (value: Option<String>)
    ensures
        opt_text(value) == clean_value(raw@),
{
    let v = chars_of(raw);
    let from: usize = if v.len() > 0 && v[0] == '"' {
        1
    } else {
        0
    };
    let to: usize = if v.len() > from && v[v.len() - 1] == '"' {
        v.len() - 1
    } else {
        v.len()
    };
    let value = slice_of(&v, from, to);
    assert(value@ =~= without_quote_pair(raw@));
    let mut i: usize = 0;
    while i < value.len()
        invariant
            i <= value.len(),
            value@ == without_quote_pair(raw@),
            forall|k: int| 0 <= k < i ==> value@[k] == '"',
        decreases value.len() - i,
    {
        if value[i] != '"' {
            return Some(string_of(&value));
        }
        i += 1;
    }
    None
}

/// A text between two quotes cleans to what stands between them, whatever
/// quotes that holds itself; it cleans to nothing where nothing but quotes
/// stands between them. The empty text cleans to nothing.
pub proof fn lemma_clean_value_takes_off_one_pair(body: Seq<char>)
    ensures
        clean_value(seq!['"'] + body + seq!['"']) == if is_only_quotes(body) {
            None
        } else {
            Some(body)
        },
        clean_value(Seq::empty()) == None::<Seq<char>>,
{
    let raw = seq!['"'] + body + seq!['"'];
    assert(raw.first() == '"');
    assert(raw.drop_first() =~= body + seq!['"']);
    assert((body + seq!['"']).last() == '"');
    assert((body + seq!['"']).drop_last() =~= body);
    assert(without_quote_pair(raw) == body);
    assert(without_quote_pair(Seq::empty()) =~= Seq::<char>::empty());
}

/// A text without a quote at either end cleans to itself, unless it is empty.
pub proof fn lemma_clean_value_keeps_plain_text(raw: Seq<char>)
    requires
        raw.len() > 0,
        raw.first() != '"',
        raw.last() != '"',
    ensures
        clean_value(raw) == Some(raw),
{
    assert(without_quote_pair(raw) == raw);
    assert(raw[0] != '"');
}

/// The camera's name from its make and model: the model alone where it
/// already begins with the make, else make, a space and model; the one that
/// is present where the other is absent; absent where both are.
pub open spec fn camera_text(make: Option<Seq<char>>, model: Option<Seq<char>>) -> Option<
    Seq<char>,
> {
    match (make, model) {
        (Some(make), Some(model)) => if make.is_prefix_of(model) {
            Some(model)
        } else {
            Some(make + seq![' '] + model)
        },
        (None, Some(model)) => Some(model),
        (Some(make), None) => Some(make),
        (None, None) => None,
    }
}

/// Deriving the name again from the make and the name already derived
/// changes nothing: the make is never said twice.
pub proof fn lemma_camera_text_is_idempotent(make: Seq<char>, model: Seq<char>)
    ensures
        camera_text(Some(make), camera_text(Some(make), Some(model))) == camera_text(
            Some(make),
            Some(model),
        ),
{
    if !make.is_prefix_of(model) {
        let name = make + seq![' '] + model;
        assert(name.subrange(0, make.len() as int) =~= make);
        assert(make.is_prefix_of(name));
    }
}

/// Derives the camera's display name from make and model.
///
/// With both present, a model that begins with the make stands alone, so that
/// the make is not said twice; otherwise the name is the make, a space and the
/// model. With one present the name is that one; with none it is absent.
pub fn camera_name(make: Option<String>, model: Option<String>) -> (camera: Option<String>)
    ensures
        opt_text(camera) == camera_text(opt_text(make), opt_text(model)),
{
    match (make, model) {
        (Some(make), Some(model)) => {
            let make_chars = chars_of(make.as_str());
            let model_chars = chars_of(model.as_str());
            if starts_with(&model_chars, &make_chars) {
                Some(model)
            } else {
                let mut name = make_chars;
                name.push(' ');
                extend_chars(&mut name, &model_chars);
                assert(name@ =~= make@ + seq![' '] + model@);
                Some(string_of(&name))
            }
        },
        (None, Some(model)) => Some(model),
        (Some(make), None) => Some(make),
        (None, None) => None,
    }
}

/// The parsed metadata container of an image, as the `exif` crate holds it.
#[verifier::external_type_specification]
#[verifier::external_body]
pub struct ExExif(::exif::Exif);

/// One field of a metadata container, as the `exif` crate holds it.
#[verifier::external_type_specification]
#[verifier::external_body]
pub struct ExField(::exif::Field);

/// The directory of the metadata container in which a tag number is read.
#[derive(Clone, Copy, PartialEq, Eq, Debug)]
pub enum TagContext {
    /// Attributes of the image itself.
    Tiff,
    /// Attributes of the capture.
    Exif,
    /// Position attributes.
    Gps,
    /// Interoperability attributes.
    Interop,
}

/// A tag: its directory and its number in that directory.
#[derive(Clone, Copy, PartialEq, Eq, Debug)]
pub struct TagId {
    pub context: TagContext,
    pub number: u16,
}

/// The number of the tag for the camera's maker, an attribute of the image.
pub const MAKE: u16 = 0x010f;

/// The number of the tag for the camera's model, an attribute of the image.
pub const MODEL: u16 = 0x0110;

/// The number of the tag for the exposure time, an attribute of the capture.
pub const EXPOSURE_TIME: u16 = 0x829a;

/// The number of the tag for the F number, an attribute of the capture.
pub const F_NUMBER: u16 = 0x829d;

/// The number of the tag for the sensitivity, an attribute of the capture.
pub const PHOTOGRAPHIC_SENSITIVITY: u16 = 0x8827;

/// The number of the tag for the moment of capture, an attribute of the
/// capture.
pub const DATE_TIME_ORIGINAL: u16 = 0x9003;

/// The number of the tag for the focal length, an attribute of the capture.
pub const FOCAL_LENGTH: u16 = 0x920a;

/// The number of the tag for the lens model, an attribute of the capture.
pub const LENS_MODEL: u16 = 0xa434;

/// The tag with number `number` among the attributes of the image itself.
pub open spec fn tiff_tag(number: u16) -> TagId {
    TagId { context: TagContext::Tiff, number }
}

/// The tag with number `number` among the attributes of the capture.
pub open spec fn exif_tag(number: u16) -> TagId {
    TagId { context: TagContext::Exif, number }
}

impl TagId {
    /// The tag with number `number` among the attributes of the image itself.
    pub fn tiff(number: u16) -> (tag: TagId)
        ensures
            tag == tiff_tag(number),
    {
        TagId { context: TagContext::Tiff, number }
    }

    /// The tag with number `number` among the attributes of the capture.
    pub fn exif(number: u16) -> (tag: TagId)
        ensures
            tag == exif_tag(number),
    {
        TagId { context: TagContext::Exif, number }
    }
}

/// What `exif::Reader::read_from_container` makes of the bytes of an image
/// file: the parsed container, or nothing where it reports an error.
pub uninterp spec fn parsed_container(bytes: Seq<u8>) -> Option<::exif::Exif>;

/// The field that `exif::Exif::get_field` finds under `tag` in the primary
/// image, or nothing where the container holds no such field.
pub uninterp spec fn primary_field(exif: ::exif::Exif, tag: TagId) -> Option<::exif::Field>;

/// The text that `exif::Field::display_value` renders for a field.
pub uninterp spec fn field_display_text(field: ::exif::Field) -> Seq<char>;

/// The display text of the field under `tag` in the primary image, or
/// nothing where the container holds no such field.
pub open spec fn primary_display_text(exif: ::exif::Exif, tag: TagId) -> Option<Seq<char>> {
    match primary_field(exif, tag) {
        Some(field) => Some(field_display_text(field)),
        None => None,
    }
}

/// Parses the metadata container out of the bytes of an image file.
///
/// Calls `exif::Reader::read_from_container` on a reader over `bytes`. The
/// result is a function of the bytes alone; an error of the reader, whatever
/// its kind, gives `None`.
#[verifier::external_body]
pub fn read_exif(bytes: &[u8]) -> (exif: Option<::exif::Exif>)
    ensures
        exif == parsed_container(bytes@),
{
    ::exif::Reader::new().read_from_container(&mut std::io::Cursor::new(bytes)).ok()
}

/// Looks `tag` up in the primary image with `exif::Exif::get_field`. The
/// field found is a function of the container and the tag alone; a container
/// without the field gives `None`.
#[verifier::external_body]
fn find_primary_field<'a>(exif: &'a ::exif::Exif, tag: TagId) -> (field: Option<&'a ::exif::Field>)
    ensures
        match field {
            Some(field) => primary_field(*exif, tag) == Some(*field),
            None => primary_field(*exif, tag) is None,
        },
{
    let context = match tag.context {
        TagContext::Tiff => ::exif::Context::Tiff,
        TagContext::Exif => ::exif::Context::Exif,
        TagContext::Gps => ::exif::Context::Gps,
        TagContext::Interop => ::exif::Context::Interop,
    };
    exif.get_field(::exif::Tag(context, tag.number), ::exif::In::PRIMARY)
}

/// Renders the value of a field as text with `exif::Field::display_value`.
/// The text is a function of the field alone.
#[verifier::external_body]
fn render_field(field: &::exif::Field) -> (text: String)
    ensures
        text@ == field_display_text(*field),
{
    field.display_value().to_string()
}

/// The cleaned value of `tag` in the primary image: the display text of the
/// field, cleaned; absent where the field is missing or cleans to nothing.
pub open spec fn field_value(exif: ::exif::Exif, tag: TagId) -> Option<Seq<char>> {
    match primary_display_text(exif, tag) {
        Some(text) => clean_value(text),
        None => None,
    }
}

/// The cleaned display value of `tag` in the primary image of `exif`.
pub fn exif_field(exif: &::exif::Exif, tag: TagId) -> (value: Option<String>)
    ensures
        opt_text(value) == field_value(*exif, tag),
{
    match find_primary_field(exif, tag) {
        Some(field) => {
            let text = render_field(field);
            clean_exif_value(text.as_str())
        },
        None => None,
    }
}

/// The unit that follows a focal length: a space and `mm`.
pub open spec fn millimetres() -> Seq<char> {
    seq![' ', 'm', 'm']
}

/// The metadata that a parsed container yields. Without a container every
/// field is absent. With one, the camera is derived from make and model, the
/// focal length carries its unit, and lens, aperture, exposure and
/// sensitivity are the cleaned values of their tags.
pub open spec fn metadata_of(exif: Option<::exif::Exif>) -> ExifInfoView {
    match exif {
        None => no_metadata(),
        Some(exif) => ExifInfoView {
            camera: camera_text(
                field_value(exif, tiff_tag(MAKE)),
                field_value(exif, tiff_tag(MODEL)),
            ),
            lens: field_value(exif, exif_tag(LENS_MODEL)),
            focal_length: decorated(
                Seq::empty(),
                field_value(exif, exif_tag(FOCAL_LENGTH)),
                millimetres(),
            ),
            aperture: field_value(exif, exif_tag(F_NUMBER)),
            exposure: field_value(exif, exif_tag(EXPOSURE_TIME)),
            iso: field_value(exif, exif_tag(PHOTOGRAPHIC_SENSITIVITY)),
        },
    }
}

/// The metadata of a parsed container, or of none.
pub fn exif_info(exif: Option<&::exif::Exif>) -> (info: ExifInfo)
    ensures
        info@ == metadata_of(
            match exif {
                Some(exif) => Some(*exif),
                None => None,
            },
        ),
{
    let exif = match exif {
        Some(exif) => exif,
        None => {
            return ExifInfo::default();
        },
    };
    let camera = camera_name(
        exif_field(exif, TagId::tiff(MAKE)),
        exif_field(exif, TagId::tiff(MODEL)),
    );
    let focal_length = match exif_field(exif, TagId::exif(FOCAL_LENGTH)) {
        Some(value) => {
            let mut text = chars_of(value.as_str());
            text.push(' ');
            text.push('m');
            text.push('m');
            assert(text@ =~= Seq::<char>::empty() + value@ + millimetres());
            Some(string_of(&text))
        },
        None => None,
    };
    ExifInfo {
        camera,
        lens: exif_field(exif, TagId::exif(LENS_MODEL)),
        focal_length,
        aperture: exif_field(exif, TagId::exif(F_NUMBER)),
        exposure: exif_field(exif, TagId::exif(EXPOSURE_TIME)),
        iso: exif_field(exif, TagId::exif(PHOTOGRAPHIC_SENSITIVITY)),
    }
}

/// Extracts the camera metadata from the bytes of an image file.
///
/// Never fails: bytes that hold no readable container, and tags that are
/// missing, give absent fields.
pub fn read_exif_info(bytes: &[u8]) -> (info: ExifInfo)
    ensures
        info@ == metadata_of(parsed_container(bytes@)),
{
    let exif = read_exif(bytes);
    exif_info(exif.as_ref())
}

/// The raw capture timestamp that a parsed container yields: the cleaned
/// value of the original capture date, absent without a container.
pub open spec fn capture_date_of(exif: Option<::exif::Exif>) -> Option<Seq<char>> {
    match exif {
        Some(exif) => field_value(exif, exif_tag(DATE_TIME_ORIGINAL)),
        None => None,
    }
}

/// Extracts the raw capture timestamp from the bytes of an image file, absent
/// where the bytes hold no readable container or no capture date.
pub fn read_exif_date(bytes: &[u8]) -> (date: Option<String>)
    ensures
        opt_text(date) == capture_date_of(parsed_container(bytes@)),
{
    match read_exif(bytes) {
        Some(exif) => exif_field(&exif, TagId::exif(DATE_TIME_ORIGINAL)),
        None => None,
    }
}

} // verus!
