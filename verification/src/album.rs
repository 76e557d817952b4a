//! Albums and the photos in them, as a walk over the photo directory finds
//! them.

use vstd::prelude::*;
use vstd::string::StringExecFns;
use vstd::seq_lib::{lemma_sorted_unique, to_multiset_build, to_multiset_insert};
use crate::sorting::{
    insertion_index, insertion_point, is_ascending, key_texts, lemma_ascending_is_sorted,
    lemma_insert_keeps_ascending, lemma_insertion_index_is, lemma_string_order_is_total,
    string_order,
};
use crate::dates::{date_range_caption, derive_timespan};
use crate::paths::is_safe_segment;
use crate::text::{
    char_is_whitespace, chars_of, extend_chars, is_whitespace, join, opt_text, opt_texts, present,
    string_of, to_uppercase, uppercase,
};

verus! {

/// A photo of an album, known by its file name.
#[derive(Clone, Debug)]
pub struct Photo {
    pub filename: String,
}

/// An album: a directory of photos with its display data.
#[derive(Clone, Debug)]
pub struct Album {
    pub slug: String,
    pub title: String,
    pub description: String,
    pub timespan: String,
    pub cover: Option<String>,
}

/// What an album's own metadata file sets; each field overrides the value
/// that would otherwise be derived.
#[derive(Clone, Debug)]
pub struct AlbumMeta {
    pub title: Option<String>,
    pub description: Option<String>,
    pub timespan: Option<String>,
}

/// The mathematical value of an [`Album`].
pub struct AlbumView {
    pub slug: Seq<char>,
    pub title: Seq<char>,
    pub description: Seq<char>,
    pub timespan: Seq<char>,
    pub cover: Option<Seq<char>>,
}

/// The mathematical value of an [`AlbumMeta`].
pub struct AlbumMetaView {
    pub title: Option<Seq<char>>,
    pub description: Option<Seq<char>>,
    pub timespan: Option<Seq<char>>,
}

impl AlbumView {
    /// Whether the slug is a plain path component, as the name of a
    /// directory is: joined onto the photo directory, it names the album's
    /// own directory and nothing else.
    pub open spec fn has_safe_slug(self) -> bool {
        is_safe_segment(self.slug)
    }
}

impl View for Photo {
    type V = Seq<char>;

    open spec fn view(&self) -> Seq<char> {
        self.filename@
    }
}

impl View for Album {
    type V = AlbumView;

    open spec fn view(&self) -> AlbumView {
        AlbumView {
            slug: self.slug@,
            title: self.title@,
            description: self.description@,
            timespan: self.timespan@,
            cover: opt_text(self.cover),
        }
    }
}

impl View for AlbumMeta {
    type V = AlbumMetaView;

    open spec fn view(&self) -> AlbumMetaView {
        AlbumMetaView {
            title: opt_text(self.title),
            description: opt_text(self.description),
            timespan: opt_text(self.timespan),
        }
    }
}

impl Default for AlbumMeta {
    fn default() -> (meta: AlbumMeta)
        ensures
            meta@ == (AlbumMetaView { title: None, description: None, timespan: None }),
    {
        AlbumMeta { title: None, description: None, timespan: None }
    }
}

/// Whether `c` parts the words of a slug: a hyphen or white space.
pub open spec fn is_word_break(c: char) -> bool {
    c == '-' || is_whitespace(c)
}

/// The length of the run of characters at the end of `s` that part no words.
pub open spec fn trailing_word_len(s: Seq<char>) -> int
    decreases s.len(),
{
    if s.len() == 0 || is_word_break(s.last()) {
        0
    } else {
        1 + trailing_word_len(s.drop_last())
    }
}

/// The words of `s`: its longest runs of characters that part no words, in
/// order.
pub open spec fn words(s: Seq<char>) -> Seq<Seq<char>>
    decreases s.len(),
    via words_decreases
{
    if s.len() == 0 {
        Seq::empty()
    } else if is_word_break(s.last()) {
        words(s.drop_last())
    } else {
        let start = s.len() - trailing_word_len(s);
        words(s.take(start)).push(s.skip(start))
    }
}

#[via_fn]
proof fn words_decreases(s: Seq<char>) {
    if s.len() > 0 && !is_word_break(s.last()) {
        lemma_trailing_word_len_bounds(s.drop_last());
    }
}

/// `word` with its first character in uppercase; the rest is kept.
pub open spec fn capitalized(word: Seq<char>) -> Seq<char> {
    if word.len() == 0 {
        word
    } else {
        uppercase(word[0]) + word.skip(1)
    }
}

/// The title that a slug stands for: its words, each capitalized, with one
/// space between neighbours.
pub open spec fn title_text(slug: Seq<char>) -> Seq<char> {
    join(words(slug).map_values(|word: Seq<char>| capitalized(word)), seq![' '])
}

/// A word's run is at least 0 and at most the whole string.
proof fn lemma_trailing_word_len_bounds(s: Seq<char>)
    ensures
        0 <= trailing_word_len(s) <= s.len(),
    decreases s.len(),
{
    if s.len() > 0 && !is_word_break(s.last()) {
        lemma_trailing_word_len_bounds(s.drop_last());
    }
}

/// Turns a slug into a title: hyphens count as spaces, and each word gets
/// its first character in uppercase. `my-cool-album` becomes `My Cool Album`.
pub fn slug_to_title(slug: &str) -> (title: String)
    ensures
        title@ == title_text(slug@),
{
    let v = chars_of(slug);
    let mut out: Vec<char> = Vec::new();
    let mut any: bool = false;
    let mut i: usize = 0;
    let ghost caps = |word: Seq<char>| capitalized(word);
    assert(v@.take(0) =~= Seq::<char>::empty());
    while i < v.len()
        invariant
            i <= v.len(),
            caps == |word: Seq<char>| capitalized(word),
            i == 0 || i == v.len() || is_word_break(v@[i - 1]) || is_word_break(v@[i as int]),
            any == (words(v@.take(i as int)).len() > 0),
            out@ == join(words(v@.take(i as int)).map_values(caps), seq![' ']),
        decreases v.len() - i,
    {
        let c: char = v[i];
        assert(v@.take(i + 1).drop_last() =~= v@.take(i as int));
        assert(v@.take(i + 1).last() == c);
        if c == '-' || char_is_whitespace(c) {
            i += 1;
        } else {
            let start: usize = i;
            let ghost before = words(v@.take(start as int));
            assert(trailing_word_len(v@.take(start as int)) == 0);
            while i < v.len() && !(v[i] == '-' || char_is_whitespace(v[i]))
                invariant
                    start <= i <= v.len(),
                    trailing_word_len(v@.take(i as int)) == i - start,
                decreases v.len() - i,
            {
                assert(v@.take(i + 1).drop_last() =~= v@.take(i as int));
                assert(v@.take(i + 1).last() == v@[i as int]);
                i += 1;
            }
            let ghost word = v@.subrange(start as int, i as int);
            proof {
                let prefix = v@.take(i as int);
                assert(prefix.last() == v@[i - 1]);
                assert(prefix.take(start as int) =~= v@.take(start as int));
                assert(prefix.skip(start as int) =~= word);
                assert(words(prefix) == before.push(word));
                assert(before.push(word).map_values(caps) =~= before.map_values(caps).push(
                    capitalized(word),
                ));
                assert(before.map_values(caps).push(capitalized(word)).drop_last()
                    =~= before.map_values(caps));
            }
            if any {
                out.push(' ');
            }
            let upper = to_uppercase(v[start]);
            extend_chars(&mut out, &upper);
            let mut k: usize = start + 1;
            let ghost head = out@;
            while k < i
                invariant
                    start < k <= i <= v.len(),
                    out@ == head + v@.subrange(start + 1, k as int),
                decreases i - k,
            {
                out.push(v[k]);
                k += 1;
            }
            proof {
                assert(word[0] == v@[start as int]);
                assert(word.skip(1) =~= v@.subrange(start + 1, i as int));
                assert(out@ =~= join(before.push(word).map_values(caps), seq![' ']));
            }
            any = true;
        }
    }
    assert(v@.take(v.len() as int) =~= v@);
    string_of(&out)
}

/// `c` with the capital letters `A` to `Z` turned into small ones.
pub open spec fn ascii_lowercase(c: char) -> char {
    if 'A' <= c <= 'Z' {
        ((c as int) + 32) as char
    } else {
        c
    }
}

/// Whether `name` ends in `suffix`, capital and small letters taken as the
/// same. `suffix` is written in small letters.
pub open spec fn ends_with_ignoring_case(name: Seq<char>, suffix: Seq<char>) -> bool {
    name.len() >= suffix.len() && forall|i: int|
        0 <= i < suffix.len() ==> ascii_lowercase(#[trigger] name[name.len() - suffix.len() + i])
            == suffix[i]
}

/// Whether `name` is the name of a photo: it ends in `.jpg`, `.jpeg`, `.png`
/// or `.webp`, in capital or small letters.
pub open spec fn is_photo_name(name: Seq<char>) -> bool {
    ||| ends_with_ignoring_case(name, seq!['.', 'j', 'p', 'g'])
    ||| ends_with_ignoring_case(name, seq!['.', 'j', 'p', 'e', 'g'])
    ||| ends_with_ignoring_case(name, seq!['.', 'p', 'n', 'g'])
    ||| ends_with_ignoring_case(name, seq!['.', 'w', 'e', 'b', 'p'])
}

/// Whether `name` ends in `suffix`, capital and small letters taken as the
/// same.
fn ends_ignoring_case(name: &Vec<char>, suffix: &Vec<char>) -> (b: bool)
    ensures
        b == ends_with_ignoring_case(name@, suffix@),
{
    if name.len() < suffix.len() {
        return false;
    }
    let offset: usize = name.len() - suffix.len();
    let mut i: usize = 0;
    while i < suffix.len()
        invariant
            i <= suffix.len(),
            offset == name.len() - suffix.len(),
            forall|k: int|
                0 <= k < i ==> ascii_lowercase(#[trigger] name@[offset + k]) == suffix@[k],
        decreases suffix.len() - i,
    {
        let c: char = name[offset + i];
        let lower: char = if 'A' <= c && c <= 'Z' {
            ((c as u8) + 32) as char
        } else {
            c
        };
        if lower != suffix[i] {
            assert(ascii_lowercase(name@[name@.len() - suffix@.len() + i]) != suffix@[i as int]);
            return false;
        }
        i += 1;
    }
    true
}

/// Whether `name` is the name of a photo, by its extension.
pub fn has_photo_extension(name: &str) -> (b: bool)
    ensures
        b == is_photo_name(name@),
{
    let v = chars_of(name);
    let mut jpg: Vec<char> = Vec::new();
    jpg.push('.');
    jpg.push('j');
    jpg.push('p');
    jpg.push('g');
    let mut jpeg: Vec<char> = Vec::new();
    jpeg.push('.');
    jpeg.push('j');
    jpeg.push('p');
    jpeg.push('e');
    jpeg.push('g');
    let mut png: Vec<char> = Vec::new();
    png.push('.');
    png.push('p');
    png.push('n');
    png.push('g');
    let mut webp: Vec<char> = Vec::new();
    webp.push('.');
    webp.push('w');
    webp.push('e');
    webp.push('b');
    webp.push('p');
    assert(jpg@ =~= seq!['.', 'j', 'p', 'g']);
    assert(jpeg@ =~= seq!['.', 'j', 'p', 'e', 'g']);
    assert(png@ =~= seq!['.', 'p', 'n', 'g']);
    assert(webp@ =~= seq!['.', 'w', 'e', 'b', 'p']);
    ends_ignoring_case(&v, &jpg) || ends_ignoring_case(&v, &jpeg) || ends_ignoring_case(&v, &png)
        || ends_ignoring_case(&v, &webp)
}

/// The file names of the photos.
pub open spec fn photo_names(photos: Seq<Photo>) -> Seq<Seq<char>> {
    Seq::new(photos.len(), |i: int| photos[i]@)
}

/// The names of photos as a property of names.
pub open spec fn photo_name_filter() -> spec_fn(Seq<char>) -> bool {
    |name: Seq<char>| is_photo_name(name)
}

/// The photos among the entries of a directory: the names of photos, in
/// ascending order.
pub open spec fn photo_list(entries: Seq<Seq<char>>) -> Seq<Seq<char>> {
    entries.filter(photo_name_filter()).sort_by(string_order())
}

/// Lists the photos among the entries of an album's directory.
///
/// An entry is a photo where its name ends in `.jpg`, `.jpeg`, `.png` or
/// `.webp`, whatever the case of the letters. The photos come in ascending
/// order of their file names, so that the first is the cover and each has its
/// fixed neighbours.
pub fn list_photos(entries: &[String]) -> (photos: Vec<Photo>)
    ensures
        photo_names(photos@) == photo_list(entries.deep_view()),
        is_ascending(photo_names(photos@)),
        photo_names(photos@).to_multiset() == entries.deep_view().filter(
            photo_name_filter(),
        ).to_multiset(),
        forall|i: int| 0 <= i < photos.len() ==> is_photo_name(#[trigger] photos[i]@),
{
    let ghost all = entries.deep_view();
    let ghost wanted = photo_name_filter();
    let mut photos: Vec<Photo> = Vec::new();
    let mut keys: Vec<Vec<char>> = Vec::new();
    let mut i: usize = 0;
    proof {
        assert(all.take(0) =~= Seq::<Seq<char>>::empty());
        assert(all.take(0).filter(wanted) =~= Seq::<Seq<char>>::empty()) by {
            all.take(0).lemma_filter_len(wanted);
        }
        assert(photo_names(photos@) =~= Seq::<Seq<char>>::empty());
        assert(key_texts(keys@) =~= Seq::<Seq<char>>::empty());
    }
    while i < entries.len()
        invariant
            i <= entries.len(),
            all == entries.deep_view(),
            wanted == photo_name_filter(),
            photos.len() == keys.len(),
            photo_names(photos@) == key_texts(keys@),
            is_ascending(key_texts(keys@)),
            key_texts(keys@).to_multiset() == all.take(i as int).filter(wanted).to_multiset(),
            forall|k: int| 0 <= k < photos.len() ==> is_photo_name(#[trigger] photos[k]@),
        decreases entries.len() - i,
    {
        let name: &String = &entries[i];
        proof {
            assert(all.take(i + 1) =~= all.take(i as int).push(all[i as int]));
            all.take(i as int).lemma_filter_push(all[i as int], wanted);
        }
        if has_photo_extension(name.as_str()) {
            let key = chars_of(name.as_str());
            let pos = insertion_point(&keys, &key);
            proof {
                let before = key_texts(keys@);
                lemma_insert_keeps_ascending(before, key@, pos as int);
                to_multiset_insert(before, pos as int, key@);
                to_multiset_build(all.take(i as int).filter(wanted), key@);
                assert(key_texts(keys@.insert(pos as int, key)) =~= before.insert(
                    pos as int,
                    key@,
                ));
                assert(photo_names(photos@.insert(pos as int, Photo { filename: *name }))
                    =~= before.insert(pos as int, key@));
            }
            photos.insert(pos, Photo { filename: name.clone() });
            keys.insert(pos, key);
        }
        i += 1;
    }
    proof {
        assert(all.take(entries.len() as int) =~= all);
        let names = photo_names(photos@);
        let target = all.filter(wanted);
        lemma_string_order_is_total();
        target.lemma_sort_by_ensures(string_order());
        lemma_ascending_is_sorted(names);
        lemma_sorted_unique(names, target.sort_by(string_order()), string_order());
    }
    photos
}

/// The album that a directory stands for. Title, description and timespan
/// are those of the album's own metadata where it sets them; otherwise the
/// title is derived from the slug, the description is empty and the timespan
/// is the caption of the range of the capture timestamps. The cover is the
/// first photo, absent in an album without photos.
pub open spec fn album_of(
    slug: Seq<char>,
    meta: AlbumMetaView,
    photos: Seq<Seq<char>>,
    dates: Seq<Option<Seq<char>>>,
) -> AlbumView {
    AlbumView {
        slug,
        title: match meta.title {
            Some(title) => title,
            None => title_text(slug),
        },
        description: match meta.description {
            Some(description) => description,
            None => Seq::empty(),
        },
        timespan: match meta.timespan {
            Some(timespan) => timespan,
            None => date_range_caption(present(dates)),
        },
        cover: if photos.len() > 0 {
            Some(photos[0])
        } else {
            None
        },
    }
}

/// Builds the album of the directory `slug`.
///
/// `meta` is what the album's metadata file sets, `photos` the photos of the
/// album in their order, `dates` the raw capture timestamps read from them,
/// absent where a photo carries none.
pub fn load_album(
    slug: &str,
    meta: &AlbumMeta,
    photos: &[Photo],
    dates: &[Option<String>],
) -> (album: Album)
    ensures
        album@ == album_of(slug@, meta@, photo_names(photos@), opt_texts(dates@)),
        is_safe_segment(slug@) ==> album@.has_safe_slug(),
{
    let cover = if photos.len() > 0 {
        Some(photos[0].filename.clone())
    } else {
        None
    };
    let title = match &meta.title {
        Some(title) => title.clone(),
        None => slug_to_title(slug),
    };
    let description = match &meta.description {
        Some(description) => description.clone(),
        None => String::new(),
    };
    let timespan = match &meta.timespan {
        Some(timespan) => timespan.clone(),
        None => derive_timespan(dates),
    };
    Album { slug: String::from_str(slug), title, description, timespan, cover }
}

/// An entry of the photo root with what a walk found in it: its name,
/// whether it is a directory, what its metadata file sets, the names of its
/// own entries, and the raw capture timestamps read from its photos.
#[derive(Clone, Debug)]
pub struct AlbumDir {
    pub name: String,
    pub is_dir: bool,
    pub meta: AlbumMeta,
    pub entries: Vec<String>,
    pub dates: Vec<Option<String>>,
}

/// The mathematical value of an [`AlbumDir`].
pub struct AlbumDirView {
    pub name: Seq<char>,
    pub is_dir: bool,
    pub meta: AlbumMetaView,
    pub entries: Seq<Seq<char>>,
    pub dates: Seq<Option<Seq<char>>>,
}

impl View for AlbumDir {
    type V = AlbumDirView;

    open spec fn view(&self) -> AlbumDirView {
        AlbumDirView {
            name: self.name@,
            is_dir: self.is_dir,
            meta: self.meta@,
            entries: self.entries.deep_view(),
            dates: opt_texts(self.dates@),
        }
    }
}

/// Whether an entry of the photo root is an album: a directory whose name
/// does not begin with a dot.
pub open spec fn is_album_entry(name: Seq<char>, is_dir: bool) -> bool {
    is_dir && !(name.len() > 0 && name[0] == '.')
}

/// Whether an entry of the photo root is an album.
pub fn names_album(name: &str, is_dir: bool) -> (b: bool)
    ensures
        b == is_album_entry(name@, is_dir),
{
    if !is_dir {
        return false;
    }
    let v = chars_of(name);
    !(v.len() > 0 && v[0] == '.')
}

/// The album of an entry of the photo root: its name is the slug, its photos
/// are those among its entries.
pub open spec fn album_of_dir(dir: AlbumDirView) -> AlbumView {
    album_of(dir.name, dir.meta, photo_list(dir.entries), dir.dates)
}

/// The albums of the entries that are albums, in the order of the entries.
pub open spec fn found_albums(dirs: Seq<AlbumDirView>) -> Seq<AlbumView>
    decreases dirs.len(),
{
    if dirs.len() == 0 {
        Seq::empty()
    } else if is_album_entry(dirs.last().name, dirs.last().is_dir) {
        found_albums(dirs.drop_last()).push(album_of_dir(dirs.last()))
    } else {
        found_albums(dirs.drop_last())
    }
}

/// The value of each entry.
pub open spec fn dir_views(dirs: Seq<AlbumDir>) -> Seq<AlbumDirView> {
    Seq::new(dirs.len(), |i: int| dirs[i]@)
}

/// The value of each album.
pub open spec fn album_views(albums: Seq<Album>) -> Seq<AlbumView> {
    Seq::new(albums.len(), |i: int| albums[i]@)
}

/// The title of each album.
pub open spec fn titles(albums: Seq<AlbumView>) -> Seq<Seq<char>> {
    Seq::new(albums.len(), |i: int| albums[i].title)
}

/// The albums with one more put in by its title: behind every album whose
/// title is not greater, before every album whose title is.
pub open spec fn placed_by_title(albums: Seq<AlbumView>, album: AlbumView) -> Seq<AlbumView> {
    albums.insert(insertion_index(titles(albums), album.title), album)
}

/// The albums in ascending order of their titles; albums of one title keep
/// the order in which they came.
pub open spec fn ordered_by_title(albums: Seq<AlbumView>) -> Seq<AlbumView>
    decreases albums.len(),
{
    if albums.len() == 0 {
        Seq::empty()
    } else {
        placed_by_title(ordered_by_title(albums.drop_last()), albums.last())
    }
}

/// Every album that is found comes from an entry that is an album: from a
/// directory whose name does not begin with a dot.
pub proof fn lemma_found_albums_are_album_entries(dirs: Seq<AlbumDirView>, album: AlbumView)
    requires
        found_albums(dirs).contains(album),
    ensures
        exists|i: int|
            0 <= i < dirs.len() && is_album_entry(dirs[i].name, dirs[i].is_dir) && album
                == album_of_dir(#[trigger] dirs[i]),
    decreases dirs.len(),
{
    let k = choose|k: int| 0 <= k < found_albums(dirs).len() && found_albums(dirs)[k] == album;
    if dirs.len() > 0 {
        let last = dirs.last();
        let rest = dirs.drop_last();
        if is_album_entry(last.name, last.is_dir) && k == found_albums(rest).len() {
            assert(album == album_of_dir(dirs[dirs.len() - 1]));
        } else {
            assert(found_albums(rest)[k] == album);
            lemma_found_albums_are_album_entries(rest, album);
            let i = choose|i: int|
                0 <= i < rest.len() && is_album_entry(rest[i].name, rest[i].is_dir) && album
                    == album_of_dir(#[trigger] rest[i]);
            assert(dirs[i] == rest[i]);
        }
    }
}

/// Builds the albums of the photo root from what a walk found there.
///
/// Entries that are no directories, and entries whose name begins with a
/// dot, are passed over. Each other entry gives an album with the entry's
/// name as slug. The albums come in ascending order of their titles, those
/// of one title in the order of their entries.
pub fn scan_albums(dirs: &[AlbumDir]) -> (albums: Vec<Album>)
    ensures
        album_views(albums@) == ordered_by_title(found_albums(dir_views(dirs@))),
        is_ascending(titles(album_views(albums@))),
        album_views(albums@).to_multiset() == found_albums(dir_views(dirs@)).to_multiset(),
{
    let ghost all = dir_views(dirs@);
    let mut albums: Vec<Album> = Vec::new();
    let mut keys: Vec<Vec<char>> = Vec::new();
    let mut i: usize = 0;
    proof {
        assert(all.take(0) =~= Seq::<AlbumDirView>::empty());
        assert(album_views(albums@) =~= Seq::<AlbumView>::empty());
        assert(key_texts(keys@) =~= Seq::<Seq<char>>::empty());
        assert(titles(album_views(albums@)) =~= Seq::<Seq<char>>::empty());
    }
    while i < dirs.len()
        invariant
            i <= dirs.len(),
            all == dir_views(dirs@),
            albums.len() == keys.len(),
            titles(album_views(albums@)) == key_texts(keys@),
            is_ascending(key_texts(keys@)),
            album_views(albums@) == ordered_by_title(found_albums(all.take(i as int))),
            album_views(albums@).to_multiset() == found_albums(all.take(i as int)).to_multiset(),
        decreases dirs.len() - i,
    {
        let dir: &AlbumDir = &dirs[i];
        proof {
            assert(all.take(i + 1).drop_last() =~= all.take(i as int));
            assert(all.take(i + 1).last() == dir@);
        }
        if names_album(dir.name.as_str(), dir.is_dir) {
            let photos = list_photos(dir.entries.as_slice());
            let album = load_album(
                dir.name.as_str(),
                &dir.meta,
                photos.as_slice(),
                dir.dates.as_slice(),
            );
            assert(album@ == album_of_dir(dir@));
            let key = chars_of(album.title.as_str());
            let pos = insertion_point(&keys, &key);
            proof {
                let before = key_texts(keys@);
                let views = album_views(albums@);
                let found = found_albums(all.take(i as int));
                lemma_insert_keeps_ascending(before, key@, pos as int);
                lemma_insertion_index_is(titles(views), album@.title, pos as int);
                assert(found.push(album@).drop_last() =~= found);
                to_multiset_insert(views, pos as int, album@);
                to_multiset_build(found, album@);
                assert(key_texts(keys@.insert(pos as int, key)) =~= before.insert(
                    pos as int,
                    key@,
                ));
                assert(album_views(albums@.insert(pos as int, album)) =~= views.insert(
                    pos as int,
                    album@,
                ));
                assert(titles(views.insert(pos as int, album@)) =~= before.insert(
                    pos as int,
                    key@,
                ));
            }
            albums.insert(pos, album);
            keys.insert(pos, key);
        }
        i += 1;
    }
    assert(all.take(dirs.len() as int) =~= all);
    albums
}

/// Where a photo stands in its album: its position and its neighbours.
#[derive(Clone, Debug)]
pub struct PhotoPosition {
    pub index: usize,
    pub prev: Option<Photo>,
    pub next: Option<Photo>,
}

/// The file name of an optional photo.
pub open spec fn opt_photo(photo: Option<Photo>) -> Option<Seq<char>> {
    match photo {
        Some(photo) => Some(photo@),
        None => None,
    }
}

/// Whether `index` is the first position in `names` that holds `name`.
pub open spec fn is_first_position(names: Seq<Seq<char>>, name: Seq<char>, index: int) -> bool {
    &&& 0 <= index < names.len()
    &&& names[index] == name
    &&& forall|k: int| 0 <= k < index ==> names[k] != name
}

/// Finds the photo named `filename` in its album, with the photo before it
/// and the photo after it.
///
/// The result is absent where the album holds no photo of that name. The
/// first photo has nothing before it, the last nothing after it.
pub fn locate_photo(photos: &[Photo], filename: &str) -> (found: Option<PhotoPosition>)
    ensures
        match found {
            Some(position) => {
                &&& is_first_position(photo_names(photos@), filename@, position.index as int)
                &&& opt_photo(position.prev) == if position.index > 0 {
                    Some(photos[position.index - 1]@)
                } else {
                    None
                }
                &&& opt_photo(position.next) == if position.index + 1 < photos.len() {
                    Some(photos[position.index + 1]@)
                } else {
                    None
                }
            },
            None => !photo_names(photos@).contains(filename@),
        },
{
    let wanted = String::from_str(filename);
    let mut index: usize = 0;
    while index < photos.len()
        invariant
            index <= photos.len(),
            wanted@ == filename@,
            forall|k: int| 0 <= k < index ==> photo_names(photos@)[k] != filename@,
        decreases photos.len() - index,
    {
        if photos[index].filename == wanted {
            let prev = if index > 0 {
                Some(Photo { filename: photos[index - 1].filename.clone() })
            } else {
                None
            };
            let next = if index + 1 < photos.len() {
                Some(Photo { filename: photos[index + 1].filename.clone() })
            } else {
                None
            };
            assert(photo_names(photos@)[index as int] == filename@);
            return Some(PhotoPosition { index, prev, next });
        }
        assert(photo_names(photos@)[index as int] != filename@);
        index += 1;
    }
    None
}

} // verus!
