//! Documents: their icons and file types, short names and previews, and how one is
//! downloaded.

use vstd::prelude::*;
use crate::text::{
    blank, byte_len, chars_of, lowercase, one_of, prefix_within_bytes, push_char, push_text,
    slice_chars, string_of, text_eq, to_lower, trim_chars, trim_spec, utf8_width, views_of,
};

verus! {

/// Word processing extensions.
pub open spec fn word_exts() -> Seq<&'static str> {
    seq!["doc", "docx", "odt"]
}

/// Spreadsheet extensions.
pub open spec fn sheet_exts() -> Seq<&'static str> {
    seq!["xls", "xlsx"]
}

/// Slide extensions.
pub open spec fn slide_exts() -> Seq<&'static str> {
    seq!["ppt", "pptx"]
}

/// Plain text and code extensions.
pub open spec fn text_exts() -> Seq<&'static str> {
    seq!["txt", "md", "rs", "js", "ts", "html", "css"]
}

/// Archive extensions.
pub open spec fn archive_exts() -> Seq<&'static str> {
    seq!["zip", "rar", "7z", "tar"]
}

/// Image extensions that have their own icon.
pub open spec fn picture_exts() -> Seq<&'static str> {
    seq!["jpg", "jpeg", "png", "gif", "webp", "svg"]
}

/// Video extensions that have their own icon.
pub open spec fn movie_exts() -> Seq<&'static str> {
    seq!["mp4", "mov", "avi", "mkv", "webm"]
}

/// Audio extensions that have their own icon.
pub open spec fn sound_exts() -> Seq<&'static str> {
    seq!["mp3", "wav", "flac"]
}

/// The icon for a lowercase file type.
pub open spec fn icon_for_ext(s: Seq<char>) -> Seq<char> {
    if s == "pdf"@ {
        "📕"@
    } else if views_of(word_exts()).contains(s) {
        "📘"@
    } else if views_of(sheet_exts()).contains(s) {
        "📗"@
    } else if views_of(slide_exts()).contains(s) {
        "📙"@
    } else if views_of(text_exts()).contains(s) {
        "📄"@
    } else if views_of(archive_exts()).contains(s) {
        "🗜️"@
    } else if views_of(picture_exts()).contains(s) {
        "🖼️"@
    } else if views_of(movie_exts()).contains(s) {
        "🎬"@
    } else if views_of(sound_exts()).contains(s) {
        "🎵"@
    } else {
        "📎"@
    }
}

/// The icon for a file type that is already in lowercase.
pub fn icon_for_extension(lower: &str) -> (icon: &'static str)
    ensures
        icon@ == icon_for_ext(lower@),
{
    let word = ["doc", "docx", "odt"];
    let sheet = ["xls", "xlsx"];
    let slide = ["ppt", "pptx"];
    let text = ["txt", "md", "rs", "js", "ts", "html", "css"];
    let archive = ["zip", "rar", "7z", "tar"];
    let picture = ["jpg", "jpeg", "png", "gif", "webp", "svg"];
    let movie = ["mp4", "mov", "avi", "mkv", "webm"];
    let sound = ["mp3", "wav", "flac"];
    assert(word@ =~= word_exts());
    assert(sheet@ =~= sheet_exts());
    assert(slide@ =~= slide_exts());
    assert(text@ =~= text_exts());
    assert(archive@ =~= archive_exts());
    assert(picture@ =~= picture_exts());
    assert(movie@ =~= movie_exts());
    assert(sound@ =~= sound_exts());
    if text_eq(lower, "pdf") {
        "📕"
    } else if one_of(lower, &word) {
        "📘"
    } else if one_of(lower, &sheet) {
        "📗"
    } else if one_of(lower, &slide) {
        "📙"
    } else if one_of(lower, &text) {
        "📄"
    } else if one_of(lower, &archive) {
        "🗜️"
    } else if one_of(lower, &picture) {
        "🖼️"
    } else if one_of(lower, &movie) {
        "🎬"
    } else if one_of(lower, &sound) {
        "🎵"
    } else {
        "📎"
    }
}

/// The icon shown for a document of type `file_type`, whatever its case.
pub fn document_icon(file_type: &str) -> (icon: &'static str)
    ensures
        icon@ == icon_for_ext(lowercase(file_type@)),
{
    let lower = to_lower(file_type);
    icon_for_extension(lower.as_str())
}


/// The file types that a document name's extension is taken as; any other is plain text.
pub open spec fn known_types() -> Seq<&'static str> {
    seq![
        "pdf", "docx", "doc", "txt", "odt", "rtf", "xlsx", "xls", "csv", "pptx", "ppt", "md",
        "json", "xml", "html", "css", "js", "ts", "rs", "py", "go", "jpg", "jpeg", "png", "gif",
        "webp", "svg", "bmp", "tiff", "ico", "mp4", "mov", "avi", "mkv", "webm", "flv", "mp3",
        "wav", "flac", "aac", "ogg", "zip", "rar", "7z", "tar", "gz",
    ]
}

/// A lowercase extension when it is a known file type, otherwise `txt`.
pub open spec fn known_or_txt(lower: Seq<char>) -> Seq<char> {
    if views_of(known_types()).contains(lower) {
        lower
    } else {
        "txt"@
    }
}

/// The position of the last occurrence of `c` in `s`.
pub open spec fn last_index_of(s: Seq<char>, c: char) -> Option<int>
    decreases s.len(),
{
    if s.len() == 0 {
        None
    } else if s.last() == c {
        Some(s.len() - 1)
    } else {
        last_index_of(s.drop_last(), c)
    }
}

/// The file type taken from a document's name: the lowercase text after its last dot when
/// that is a known type, otherwise `txt`.
pub open spec fn detected_type(name: Seq<char>) -> Seq<char> {
    match last_index_of(name, '.') {
        None => "txt"@,
        Some(i) => known_or_txt(lowercase(name.subrange(i + 1, name.len() as int))),
    }
}

/// The file type for a lowercase extension: the extension when it is a known type,
/// otherwise `txt`.
pub fn file_type_for_extension(lower: &str) -> (t: String)
    ensures
        t@ == known_or_txt(lower@),
{
    let known = [
        "pdf", "docx", "doc", "txt", "odt", "rtf", "xlsx", "xls", "csv", "pptx", "ppt", "md",
        "json", "xml", "html", "css", "js", "ts", "rs", "py", "go", "jpg", "jpeg", "png", "gif",
        "webp", "svg", "bmp", "tiff", "ico", "mp4", "mov", "avi", "mkv", "webm", "flv", "mp3",
        "wav", "flac", "aac", "ogg", "zip", "rar", "7z", "tar", "gz",
    ];
    assert(known@ =~= known_types());
    if one_of(lower, &known) {
        string_of(&chars_of(lower))
    } else {
        string_of(&chars_of("txt"))
    }
}

fn last_index(v: &Vec<char>, c: char) -> (r: Option<usize>)
    ensures
        match r {
            Some(i) => last_index_of(v@, c) == Some(i as int) && i < v.len(),
            None => last_index_of(v@, c) is None,
        },
{
    let mut j: usize = v.len();
    assert(v@.take(v.len() as int) =~= v@);
    while j > 0 && v[j - 1] != c
        invariant
            0 <= j <= v.len(),
            last_index_of(v@, c) == last_index_of(v@.take(j as int), c),
        decreases j,
    {
        assert(v@.take(j as int).drop_last() =~= v@.take(j - 1));
        j = j - 1;
    }
    assert(v@.take(v.len() as int) =~= v@);
    if j == 0 {
        assert(v@.take(0).len() == 0);
        None
    } else {
        Some(j - 1)
    }
}

/// The file type of a newly named document, taken from the extension of its name.
pub fn detect_file_type(name: &str) -> (t: String)
    ensures
        t@ == detected_type(name@),
{
    let v = chars_of(name);
    assert(v@.take(v.len() as int) =~= v@);
    match last_index(&v, '.') {
        None => string_of(&chars_of("txt")),
        Some(i) => {
            let ext = string_of(&slice_chars(&v, i + 1, v.len()));
            let lower = to_lower(ext.as_str());
            file_type_for_extension(lower.as_str())
        },
    }
}

pub(crate) proof fn lemma_byte_len_take_step(s: Seq<char>, k: int)
    requires
        0 <= k < s.len(),
    ensures
        byte_len(s.take(k + 1)) == byte_len(s.take(k)) + utf8_width(s[k]),
{
    assert(s.take(k + 1).drop_last() =~= s.take(k));
}

pub(crate) proof fn lemma_byte_len_take_grows(s: Seq<char>, a: int, b: int)
    requires
        0 <= a < b <= s.len(),
    ensures
        byte_len(s.take(a)) < byte_len(s.take(b)),
    decreases b - a,
{
    lemma_byte_len_take_step(s, b - 1);
    if a < b - 1 {
        lemma_byte_len_take_grows(s, a, b - 1);
    }
}

/// Whether `s` has a character boundary `n` bytes in, so that `&s[..n]` does not panic.
pub open spec fn has_boundary_at(s: Seq<char>, n: nat) -> bool {
    exists|k: int| 0 <= k <= s.len() && byte_len(s.take(k)) == n
}

/// The characters of `s` that fill its first `n` bytes, when a character boundary lies there.
pub open spec fn byte_prefix(s: Seq<char>, n: nat) -> Seq<char> {
    s.take(choose|k: int| 0 <= k <= s.len() && byte_len(s.take(k)) == n)
}

/// The characters filling the first `n` bytes of `v`, which end on a character boundary.
pub(crate) fn prefix_of_bytes(v: &Vec<char>, n: usize) -> (r: usize)
    requires
        has_boundary_at(v@, n as nat),
    ensures
        r <= v.len(),
        v@.take(r as int) == byte_prefix(v@, n as nat),
        byte_len(v@.take(r as int)) == n,
{
    let (k, bytes) = prefix_within_bytes(v, n);
    proof {
        let c = choose|c: int| 0 <= c <= v@.len() && byte_len(v@.take(c)) == n;
        if (k as int) < c {
            lemma_byte_len_take_step(v@, k as int);
            if k + 1 < c {
                lemma_byte_len_take_grows(v@, k + 1, c);
            }
        } else if (k as int) > c {
            lemma_byte_len_take_grows(v@, c, k as int);
        }
    }
    k
}

/// A document name as the sliders and tabs show it: names longer than 16 bytes are cut to
/// their first 13 bytes followed by `...`.
pub open spec fn shorthand_spec(name: Seq<char>) -> Seq<char> {
    if byte_len(name) <= 16 {
        name
    } else {
        byte_prefix(name, 13) + "..."@
    }
}

/// A document name shortened for sliders and tabs.
pub fn shorthand_name(name: &str) -> (r: String)
    requires
        byte_len(name@) <= 16 || has_boundary_at(name@, 13),
    ensures
        r@ == shorthand_spec(name@),
{
    let v = chars_of(name);
    let (k, bytes) = prefix_within_bytes(&v, 16);
    if k == v.len() {
        assert(v@.take(k as int) =~= v@);
        return string_of(&v);
    }
    proof {
        if byte_len(name@) <= 16 {
            lemma_byte_len_take_step(v@, k as int);
            if k + 1 < v.len() {
                lemma_byte_len_take_grows(v@, k + 1, v.len() as int);
            }
            assert(v@.take(v.len() as int) =~= v@);
        }
    }
    let cut = prefix_of_bytes(&v, 13);
    let mut r = string_of(&slice_chars(&v, 0, cut));
    push_text(&mut r, "...");
    assert(v@.subrange(0, cut as int) =~= v@.take(cut as int));
    r
}

/// Whether `c` ends a sentence.
pub open spec fn ends_sentence(c: char) -> bool {
    c == '.' || c == '?' || c == '!'
}

/// The position of the first character of `t` that ends a sentence.
pub open spec fn first_sentence_end(t: Seq<char>) -> Option<int> {
    if exists|k: int| 0 <= k < t.len() && ends_sentence(t[k]) {
        Some(
            choose|k: int|
                0 <= k < t.len() && ends_sentence(t[k]) && forall|j: int|
                    0 <= j < k ==> !ends_sentence(#[trigger] t[j]),
        )
    } else {
        None
    }
}

/// The first sentence of a description, with `...` when more follows; the whole trimmed
/// text when it has no sentence end.
pub open spec fn single_sentence_spec(text: Seq<char>) -> Seq<char> {
    let t = trim_spec(text);
    match first_sentence_end(t) {
        None => t,
        Some(k) => if blank(t.subrange(k + 1, t.len() as int)) {
            t.take(k + 1)
        } else {
            t.take(k + 1) + "..."@
        },
    }
}

/// Truncates a description to its first sentence, appending `...` when there is more.
pub fn single_sentence(text: &str) -> (r: String)
    ensures
        r@ == single_sentence_spec(text@),
{
    let t = trim_chars(&chars_of(text));
    let mut k: usize = 0;
    while k < t.len() && !(t[k] == '.' || t[k] == '?' || t[k] == '!')
        invariant
            0 <= k <= t.len(),
            forall|j: int| 0 <= j < k ==> !ends_sentence(#[trigger] t@[j]),
        decreases t.len() - k,
    {
        k = k + 1;
    }
    if k == t.len() {
        assert(first_sentence_end(t@) is None);
        return string_of(&t);
    }
    proof {
        let c = choose|c: int|
            0 <= c < t@.len() && ends_sentence(t@[c]) && forall|j: int|
                0 <= j < c ==> !ends_sentence(#[trigger] t@[j]);
        assert(ends_sentence(t@[k as int]));
        if c < k {
            assert(!ends_sentence(t@[c]));
        } else if c > k {
            assert(!ends_sentence(t@[k as int]));
        }
        assert(first_sentence_end(t@) == Some(k as int));
    }
    let first = slice_chars(&t, 0, k + 1);
    let rest = trim_chars(&slice_chars(&t, k + 1, t.len()));
    let mut r = string_of(&first);
    assert(first@ =~= t@.take(k + 1));
    if rest.len() > 0 {
        push_text(&mut r, "...");
    }
    r
}

/// Whether `c` is where a note preview may be cut.
pub open spec fn note_break(c: char) -> bool {
    c == ' ' || c == ',' || c == '.'
}

/// A note preview: notes longer than 60 bytes are cut at the last space, comma or period
/// within their first 60 bytes (or at 60 bytes when there is none), after a dash.
pub open spec fn note_excerpt_spec(note: Seq<char>) -> Seq<char> {
    "— "@ + if byte_len(note) <= 60 {
        note
    } else {
        let slice = byte_prefix(note, 60);
        match last_break(slice) {
            Some(j) => note.take(j),
            None => slice,
        }
    }
}

/// The position of the last space, comma or period in `s`.
pub open spec fn last_break(s: Seq<char>) -> Option<int>
    decreases s.len(),
{
    if s.len() == 0 {
        None
    } else if note_break(s.last()) {
        Some(s.len() - 1)
    } else {
        last_break(s.drop_last())
    }
}

/// The short preview of a linked note that the document list shows.
pub fn note_excerpt(note: &str) -> (r: String)
    requires
        byte_len(note@) <= 60 || has_boundary_at(note@, 60),
    ensures
        r@ == note_excerpt_spec(note@),
{
    let v = chars_of(note);
    let mut r = string_of(&chars_of("— "));
    let (k, bytes) = prefix_within_bytes(&v, 60);
    if k == v.len() {
        assert(v@.take(k as int) =~= v@);
        push_text(&mut r, note);
        return r;
    }
    proof {
        if byte_len(note@) <= 60 {
            lemma_byte_len_take_step(v@, k as int);
            if k + 1 < v.len() {
                lemma_byte_len_take_grows(v@, k + 1, v.len() as int);
            }
            assert(v@.take(v.len() as int) =~= v@);
        }
    }
    let cut = prefix_of_bytes(&v, 60);
    let mut j: usize = cut;
    while j > 0 && !(v[j - 1] == ' ' || v[j - 1] == ',' || v[j - 1] == '.')
        invariant
            0 <= j <= cut <= v.len(),
            last_break(v@.take(cut as int)) == last_break(v@.take(j as int)),
        decreases j,
    {
        assert(v@.take(j as int).drop_last() =~= v@.take(j - 1));
        j = j - 1;
    }
    let end = if j == 0 {
        assert(v@.take(0).len() == 0);
        cut
    } else {
        assert(v@.take(j as int).last() == v@[j - 1]);
        j - 1
    };
    let part = string_of(&slice_chars(&v, 0, end));
    assert(v@.subrange(0, end as int) =~= v@.take(end as int));
    push_text(&mut r, part.as_str());
    r
}

/// A document. Times are microseconds since the Unix epoch.
#[derive(Clone, Debug, PartialEq, Eq)]
pub struct Document {
    pub id: u128,
    pub name: String,
    pub file_type: String,
    pub url: String,
    pub content: Option<String>,
    pub uploaded_at: i128,
    pub uploaded_by: u128,
}

/// A document as a document slider lists it, with the portfolio, group, asset or
/// organization it belongs to.
#[derive(Clone, Debug, PartialEq, Eq)]
pub struct DocEntry {
    pub doc: Document,
    pub portfolio_id: Option<u128>,
    pub group_id: Option<u128>,
    pub asset_id: Option<u128>,
    pub organization_id: Option<u128>,
}

/// Where a download's bytes come from: the document's link, or its text contents.
pub enum DownloadSource {
    Link(String),
    Contents(String),
}

/// How a document is downloaded: the file name and where the bytes come from.
pub struct DownloadPlan {
    pub filename: String,
    pub source: DownloadSource,
}

/// The file name a document downloads under: its name when that has a non-empty extension
/// part (the text after the last dot, or the whole name), otherwise the name, a dot and
/// its file type.
pub open spec fn download_filename_spec(name: Seq<char>, file_type: Seq<char>) -> Seq<char> {
    if name.len() > 0 && name.last() != '.' {
        name
    } else {
        name + "."@ + file_type
    }
}

/// Whether a document's link can be downloaded from: it is set and is not the `#`
/// placeholder.
pub open spec fn usable_link(url: Seq<char>) -> bool {
    url.len() > 0 && url != "#"@
}

/// Plans the download of a document with the given name, type, link and contents.
pub fn download_plan(name: &str, file_type: &str, url: &str, content: &Option<String>) -> (p: DownloadPlan)
    ensures
        p.filename@ == download_filename_spec(name@, file_type@),
        usable_link(url@) ==> (p.source matches DownloadSource::Link(u) && u@ == url@),
        !usable_link(url@) ==> (p.source matches DownloadSource::Contents(c) && c@ == match content {
            Some(t) => t@,
            None => Seq::<char>::empty(),
        }),
{
    let v = chars_of(name);
    let mut filename = string_of(&v);
    if !(v.len() > 0 && v[v.len() - 1] != '.') {
        push_char(&mut filename, '.');
        push_text(&mut filename, file_type);
        proof {
            reveal_strlit(".");
            assert(v@.push('.') =~= v@ + "."@);
        }
    }
    let u = chars_of(url);
    let source = if u.len() > 0 && !text_eq(url, "#") {
        DownloadSource::Link(string_of(&u))
    } else {
        match content {
            Some(t) => {
                let text = string_of(&chars_of(t.as_str()));
                assert(text@ == t@);
                DownloadSource::Contents(text)
            },
            None => DownloadSource::Contents(String::new()),
        }
    };
    DownloadPlan { filename, source }
}

/// Image file types that the viewer shows as a picture.
pub open spec fn image_types() -> Seq<&'static str> {
    seq!["jpg", "jpeg", "png", "gif", "webp", "svg", "bmp", "tiff", "ico"]
}

/// Video file types that the viewer plays.
pub open spec fn video_types() -> Seq<&'static str> {
    seq!["mp4", "mov", "avi", "mkv", "webm", "flv"]
}

/// Whether a lowercase file type is shown as an image.
pub fn is_image_extension(lower: &str) -> (b: bool)
    ensures
        b == views_of(image_types()).contains(lower@),
{
    let kinds = ["jpg", "jpeg", "png", "gif", "webp", "svg", "bmp", "tiff", "ico"];
    assert(kinds@ =~= image_types());
    one_of(lower, &kinds)
}

/// Whether a lowercase file type is played as a video.
pub fn is_video_extension(lower: &str) -> (b: bool)
    ensures
        b == views_of(video_types()).contains(lower@),
{
    let kinds = ["mp4", "mov", "avi", "mkv", "webm", "flv"];
    assert(kinds@ =~= video_types());
    one_of(lower, &kinds)
}

/// Whether the viewer shows a document of type `file_type` (any case) as an image.
pub fn is_image_type(file_type: &str) -> (b: bool)
    ensures
        b == views_of(image_types()).contains(lowercase(file_type@)),
{
    let lower = to_lower(file_type);
    is_image_extension(lower.as_str())
}

/// Whether the viewer plays a document of type `file_type` (any case) as a video.
pub fn is_video_type(file_type: &str) -> (b: bool)
    ensures
        b == views_of(video_types()).contains(lowercase(file_type@)),
{
    let lower = to_lower(file_type);
    is_video_extension(lower.as_str())
}

/// Whether the viewer lays out a document of type `file_type` as a sheet: exactly `xlsx`
/// or `csv`.
pub fn is_sheet_type(file_type: &str) -> (b: bool)
    ensures
        b == (file_type@ == "xlsx"@ || file_type@ == "csv"@),
{
    text_eq(file_type, "xlsx") || text_eq(file_type, "csv")
}

} // verus!
