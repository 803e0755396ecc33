//! Rendering of the output data of a notebook cell, and the files that go
//! with it.
//!
//! Nothing here touches the file system. An image becomes a file to be
//! written, under a name made of an identifier that the session holds
//! ready, and the markup embeds the path that the file will have.

use base64::prelude::BASE64_STANDARD;
use base64::Engine;
use std::path::Path;
use url::Url;
use uuid::Uuid;
use vstd::prelude::*;
use crate::diagnostic::{report, reports_view, Diagnostic, DiagnosticKind};
use crate::typst_content::optional_text;

verus! {

/// The formats of images that can be embedded.
#[derive(Clone, Copy, Debug, PartialEq, Eq, Structural)]
pub enum ImageFormat {
    Png,
    Jpeg,
    Svg,
    Gif,
}

/// One representation of a piece of output, with what the renderer reads of
/// it.
#[derive(Debug, PartialEq, Eq)]
pub enum MediaItem {
    /// A data table.
    DataTable,
    /// LaTeX source.
    Latex(String),
    /// An image in the given format, as Base64 text.
    Image(ImageFormat, String),
    /// Plain text.
    Plain(String),
    /// HTML.
    Html,
    /// Any other type, with its name.
    Other(String),
}

/// The mathematical value of a [`MediaItem`].
pub ghost enum MediaValue {
    DataTable,
    Latex(Seq<char>),
    Image(ImageFormat, Seq<char>),
    Plain(Seq<char>),
    Html,
    Other(Seq<char>),
}

impl View for MediaItem {
    type V = MediaValue;

    open spec fn view(&self) -> MediaValue {
        match self {
            MediaItem::DataTable => MediaValue::DataTable,
            MediaItem::Latex(s) => MediaValue::Latex(s@),
            MediaItem::Image(format, data) => MediaValue::Image(*format, data@),
            MediaItem::Plain(s) => MediaValue::Plain(s@),
            MediaItem::Html => MediaValue::Html,
            MediaItem::Other(name) => MediaValue::Other(name@),
        }
    }
}

/// The values of a list of media items.
pub open spec fn media_view(items: Seq<MediaItem>) -> Seq<MediaValue> {
    Seq::new(items.len(), |i: int| items[i]@)
}

/// A file to be written into the download directory.
#[derive(Debug, PartialEq, Eq)]
pub struct FileWrite {
    pub name: String,
    pub bytes: Vec<u8>,
}

impl View for FileWrite {
    type V = (Seq<char>, Seq<u8>);

    open spec fn view(&self) -> (Seq<char>, Seq<u8>) {
        (self.name@, self.bytes@)
    }
}

/// The values of a list of files.
pub open spec fn files_view(files: Seq<FileWrite>) -> Seq<(Seq<char>, Seq<u8>)> {
    Seq::new(files.len(), |i: int| files[i]@)
}

/// What a conversion carries along: the identifiers held ready for file
/// names and how many of them are used, the files to be written, and the
/// reports about what was left out.
#[derive(Debug)]
pub struct Session {
    pub ids: Vec<String>,
    pub next_id: usize,
    pub files: Vec<FileWrite>,
    pub diagnostics: Vec<Diagnostic>,
}

/// The mathematical value of a [`Session`].
#[verifier::ext_equal]
pub ghost struct SessionView {
    pub ids: Seq<Seq<char>>,
    pub next: nat,
    pub files: Seq<(Seq<char>, Seq<u8>)>,
    pub notes: Seq<(DiagnosticKind, Seq<char>)>,
}

impl View for Session {
    type V = SessionView;

    open spec fn view(&self) -> SessionView {
        SessionView {
            ids: crate::text::strings_view(self.ids@),
            next: self.next_id as nat,
            files: files_view(self.files@),
            notes: reports_view(self.diagnostics@),
        }
    }
}

/// A session at its start, with the given identifiers.
pub open spec fn fresh_session(ids: Seq<Seq<char>>) -> SessionView {
    SessionView { ids, next: 0, files: Seq::empty(), notes: Seq::empty() }
}

/// A session with one more report.
pub open spec fn session_noted(s: SessionView, kind: DiagnosticKind, subject: Seq<char>) -> SessionView {
    SessionView { ids: s.ids, next: s.next, files: s.files, notes: s.notes.push((kind, subject)) }
}

/// The bytes that the standard Base64 alphabet with padding decodes `text`
/// to, or `None` where `text` is no such encoding.
pub uninterp spec fn base64_decoded(text: Seq<char>) -> Option<Seq<u8>>;

/// What `url::Url::parse` finds in a text: `None` where the text is no
/// absolute URL, and otherwise the scheme of the URL together with the
/// segments of its path, if its path has segments.
pub uninterp spec fn url_parts(url: Seq<char>) -> Option<(Seq<char>, Option<Seq<Seq<char>>>)>;

/// The scheme of a URL, or `None` where the text is no absolute URL.
pub open spec fn url_scheme(url: Seq<char>) -> Option<Seq<char>> {
    match url_parts(url) {
        Some(parts) => Some(parts.0),
        None => None,
    }
}

/// The last of the given path segments, if there is one.
pub open spec fn last_segment(segments: Option<Seq<Seq<char>>>) -> Option<Seq<char>> {
    match segments {
        Some(segments) => if segments.len() > 0 {
            Some(segments.last())
        } else {
            None
        },
        None => None,
    }
}

/// The last segment of the path of a URL, or `None` where the text is no
/// absolute URL or a URL whose path has no segments.
pub open spec fn url_file_name(url: Seq<char>) -> Option<Seq<char>> {
    match url_parts(url) {
        Some(parts) => last_segment(parts.1),
        None => None,
    }
}

/// The path segments of a parsed URL, each as its characters.
pub open spec fn segments_view(segments: Option<Vec<String>>) -> Option<Seq<Seq<char>>> {
    match segments {
        Some(segments) => Some(crate::text::strings_view(segments@)),
        None => None,
    }
}

/// The scheme and the path segments of a parsed URL.
pub open spec fn parts_view(parts: Option<(String, Option<Vec<String>>)>) -> Option<
    (Seq<char>, Option<Seq<Seq<char>>>),
> {
    match parts {
        Some(p) => Some((p.0@, segments_view(p.1))),
        None => None,
    }
}

/// The file extension of an image format.
pub open spec fn extension(format: ImageFormat) -> Seq<char> {
    match format {
        ImageFormat::Png => "png"@,
        ImageFormat::Jpeg => "jpeg"@,
        ImageFormat::Svg => "svg"@,
        ImageFormat::Gif => "gif"@,
    }
}

/// The name of the file of a figure.
pub open spec fn figure_name(id: Seq<char>, ext: Seq<char>) -> Seq<char> {
    "figure_"@ + id + "."@ + ext
}

/// The path by which markup embeds a file of the download directory.
pub open spec fn embed_path(name: Seq<char>) -> Seq<char> {
    "./downloads/"@ + name
}

/// What becomes of the Base64 data of a figure: with an identifier left
/// and data that decode, a file under the next identifier and the path to
/// embed; otherwise no path and a report. The identifier is used up even
/// where the data do not decode.
pub open spec fn figure_step(data: Seq<char>, ext: Seq<char>, s: SessionView) -> (
    Option<Seq<char>>,
    SessionView,
) {
    if s.next < s.ids.len() {
        let name = figure_name(s.ids[s.next as int], ext);
        match base64_decoded(data) {
            Some(bytes) => (
                Some(embed_path(name)),
                SessionView {
                    ids: s.ids,
                    next: s.next + 1,
                    files: s.files.push((name, bytes)),
                    notes: s.notes,
                },
            ),
            None => (
                None,
                SessionView {
                    ids: s.ids,
                    next: s.next + 1,
                    files: s.files,
                    notes: s.notes.push((DiagnosticKind::UndecodableImage, name)),
                },
            ),
        }
    } else {
        (None, session_noted(s, DiagnosticKind::UnresolvedImage, ext))
    }
}

/// The markup of one media item, and the session after it. Tables and
/// HTML leave no markup; a type without rendering leaves none and is
/// reported.
pub open spec fn media_step(item: MediaValue, s: SessionView) -> (Seq<char>, SessionView) {
    match item {
        MediaValue::DataTable => (Seq::empty(), s),
        MediaValue::Latex(data) => ("#mimath(`"@ + data + "`)"@, s),
        MediaValue::Image(format, data) => {
            let (path, after) = figure_step(data, extension(format), s);
            match path {
                Some(path) => ("#image(\""@ + path + "\")"@, after),
                None => (Seq::empty(), after),
            }
        },
        MediaValue::Plain(data) => ("#```"@ + data + "```"@, s),
        MediaValue::Html => (
            Seq::empty(),
            session_noted(s, DiagnosticKind::UnsupportedMedia, "text/html"@),
        ),
        MediaValue::Other(name) => (
            Seq::empty(),
            session_noted(s, DiagnosticKind::UnsupportedMedia, name),
        ),
    }
}

/// The markup of the first `n` media items, one after the other, and the
/// session after them.
pub open spec fn media_steps(items: Seq<MediaValue>, n: nat, s: SessionView) -> (
    Seq<char>,
    SessionView,
)
    decreases n,
{
    if n == 0 || n > items.len() {
        (Seq::empty(), s)
    } else {
        let (before, mid) = media_steps(items, (n - 1) as nat, s);
        let (last, after) = media_step(items[n - 1], mid);
        (before + last, after)
    }
}

/// The number of images among the first `n` media items.
pub open spec fn image_count(items: Seq<MediaValue>, n: nat) -> nat
    decreases n,
{
    if n == 0 || n > items.len() {
        0
    } else {
        image_count(items, (n - 1) as nat) + (if items[n - 1] is Image {
            1nat
        } else {
            0nat
        })
    }
}

/// The local name under which a downloaded file is kept: `downloaded`
/// with the extension of the remote file name, or, where that has none,
/// the remote file name itself.
pub open spec fn download_name(filename: Seq<char>, extension: Option<Seq<char>>) -> Seq<char> {
    match extension {
        Some(ext) => "downloaded."@ + ext,
        None => filename,
    }
}

/// The remote file name of a URL: the last segment of its path, or
/// `downloaded` where it has none.
pub open spec fn remote_name(url: Seq<char>) -> Seq<char> {
    match url_file_name(url) {
        Some(name) => name,
        None => "downloaded"@,
    }
}

/// Creates a random identifier: `uuid::Uuid::new_v4`, written out in the
/// hyphenated form. Nothing is promised of it.
#[verifier::external_body]
pub(crate) fn new_uuid() -> String {
    Uuid::new_v4().to_string()
}

/// Decodes Base64 text with `base64::prelude::BASE64_STANDARD`, and
/// returns `None` where the engine reports an error. What it decodes to
/// is not described here: it goes by the name `base64_decoded`.
#[verifier::external_body]
pub(crate) fn decode_base64(text: &str) -> (bytes: Option<Vec<u8>>)
    ensures
        match bytes {
            Some(b) => base64_decoded(text@) == Some(b@),
            None => base64_decoded(text@) is None,
        },
{
    BASE64_STANDARD.decode(text).ok()
}

/// Parses a URL with `url::Url::parse`, and returns `None` where the
/// parser rejects the text. Of a URL it returns the scheme (`Url::scheme`)
/// and the segments of its path in their order (`Url::path_segments`),
/// which a URL that cannot be a base does not have. What the parser finds
/// is not described here: it goes by the name `url_parts`.
#[verifier::external_body]
pub(crate) fn parse_url(input: &str) -> (parts: Option<(String, Option<Vec<String>>)>)
    ensures
        parts_view(parts) == url_parts(input@),
{
    Url::parse(input).ok().map(|url| {
        (url.scheme().to_string(), url.path_segments().map(|s| s.map(String::from).collect()))
    })
}

/// The last of the given path segments, if there is one.
pub fn take_last_segment(segments: Option<Vec<String>>) -> (name: Option<String>)
    ensures
        optional_text(name) == last_segment(segments_view(segments)),
{
    match segments {
        Some(mut segments) => {
            let ghost all = crate::text::strings_view(segments@);
            let name = segments.pop();
            proof {
                if all.len() > 0 {
                    assert(all.last() == name.unwrap()@);
                }
            }
            name
        },
        None => None,
    }
}

/// The extension of a file name as `std::path::Path::extension` finds it,
/// where it is valid Unicode. Nothing is promised of it: what counts as a
/// file name differs between platforms.
#[verifier::external_body]
pub(crate) fn path_extension(name: &str) -> Option<String> {
    Path::new(name).extension().and_then(|e| e.to_str()).map(String::from)
}

/// The file extension of an image format.
pub fn format_extension(format: ImageFormat) -> (ext: &'static str)
    ensures
        ext@ == extension(format),
{
    match format {
        ImageFormat::Png => "png",
        ImageFormat::Jpeg => "jpeg",
        ImageFormat::Svg => "svg",
        ImageFormat::Gif => "gif",
    }
}

/// The path by which markup embeds a file of the download directory.
pub fn download_path(name: &str) -> (path: String)
    ensures
        path@ == embed_path(name@),
{
    let mut path = String::new();
    path.append("./downloads/");
    path.append(name);
    assert(path@ =~= embed_path(name@));
    path
}

/// The local name under which a downloaded file is kept.
pub fn download_local_name(filename: &str, extension: Option<&str>) -> (name: String)
    ensures
        name@ == download_name(
            filename@,
            match extension {
                Some(e) => Some(e@),
                None => None,
            },
        ),
{
    match extension {
        Some(ext) => {
            let mut name = String::new();
            name.append("downloaded.");
            name.append(ext);
            assert(name@ =~= "downloaded."@ + ext@);
            name
        },
        None => filename.to_owned(),
    }
}

/// Where a remote file goes: the name to keep it under in the download
/// directory, and the path by which markup embeds it.
#[derive(Debug, PartialEq, Eq)]
pub struct DownloadPlan {
    pub local_name: String,
    pub path: String,
}

/// Plans the download of a URL: the local name goes by the last segment of
/// the URL's path and by the extension that the platform finds in it.
pub fn download(url: &str) -> (plan: DownloadPlan)
    ensures
        exists|ext: Option<Seq<char>>| plan.local_name@ == download_name(remote_name(url@), ext),
        plan.path@ == embed_path(plan.local_name@),
{
    let segments = match parse_url(url) {
        Some(parts) => parts.1,
        None => None,
    };
    let filename = match take_last_segment(segments) {
        Some(name) => name,
        None => "downloaded".to_owned(),
    };
    assert(filename@ == remote_name(url@));
    let extension = path_extension(filename.as_str());
    let local_name = match &extension {
        Some(ext) => download_local_name(filename.as_str(), Some(ext.as_str())),
        None => download_local_name(filename.as_str(), None),
    };
    assert(local_name@ == download_name(remote_name(url@), optional_text(extension)));
    let path = download_path(local_name.as_str());
    DownloadPlan { local_name, path }
}

/// Decodes an attachment into the file to be written for it, or `None`
/// where its data are no Base64.
pub fn attachment_file(name: &str, data: &str) -> (file: Option<FileWrite>)
    ensures
        match file {
            Some(f) => base64_decoded(data@) == Some(f.bytes@) && f.name@ == name@,
            None => base64_decoded(data@) is None,
        },
{
    match decode_base64(data) {
        Some(bytes) => Some(FileWrite { name: name.to_owned(), bytes }),
        None => None,
    }
}

impl Session {
    /// A session at its start, with the given identifiers.
    pub fn new(ids: Vec<String>) -> (session: Session)
        ensures
            session@ == fresh_session(crate::text::strings_view(ids@)),
    {
        let session = Session { ids, next_id: 0, files: Vec::new(), diagnostics: Vec::new() };
        assert(session@ =~= fresh_session(crate::text::strings_view(ids@)));
        session
    }

    /// A session at its start, with `count` random identifiers.
    pub fn with_fresh_ids(count: usize) -> (session: Session)
        ensures
            exists|ids: Seq<Seq<char>>| ids.len() == count && session@ == fresh_session(ids),
    {
        let mut ids: Vec<String> = Vec::new();
        while ids.len() < count
            invariant
                ids.len() <= count,
            decreases count - ids.len(),
        {
            ids.push(new_uuid());
        }
        let ghost names = crate::text::strings_view(ids@);
        let session = Session::new(ids);
        assert(names.len() == count && session@ == fresh_session(names));
        session
    }
}

/// Turns the Base64 data of a figure into a file to be written, and
/// returns the path by which markup embeds it.
pub fn write_figure(data: &str, ext: &str, session: &mut Session) -> (path: Option<String>)
    ensures
        optional_text(path) == figure_step(data@, ext@, old(session)@).0,
        final(session)@ == figure_step(data@, ext@, old(session)@).1,
{
    if session.next_id < session.ids.len() {
        let mut name = String::new();
        name.append("figure_");
        name.append(session.ids[session.next_id].as_str());
        name.append(".");
        name.append(ext);
        assert(name@ =~= figure_name(old(session)@.ids[old(session)@.next as int], ext@));
        session.next_id = session.next_id + 1;
        match decode_base64(data) {
            Some(bytes) => {
                let path = download_path(name.as_str());
                let ghost entry = (name@, bytes@);
                session.files.push(FileWrite { name, bytes });
                assert(files_view(session.files@) =~= files_view(old(session).files@).push(entry));
                assert(session@ =~= figure_step(data@, ext@, old(session)@).1);
                Some(path)
            },
            None => {
                report(&mut session.diagnostics, DiagnosticKind::UndecodableImage, name.as_str());
                assert(session@ =~= figure_step(data@, ext@, old(session)@).1);
                None
            },
        }
    } else {
        report(&mut session.diagnostics, DiagnosticKind::UnresolvedImage, ext);
        assert(session@ =~= figure_step(data@, ext@, old(session)@).1);
        None
    }
}

/// Renders one media item.
pub fn parse_media(data: &MediaItem, session: &mut Session) -> (text: String)
    ensures
        text@ == media_step(data@, old(session)@).0,
        final(session)@ == media_step(data@, old(session)@).1,
{
    let mut text = String::new();
    match data {
        MediaItem::DataTable => {},
        MediaItem::Latex(data) => {
            text.append("#mimath(`");
            text.append(data.as_str());
            text.append("`)");
            assert(text@ =~= "#mimath(`"@ + data@ + "`)"@);
        },
        MediaItem::Image(format, data) => {
            match write_figure(data.as_str(), format_extension(*format), session) {
                Some(path) => {
                    text.append("#image(\"");
                    text.append(path.as_str());
                    text.append("\")");
                    assert(text@ =~= "#image(\""@ + path@ + "\")"@);
                },
                None => {},
            }
        },
        MediaItem::Plain(data) => {
            text.append("#```");
            text.append(data.as_str());
            text.append("```");
            assert(text@ =~= "#```"@ + data@ + "```"@);
        },
        MediaItem::Html => {
            report(&mut session.diagnostics, DiagnosticKind::UnsupportedMedia, "text/html");
            assert(session@ =~= media_step(data@, old(session)@).1);
        },
        MediaItem::Other(name) => {
            report(&mut session.diagnostics, DiagnosticKind::UnsupportedMedia, name.as_str());
            assert(session@ =~= media_step(data@, old(session)@).1);
        },
    }
    text
}

/// Renders the media items of one piece of output, one after the other.
pub fn process_media(media: &Vec<MediaItem>, session: &mut Session) -> (text: String)
    ensures
        text@ == media_steps(media_view(media@), media.len() as nat, old(session)@).0,
        final(session)@ == media_steps(media_view(media@), media.len() as nat, old(session)@).1,
{
    let ghost items = media_view(media@);
    let mut text = String::new();
    let mut i: usize = 0;
    while i < media.len()
        invariant
            i <= media.len(),
            items == media_view(media@),
            text@ == media_steps(items, i as nat, old(session)@).0,
            session@ == media_steps(items, i as nat, old(session)@).1,
        decreases media.len() - i,
    {
        let piece = parse_media(&media[i], session);
        text.append(piece.as_str());
        i += 1;
    }
    text
}

/// The number of images among media items, up to the largest number that
/// fits.
pub fn count_images(media: &Vec<MediaItem>) -> (count: usize)
    ensures
        count == image_count(media_view(media@), media.len() as nat),
{
    let ghost items = media_view(media@);
    let mut count: usize = 0;
    let mut i: usize = 0;
    while i < media.len()
        invariant
            i <= media.len(),
            items == media_view(media@),
            count == image_count(items, i as nat),
            count <= i,
        decreases media.len() - i,
    {
        let is_image = match &media[i] {
            MediaItem::Image(_, _) => true,
            _ => false,
        };
        if is_image {
            count += 1;
        }
        i += 1;
    }
    count
}

} // verus!
