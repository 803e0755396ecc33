use nb2typst::diagnostic::{Diagnostic, DiagnosticKind};
use nb2typst::media::{
    attachment_file, count_images, download, download_local_name, download_path, parse_media,
    process_media, take_last_segment, write_figure, DownloadPlan, FileWrite, ImageFormat,
    MediaItem, Session,
};

fn note(kind: DiagnosticKind, subject: &str) -> Diagnostic {
    Diagnostic { kind, subject: subject.to_string() }
}

fn session(ids: &[&str]) -> Session {
    Session::new(ids.iter().map(|s| s.to_string()).collect())
}

#[test]
fn figure_becomes_a_file() {
    let mut s = session(&["one", "two"]);
    let path = write_figure("aGVsbG8=", "png", &mut s);
    assert_eq!(path, Some("./downloads/figure_one.png".to_string()));
    assert_eq!(s.next_id, 1);
    assert_eq!(s.files, vec![FileWrite { name: "figure_one.png".to_string(), bytes: b"hello".to_vec() }]);
    assert!(s.diagnostics.is_empty());
}

#[test]
fn undecodable_figure_is_reported() {
    let mut s = session(&["one"]);
    assert_eq!(write_figure("not base64!", "gif", &mut s), None);
    assert_eq!(s.next_id, 1);
    assert!(s.files.is_empty());
    assert_eq!(s.diagnostics, vec![note(DiagnosticKind::UndecodableImage, "figure_one.gif")]);
}

#[test]
fn figure_without_identifier_is_reported() {
    let mut s = session(&[]);
    assert_eq!(write_figure("aGVsbG8=", "svg", &mut s), None);
    assert_eq!(s.next_id, 0);
    assert_eq!(s.diagnostics, vec![note(DiagnosticKind::UnresolvedImage, "svg")]);
}

#[test]
fn media_items() {
    let mut s = session(&["id"]);
    assert_eq!(parse_media(&MediaItem::Latex("x^2".to_string()), &mut s), "#mimath(`x^2`)");
    assert_eq!(parse_media(&MediaItem::Plain("out".to_string()), &mut s), "#```out```");
    assert_eq!(parse_media(&MediaItem::DataTable, &mut s), "");
    assert!(s.diagnostics.is_empty());
    assert_eq!(parse_media(&MediaItem::Html, &mut s), "");
    assert_eq!(parse_media(&MediaItem::Other("application/json".to_string()), &mut s), "");
    assert_eq!(
        s.diagnostics,
        vec![
            note(DiagnosticKind::UnsupportedMedia, "text/html"),
            note(DiagnosticKind::UnsupportedMedia, "application/json"),
        ]
    );
    assert_eq!(
        parse_media(&MediaItem::Image(ImageFormat::Jpeg, "AQID".to_string()), &mut s),
        "#image(\"./downloads/figure_id.jpeg\")"
    );
    assert_eq!(s.files, vec![FileWrite { name: "figure_id.jpeg".to_string(), bytes: vec![1, 2, 3] }]);
}

#[test]
fn media_of_one_output() {
    let media = vec![
        MediaItem::Plain("p".to_string()),
        MediaItem::Image(ImageFormat::Png, "AA==".to_string()),
        MediaItem::Image(ImageFormat::Svg, "AQ==".to_string()),
    ];
    assert_eq!(count_images(&media), 2);
    let mut s = session(&["a", "b", "c"]);
    assert_eq!(
        process_media(&media, &mut s),
        "#```p```#image(\"./downloads/figure_a.png\")#image(\"./downloads/figure_b.svg\")"
    );
    assert_eq!(s.next_id, 2);
    assert_eq!(s.files.len(), 2);
    assert_eq!(s.files[1].bytes, vec![1]);
    assert_eq!(process_media(&vec![], &mut s), "");
}

#[test]
fn fresh_identifiers() {
    let s = Session::with_fresh_ids(3);
    assert_eq!(s.ids.len(), 3);
    assert_eq!(s.next_id, 0);
    assert!(s.ids.iter().all(|id| id.len() == 36));
    assert_ne!(s.ids[0], s.ids[1]);
    assert!(Session::with_fresh_ids(0).ids.is_empty());
}

#[test]
fn download_names() {
    assert_eq!(download_local_name("pic.png", Some("png")), "downloaded.png");
    assert_eq!(download_local_name("file", None), "file");
    assert_eq!(download_path("x.png"), "./downloads/x.png");
}

#[test]
fn download_plans() {
    assert_eq!(
        download("https://example.com/path/pic.png"),
        DownloadPlan {
            local_name: "downloaded.png".to_string(),
            path: "./downloads/downloaded.png".to_string(),
        }
    );
    assert_eq!(
        download("https://example.com/path/file"),
        DownloadPlan { local_name: "file".to_string(), path: "./downloads/file".to_string() }
    );
    assert_eq!(
        download("data:text/plain,Hello"),
        DownloadPlan {
            local_name: "downloaded".to_string(),
            path: "./downloads/downloaded".to_string(),
        }
    );
    assert_eq!(
        download("https://example.com"),
        DownloadPlan { local_name: String::new(), path: "./downloads/".to_string() }
    );
}

#[test]
fn attachments_are_decoded() {
    assert_eq!(
        attachment_file("a.png", "aGVsbG8="),
        Some(FileWrite { name: "a.png".to_string(), bytes: b"hello".to_vec() })
    );
    assert_eq!(attachment_file("a.png", "***"), None);
    assert_eq!(
        attachment_file("empty", ""),
        Some(FileWrite { name: "empty".to_string(), bytes: vec![] })
    );
}

#[test]
fn last_path_segment() {
    let segments = vec!["a".to_string(), "b.png".to_string()];
    assert_eq!(take_last_segment(Some(segments)), Some("b.png".to_string()));
    assert_eq!(take_last_segment(Some(vec![])), None);
    assert_eq!(take_last_segment(None), None);
    assert_eq!(
        download("https://example.com/a/b/c.tar.gz?x=1#y").local_name,
        "downloaded.gz"
    );
}
