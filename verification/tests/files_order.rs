use immich_sync::files::{
    eq_ignoring_case, extension_of, is_image_extension, is_image_name, to_ascii_lower, LocalFile,
    Timestamp,
};
use immich_sync::queue::upload_queue;

fn at(secs: i64, nanos: u32) -> Timestamp {
    Timestamp::new(secs, nanos).unwrap()
}

fn file(name: &str, size: u64, modified: Timestamp) -> LocalFile {
    LocalFile {
        path: format!("/shots/{}", name),
        filename: name.to_string(),
        size,
        created: modified,
        modified,
    }
}

fn names(files: &Vec<LocalFile>) -> Vec<String> {
    files.iter().map(|f| f.filename.clone()).collect()
}

#[test]
fn timestamp_has_rfc3339_text() {
    assert_eq!(at(1431648000, 0).to_rfc3339(), "2015-05-15T00:00:00+00:00");
    assert_eq!(at(0, 0).to_rfc3339(), "1970-01-01T00:00:00+00:00");
}

#[test]
fn timestamp_text_shows_fraction_of_second() {
    assert_eq!(at(1431648000, 500_000_000).to_rfc3339(), "2015-05-15T00:00:00.500+00:00");
    assert_eq!(at(1431648000, 1).to_rfc3339(), "2015-05-15T00:00:00.000000001+00:00");
}

#[test]
fn timestamp_before_epoch_has_text() {
    assert_eq!(at(-1, 0).to_rfc3339(), "1969-12-31T23:59:59+00:00");
}

#[test]
fn timestamp_keeps_its_parts() {
    let t = at(1700000000, 123);
    assert_eq!(t.secs(), 1700000000);
    assert_eq!(t.nanos(), 123);
}

#[test]
fn timestamp_out_of_range_is_refused() {
    assert!(Timestamp::new(i64::MAX, 0).is_none());
    assert!(Timestamp::new(i64::MIN, 0).is_none());
}

#[test]
fn timestamp_with_impossible_nanos_is_refused() {
    assert!(Timestamp::new(0, 2_000_000_000).is_none());
}

#[test]
fn timestamp_before_looks_at_seconds_then_nanos() {
    assert!(at(1, 0).before(&at(2, 0)));
    assert!(!at(2, 0).before(&at(1, 0)));
    assert!(at(5, 10).before(&at(5, 11)));
    assert!(!at(5, 11).before(&at(5, 10)));
    assert!(!at(5, 10).before(&at(5, 10)));
    assert!(at(-3, 999).before(&at(-2, 0)));
}

#[test]
fn extension_is_what_follows_the_last_dot() {
    assert_eq!(extension_of("a.png"), Some("png"));
    assert_eq!(extension_of("archive.tar.gz"), Some("gz"));
    assert_eq!(extension_of("Screenshot 2024-01-01.JPG"), Some("JPG"));
}

#[test]
fn extension_of_name_without_dot_is_none() {
    assert_eq!(extension_of("README"), None);
    assert_eq!(extension_of(""), None);
}

#[test]
fn extension_of_hidden_file_is_none() {
    assert_eq!(extension_of(".png"), None);
    assert_eq!(extension_of(".bashrc"), None);
}

#[test]
fn extension_after_trailing_dot_is_empty() {
    assert_eq!(extension_of("trailing."), Some(""));
}

#[test]
fn extension_of_hidden_file_with_second_dot() {
    assert_eq!(extension_of("..png"), Some("png"));
    assert_eq!(extension_of(".hidden.jpg"), Some("jpg"));
}

#[test]
fn extension_of_name_with_wide_characters() {
    assert_eq!(extension_of("ünïcödé.webp"), Some("webp"));
}

#[test]
fn ascii_capitals_are_lowered() {
    assert_eq!(to_ascii_lower('A'), 'a');
    assert_eq!(to_ascii_lower('Z'), 'z');
    assert_eq!(to_ascii_lower('q'), 'q');
    assert_eq!(to_ascii_lower('1'), '1');
    assert_eq!(to_ascii_lower('É'), 'É');
    assert_eq!(to_ascii_lower('@'), '@');
    assert_eq!(to_ascii_lower('['), '[');
}

#[test]
fn comparison_ignores_ascii_case_only() {
    assert!(eq_ignoring_case("PNG", "png"));
    assert!(eq_ignoring_case("pNg", "png"));
    assert!(eq_ignoring_case("", ""));
    assert!(!eq_ignoring_case("pn", "png"));
    assert!(!eq_ignoring_case("pngs", "png"));
    assert!(!eq_ignoring_case("pmg", "png"));
}

#[test]
fn image_extensions_are_the_four_formats() {
    assert!(is_image_extension("png"));
    assert!(is_image_extension("jpg"));
    assert!(is_image_extension("jpeg"));
    assert!(is_image_extension("webp"));
    assert!(is_image_extension("WEBP"));
    assert!(!is_image_extension("gif"));
    assert!(!is_image_extension("bmp"));
    assert!(!is_image_extension(""));
    assert!(!is_image_extension("jpe"));
}

#[test]
fn image_names_in_any_letter_case() {
    assert!(is_image_name("a.png"));
    assert!(is_image_name("B.JPG"));
    assert!(is_image_name("c.JpEg"));
    assert!(is_image_name("d.webp"));
    assert!(is_image_name("many.dots.in.name.png"));
}

#[test]
fn other_names_are_no_image_names() {
    assert!(!is_image_name("e.gif"));
    assert!(!is_image_name("png"));
    assert!(!is_image_name(".png"));
    assert!(!is_image_name("f.png.txt"));
    assert!(!is_image_name("g.pngx"));
    assert!(!is_image_name("h.png."));
    assert!(!is_image_name(""));
    assert!(!is_image_name("notes.txt"));
}

#[test]
fn upload_queue_of_nothing_is_empty() {
    assert!(upload_queue(Vec::new()).is_empty());
}

#[test]
fn upload_queue_puts_oldest_first() {
    let queue = upload_queue(vec![
        file("new.png", 1, at(300, 0)),
        file("old.png", 1, at(100, 0)),
        file("mid.png", 1, at(200, 0)),
    ]);
    assert_eq!(names(&queue), vec!["old.png", "mid.png", "new.png"]);
}

#[test]
fn upload_queue_orders_by_nanos_within_a_second() {
    let queue = upload_queue(vec![
        file("b.png", 1, at(100, 20)),
        file("a.png", 1, at(100, 10)),
        file("c.png", 1, at(99, 999_999_999)),
    ]);
    assert_eq!(names(&queue), vec!["c.png", "a.png", "b.png"]);
}

#[test]
fn upload_queue_leaves_out_what_is_no_image() {
    let queue = upload_queue(vec![
        file("notes.txt", 1, at(1, 0)),
        file("a.png", 1, at(2, 0)),
        file(".png", 1, at(3, 0)),
        file("b.JPEG", 1, at(4, 0)),
        file("movie.mp4", 1, at(5, 0)),
    ]);
    assert_eq!(names(&queue), vec!["a.png", "b.JPEG"]);
}

#[test]
fn upload_queue_keeps_order_of_equal_times() {
    let queue = upload_queue(vec![
        file("first.png", 1, at(100, 0)),
        file("early.png", 1, at(50, 0)),
        file("second.png", 2, at(100, 0)),
        file("third.png", 3, at(100, 0)),
        file("late.png", 1, at(150, 0)),
    ]);
    assert_eq!(
        names(&queue),
        vec!["early.png", "first.png", "second.png", "third.png", "late.png"]
    );
}

#[test]
fn upload_queue_keeps_every_image_once() {
    let queue = upload_queue(vec![
        file("a.png", 1, at(3, 0)),
        file("a.png", 2, at(1, 0)),
        file("b.png", 3, at(2, 0)),
    ]);
    let sizes: Vec<u64> = queue.iter().map(|f| f.size).collect();
    assert_eq!(names(&queue), vec!["a.png", "b.png", "a.png"]);
    assert_eq!(sizes, vec![2, 3, 1]);
}
