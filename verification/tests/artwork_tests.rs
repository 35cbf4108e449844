use cover_art::artwork::upgrade_artwork_url;

#[test]
fn upgrades_typical_thumbnail_url() {
    let url = "https://is1-ssl.mzstatic.com/image/thumb/Music/v4/ab/cd/ef/cover.jpg/600x600bb.jpg";
    let got = upgrade_artwork_url(url);
    assert_eq!(
        got.as_deref(),
        Some("https://a1.mzstatic.com/us/r1000/0/Music/v4/ab/cd/ef/cover.jpg")
    );
}

#[test]
fn drops_exactly_the_last_segment() {
    let got = upgrade_artwork_url("x/image/thumb/a/b");
    assert_eq!(got.as_deref(), Some("https://a1.mzstatic.com/us/r1000/0/a"));
}

#[test]
fn keeps_empty_last_segment_rule() {
    // a trailing slash makes the final (empty) segment the one dropped
    let got = upgrade_artwork_url("x/image/thumb/a/");
    assert_eq!(got.as_deref(), Some("https://a1.mzstatic.com/us/r1000/0/a"));
}

#[test]
fn no_marker_means_no_url() {
    assert_eq!(upgrade_artwork_url("https://example.com/a/b/c.jpg"), None);
}

#[test]
fn single_segment_after_marker_means_no_url() {
    assert_eq!(
        upgrade_artwork_url("https://host/image/thumb/600x600bb.jpg"),
        None
    );
}

#[test]
fn nothing_after_marker_means_no_url() {
    assert_eq!(upgrade_artwork_url("https://host/image/thumb/"), None);
}

#[test]
fn empty_input_means_no_url() {
    assert_eq!(upgrade_artwork_url(""), None);
}

#[test]
fn first_marker_wins_when_repeated() {
    // everything after the first marker counts, later markers are plain segments
    let got = upgrade_artwork_url("a/image/thumb/b/image/thumb/c");
    assert_eq!(
        got.as_deref(),
        Some("https://a1.mzstatic.com/us/r1000/0/b/image/thumb")
    );
}
