use cover_art::download::download_plan;
use cover_art::record::count_albums;
use cover_art::record::eligible_record;
use cover_art::record::keep_record;
use cover_art::record::process_records;
use cover_art::record::upgrade_record;
use cover_art::record::AlbumRecord;

fn record(
    artist: Option<&str>,
    album: Option<&str>,
    thumb: Option<&str>,
) -> AlbumRecord {
    AlbumRecord {
        artist_name: artist.map(|s| s.to_string()),
        collection_name: album.map(|s| s.to_string()),
        artwork_url100: thumb.map(|s| s.to_string()),
        artwork_url: None,
    }
}

#[test]
fn filter_keeps_case_insensitive_match() {
    let rec = record(Some("daft punk"), None, None);
    assert!(keep_record(&rec, "Daft Punk"));
    assert!(keep_record(&rec, "DAFT PUNK"));
}

#[test]
fn filter_drops_other_artists() {
    let rec = record(Some("Daft Punk Tribute Band"), None, None);
    assert!(!keep_record(&rec, "Daft Punk"));
}

#[test]
fn filter_always_drops_records_without_artist() {
    let rec = record(None, Some("Discovery"), None);
    assert!(!keep_record(&rec, "Daft Punk"));
    assert!(!keep_record(&rec, ""));
}

#[test]
fn upgrade_sets_derived_url_only_when_parseable() {
    let rec = record(
        Some("Daft Punk"),
        Some("Discovery"),
        Some("https://host/image/thumb/Music/a/b/cover.jpg/100x100bb.jpg"),
    );
    let up = upgrade_record(rec);
    assert_eq!(
        up.artwork_url.as_deref(),
        Some("https://a1.mzstatic.com/us/r1000/0/Music/a/b/cover.jpg")
    );
    // the other fields are untouched
    assert_eq!(up.artist_name.as_deref(), Some("Daft Punk"));
    assert_eq!(up.collection_name.as_deref(), Some("Discovery"));
    assert_eq!(
        up.artwork_url100.as_deref(),
        Some("https://host/image/thumb/Music/a/b/cover.jpg/100x100bb.jpg")
    );

    let bad = record(Some("Daft Punk"), Some("Discovery"), Some("no marker here"));
    let up = upgrade_record(bad);
    assert_eq!(up.artwork_url, None);

    let none = record(Some("Daft Punk"), Some("Discovery"), None);
    let up = upgrade_record(none);
    assert_eq!(up.artwork_url, None);
}

#[test]
fn process_filters_and_annotates_in_order() {
    let records = vec![
        record(Some("Daft Punk"), Some("Homework"), Some("h/image/thumb/a/b/c")),
        record(Some("Someone Else"), Some("Other"), Some("h/image/thumb/a/b/c")),
        record(None, Some("Anonymous"), None),
        record(Some("DAFT PUNK"), Some("Discovery"), None),
    ];
    let out = process_records(&records, "daft punk");
    assert_eq!(out.len(), 2);
    assert_eq!(out[0].collection_name.as_deref(), Some("Homework"));
    assert_eq!(
        out[0].artwork_url.as_deref(),
        Some("https://a1.mzstatic.com/us/r1000/0/a/b")
    );
    assert_eq!(out[1].collection_name.as_deref(), Some("Discovery"));
    assert_eq!(out[1].artwork_url, None);
}

#[test]
fn ineligible_records_are_skipped_not_fatal() {
    let records = vec![
        record(Some("Daft Punk"), None, None), // artist record: no album title
        record(None, Some("Discovery"), None), // no artist name
        record(Some("Daft Punk"), Some("Homework"), None), // no derived URL
    ];
    for rec in &records {
        assert!(!eligible_record(rec));
    }
    let plan = download_plan(&records);
    assert!(plan.is_empty());
}

#[test]
fn count_albums_counts_album_titles_only() {
    let records = vec![
        record(Some("Daft Punk"), None, None),
        record(Some("Daft Punk"), Some("Homework"), None),
        record(None, Some("Discovery"), None),
    ];
    assert_eq!(count_albums(&records), 2);
}

#[test]
fn plan_carries_sanitized_segments_and_url() {
    let mut rec = record(Some(" Daft/Punk "), Some("A/B"), None);
    rec.artwork_url = Some("https://a1.mzstatic.com/us/r1000/0/x".to_string());
    let plan = download_plan(&vec![rec]);
    assert_eq!(plan.len(), 1);
    assert_eq!(plan[0].artist_name, " Daft/Punk ");
    assert_eq!(plan[0].album_name, "A/B");
    assert_eq!(plan[0].artist_dir, "Daft_Punk");
    assert_eq!(plan[0].album_dir, "A_B");
    assert_eq!(plan[0].url, "https://a1.mzstatic.com/us/r1000/0/x");
}

#[test]
fn scenario_full_album_listing() {
    // one artist record and one album record, as the lookup returns them
    let query = "Daft Punk";
    let records = vec![
        record(Some("Daft Punk"), None, None),
        record(
            Some("Daft Punk"),
            Some("Discovery"),
            Some("https://is1-ssl.mzstatic.com/image/thumb/Music/v4/aa/bb/cc/x.jpg/600x600bb.jpg"),
        ),
    ];
    let processed = process_records(&records, query);
    // the artist record passes the filter but stays ineligible
    assert_eq!(processed.len(), 2);
    let plan = download_plan(&processed);
    assert_eq!(plan.len(), 1);
    assert_eq!(plan[0].artist_dir, "Daft Punk");
    assert_eq!(plan[0].album_dir, "Discovery");
    assert_eq!(
        plan[0].url,
        "https://a1.mzstatic.com/us/r1000/0/Music/v4/aa/bb/cc/x.jpg"
    );
    let path = format!("Artists/{}/{}/cover.jpg", plan[0].artist_dir, plan[0].album_dir);
    assert_eq!(path, "Artists/Daft Punk/Discovery/cover.jpg");
}
