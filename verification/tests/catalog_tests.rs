use cover_art::catalog::build_lookup_url;
use cover_art::catalog::build_search_url;
use cover_art::catalog::decimal_string;
use cover_art::catalog::resolve_artist_id;
use cover_art::catalog::CatalogError;

#[test]
fn resolves_first_result() {
    let ids = vec![Some(5468295u64), Some(42)];
    assert_eq!(resolve_artist_id(&ids), Ok(5468295));
}

#[test]
fn empty_results_mean_no_artist_found() {
    let ids: Vec<Option<u64>> = vec![];
    let err = resolve_artist_id(&ids).unwrap_err();
    assert!(matches!(err, CatalogError::NoArtistFound));
    assert_eq!(err.message(), "NoArtistFound");
}

#[test]
fn first_result_without_id_means_no_artist_found() {
    let ids = vec![None, Some(7u64)];
    assert!(matches!(
        resolve_artist_id(&ids),
        Err(CatalogError::NoArtistFound)
    ));
}

#[test]
fn search_url_percent_encodes_the_name() {
    assert_eq!(
        build_search_url("Daft Punk"),
        "https://itunes.apple.com/search?term=Daft%20Punk&entity=musicArtist&limit=1"
    );
    assert_eq!(
        build_search_url("AC/DC"),
        "https://itunes.apple.com/search?term=AC%2FDC&entity=musicArtist&limit=1"
    );
    assert_eq!(
        build_search_url("M83"),
        "https://itunes.apple.com/search?term=M83&entity=musicArtist&limit=1"
    );
}

#[test]
fn lookup_url_holds_the_decimal_id() {
    assert_eq!(
        build_lookup_url(5468295),
        "https://itunes.apple.com/lookup?id=5468295&entity=album"
    );
    assert_eq!(
        build_lookup_url(0),
        "https://itunes.apple.com/lookup?id=0&entity=album"
    );
}

#[test]
fn decimal_string_is_exact() {
    assert_eq!(decimal_string(0), "0");
    assert_eq!(decimal_string(10), "10");
    assert_eq!(decimal_string(12345), "12345");
    assert_eq!(decimal_string(u64::MAX), "18446744073709551615");
}
