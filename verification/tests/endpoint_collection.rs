use immich_sync::collection::{
    find_collection, link_url_of, listing_url_of, Collection, API_KEY_HEADER,
};
use immich_sync::endpoint::{Endpoints, PROBE_TIMEOUT_SECS, REQUEST_TIMEOUT_SECS};

fn endpoints(primary: &str, fallback: &str) -> Endpoints {
    Endpoints { primary: primary.to_string(), fallback: fallback.to_string() }
}

fn collection(id: &str, name: &str) -> Collection {
    Collection { id: id.to_string(), name: name.to_string() }
}

#[test]
fn reachable_primary_is_preferred_to_fallback() {
    let e = endpoints("http://nas.local:2283", "https://photos.example");
    assert_eq!(e.resolve(true), Some("http://nas.local:2283".to_string()));
}

#[test]
fn unreachable_primary_gives_way_to_fallback() {
    let e = endpoints("http://nas.local:2283", "https://photos.example");
    assert_eq!(e.resolve(false), Some("https://photos.example".to_string()));
}

#[test]
fn without_candidates_there_is_no_endpoint() {
    let e = endpoints("", "");
    assert_eq!(e.resolve(false), None);
    assert_eq!(e.resolve(true), None);
}

#[test]
fn unreachable_primary_without_fallback_gives_no_endpoint() {
    assert_eq!(endpoints("http://nas.local:2283", "").resolve(false), None);
}

#[test]
fn reachable_primary_without_fallback_is_taken() {
    let e = endpoints("http://nas.local:2283", "");
    assert_eq!(e.resolve(true), Some("http://nas.local:2283".to_string()));
}

#[test]
fn fallback_alone_is_taken_whatever_the_probe_says() {
    let e = endpoints("", "https://photos.example");
    assert_eq!(e.resolve(false), Some("https://photos.example".to_string()));
    assert_eq!(e.resolve(true), Some("https://photos.example".to_string()));
}

#[test]
fn only_a_set_primary_is_probed() {
    assert!(endpoints("http://nas.local:2283", "").needs_probe());
    assert!(!endpoints("", "https://photos.example").needs_probe());
    assert!(!endpoints("", "").needs_probe());
}

#[test]
fn probe_goes_to_the_health_check_of_the_primary() {
    let e = endpoints("http://nas.local:2283", "https://photos.example");
    assert_eq!(e.probe_url(), "http://nas.local:2283/api/server/ping");
}

#[test]
fn probe_timeout_is_shorter_than_request_timeout() {
    assert_eq!(PROBE_TIMEOUT_SECS, 2);
    assert_eq!(REQUEST_TIMEOUT_SECS, 60);
    assert!(PROBE_TIMEOUT_SECS < REQUEST_TIMEOUT_SECS);
}

#[test]
fn credential_travels_in_the_api_key_header() {
    assert_eq!(API_KEY_HEADER, "x-api-key");
}

#[test]
fn collection_is_found_by_exact_name() {
    let listing = vec![collection("1", "Holidays"), collection("2", "Screenshots")];
    assert_eq!(find_collection(&listing, "Screenshots"), Some("2".to_string()));
    assert_eq!(find_collection(&listing, "Holidays"), Some("1".to_string()));
}

#[test]
fn first_of_several_collections_of_one_name_counts() {
    let listing = vec![
        collection("1", "Other"),
        collection("2", "Screenshots"),
        collection("3", "Screenshots"),
    ];
    assert_eq!(find_collection(&listing, "Screenshots"), Some("2".to_string()));
}

#[test]
fn collection_name_must_match_to_the_letter() {
    let listing = vec![collection("1", "Screenshots")];
    assert_eq!(find_collection(&listing, "screenshots"), None);
    assert_eq!(find_collection(&listing, "Screenshot"), None);
    assert_eq!(find_collection(&listing, "Screenshots "), None);
    assert_eq!(find_collection(&listing, ""), None);
}

#[test]
fn collection_is_not_found_in_empty_listing() {
    assert_eq!(find_collection(&Vec::new(), "Screenshots"), None);
}

#[test]
fn collection_with_empty_name_is_found_by_empty_name() {
    let listing = vec![collection("1", "a"), collection("2", "")];
    assert_eq!(find_collection(&listing, ""), Some("2".to_string()));
}

#[test]
fn listing_address_is_under_the_base_url() {
    assert_eq!(listing_url_of("http://nas.local:2283"), "http://nas.local:2283/api/albums");
}

#[test]
fn link_address_names_the_collection() {
    assert_eq!(
        link_url_of("http://nas.local:2283", "album-7"),
        "http://nas.local:2283/api/albums/album-7/assets"
    );
}
