use so::codec::{parse_sites, render_sites};
use so::error::ErrorKind;
use so::sites::{CacheFile, LocalStorage, Site, SitesOutcome};

fn site(code: &str, url: &str) -> Site {
    Site { api_site_parameter: String::from(code), site_url: String::from(url) }
}

fn codes(sites: &[Site]) -> Vec<String> {
    sites.iter().map(|s| s.api_site_parameter.clone()).collect()
}

fn render_text(sites: &Vec<Site>) -> String {
    render_sites(sites).into_iter().collect()
}

#[test]
fn codec_round_trip_two_sites() {
    let list = vec![
        site("stackoverflow", "https://stackoverflow.com"),
        site("unix", "https://unix.stackexchange.com"),
    ];
    let text = render_text(&list);
    let expected = String::from("[{\"api_site_parameter\":\"stackoverflow\",\"site_url\":\"https://stackoverflow.com\"},{\"api_site_parameter\":\"unix\",\"site_url\":\"https://unix.stackexchange.com\"}]");
    assert_eq!(text, expected);
    let parsed = parse_sites(&text.chars().collect()).unwrap();
    assert_eq!(codes(&parsed), codes(&list));
    assert_eq!(parsed[0].site_url, "https://stackoverflow.com");
    assert_eq!(parsed[1].site_url, "https://unix.stackexchange.com");
}

#[test]
fn codec_round_trip_empty_list_and_escapes() {
    let empty: Vec<Site> = Vec::new();
    let text = render_text(&empty);
    assert_eq!(text, "[]");
    assert_eq!(parse_sites(&text.chars().collect()).unwrap().len(), 0);

    let tricky = vec![site("a\"b\\c", "http://x/\"q\"")];
    let text = render_text(&tricky);
    let parsed = parse_sites(&text.chars().collect()).unwrap();
    assert_eq!(parsed[0].api_site_parameter, "a\"b\\c");
    assert_eq!(parsed[0].site_url, "http://x/\"q\"");
}

#[test]
fn codec_rejects_malformed_input() {
    let bad = [
        "",
        "[",
        "{}",
        "[{]",
        "[{\"api_site_parameter\":\"a\",\"site_url\":\"b\"}",
        "[{\"api_site_parameter\":\"a\",\"site_url\":\"b\"}]x",
        "[{\"api_site_parameter\":\"a\\qb\",\"site_url\":\"b\"}]",
        "[{\"site_url\":\"b\",\"api_site_parameter\":\"a\"}]",
    ];
    for text in bad.iter() {
        assert!(parse_sites(&text.chars().collect()).is_none(), "accepted: {}", text);
    }
}

#[test]
fn sites_loads_well_formed_cache_without_fetch() {
    let list = vec![site("stackoverflow", "https://stackoverflow.com")];
    let bytes = render_text(&list).into_bytes();
    let mut storage = LocalStorage::new();
    match storage.sites(CacheFile::Contents(bytes)).unwrap() {
        SitesOutcome::Loaded(got) => assert_eq!(codes(&got), codes(&list)),
        SitesOutcome::FetchNeeded => panic!("a well-formed cache must not trigger a fetch"),
    }
    match storage.sites(CacheFile::Absent).unwrap() {
        SitesOutcome::Loaded(got) => assert_eq!(codes(&got), codes(&list)),
        SitesOutcome::FetchNeeded => panic!("a loaded registry must not reload"),
    }
}

#[test]
fn sites_absent_cache_needs_exactly_one_fetch() {
    let mut storage = LocalStorage::new();
    match storage.sites(CacheFile::Absent).unwrap() {
        SitesOutcome::FetchNeeded => {},
        SitesOutcome::Loaded(_) => panic!("nothing could have been loaded"),
    }
    let fetched = vec![site("unix", "https://unix.stackexchange.com")];
    let persisted = storage.update_sites(fetched.clone());
    let reread = parse_sites(&persisted.chars().collect()).unwrap();
    assert_eq!(codes(&reread), codes(&fetched));
    match storage.sites(CacheFile::Absent).unwrap() {
        SitesOutcome::Loaded(got) => assert_eq!(codes(&got), codes(&fetched)),
        SitesOutcome::FetchNeeded => panic!("the adopted list must be served without a fetch"),
    }
}

#[test]
fn sites_corrupt_cache_fails_without_refetch() {
    let mut storage = LocalStorage::new();
    let e = storage.sites(CacheFile::Contents(b"[{\"api_site_para".to_vec())).unwrap_err();
    assert_eq!(e.kind, ErrorKind::CacheCorrupt);
    let e = storage.sites(CacheFile::Contents(vec![0xff, 0xfe])).unwrap_err();
    assert_eq!(e.kind, ErrorKind::CacheCorrupt);
}

#[test]
fn update_sites_replaces_wholesale() {
    let mut storage = LocalStorage::new();
    storage.update_sites(vec![site("a", "u1"), site("b", "u2")]);
    let persisted = storage.update_sites(vec![site("c", "u3")]);
    let reread = parse_sites(&persisted.chars().collect()).unwrap();
    assert_eq!(reread.len(), 1);
    assert_eq!(reread[0].api_site_parameter, "c");
    match storage.sites(CacheFile::Absent).unwrap() {
        SitesOutcome::Loaded(got) => assert_eq!(got.len(), 1),
        SitesOutcome::FetchNeeded => panic!("the replaced list must be served"),
    }
}

#[test]
fn sites_once_loaded_ignores_later_cache_state() {
    let list = vec![site("stackoverflow", "https://stackoverflow.com")];
    let bytes = render_text(&list).into_bytes();
    let mut storage = LocalStorage::new();
    storage.sites(CacheFile::Contents(bytes)).unwrap();
    // Once loaded, the registry serves its held list whatever the file
    // looks like now: no reload, no corruption error.
    match storage.sites(CacheFile::Contents(b"garbage".to_vec())).unwrap() {
        SitesOutcome::Loaded(got) => assert_eq!(codes(&got), codes(&list)),
        SitesOutcome::FetchNeeded => panic!("a loaded registry must not reload"),
    }
}

#[test]
fn error_kinds_carry_their_message() {
    let e = so::error::Error::new(ErrorKind::SiteNotFound, String::from("zombocom"));
    assert_eq!(e.kind, ErrorKind::SiteNotFound);
    assert_eq!(e.message(), "zombocom");
}

#[test]
fn validate_site_distinguishes_absent_from_empty() {
    let mut storage = LocalStorage::new();
    storage.update_sites(vec![
        site("stackoverflow", "https://stackoverflow.com"),
        site("unix", "https://unix.stackexchange.com"),
    ]);
    assert!(storage.validate_site("stackoverflow").unwrap());
    assert!(!storage.validate_site("meta").unwrap());

    let mut empty = LocalStorage::new();
    empty.update_sites(Vec::new());
    let e = empty.validate_site("stackoverflow").unwrap_err();
    assert_eq!(e.kind, ErrorKind::EmptySites);
}
