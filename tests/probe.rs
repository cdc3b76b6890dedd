use plex_monitor::checker::{ListingError, PlexChecker};
use plex_monitor::config::{Config, DiscordBot, Plex};
use plex_monitor::text::dots_as_dashes;
use plex_monitor::walk::{LibraryWalk, ProbeAction};

fn config(ssl: bool, libraries: &[&str]) -> Config {
    Config {
        plex: Plex {
            domain: "media.example.org".to_string(),
            ssl,
            port: 32400,
            plex_token: "tok".to_string(),
            certificate_uuid: "abc123".to_string(),
            libraries: libraries.iter().map(|s| s.to_string()).collect(),
        },
        discord_bot: DiscordBot {
            bot_token: "bot".to_string(),
            msg_channel_id: 42,
            ping_user_id: None,
        },
        pinger_interval_seconds: 60,
        pinger_reminder_seconds: 3600,
    }
}

fn checker(libraries: &[&str]) -> PlexChecker {
    PlexChecker::new(&config(true, libraries), &vec!["10.0.0.5".to_string()]).unwrap()
}

const LISTING: &str = "<MediaContainer size=\"2\">\
    <Directory key=\"1\" title=\"Movies\"/>\
    <Directory key=\"2\" title=\"Music\"/>\
    </MediaContainer>";

#[test]
fn dots_become_dashes() {
    assert_eq!(dots_as_dashes("192.168.1.10"), "192-168-1-10");
    assert_eq!(dots_as_dashes(""), "");
    assert_eq!(dots_as_dashes("::1"), "::1");
}

#[test]
fn ip_from_first_resolved_address() {
    let resolved = vec!["10.0.0.5".to_string(), "10.0.0.6".to_string()];
    assert_eq!(PlexChecker::get_ip_from_domain(&resolved), Some("10-0-0-5".to_string()));
    assert_eq!(PlexChecker::get_ip_from_domain(&vec![]), None);
}

#[test]
fn base_url_with_tls() {
    let url = PlexChecker::get_base_plex_url(&config(true, &[]), &vec!["10.0.0.5".to_string()]);
    assert_eq!(url, Some("https://10-0-0-5.abc123.plex.direct:32400/".to_string()));
}

#[test]
fn base_url_without_tls() {
    let url = PlexChecker::get_base_plex_url(&config(false, &[]), &vec!["192.168.0.2".to_string()]);
    assert_eq!(url, Some("http://192-168-0-2.abc123.plex.direct:32400/".to_string()));
}

#[test]
fn no_address_no_checker() {
    assert!(PlexChecker::get_base_plex_url(&config(true, &[]), &vec![]).is_none());
    assert!(PlexChecker::new(&config(true, &[]), &vec![]).is_none());
}

#[test]
fn checker_keeps_token_and_libraries() {
    let c = checker(&["Movies", "TV"]);
    assert_eq!(c.base_url, "https://10-0-0-5.abc123.plex.direct:32400/");
    assert_eq!(c.plex_token, "tok");
    assert_eq!(c.libraries_to_check, vec!["Movies".to_string(), "TV".to_string()]);
}

#[test]
fn request_urls() {
    let c = checker(&["Movies"]);
    assert_eq!(
        c.base_index_url(),
        "https://10-0-0-5.abc123.plex.direct:32400/?X-Plex-Token=tok"
    );
    assert_eq!(
        c.libraries_list_url(),
        "https://10-0-0-5.abc123.plex.direct:32400/library/sections/?X-Plex-Token=tok"
    );
    assert_eq!(
        c.library_all_url(17),
        "https://10-0-0-5.abc123.plex.direct:32400/library/sections/17/all?X-Plex-Token=tok"
    );
}

#[test]
fn base_status_must_be_200() {
    assert!(PlexChecker::check_base_index_status(Some(200)));
    assert!(!PlexChecker::check_base_index_status(Some(401)));
    assert!(!PlexChecker::check_base_index_status(Some(500)));
    assert!(!PlexChecker::check_base_index_status(None));
}

#[test]
fn matched_ids_and_single_library_request() {
    let c = checker(&["Movies", "TV"]);
    let ids = c.list_libraries_ids(Some(200), Some(LISTING)).unwrap();
    assert_eq!(ids, vec![1]);
    let (mut walk, first) = LibraryWalk::new(ids);
    assert_eq!(first, ProbeAction::FetchLibrary(1));
    assert_eq!(
        c.library_all_url(1),
        "https://10-0-0-5.abc123.plex.direct:32400/library/sections/1/all?X-Plex-Token=tok"
    );
    assert_eq!(walk.check_libraries_enum_status(Some(200)), ProbeAction::Finish(true));
}

#[test]
fn ids_follow_document_order() {
    let c = checker(&["Music", "Movies"]);
    assert_eq!(c.list_libraries_ids(Some(200), Some(LISTING)), Ok(vec![1, 2]));
}

#[test]
fn unlisted_library_is_ignored() {
    let c = checker(&["Movies", "Anime"]);
    assert_eq!(c.list_libraries_ids(Some(200), Some(LISTING)), Ok(vec![1]));
}

#[test]
fn no_matched_library_means_up() {
    let c = checker(&["Anime"]);
    let ids = c.list_libraries_ids(Some(200), Some(LISTING)).unwrap();
    assert!(ids.is_empty());
    let (_, first) = LibraryWalk::new(ids);
    assert_eq!(first, ProbeAction::Finish(true));
}

#[test]
fn missing_key_fails_listing() {
    let c = checker(&["Movies"]);
    let body = "<MediaContainer><Directory key=\"1\" title=\"Movies\"/><Directory title=\"Other\"/></MediaContainer>";
    assert_eq!(c.list_libraries_ids(Some(200), Some(body)), Err(ListingError::MissingAttribute));
}

#[test]
fn missing_title_fails_listing() {
    let c = checker(&["Movies"]);
    let body = "<MediaContainer><Directory key=\"3\"/><Directory key=\"1\" title=\"Movies\"/></MediaContainer>";
    assert_eq!(c.list_libraries_ids(Some(200), Some(body)), Err(ListingError::MissingAttribute));
}

#[test]
fn key_must_be_unsigned_integer() {
    let c = checker(&["Movies"]);
    let bad = "<MediaContainer><Directory key=\"one\" title=\"Movies\"/></MediaContainer>";
    assert_eq!(c.list_libraries_ids(Some(200), Some(bad)), Err(ListingError::InvalidKey));
    let negative = "<MediaContainer><Directory key=\"-1\" title=\"Movies\"/></MediaContainer>";
    assert_eq!(c.list_libraries_ids(Some(200), Some(negative)), Err(ListingError::InvalidKey));
    let signed = "<MediaContainer><Directory key=\"+7\" title=\"Movies\"/></MediaContainer>";
    assert_eq!(c.list_libraries_ids(Some(200), Some(signed)), Ok(vec![7]));
}

#[test]
fn unchecked_library_key_is_not_read() {
    let c = checker(&["Movies"]);
    let body = "<MediaContainer><Directory key=\"x\" title=\"Music\"/></MediaContainer>";
    assert_eq!(c.list_libraries_ids(Some(200), Some(body)), Ok(vec![]));
}

#[test]
fn listing_failures() {
    let c = checker(&["Movies"]);
    assert_eq!(c.list_libraries_ids(None, Some(LISTING)), Err(ListingError::Unreachable));
    assert_eq!(c.list_libraries_ids(Some(401), Some(LISTING)), Err(ListingError::Status));
    assert_eq!(c.list_libraries_ids(Some(200), None), Err(ListingError::Unreadable));
    assert_eq!(
        c.list_libraries_ids(Some(200), Some("<MediaContainer>")),
        Err(ListingError::MalformedXml)
    );
}

#[test]
fn walk_all_libraries_ok() {
    let (mut walk, first) = LibraryWalk::new(vec![4, 9]);
    assert_eq!(first, ProbeAction::FetchLibrary(4));
    assert_eq!(walk.check_libraries_enum_status(Some(200)), ProbeAction::FetchLibrary(9));
    assert_eq!(walk.check_libraries_enum_status(Some(200)), ProbeAction::Finish(true));
    assert_eq!(walk.checked, 2);
}

#[test]
fn walk_stops_at_first_failure() {
    let (mut walk, _) = LibraryWalk::new(vec![4, 9, 11]);
    assert_eq!(walk.check_libraries_enum_status(Some(200)), ProbeAction::FetchLibrary(9));
    assert_eq!(walk.check_libraries_enum_status(Some(404)), ProbeAction::Finish(false));
    assert_eq!(walk.checked, 1);
    let (mut other, _) = LibraryWalk::new(vec![5]);
    assert_eq!(other.check_libraries_enum_status(None), ProbeAction::Finish(false));
}

#[test]
fn probe_up_when_every_request_answers_200() {
    let c = checker(&["Movies", "Music"]);
    let listing = c.list_libraries_ids(Some(200), Some(LISTING));
    let (mut walk, first) = LibraryWalk::start_probe(Some(200), listing);
    assert_eq!(first, ProbeAction::FetchLibrary(1));
    assert_eq!(walk.check_libraries_enum_status(Some(200)), ProbeAction::FetchLibrary(2));
    assert_eq!(walk.check_libraries_enum_status(Some(200)), ProbeAction::Finish(true));
}

#[test]
fn probe_down_when_base_fails() {
    let c = checker(&["Movies"]);
    let listing = c.list_libraries_ids(Some(200), Some(LISTING));
    let (_, first) = LibraryWalk::start_probe(Some(401), listing.clone());
    assert_eq!(first, ProbeAction::Finish(false));
    let (_, unreachable) = LibraryWalk::start_probe(None, listing);
    assert_eq!(unreachable, ProbeAction::Finish(false));
}

#[test]
fn probe_down_when_listing_fails() {
    let c = checker(&["Movies"]);
    let listing = c.list_libraries_ids(Some(500), Some(LISTING));
    let (_, first) = LibraryWalk::start_probe(Some(200), listing);
    assert_eq!(first, ProbeAction::Finish(false));
}

#[test]
fn probe_down_when_library_request_fails() {
    let c = checker(&["Movies"]);
    let listing = c.list_libraries_ids(Some(200), Some(LISTING));
    let (mut walk, first) = LibraryWalk::start_probe(Some(200), listing);
    assert_eq!(first, ProbeAction::FetchLibrary(1));
    assert_eq!(walk.check_libraries_enum_status(Some(403)), ProbeAction::Finish(false));
}

#[test]
fn probe_up_without_library_requests_when_none_matched() {
    let c = checker(&["Anime"]);
    let listing = c.list_libraries_ids(Some(200), Some(LISTING));
    let (walk, first) = LibraryWalk::start_probe(Some(200), listing);
    assert_eq!(first, ProbeAction::Finish(true));
    assert!(walk.ids.is_empty());
}
