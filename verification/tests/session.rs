use bookfetch::errors::SessionError;
use bookfetch::session::SessionState;
use reqwest_cookie_store::CookieStore;
use url::Url;

fn cookie_pairs(store: &CookieStore, url: &str) -> Vec<(String, String)> {
    let url = Url::parse(url).unwrap();
    let mut pairs: Vec<(String, String)> = store
        .get_request_values(&url)
        .map(|(name, value)| (name.to_string(), value.to_string()))
        .collect();
    pairs.sort();
    pairs
}

fn pair(name: &str, value: &str) -> (String, String) {
    (name.to_string(), value.to_string())
}

#[test]
fn a_new_session_presents_no_cookie() {
    let store = SessionState::create().into_store();
    assert_eq!(store.iter_any().count(), 0);
    assert_eq!(cookie_pairs(&store, "https://digi4school.at/"), Vec::new());
}

#[test]
fn a_restored_session_presents_the_same_cookies() {
    let url = Url::parse("https://digi4school.at/ebooks").unwrap();
    let mut store = SessionState::create().into_store();
    store.parse("a=1", &url).unwrap();
    store.parse("b=2; Max-Age=3600; Path=/", &url).unwrap();
    let session = SessionState::from_store(store);
    let bytes = session.persist().unwrap();
    assert!(!bytes.is_empty());
    let restored = SessionState::restore(&bytes).unwrap().into_store();
    let want = vec![pair("a", "1"), pair("b", "2")];
    assert_eq!(cookie_pairs(&restored, "https://digi4school.at/ebooks"), want);
    assert_eq!(
        cookie_pairs(&session.into_store(), "https://digi4school.at/ebooks"),
        want
    );
    assert_eq!(cookie_pairs(&restored, "https://other.example/"), Vec::new());
}

#[test]
fn a_snapshot_can_be_taken_again() {
    let url = Url::parse("https://a.digi4school.at/").unwrap();
    let mut store = CookieStore::default();
    store.parse("session=xyz; Domain=digi4school.at", &url).unwrap();
    let first = SessionState::from_store(store).persist().unwrap();
    let again = SessionState::restore(&first).unwrap().persist().unwrap();
    assert_eq!(first, again);
    let back = SessionState::restore(&again).unwrap().into_store();
    assert_eq!(
        cookie_pairs(&back, "https://digi4school.at/x"),
        vec![pair("session", "xyz")]
    );
}

#[test]
fn an_empty_session_round_trips() {
    let bytes = SessionState::create().persist().unwrap();
    assert_eq!(bytes, Vec::<u8>::new());
    let restored = SessionState::restore(&bytes).unwrap().into_store();
    assert_eq!(restored.iter_any().count(), 0);
}

#[test]
fn malformed_bytes_are_corrupt() {
    for bytes in [&b"not a snapshot"[..], &b"{\"raw_cookie\": 5}"[..], &[0xff, 0xfe][..]] {
        match SessionState::restore(bytes) {
            Err(e) => assert_eq!(e, SessionError::Corrupt),
            Ok(_) => panic!("restored from {:?}", bytes),
        }
    }
}

#[test]
fn outcomes_of_loading_and_saving_are_mapped() {
    assert!(matches!(
        SessionState::from_loaded(None),
        Err(SessionError::Corrupt)
    ));
    assert!(SessionState::from_loaded(Some(CookieStore::default())).is_ok());
    assert_eq!(SessionState::from_saved(None), Err(SessionError::Unwritable));
    assert_eq!(SessionState::from_saved(Some(vec![1, 2])), Ok(vec![1, 2]));
}

fn sorted_lines(bytes: &[u8]) -> Vec<Vec<u8>> {
    let mut lines: Vec<Vec<u8>> = bytes
        .split(|b| *b == b'\n')
        .map(|line| line.to_vec())
        .collect();
    assert_eq!(lines.pop(), Some(Vec::new()));
    lines.sort();
    lines
}

#[test]
fn a_snapshot_holds_one_line_for_each_cookie() {
    let mut store = CookieStore::default();
    for (cookie, url) in [
        ("a=1", "https://digi4school.at/"),
        ("b=2; Max-Age=3600", "https://a.digi4school.at/ebook/"),
        ("c=3; Path=/x", "https://other.example/x/y"),
        ("a=4", "https://other.example/"),
    ] {
        store.parse(cookie, &Url::parse(url).unwrap()).unwrap();
    }
    let session = SessionState::from_store(store);
    let bytes = session.persist().unwrap();
    assert_eq!(bytes.last(), Some(&b'\n'));
    let lines = sorted_lines(&bytes);
    assert_eq!(lines.len(), 4);
    for line in &lines {
        assert!(!line.is_empty());
    }
    assert_eq!(sorted_lines(&session.persist().unwrap()), lines);
    let restored = SessionState::restore(&bytes).unwrap();
    assert_eq!(sorted_lines(&restored.persist().unwrap()), lines);
}
