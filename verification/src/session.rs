//! The session: the cookies that the portal has set. The cookie collection is
//! that of the HTTP client's cookie store; the library creates it, hands it to
//! the transport, and turns it into bytes and back. What the cookies are is
//! the store's business.

use vstd::prelude::*;
use vstd::multiset::Multiset;
use crate::errors::SessionError;
use reqwest_cookie_store::CookieStore;

verus! {

/// The cookie collection of the `cookie_store` crate, as `reqwest_cookie_store`
/// hands it on.
#[verifier::external_type_specification]
#[verifier::external_body]
pub struct ExCookieStore(reqwest_cookie_store::CookieStore);

/// The cookies that a store holds: the value of each, under its domain, path
/// and name.
pub uninterp spec fn stored_cookies(store: CookieStore) -> Map<
    (Seq<char>, Seq<char>, Seq<char>),
    Seq<char>,
>;

/// What a store without cookies holds.
pub open spec fn no_cookies() -> Map<(Seq<char>, Seq<char>, Seq<char>), Seq<char>> {
    Map::empty()
}

/// The cookies that `CookieStore::load_json_all` reads from `bytes`; `None`
/// where it reads no snapshot from them.
pub uninterp spec fn snapshot_cookies(bytes: Seq<u8>) -> Option<
    Map<(Seq<char>, Seq<char>, Seq<char>), Seq<char>>,
>;

/// The cookies of a store as a snapshot writes them: for each cookie the line
/// that `CookieStore::save_incl_expired_and_nonpersistent_json` writes for
/// it, without the line feed that ends it. The store is walked in no
/// particular order, so the lines have none.
pub uninterp spec fn snapshot_lines(store: CookieStore) -> Multiset<Seq<u8>>;

/// The byte that ends a line.
pub const LINE_FEED: u8 = 10;

/// How many bytes stand before the first line feed of `bytes`; their number
/// if it holds none.
pub open spec fn first_line_len(bytes: Seq<u8>) -> int
    decreases bytes.len(),
{
    if bytes.len() == 0 || bytes[0] == LINE_FEED {
        0
    } else {
        1 + first_line_len(bytes.drop_first())
    }
}

/// The lines of `bytes`: what stands before each line feed, in order. What
/// stands behind the last line feed is no line.
pub open spec fn lines_of(bytes: Seq<u8>) -> Seq<Seq<u8>>
    decreases bytes.len(),
{
    let end = first_line_len(bytes);
    if 0 <= end < bytes.len() {
        seq![bytes.take(end)] + lines_of(bytes.skip(end + 1))
    } else {
        Seq::empty()
    }
}

/// `bytes` is made of lines alone: it is empty, or a line feed ends it.
pub open spec fn whole_lines(bytes: Seq<u8>) -> bool {
    bytes.len() == 0 || bytes.last() == LINE_FEED
}

/// `CookieStore::default`. Taken on trust: that the store holds no cookie.
#[verifier::external_body]
fn empty_store() -> (store: CookieStore)
    ensures
        stored_cookies(store) == no_cookies(),
{
    CookieStore::default()
}

/// `CookieStore::load_json_all`: reads a snapshot, one cookie to a line, the
/// expired ones too; `None` where a line is no cookie. Taken on trust: that
/// the store holds what `snapshot_cookies` names, which says no more than
/// that the same bytes always read the same.
#[verifier::external_body]
#[allow(deprecated)]
fn load_store(bytes: &[u8]) -> (loaded: Option<CookieStore>)
    ensures
        loaded is Some <==> snapshot_cookies(bytes@) is Some,
        loaded matches Some(store) ==> snapshot_cookies(bytes@) == Some(stored_cookies(store)),
{
    CookieStore::load_json_all(bytes).ok()
}

/// `CookieStore::save_incl_expired_and_nonpersistent_json`: writes every
/// cookie of the store, the expired ones and those that end with the session
/// too, each as one line with a line feed behind it, in the order in which
/// the store happens to be walked; `None` where a cookie cannot be written.
/// Taken on trust: that the bytes are made of these lines and nothing else.
/// Nothing is claimed of the order of the lines.
#[verifier::external_body]
#[allow(deprecated)]
fn save_store(store: &CookieStore) -> (saved: Option<Vec<u8>>)
    ensures
        saved matches Some(bytes) ==> whole_lines(bytes@),
        saved matches Some(bytes) ==> lines_of(bytes@).to_multiset() == snapshot_lines(*store),
{
    let mut out: Vec<u8> = Vec::new();
    match store.save_incl_expired_and_nonpersistent_json(&mut out) {
        Ok(()) => Some(out),
        Err(_) => None,
    }
}

/// The cookies of one run. There is one session; whoever sends a request
/// reads it, and only the transport changes it.
pub struct SessionState {
    store: CookieStore,
}

impl SessionState {
    /// The cookie store of the session.
    pub closed spec fn store(&self) -> CookieStore {
        self.store
    }

    /// A session without cookies.
    pub fn create() -> (session: SessionState)
        ensures
            stored_cookies(session.store()) == no_cookies(),
    {
        SessionState { store: empty_store() }
    }

    /// The session around a cookie store that the transport has filled.
    pub fn from_store(store: CookieStore) -> (session: SessionState)
        ensures
            session.store() == store,
    {
        SessionState { store }
    }

    /// The cookie store of the session, for the transport to use.
    pub fn into_store(self) -> (store: CookieStore)
        ensures
            store == self.store(),
    {
        self.store
    }

    /// What reading a snapshot comes to: the session around the store that
    /// was read, or `Corrupt` where none was.
    pub fn from_loaded(loaded: Option<CookieStore>) -> (r: Result<SessionState, SessionError>)
        ensures
            match loaded {
                Some(store) => r matches Ok(session) && session.store() == store,
                None => r matches Err(e) && e == SessionError::Corrupt,
            },
    {
        match loaded {
            Some(store) => Ok(SessionState { store }),
            None => Err(SessionError::Corrupt),
        }
    }

    /// What writing a snapshot comes to: the bytes that were written, or
    /// `Unwritable` where none were.
    pub fn from_saved(saved: Option<Vec<u8>>) -> (r: Result<Vec<u8>, SessionError>)
        ensures
            match saved {
                Some(bytes) => r == Ok::<Vec<u8>, SessionError>(bytes),
                None => r == Err::<Vec<u8>, SessionError>(SessionError::Unwritable),
            },
    {
        match saved {
            Some(bytes) => Ok(bytes),
            None => Err(SessionError::Unwritable),
        }
    }

    /// Restores a session from a snapshot: the session holds the cookies that
    /// the cookie store reads from the bytes. It fails, with `Corrupt`,
    /// exactly on bytes that the cookie store reads no snapshot from.
    pub fn restore(bytes: &[u8]) -> (r: Result<SessionState, SessionError>)
        ensures
            match snapshot_cookies(bytes@) {
                Some(cookies) => r matches Ok(session) && stored_cookies(session.store())
                    == cookies,
                None => r matches Err(e) && e == SessionError::Corrupt,
            },
    {
        SessionState::from_loaded(load_store(bytes))
    }

    /// Writes the session out as a snapshot, in the form that `restore`
    /// takes: one line for each cookie of the session's store, the expired
    /// ones and those that end with the session too, and nothing besides.
    /// The lines come in no particular order. The only failure is
    /// `Unwritable`.
    pub fn persist(&self) -> (r: Result<Vec<u8>, SessionError>)
        ensures
            r matches Ok(bytes) ==> whole_lines(bytes@),
            r matches Ok(bytes) ==> lines_of(bytes@).to_multiset() == snapshot_lines(self.store()),
            r matches Err(e) ==> e == SessionError::Unwritable,
    {
        SessionState::from_saved(save_store(&self.store))
    }
}

} // verus!
