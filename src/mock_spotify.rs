//! A stand-in for the web API: canned responses by endpoint, and a count of
//! the requests made.

use vstd::prelude::*;

verus! {

/// The response registered last for `endpoint` among `entries`, if any.
pub open spec fn lookup(entries: Seq<(Seq<char>, Seq<char>)>, endpoint: Seq<char>) -> Option<Seq<char>>
    decreases entries.len(),
{
    if entries.len() == 0 {
        None
    } else if entries.last().0 == endpoint {
        Some(entries.last().1)
    } else {
        lookup(entries.drop_last(), endpoint)
    }
}

/// Canned responses by endpoint, and the number of requests served.
pub struct MockSpotifyServer {
    responses: Vec<(String, String)>,
    request_count: usize,
}

impl MockSpotifyServer {
    /// The registrations, oldest first, as (endpoint, response).
    pub closed spec fn entries(&self) -> Seq<(Seq<char>, Seq<char>)> {
        self.responses@.map_values(|e: (String, String)| (e.0@, e.1@))
    }

    /// The number of requests served since creation or the last reset.
    pub closed spec fn requests(&self) -> nat {
        self.request_count as nat
    }

    /// A server with no responses and no requests.
    pub fn new() -> (r: MockSpotifyServer)
        ensures
            r.entries() == Seq::<(Seq<char>, Seq<char>)>::empty(),
            r.requests() == 0,
    {
        let r = MockSpotifyServer { responses: Vec::new(), request_count: 0 };
        assert(r.entries() =~= Seq::<(Seq<char>, Seq<char>)>::empty());
        r
    }

    /// Registers `response` for `endpoint`, replacing any earlier one.
    pub fn register_response(&mut self, endpoint: &str, response: &str)
        ensures
            final(self).entries() == old(self).entries().push((endpoint@, response@)),
            final(self).requests() == old(self).requests(),
    {
        self.responses.push((endpoint.to_owned(), response.to_owned()));
        assert(final(self).entries() =~= old(self).entries().push((endpoint@, response@)));
    }

    /// The response registered for `endpoint`; every call counts as a
    /// request, answered or not.
    pub fn get_response(&mut self, endpoint: &str) -> (r: Option<String>)
        requires
            old(self).requests() < usize::MAX,
        ensures
            match r {
                Some(s) => lookup(old(self).entries(), endpoint@) == Some(s@),
                None => lookup(old(self).entries(), endpoint@) is None,
            },
            final(self).entries() == old(self).entries(),
            final(self).requests() == old(self).requests() + 1,
    {
        self.request_count = self.request_count + 1;
        let key = endpoint.to_owned();
        let ghost all = self.entries();
        let mut i: usize = self.responses.len();
        assert(all.take(i as int) =~= all);
        while i > 0
            invariant
                i <= self.responses@.len() == all.len(),
                self.responses@ == old(self).responses@,
                self.request_count == old(self).request_count + 1,
                all == self.entries(),
                lookup(all, endpoint@) == lookup(all.take(i as int), endpoint@),
                key@ == endpoint@,
            decreases i,
        {
            let e = &self.responses[i - 1];
            assert(all.take(i as int).last() == (e.0@, e.1@));
            assert(all.take(i as int).drop_last() =~= all.take(i - 1));
            if e.0 == key {
                return Some(e.1.clone());
            }
            i = i - 1;
        }
        None
    }

    /// The number of requests served.
    pub fn request_count(&self) -> (r: usize)
        ensures
            r == self.requests(),
    {
        self.request_count
    }

    /// Forgets every response and sets the request count back to zero.
    pub fn reset(&mut self)
        ensures
            final(self).entries() == Seq::<(Seq<char>, Seq<char>)>::empty(),
            final(self).requests() == 0,
    {
        self.responses.clear();
        self.request_count = 0;
        assert(final(self).entries() =~= Seq::<(Seq<char>, Seq<char>)>::empty());
    }

    /// A successful token response.
    pub fn mock_auth_success() -> (r: String)
        ensures
            r@ == AUTH_SUCCESS@,
    {
        AUTH_SUCCESS.to_owned()
    }

    /// A user profile response.
    pub fn mock_user_profile() -> (r: String)
        ensures
            r@ == USER_PROFILE@,
    {
        USER_PROFILE.to_owned()
    }

    /// A track response: three minutes, one artist, one album.
    pub fn mock_track() -> (r: String)
        ensures
            r@ == TRACK@,
    {
        TRACK.to_owned()
    }

    /// A playlist response of ten tracks.
    pub fn mock_playlist() -> (r: String)
        ensures
            r@ == PLAYLIST@,
    {
        PLAYLIST.to_owned()
    }
}

impl Default for MockSpotifyServer {
    fn default() -> (r: MockSpotifyServer)
        ensures
            r.entries() == Seq::<(Seq<char>, Seq<char>)>::empty(),
            r.requests() == 0,
    {
        MockSpotifyServer::new()
    }
}

/// The body of a successful token response.
pub const AUTH_SUCCESS: &'static str = r#"{
            "access_token": "mock_access_token_12345",
            "token_type": "Bearer",
            "expires_in": 3600,
            "refresh_token": "mock_refresh_token_67890",
            "scope": "user-read-private user-read-email"
        }"#;

/// The body of a user profile response.
pub const USER_PROFILE: &'static str = r#"{
            "id": "test_user",
            "display_name": "Test User",
            "email": "test@example.com",
            "country": "US",
            "product": "premium"
        }"#;

/// The body of a track response.
pub const TRACK: &'static str = r#"{
            "id": "track_123",
            "name": "Test Track",
            "duration_ms": 180000,
            "artists": [
                {
                    "id": "artist_456",
                    "name": "Test Artist"
                }
            ],
            "album": {
                "id": "album_789",
                "name": "Test Album"
            }
        }"#;

/// The body of a playlist response.
pub const PLAYLIST: &'static str = r#"{
            "id": "playlist_001",
            "name": "Test Playlist",
            "description": "A test playlist",
            "tracks": {
                "total": 10
            }
        }"#;

} // verus!
