//! The catalog's boundary data model: the identifier types its REST
//! responses carry, the credentials a session presents, and the
//! catalog's error taxonomy. The HTTP client that fills these types is
//! the caller's concern.

use vstd::prelude::*;

verus! {

/// A catalog track identifier.
#[derive(Debug, Clone)]
pub struct TrackId(pub String);

/// A radio station identifier.
#[derive(Debug, Clone)]
pub struct RadioId(pub String);

/// An album identifier.
#[derive(Debug, Clone)]
pub struct AlbumId(pub String);

/// An artist identifier.
#[derive(Debug, Clone)]
pub struct ArtistId(pub String);

/// A cover art identifier.
#[derive(Debug, Clone)]
pub struct CoverArtId(pub String);

/// One credited artist of a track.
#[derive(Debug, Clone)]
pub struct TrackArtist {
    pub name: String,
    pub id: ArtistId,
}

/// The credentials a client presents to the catalog, passed through on
/// every call: either a salted token pair or a plain password.
#[derive(Debug, Clone)]
pub struct AuthParams {
    pub username: Option<String>,
    pub salt: Option<String>,
    pub token: Option<String>,
    pub password: Option<String>,
}

/// An error the catalog reports in a response body.
#[derive(Debug, Clone)]
pub struct SubsonicError {
    pub code: SubsonicErrorCode,
    pub message: String,
}

/// The catalog's error codes: the one this system reacts to by name, and
/// the rest by number.
#[derive(Debug, Clone, Copy, PartialEq, Eq, Structural)]
pub enum SubsonicErrorCode {
    NotFound,
    Other(usize),
}

impl SubsonicErrorCode {
    /// Reads a numeric error code; 70 is the catalog's not-found code.
    pub fn from_code(code: usize) -> (r: SubsonicErrorCode)
        ensures
            r == (if code == 70 {
                SubsonicErrorCode::NotFound
            } else {
                SubsonicErrorCode::Other(code)
            }),
    {
        if code == 70 {
            SubsonicErrorCode::NotFound
        } else {
            SubsonicErrorCode::Other(code)
        }
    }
}

} // verus!
