//! The shapes of the service's answers. Decoding JSON into them is done by
//! the caller; the one rule of the format that is not plain data mapping, the
//! correction flag, is decided here.

use vstd::prelude::*;

verus! {

/// The answer to an authentication request.
#[derive(Clone, Debug)]
pub struct AuthResponse {
    pub session: SessionResponse,
}

/// A session: its key, the subscriber flag and the name of the user.
#[derive(Clone, Debug)]
pub struct SessionResponse {
    pub key: String,
    pub subscriber: i64,
    pub name: String,
}

/// The envelope of the answer to a now-playing request.
#[derive(Clone, Debug)]
pub struct NowPlayingResponseWrapper {
    pub nowplaying: NowPlayingResponse,
}

/// The answer to a now-playing request, with any corrections the service made.
#[derive(Clone, Debug)]
pub struct NowPlayingResponse {
    pub artist: CorrectableString,
    pub album: CorrectableString,
    pub album_artist: CorrectableString,
    pub track: CorrectableString,
}

/// The envelope of the answer to a scrobble request.
#[derive(Clone, Debug)]
pub struct ScrobbleResponseWrapper {
    pub scrobbles: SingleScrobble,
}

/// The single result inside the answer to a scrobble request.
#[derive(Clone, Debug)]
pub struct SingleScrobble {
    pub scrobble: ScrobbleResponse,
}

/// The result of one scrobble, with any corrections the service made.
#[derive(Clone, Debug)]
pub struct ScrobbleResponse {
    pub artist: CorrectableString,
    pub album: CorrectableString,
    pub album_artist: CorrectableString,
    pub track: CorrectableString,
    pub timestamp: String,
}

/// The results of a batch scrobble.
#[derive(Clone, Debug)]
pub struct BatchScrobbleResponse {
    pub scrobbles: ScrobbleList,
}

/// The envelope of the answer to a batch scrobble request.
#[derive(Clone, Debug)]
pub struct BatchScrobbleResponseWrapper {
    pub scrobbles: BatchScrobbles,
}

/// The results inside the answer to a batch scrobble request.
#[derive(Clone, Debug)]
pub struct BatchScrobbles {
    pub scrobbles: ScrobbleList,
}

/// A list of scrobble results.
#[derive(Clone, Debug)]
pub struct ScrobbleList {
    items: Vec<ScrobbleResponse>,
}

impl View for ScrobbleList {
    type V = Seq<ScrobbleResponse>;

    closed spec fn view(&self) -> Seq<ScrobbleResponse> {
        self.items@
    }
}

impl ScrobbleList {
    /// A list of the given results, in their order.
    pub fn from_vec(items: Vec<ScrobbleResponse>) -> (r: ScrobbleList)
        ensures
            r@ == items@,
    {
        ScrobbleList { items }
    }

    /// The number of results.
    pub fn len(&self) -> (r: usize)
        ensures
            r == self@.len(),
    {
        self.items.len()
    }

    /// Whether the list holds no result.
    pub fn is_empty(&self) -> (r: bool)
        ensures
            r == (self@.len() == 0),
    {
        self.items.len() == 0
    }

    /// The result at `index`.
    pub fn get(&self, index: usize) -> (r: &ScrobbleResponse)
        requires
            index < self@.len(),
        ensures
            *r == self@[index as int],
    {
        &self.items[index]
    }
}

/// A value that the service may have corrected, for instance an artist's
/// name that it spelled differently.
#[derive(Clone, Debug)]
pub struct CorrectableString {
    pub corrected: bool,
    pub text: String,
}

/// The meaning of the correction flag's text: `"1"` corrected, `"0"` not,
/// anything else malformed.
pub open spec fn corrected_flag_of(flag: Seq<char>) -> Option<bool> {
    if flag == "1"@ {
        Some(true)
    } else if flag == "0"@ {
        Some(false)
    } else {
        None
    }
}

impl CorrectableString {
    /// Reads the correction flag, which the service sends as `"1"` or `"0"`.
    pub fn parse_corrected_flag(flag: &str) -> (r: Option<bool>)
        ensures
            r == corrected_flag_of(flag@),
    {
        let f = flag.to_owned();
        if f == "1".to_owned() {
            Some(true)
        } else if f == "0".to_owned() {
            Some(false)
        } else {
            None
        }
    }

    /// The value's text.
    pub fn as_str(&self) -> (r: &str)
        ensures
            r@ == self.text@,
    {
        self.text.as_str()
    }
}

} // verus!
