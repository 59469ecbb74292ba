//! A single play of a track, and batches of them.

use vstd::prelude::*;
use crate::params::ParamMap;
use crate::text::{decimal, u64_to_decimal};

verus! {

/// A play of a track as the contracts see it.
pub struct ScrobbleView {
    pub artist: Seq<char>,
    pub track: Seq<char>,
    pub album: Seq<char>,
    pub timestamp: Option<u64>,
}

/// The parameters describing a play: `track`, `artist`, `album`, and
/// `timestamp` in decimal when one is set.
pub open spec fn scrobble_params_of(s: ScrobbleView) -> Map<Seq<char>, Seq<char>> {
    let base = map!["track"@ => s.track, "artist"@ => s.artist, "album"@ => s.album];
    match s.timestamp {
        Some(t) => base.insert("timestamp"@, decimal(t as nat)),
        None => base,
    }
}

/// A single music track played at a point in time: artist, track and album
/// names, and optionally when it was played (seconds since the Unix epoch).
#[derive(Clone, PartialEq, Eq, PartialOrd, Ord, Hash, Debug)]
pub struct Scrobble {
    artist: String,
    track: String,
    album: String,
    timestamp: Option<u64>,
}

impl View for Scrobble {
    type V = ScrobbleView;

    closed spec fn view(&self) -> ScrobbleView {
        ScrobbleView {
            artist: self.artist@,
            track: self.track@,
            album: self.album@,
            timestamp: self.timestamp,
        }
    }
}

impl Scrobble {
    /// A play of the given track, with no timestamp.
    pub fn new(artist: &str, track: &str, album: &str) -> (r: Scrobble)
        ensures
            r@ == (ScrobbleView {
                artist: artist@,
                track: track@,
                album: album@,
                timestamp: None,
            }),
    {
        Scrobble {
            artist: artist.to_owned(),
            track: track.to_owned(),
            album: album.to_owned(),
            timestamp: None,
        }
    }

    /// Sets when the track was played.
    pub fn with_timestamp(&mut self, timestamp: u64) -> (r: &mut Self)
        ensures
            r@ == (ScrobbleView { timestamp: Some(timestamp), ..old(self)@ }),
            *final(self) == *final(r),
    {
        self.timestamp = Some(timestamp);
        self
    }

    /// The parameters describing this play: `track`, `artist`, `album`, and
    /// `timestamp` when one is set.
    pub fn as_map(&self) -> (r: ParamMap)
        ensures
            r@ == scrobble_params_of(self@),
    {
        let mut params = ParamMap::new();
        params.insert("track".to_owned(), self.track.clone());
        params.insert("artist".to_owned(), self.artist.clone());
        params.insert("album".to_owned(), self.album.clone());
        if let Some(timestamp) = self.timestamp {
            params.insert("timestamp".to_owned(), u64_to_decimal(timestamp));
        }
        params
    }

    /// The artist's name.
    pub fn artist(&self) -> (r: &str)
        ensures
            r@ == self@.artist,
    {
        self.artist.as_str()
    }

    /// The track's name.
    pub fn track(&self) -> (r: &str)
        ensures
            r@ == self@.track,
    {
        self.track.as_str()
    }

    /// The album's name.
    pub fn album(&self) -> (r: &str)
        ensures
            r@ == self@.album,
    {
        self.album.as_str()
    }

    /// When the track was played, if that was set.
    pub fn timestamp(&self) -> (r: Option<u64>)
        ensures
            r == self@.timestamp,
    {
        self.timestamp
    }
}

/// A batch of plays to be submitted together.
#[derive(Clone, Debug)]
pub struct ScrobbleBatch {
    scrobbles: Vec<Scrobble>,
}

impl View for ScrobbleBatch {
    type V = Seq<ScrobbleView>;

    closed spec fn view(&self) -> Seq<ScrobbleView> {
        self.scrobbles@.map_values(|s: Scrobble| s@)
    }
}

impl ScrobbleBatch {
    /// An empty batch.
    pub fn new() -> (r: ScrobbleBatch)
        ensures
            r@ == Seq::<ScrobbleView>::empty(),
    {
        let r = ScrobbleBatch { scrobbles: Vec::new() };
        assert(r@ =~= Seq::<ScrobbleView>::empty());
        r
    }

    /// A batch of the given plays, in their order.
    pub fn from_vec(scrobbles: Vec<Scrobble>) -> (r: ScrobbleBatch)
        ensures
            r@ == scrobbles@.map_values(|s: Scrobble| s@),
    {
        ScrobbleBatch { scrobbles }
    }

    /// Adds a play at the end.
    pub fn push(&mut self, scrobble: Scrobble)
        ensures
            final(self)@ == old(self)@.push(scrobble@),
    {
        self.scrobbles.push(scrobble);
        assert(self@ =~= old(self)@.push(scrobble@));
    }

    /// The number of plays.
    pub fn len(&self) -> (r: usize)
        ensures
            r == self@.len(),
    {
        self.scrobbles.len()
    }

    /// Whether the batch holds no play.
    pub fn is_empty(&self) -> (r: bool)
        ensures
            r == (self@.len() == 0),
    {
        self.scrobbles.len() == 0
    }

    /// The play at `index`.
    pub fn get(&self, index: usize) -> (r: &Scrobble)
        requires
            index < self@.len(),
        ensures
            r@ == self@[index as int],
    {
        &self.scrobbles[index]
    }
}

impl From<Vec<Scrobble>> for ScrobbleBatch {
    fn from(scrobbles: Vec<Scrobble>) -> ScrobbleBatch {
        ScrobbleBatch { scrobbles }
    }
}

impl vstd::std_specs::convert::FromSpecImpl<Vec<Scrobble>> for ScrobbleBatch {
    open spec fn obeys_from_spec() -> bool {
        true
    }

    closed spec fn from_spec(scrobbles: Vec<Scrobble>) -> ScrobbleBatch {
        ScrobbleBatch { scrobbles }
    }
}

} // verus!
