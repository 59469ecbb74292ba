//! The parameters of scrobble submissions: a play gets the current time when
//! it has no timestamp, and the plays of a batch are told apart by an index
//! suffix on every key.

use vstd::prelude::*;
use vstd::string::StringExecFns;
use crate::metadata::{scrobble_params_of, Scrobble, ScrobbleBatch, ScrobbleView};
use crate::params::ParamMap;
use crate::text::{decimal, push_decimal, u64_to_decimal};

verus! {

/// The most plays one batch may hold.
pub const MAX_BATCH_SIZE: usize = 50;

/// Why a batch cannot be submitted.
#[derive(Clone, Copy, Debug, PartialEq, Eq, Structural)]
pub enum BatchError {
    /// The batch holds more than fifty plays.
    BatchTooLarge,
    /// The batch holds no play.
    EmptyBatch,
}

impl BatchError {
    /// A short description of the error.
    pub fn message(&self) -> (r: String)
        ensures
            r@ == match *self {
                BatchError::BatchTooLarge => "Scrobble batch too large (must be 50 or fewer scrobbles)"@,
                BatchError::EmptyBatch => "Scrobble batch is empty"@,
            },
    {
        match self {
            BatchError::BatchTooLarge => "Scrobble batch too large (must be 50 or fewer scrobbles)".to_owned(),
            BatchError::EmptyBatch => "Scrobble batch is empty".to_owned(),
        }
    }
}

/// The play `s`, timestamped `now` unless it has a timestamp of its own.
pub open spec fn with_default_timestamp(s: ScrobbleView, now: u64) -> ScrobbleView {
    ScrobbleView {
        timestamp: Some(
            match s.timestamp {
                Some(t) => t,
                None => now,
            },
        ),
        ..s
    }
}

/// The key `key` of the play at `index` in a batch: `key[index]`.
pub open spec fn indexed_key(key: Seq<char>, index: nat) -> Seq<char> {
    key + "["@ + decimal(index) + "]"@
}

/// `m` with the parameters of the play `s`, at `index` of a batch, added.
pub open spec fn add_indexed_play(
    m: Map<Seq<char>, Seq<char>>,
    s: ScrobbleView,
    index: nat,
    now: u64,
) -> Map<Seq<char>, Seq<char>> {
    let p = scrobble_params_of(with_default_timestamp(s, now));
    m.insert(indexed_key("track"@, index), p["track"@]).insert(
        indexed_key("artist"@, index),
        p["artist"@],
    ).insert(indexed_key("album"@, index), p["album"@]).insert(
        indexed_key("timestamp"@, index),
        p["timestamp"@],
    )
}

/// The parameters of a batch: those of each play, each key suffixed with the
/// play's index.
pub open spec fn batch_params_of(plays: Seq<ScrobbleView>, now: u64) -> Map<Seq<char>, Seq<char>>
    decreases plays.len(),
{
    if plays.len() == 0 {
        Map::empty()
    } else {
        add_indexed_play(
            batch_params_of(plays.drop_last(), now),
            plays.last(),
            (plays.len() - 1) as nat,
            now,
        )
    }
}

/// The outcome of preparing a batch: an error for a batch that is too large
/// or empty, else its parameters.
pub open spec fn batch_outcome(plays: Seq<ScrobbleView>, now: u64) -> Result<
    Map<Seq<char>, Seq<char>>,
    BatchError,
> {
    if plays.len() > MAX_BATCH_SIZE {
        Err(BatchError::BatchTooLarge)
    } else if plays.len() == 0 {
        Err(BatchError::EmptyBatch)
    } else {
        Ok(batch_params_of(plays, now))
    }
}

proof fn lemma_timestamp_key_is_new(s: ScrobbleView)
    ensures
        !map!["track"@ => s.track, "artist"@ => s.artist, "album"@ => s.album].contains_key(
            "timestamp"@,
        ),
{
    reveal_strlit("timestamp");
    reveal_strlit("track");
    reveal_strlit("artist");
    reveal_strlit("album");
    assert("timestamp"@.len() != "track"@.len());
    assert("timestamp"@.len() != "artist"@.len());
    assert("timestamp"@.len() != "album"@.len());
}

/// The parameters of a scrobble of `scrobble`, timestamped `now` unless it
/// has a timestamp of its own.
pub fn scrobble_request_params(scrobble: &Scrobble, now: u64) -> (r: ParamMap)
    ensures
        r@ == scrobble_params_of(with_default_timestamp(scrobble@, now)),
{
    let mut params = scrobble.as_map();
    proof {
        lemma_timestamp_key_is_new(scrobble@);
    }
    if !params.contains_key("timestamp") {
        params.insert("timestamp".to_owned(), u64_to_decimal(now));
    }
    params
}

/// The key `key[index]`.
pub fn indexed_key_string(key: &str, index: usize) -> (r: String)
    ensures
        r@ == indexed_key(key@, index as nat),
{
    let mut s = key.to_owned();
    s.append("[");
    push_decimal(&mut s, index as u64);
    s.append("]");
    s
}

/// The parameters of a batch submission, or why the batch cannot be sent.
pub fn batch_request_params(batch: &ScrobbleBatch, now: u64) -> (r: Result<ParamMap, BatchError>)
    ensures
        match batch_outcome(batch@, now) {
            Ok(m) => r matches Ok(p) && p@ == m,
            Err(e) => r == Err::<ParamMap, BatchError>(e),
        },
{
    let count = batch.len();
    if count > MAX_BATCH_SIZE {
        return Err(BatchError::BatchTooLarge);
    } else if count == 0 {
        return Err(BatchError::EmptyBatch);
    }
    let mut params = ParamMap::new();
    let mut i: usize = 0;
    while i < count
        invariant
            count == batch@.len(),
            i <= count,
            params@ == batch_params_of(batch@.subrange(0, i as int), now),
        decreases count - i,
    {
        let play = scrobble_request_params(batch.get(i), now);
        assert(batch@.subrange(0, i + 1).drop_last() =~= batch@.subrange(0, i as int));
        params.insert(indexed_key_string("track", i), play.get("track").unwrap().clone());
        params.insert(indexed_key_string("artist", i), play.get("artist").unwrap().clone());
        params.insert(indexed_key_string("album", i), play.get("album").unwrap().clone());
        params.insert(indexed_key_string("timestamp", i), play.get("timestamp").unwrap().clone());
        i = i + 1;
    }
    assert(batch@.subrange(0, count as int) =~= batch@);
    Ok(params)
}

} // verus!
