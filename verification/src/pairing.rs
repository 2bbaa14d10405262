//! Pairing a fixed capture with the moving capture taken shortly after it,
//! by the timestamps that the capture files carry in their names.

use crate::error::{NoMovingPath, ResolveError};
use chrono::{TimeZone, Utc};
use vstd::prelude::*;
use vstd::string::{StrSliceExecFns, StringExecFns};

verus! {

/// The number of leading characters of a file name that hold its timestamp.
pub const TIMESTAMP_LEN: usize = 13;

/// The pattern of a capture's timestamp: two digits each for year, month and
/// day, an underscore, two digits each for hour, minute and second.
pub const TIMESTAMP_FORMAT: &'static str = "%y%m%d_%H%M%S";

/// An instant, in whole seconds since 1970-01-01 00:00:00 UTC.
#[derive(Clone, Copy, Debug, PartialEq, Eq, Structural)]
pub struct Timestamp {
    pub seconds: i64,
}

/// What chrono reads from `text` under the strftime pattern `format`, taken
/// as a time in UTC: the seconds since the epoch, or `None` where `text`
/// does not match the pattern or names no valid date and time. Chrono maps
/// a two-digit year below 70 into the 2000s and the others into the 1900s,
/// and counts a second of 60 as the second before it.
pub uninterp spec fn utc_seconds(text: Seq<char>, format: Seq<char>) -> Option<i64>;

/// Calls chrono's `TimeZone::datetime_from_str` on `Utc` and, where it
/// succeeds, `DateTime::timestamp` on what it returns. Trusted: the result is
/// a function of the two texts alone, which `utc_seconds` names.
#[verifier::external_body]
#[allow(deprecated)]
fn parse_utc_seconds(text: &str, format: &str) -> (seconds: Option<i64>)
    ensures
        seconds == utc_seconds(text@, format@),
{
    match Utc.datetime_from_str(text, format) {
        Ok(datetime) => Some(datetime.timestamp()),
        Err(_) => None,
    }
}

/// The timestamp that a parse of a file name's leading characters stands
/// for.
pub open spec fn spec_timestamp_from(parsed: Option<i64>) -> Option<Timestamp> {
    match parsed {
        Some(seconds) => Some(Timestamp { seconds }),
        None => None,
    }
}

/// The timestamp in a file name: its first thirteen characters, read under
/// the capture pattern. A shorter name holds none.
pub open spec fn spec_timestamp_of(file_name: Seq<char>) -> Option<Timestamp> {
    if file_name.len() < TIMESTAMP_LEN {
        None
    } else {
        spec_timestamp_from(
            utc_seconds(file_name.subrange(0, TIMESTAMP_LEN as int), TIMESTAMP_FORMAT@),
        )
    }
}

/// Reads the timestamp at the start of a file name.
pub fn timestamp_of(file_name: &str) -> (stamp: Option<Timestamp>)
    ensures
        stamp == spec_timestamp_of(file_name@),
{
    if file_name.unicode_len() < TIMESTAMP_LEN {
        return None;
    }
    let prefix = file_name.substring_char(0, TIMESTAMP_LEN);
    match parse_utc_seconds(prefix, TIMESTAMP_FORMAT) {
        Some(seconds) => Some(Timestamp { seconds }),
        None => None,
    }
}

/// How long after the fixed capture the moving capture may have been taken:
/// later than the fixed one, and less than `hours` hours later.
#[derive(Clone, Copy, Debug, PartialEq, Eq, Structural)]
pub struct Window {
    pub hours: u32,
}

impl Default for Window {
    /// Seven hours.
    fn default() -> (window: Window)
        ensures
            window.hours == 7,
    {
        Window { hours: 7 }
    }
}

impl Window {
    /// The seconds from `fixed` to `moving`.
    pub open spec fn elapsed(fixed: Timestamp, moving: Timestamp) -> int {
        moving.seconds - fixed.seconds
    }

    /// Whether `moving` lies strictly after `fixed` and inside the window.
    pub open spec fn spec_admits(&self, fixed: Timestamp, moving: Timestamp) -> bool {
        0 < Self::elapsed(fixed, moving) < self.hours * 3600
    }

    /// Whether `moving` lies strictly after `fixed` and inside the window.
    pub fn admits(&self, fixed: Timestamp, moving: Timestamp) -> (inside: bool)
        ensures
            inside == self.spec_admits(fixed, moving),
    {
        let elapsed: i128 = moving.seconds as i128 - fixed.seconds as i128;
        let limit: i128 = self.hours as i128 * 3600;
        0 < elapsed && elapsed < limit
    }

    /// Whether a capture whose file name gave `moving` is the moving capture
    /// of the one taken at `fixed`. A name without a timestamp is none.
    pub open spec fn spec_accepts(&self, fixed: Timestamp, moving: Option<Timestamp>) -> bool {
        match moving {
            Some(stamp) => self.spec_admits(fixed, stamp),
            None => false,
        }
    }

    /// Whether there is a timestamp `moving` and the window admits it.
    pub fn accepts(&self, fixed: Timestamp, moving: Option<Timestamp>) -> (accepted: bool)
        ensures
            accepted == self.spec_accepts(fixed, moving),
    {
        match moving {
            Some(stamp) => self.admits(fixed, stamp),
            None => false,
        }
    }
}

/// A capture file as the resolver sees it: where it lies, and the final
/// component of that path, if it has one that is text.
#[derive(Debug)]
pub struct Capture {
    pub path: String,
    pub file_name: Option<String>,
}

/// Calls `std::path::Path::file_name` on `path`. Trusted, and nothing is
/// claimed of the result: which part of a path is its final component is
/// the platform's matter.
#[verifier::external_body]
fn final_component(path: &str) -> (name: Option<String>) {
    match std::path::Path::new(path).file_name() {
        Some(name) => match name.to_str() {
            Some(text) => Some(text.to_string()),
            None => None,
        },
        None => None,
    }
}

impl Capture {
    /// The capture at `path`, with the file name that the platform reads
    /// from the path.
    pub fn from_path(path: &str) -> (capture: Capture)
        ensures
            capture.path@ == path@,
    {
        Capture { path: String::from_str(path), file_name: final_component(path) }
    }

    /// The timestamp in the capture's file name.
    pub open spec fn spec_timestamp(&self) -> Option<Timestamp> {
        match self.file_name {
            Some(name) => spec_timestamp_of(name@),
            None => None,
        }
    }

    /// Reads the timestamp in the capture's file name.
    pub fn timestamp(&self) -> (stamp: Option<Timestamp>)
        ensures
            stamp == self.spec_timestamp(),
    {
        match &self.file_name {
            Some(name) => timestamp_of(name.as_str()),
            None => None,
        }
    }
}

/// The time at which the fixed capture was taken, read from its file name.
///
/// Fails with `MalformedTimestamp` where the name's first thirteen
/// characters are no timestamp, and with `NoMovingCapture` where the path has
/// no file name. Both name the capture's path.
pub fn datetime_from_path(capture: &Capture) -> (outcome: Result<Timestamp, ResolveError>)
    ensures
        capture.spec_timestamp() matches Some(stamp) ==> outcome == Ok::<
            Timestamp,
            ResolveError,
        >(stamp),
        capture.file_name is Some && capture.spec_timestamp() is None ==> {
            &&& outcome matches Err(ResolveError::MalformedTimestamp(path))
            &&& path@ == capture.path@
        },
        capture.file_name is None ==> {
            &&& outcome matches Err(ResolveError::NoMovingCapture(error))
            &&& error.0@ == capture.path@
        },
{
    match &capture.file_name {
        Some(name) => match timestamp_of(name.as_str()) {
            Some(stamp) => Ok(stamp),
            None => Err(ResolveError::MalformedTimestamp(capture.path.clone())),
        },
        None => Err(ResolveError::NoMovingCapture(NoMovingPath::new(capture.path.as_str()))),
    }
}

/// Whether `capture` is the moving capture of the one taken at `fixed`: its
/// name holds a timestamp, strictly after `fixed` and inside the window.
pub fn is_the_moving_path(fixed: Timestamp, capture: &Capture, window: &Window) -> (moving: bool)
    ensures
        moving == window.spec_accepts(fixed, capture.spec_timestamp()),
{
    window.accepts(fixed, capture.timestamp())
}

/// Which capture is taken where the window accepts several.
#[derive(Clone, Copy, Debug, PartialEq, Eq, Structural)]
pub enum TieBreak {
    /// The first in the order of the listing.
    FirstListed,
    /// The one taken soonest after the fixed capture; of several taken at
    /// that same time, the first in the order of the listing.
    Earliest,
}

/// The rules of pairing: the forward window and the tie-break.
#[derive(Clone, Copy, Debug, PartialEq, Eq, Structural)]
pub struct PairingPolicy {
    pub window: Window,
    pub tie_break: TieBreak,
}

impl Default for PairingPolicy {
    /// A window of seven hours, and the first capture listed.
    fn default() -> (policy: PairingPolicy)
        ensures
            policy.window.hours == 7,
            policy.tie_break == TieBreak::FirstListed,
    {
        PairingPolicy { window: Window { hours: 7 }, tie_break: TieBreak::FirstListed }
    }
}

/// Whether `i` is the first position of `stamps` that the window accepts.
pub open spec fn is_first_accepted(
    fixed: Timestamp,
    stamps: Seq<Option<Timestamp>>,
    window: Window,
    i: int,
) -> bool {
    &&& 0 <= i < stamps.len()
    &&& window.spec_accepts(fixed, stamps[i])
    &&& forall|k: int| 0 <= k < i ==> !window.spec_accepts(fixed, #[trigger] stamps[k])
}

/// Whether `i` is the position of the earliest timestamp of `stamps` that
/// the window accepts, and the first position with that timestamp.
pub open spec fn is_earliest_accepted(
    fixed: Timestamp,
    stamps: Seq<Option<Timestamp>>,
    window: Window,
    i: int,
) -> bool {
    &&& 0 <= i < stamps.len()
    &&& window.spec_accepts(fixed, stamps[i])
    &&& forall|k: int|
        0 <= k < stamps.len() && window.spec_accepts(fixed, #[trigger] stamps[k])
            ==> stamps[i]->0.seconds <= stamps[k]->0.seconds
    &&& forall|k: int|
        0 <= k < i && window.spec_accepts(fixed, #[trigger] stamps[k]) ==> stamps[i]->0.seconds
            < stamps[k]->0.seconds
}

/// Whether `i` is the position that `policy` chooses among `stamps`.
pub open spec fn is_chosen(
    fixed: Timestamp,
    stamps: Seq<Option<Timestamp>>,
    policy: PairingPolicy,
    i: int,
) -> bool {
    match policy.tie_break {
        TieBreak::FirstListed => is_first_accepted(fixed, stamps, policy.window, i),
        TieBreak::Earliest => is_earliest_accepted(fixed, stamps, policy.window, i),
    }
}

/// Whether the window of `policy` accepts none of `stamps`.
pub open spec fn none_accepted(
    fixed: Timestamp,
    stamps: Seq<Option<Timestamp>>,
    window: Window,
) -> bool {
    forall|k: int| 0 <= k < stamps.len() ==> !window.spec_accepts(fixed, #[trigger] stamps[k])
}

/// A policy chooses at most one position: the moving capture is determined
/// by the listing.
pub proof fn law_choice_is_unique(
    fixed: Timestamp,
    stamps: Seq<Option<Timestamp>>,
    policy: PairingPolicy,
    i: int,
    j: int,
)
    requires
        is_chosen(fixed, stamps, policy, i),
        is_chosen(fixed, stamps, policy, j),
    ensures
        i == j,
{
    if i < j {
        assert(policy.window.spec_accepts(fixed, stamps[i]));
    } else if j < i {
        assert(policy.window.spec_accepts(fixed, stamps[j]));
    }
}

/// What is chosen lies strictly after the fixed capture and inside the
/// window, whatever the tie-break.
pub proof fn law_choice_is_inside_window(
    fixed: Timestamp,
    stamps: Seq<Option<Timestamp>>,
    policy: PairingPolicy,
    i: int,
)
    requires
        is_chosen(fixed, stamps, policy, i),
    ensures
        0 <= i < stamps.len(),
        stamps[i] matches Some(moving) && 0 < Window::elapsed(fixed, moving) < policy.window.hours
            * 3600,
{
}

/// The first of `stamps`, in the order given, that the window accepts after
/// `fixed`; `None` exactly when it accepts none of them.
pub fn select_first(fixed: Timestamp, stamps: &Vec<Option<Timestamp>>, window: &Window) -> (chosen:
    Option<usize>)
    ensures
        match chosen {
            Some(i) => is_first_accepted(fixed, stamps@, *window, i as int),
            None => none_accepted(fixed, stamps@, *window),
        },
{
    let mut i: usize = 0;
    while i < stamps.len()
        invariant
            i <= stamps@.len(),
            forall|k: int| 0 <= k < i ==> !window.spec_accepts(fixed, #[trigger] stamps@[k]),
        decreases stamps@.len() - i,
    {
        if window.accepts(fixed, stamps[i]) {
            return Some(i);
        }
        i += 1;
    }
    None
}

/// The earliest of `stamps` that the window accepts after `fixed`, the first
/// listed of several that are equally early; `None` exactly when it accepts
/// none of them.
pub fn select_earliest(fixed: Timestamp, stamps: &Vec<Option<Timestamp>>, window: &Window) -> (chosen:
    Option<usize>)
    ensures
        match chosen {
            Some(i) => is_earliest_accepted(fixed, stamps@, *window, i as int),
            None => none_accepted(fixed, stamps@, *window),
        },
{
    let mut best: Option<(usize, Timestamp)> = None;
    let mut i: usize = 0;
    while i < stamps.len()
        invariant
            i <= stamps@.len(),
            match best {
                Some((b, held)) => {
                    &&& b < i
                    &&& stamps@[b as int] == Some(held)
                    &&& is_earliest_accepted(fixed, stamps@.take(i as int), *window, b as int)
                },
                None => none_accepted(fixed, stamps@.take(i as int), *window),
            },
        decreases stamps@.len() - i,
    {
        let ghost seen = stamps@.take(i as int);
        let ghost now = stamps@.take(i + 1);
        proof {
            assert forall|k: int| 0 <= k < i implies seen[k] == now[k] by {}
            assert(now[i as int] == stamps@[i as int]);
        }
        if let Some(stamp) = stamps[i] {
            if window.admits(fixed, stamp) {
                let earlier = match best {
                    Some((_, held)) => stamp.seconds < held.seconds,
                    None => true,
                };
                if earlier {
                    best = Some((i, stamp));
                }
            }
        }
        i += 1;
    }
    proof {
        assert(stamps@.take(stamps@.len() as int) == stamps@);
    }
    match best {
        Some((b, _)) => Some(b),
        None => None,
    }
}

/// The position that `policy` chooses among `stamps` after `fixed`; `None`
/// exactly when its window accepts none of them.
pub fn select_moving(fixed: Timestamp, stamps: &Vec<Option<Timestamp>>, policy: &PairingPolicy) -> (chosen:
    Option<usize>)
    ensures
        match chosen {
            Some(i) => is_chosen(fixed, stamps@, *policy, i as int),
            None => none_accepted(fixed, stamps@, policy.window),
        },
{
    match policy.tie_break {
        TieBreak::FirstListed => select_first(fixed, stamps, &policy.window),
        TieBreak::Earliest => select_earliest(fixed, stamps, &policy.window),
    }
}

/// The timestamps in the file names of `captures`, in order.
pub open spec fn spec_timestamps(captures: Seq<Capture>) -> Seq<Option<Timestamp>> {
    captures.map_values(|capture: Capture| capture.spec_timestamp())
}

/// Reads the timestamp of each capture, in order.
pub fn timestamps(captures: &Vec<Capture>) -> (stamps: Vec<Option<Timestamp>>)
    ensures
        stamps@ == spec_timestamps(captures@),
{
    let mut stamps: Vec<Option<Timestamp>> = Vec::new();
    let mut i: usize = 0;
    while i < captures.len()
        invariant
            i <= captures@.len(),
            stamps@ == spec_timestamps(captures@.take(i as int)),
        decreases captures@.len() - i,
    {
        stamps.push(captures[i].timestamp());
        proof {
            assert(captures@.take(i + 1) == captures@.take(i as int).push(captures@[i as int]));
        }
        i += 1;
    }
    proof {
        assert(captures@.take(captures@.len() as int) == captures@);
    }
    stamps
}

/// A fixed capture, the moving capture found for it, and the time between
/// the two.
#[derive(Debug)]
pub struct Pairing {
    pub fixed: String,
    pub moving: String,
    pub elapsed_seconds: i64,
}

/// Whether `pairing` joins `fixed` with sibling `i`.
pub open spec fn pairs_with(
    pairing: Pairing,
    fixed: Capture,
    siblings: Seq<Capture>,
    i: int,
) -> bool {
    &&& pairing.fixed@ == fixed.path@
    &&& pairing.moving@ == siblings[i].path@
    &&& fixed.spec_timestamp() matches Some(from)
    &&& siblings[i].spec_timestamp() matches Some(to)
    &&& pairing.elapsed_seconds == Window::elapsed(from, to)
}

/// What `resolve` owes for `fixed`, `siblings` and `policy`.
pub open spec fn resolves_to(
    outcome: Result<Pairing, ResolveError>,
    fixed: Capture,
    siblings: Seq<Capture>,
    policy: PairingPolicy,
) -> bool {
    match fixed.spec_timestamp() {
        Some(from) => match outcome {
            Ok(pairing) => exists|i: int|
                {
                    &&& #[trigger] is_chosen(from, spec_timestamps(siblings), policy, i)
                    &&& pairs_with(pairing, fixed, siblings, i)
                },
            Err(error) => {
                &&& error matches ResolveError::NoMovingCapture(inner)
                &&& inner.0@ == fixed.path@
                &&& none_accepted(from, spec_timestamps(siblings), policy.window)
            },
        },
        None => {
            &&& outcome matches Err(error)
            &&& error.spec_path() == fixed.path@
            &&& error is MalformedTimestamp <==> fixed.file_name is Some
        },
    }
}

/// Finds the moving capture of `fixed` among `siblings`, the captures of the
/// same directory in the order in which the directory lists them.
///
/// The moving capture is the sibling that `policy` chooses among those whose
/// name holds a timestamp strictly after that of `fixed` and inside the
/// window. Fails as `datetime_from_path` does where `fixed` gives no
/// timestamp, and with `NoMovingCapture` where no sibling qualifies.
pub fn resolve(fixed: &Capture, siblings: &Vec<Capture>, policy: &PairingPolicy) -> (outcome:
    Result<Pairing, ResolveError>)
    ensures
        resolves_to(outcome, *fixed, siblings@, *policy),
        outcome matches Ok(pairing) ==> 0 < pairing.elapsed_seconds < policy.window.hours * 3600,
{
    let from = match datetime_from_path(fixed) {
        Ok(stamp) => stamp,
        Err(error) => {
            return Err(error);
        },
    };
    let stamps = timestamps(siblings);
    match select_moving(from, &stamps, policy) {
        Some(i) => {
            let to = stamps[i].unwrap();
            let pairing = Pairing {
                fixed: fixed.path.clone(),
                moving: siblings[i].path.clone(),
                elapsed_seconds: to.seconds - from.seconds,
            };
            proof {
                assert(is_chosen(from, spec_timestamps(siblings@), *policy, i as int));
                assert(stamps@[i as int] == siblings@[i as int].spec_timestamp());
                assert(pairs_with(pairing, *fixed, siblings@, i as int));
            }
            Ok(pairing)
        },
        None => Err(ResolveError::NoMovingCapture(NoMovingPath::new(fixed.path.as_str()))),
    }
}

/// The path of the moving capture of `fixed`: the one that `resolve` pairs
/// it with, and the same failures.
pub fn moving_path(fixed: &Capture, siblings: &Vec<Capture>, policy: &PairingPolicy) -> (outcome:
    Result<String, ResolveError>)
    ensures
        match fixed.spec_timestamp() {
            Some(from) => match outcome {
                Ok(path) => exists|i: int|
                    {
                        &&& #[trigger] is_chosen(from, spec_timestamps(siblings@), *policy, i)
                        &&& path@ == siblings@[i].path@
                    },
                Err(error) => {
                    &&& error matches ResolveError::NoMovingCapture(inner)
                    &&& inner.0@ == fixed.path@
                    &&& none_accepted(from, spec_timestamps(siblings@), policy.window)
                },
            },
            None => {
                &&& outcome matches Err(error)
                &&& error.spec_path() == fixed.path@
                &&& error is MalformedTimestamp <==> fixed.file_name is Some
            },
        },
{
    match resolve(fixed, siblings, policy) {
        Ok(pairing) => Ok(pairing.moving),
        Err(error) => Err(error),
    }
}

} // verus!
