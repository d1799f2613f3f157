//! The configuration watcher: when the file is read again.

use crate::config::{Aim, LoadError, Loaded};
use vstd::prelude::*;

verus! {

/// The modification time of the file as it was last read, in nanoseconds; nothing where the
/// file was not there.
#[derive(Debug, Clone, Copy, PartialEq, Eq, Structural)]
pub struct Watcher {
    pub last: Option<i128>,
}

impl Watcher {
    /// A watcher that has seen this modification time.
    pub fn new(modified: Option<i128>) -> (r: Watcher)
        ensures
            r.last == modified,
    {
        Watcher { last: modified }
    }

    /// The file is there, and not as it was last read.
    pub open spec fn stale(self, modified: Option<i128>) -> bool {
        modified is Some && modified != self.last
    }

    /// Whether to read the file again. A file that is missing or cannot be looked at is left
    /// alone, and the settings stay as they are.
    pub fn should_reload(&self, modified: Option<i128>) -> (r: bool)
        ensures
            r == self.stale(modified),
    {
        match modified {
            None => false,
            Some(m) => match self.last {
                None => true,
                Some(l) => m != l,
            },
        }
    }

    /// The file was read, with this outcome; `aim` is what is in use. A success puts the aim
    /// settings of the file in their place; a failure keeps the last good ones, and so does a
    /// file that has gone missing meanwhile. Only a success counts as having seen the file, so
    /// that one caught in the middle of a write is read again. Tells whether it was a success.
    pub fn reloaded(
        &mut self,
        modified: Option<i128>,
        loaded: &Result<Loaded, LoadError>,
        aim: &mut Aim,
    ) -> (r: bool)
        ensures
            *final(self) == after_reload(*old(self), modified, from_file(*loaded) is Some),
            *final(aim) == match from_file(*loaded) {
                Some(a) => a,
                None => *old(aim),
            },
            r == (from_file(*loaded) is Some),
            *loaded matches Ok(l) ==> !l.write_out ==> r && *final(aim) == l.config.aim,
            !r ==> *final(aim) == *old(aim) && *final(self) == *old(self),
    {
        match loaded {
            Ok(l) => {
                if l.write_out {
                    return false;
                }
                *aim = l.config.aim;
                if modified.is_some() {
                    self.last = modified;
                }
                true
            },
            Err(_) => false,
        }
    }
}

/// The aim settings that were read from the file; nothing where it could not be used or was not
/// there.
pub open spec fn from_file(loaded: Result<Loaded, LoadError>) -> Option<Aim> {
    match loaded {
        Ok(l) if !l.write_out => Some(l.config.aim),
        _ => None,
    }
}

/// The watcher after the file was read.
pub open spec fn after_reload(w: Watcher, modified: Option<i128>, success: bool) -> Watcher {
    if success && modified is Some {
        Watcher { last: modified }
    } else {
        w
    }
}

/// A file that was read well is not read again until it changes; one that was not is.
pub proof fn reload_until_success(w: Watcher, modified: Option<i128>, success: bool)
    requires
        w.stale(modified),
    ensures
        after_reload(w, modified, success).stale(modified) == !success,
{
}

/// A file is read again exactly where it is there with another time than the one last seen, or
/// none was seen.
pub proof fn changed_files_are_stale(w: Watcher, time: i128)
    ensures
        !w.stale(None),
        w.last is None ==> w.stale(Some(time)),
        w.last == Some(time) ==> !w.stale(Some(time)),
        w.last is Some && w.last != Some(time) ==> w.stale(Some(time)),
{
}

/// After a success the watcher has seen the file as it was, and only a file with another time is
/// read again; after a failure it has seen nothing new.
pub proof fn only_success_is_seen(w: Watcher, time: i128, modified: Option<i128>, other: i128)
    ensures
        after_reload(w, Some(time), true).stale(Some(other)) <==> other != time,
        after_reload(w, modified, false) == w,
        after_reload(w, None, true) == w,
{
}

/// Every aim setting that was read from the file is taken as it is; where nothing was read from
/// it, none is.
pub proof fn aim_is_taken_from_the_file(loaded: Result<Loaded, LoadError>)
    ensures
        loaded matches Ok(l) ==> !l.write_out ==> from_file(loaded) == Some(l.config.aim),
        loaded matches Ok(l) ==> l.write_out ==> from_file(loaded) is None,
        loaded is Err ==> from_file(loaded) is None,
{
}

} // verus!
