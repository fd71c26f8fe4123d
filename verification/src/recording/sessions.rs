//! The recordings and IMU sidecars running per stream: at most one of each
//! per stream, found again by the stream's id.
use vstd::prelude::*;
use std::collections::HashMap;

verus! {

broadcast use vstd::std_specs::hash::group_hash_axioms;

/// The sessions running, by stream id.
pub struct SessionTable<V> {
    sessions: HashMap<u128, V>,
}

impl<V> View for SessionTable<V> {
    type V = Map<u128, V>;

    closed spec fn view(&self) -> Map<u128, V> {
        self.sessions@
    }
}

impl<V> SessionTable<V> {
    pub fn new() -> (r: Self)
        ensures
            r@ == Map::<u128, V>::empty(),
    {
        SessionTable { sessions: HashMap::new() }
    }

    /// Whether a session runs for the stream.
    pub fn contains(&self, stream_id: u128) -> (r: bool)
        ensures
            r == self@.contains_key(stream_id),
    {
        self.sessions.contains_key(&stream_id)
    }

    /// Records a session for a stream that has none; a stream that already
    /// has one keeps it and the new session is handed back.
    pub fn insert_if_absent(&mut self, stream_id: u128, session: V) -> (r: Result<(), V>)
        ensures
            old(self)@.contains_key(stream_id) ==> r == Err::<(), V>(session) && final(self)@ == old(self)@,
            !old(self)@.contains_key(stream_id) ==> r is Ok && final(self)@ == old(self)@.insert(stream_id, session),
    {
        if self.sessions.contains_key(&stream_id) {
            return Err(session);
        }
        self.sessions.insert(stream_id, session);
        Ok(())
    }

    /// Records a session for a stream, replacing the one it had.
    pub fn insert(&mut self, stream_id: u128, session: V)
        ensures
            final(self)@ == old(self)@.insert(stream_id, session),
    {
        self.sessions.insert(stream_id, session);
    }

    /// Takes a stream's session out, when it has one.
    pub fn remove(&mut self, stream_id: u128) -> (r: Option<V>)
        ensures
            final(self)@ == old(self)@.remove(stream_id),
            old(self)@.contains_key(stream_id) ==> r == Some(old(self)@[stream_id]),
            !old(self)@.contains_key(stream_id) ==> r is None,
    {
        let r = self.sessions.remove(&stream_id);
        proof {
            assert(self.sessions@ =~= old(self)@.remove(stream_id));
        }
        r
    }
}

/// A recording in progress: the media file it writes and where.
#[derive(Debug, Clone, PartialEq, Eq)]
pub struct ActiveRecordingSession {
    pub media_name: String,
    pub output_path: String,
}

} // verus!
