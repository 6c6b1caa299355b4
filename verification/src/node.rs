use vstd::prelude::*;

verus! {

/// How applying a fetched node ended.
pub enum RefreshOutcome {
    /// The fetched data was newer and replaced the held data.
    Updated,
    /// The fetched data was not newer than the held data and was rejected.
    Stale,
    /// The fetch failed; the held data stays.
    Failed { error: String },
}

/// A node of the notes tree as last fetched, with the server time that
/// stamps it.
pub struct NodeState<T> {
    pub timestamp: u64,
    pub data: T,
}

impl<T> NodeState<T> {
    /// A node holding `data` stamped `timestamp`.
    pub fn new(timestamp: u64, data: T) -> (res: NodeState<T>)
        ensures
            res.timestamp == timestamp,
            res.data == data,
    {
        NodeState { timestamp, data }
    }

    /// Applies the result of fetching the node again. Data stamped later than
    /// the held data replaces it; other data is rejected as stale, so
    /// refreshing any number of times, with replies in any order, never goes
    /// back to older data.
    pub fn refresh_with(&mut self, fetched: Result<(u64, T), String>) -> (res: RefreshOutcome)
        ensures
            final(self).timestamp >= old(self).timestamp,
            match fetched {
                Ok((timestamp, data)) => if timestamp > old(self).timestamp {
                    &&& res is Updated
                    &&& final(self).timestamp == timestamp
                    &&& final(self).data == data
                } else {
                    &&& res is Stale
                    &&& *final(self) == *old(self)
                },
                Err(error) => {
                    &&& res matches RefreshOutcome::Failed { error: e } && e == error
                    &&& *final(self) == *old(self)
                },
            },
    {
        match fetched {
            Ok((timestamp, data)) => {
                if timestamp > self.timestamp {
                    self.timestamp = timestamp;
                    self.data = data;
                    RefreshOutcome::Updated
                } else {
                    RefreshOutcome::Stale
                }
            },
            Err(error) => RefreshOutcome::Failed { error },
        }
    }
}

} // verus!
