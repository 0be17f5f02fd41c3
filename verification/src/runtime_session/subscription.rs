//! The ordered control-event stream of one session observer: events come
//! from a replay window first, then live; an event at or below the last
//! delivered sequence is skipped, and a live channel that fell behind is
//! refilled from the replay window after the cursor. Receiving from the
//! channels is the host's work; the stream decides what is delivered.
use vstd::prelude::*;

use crate::runtime_control::RuntimeControlEvent;
use crate::runtime_session::error::{replay_gap_error, RuntimeReplayGap, RuntimeSessionError};

verus! {

/// What an observer's stream holds between deliveries.
pub struct EventStreamState {
    /// Replayed events not yet looked at, oldest first.
    pub replay: Vec<RuntimeControlEvent>,
    /// The sequence of the last event delivered.
    pub cursor: u64,
}

/// Index of the first event of `s`, from `i` on, newer than `cursor`
/// (or `s.len()`).
pub open spec fn first_newer(s: Seq<RuntimeControlEvent>, cursor: u64, i: int) -> int
    decreases s.len() - i,
{
    if i < 0 || i >= s.len() {
        s.len() as int
    } else if s[i].sequence > cursor {
        i
    } else {
        first_newer(s, cursor, i + 1)
    }
}

proof fn lemma_first_newer(s: Seq<RuntimeControlEvent>, cursor: u64, i: int)
    requires
        0 <= i <= s.len(),
    ensures
        i <= first_newer(s, cursor, i) <= s.len(),
        forall|k: int| i <= k < first_newer(s, cursor, i) ==> (#[trigger] s[k]).sequence <= cursor,
        first_newer(s, cursor, i) < s.len() ==> s[first_newer(s, cursor, i)].sequence > cursor,
    decreases s.len() - i,
{
    if i < s.len() && s[i].sequence <= cursor {
        lemma_first_newer(s, cursor, i + 1);
    }
}

impl EventStreamState {
    /// A stream that starts with `replay` after `cursor`.
    pub fn new(replay: Vec<RuntimeControlEvent>, cursor: u64) -> (r: Self)
        ensures
            r.replay@ == replay@,
            r.cursor == cursor,
    {
        EventStreamState { replay, cursor }
    }

    /// The last sequence delivered.
    pub fn cursor(&self) -> (r: u64)
        ensures
            r == self.cursor,
    {
        self.cursor
    }

    /// The next replayed event newer than the cursor; the events before it
    /// are dropped. None when the replay holds no newer event (it is then
    /// empty). A delivered event moves the cursor to its sequence.
    pub fn next_replayed(&mut self) -> (r: Option<RuntimeControlEvent>)
        ensures
            ({
                let k = first_newer(old(self).replay@, old(self).cursor, 0);
                match r {
                    Some(e) => {
                        &&& k < old(self).replay@.len()
                        &&& e == old(self).replay@[k]
                        &&& e.sequence > old(self).cursor
                        &&& final(self).cursor == e.sequence
                        &&& final(self).replay@ == old(self).replay@.skip(k + 1)
                    },
                    None => {
                        &&& k == old(self).replay@.len()
                        &&& final(self).cursor == old(self).cursor
                        &&& final(self).replay@.len() == 0
                    },
                }
            }),
    {
        let ghost all = self.replay@;
        let ghost c = self.cursor;
        proof {
            lemma_first_newer(all, c, 0);
            assert(all.skip(0) =~= all);
        }
        let ghost mut taken: int = 0;
        while self.replay.len() > 0
            invariant
                0 <= taken <= all.len(),
                all == old(self).replay@,
                c == old(self).cursor,
                self.cursor == c,
                self.replay@ == all.skip(taken),
                first_newer(all, c, 0) == first_newer(all, c, taken),
            decreases self.replay.len(),
        {
            let e = self.replay.remove(0);
            proof {
                assert(e == all[taken]);
                assert(self.replay@ =~= all.skip(taken + 1));
            }
            if e.sequence > self.cursor {
                proof {
                    assert(first_newer(all, c, taken) == taken);
                }
                self.cursor = e.sequence;
                return Some(e);
            }
            proof {
                taken = taken + 1;
            }
        }
        proof {
            assert(taken == all.len());
        }
        None
    }

    /// A live event: delivered (moving the cursor) when newer than the
    /// cursor, else skipped.
    pub fn accept_live(&mut self, event: RuntimeControlEvent) -> (r: Option<RuntimeControlEvent>)
        ensures
            event.sequence > old(self).cursor ==> r == Some(event) && final(self).cursor == event.sequence,
            event.sequence <= old(self).cursor ==> r is None && final(self).cursor == old(self).cursor,
            final(self).replay@ == old(self).replay@,
    {
        if event.sequence > self.cursor {
            self.cursor = event.sequence;
            Some(event)
        } else {
            None
        }
    }

    /// After the live channel fell behind: the replay window after the
    /// cursor becomes what is replayed next, or, when the window no longer
    /// reaches back to the cursor, the stream fails with the gap.
    pub fn resync(&mut self, window: Result<Vec<RuntimeControlEvent>, RuntimeReplayGap>) -> (r: Result<
        (),
        RuntimeSessionError,
    >)
        ensures
            final(self).cursor == old(self).cursor,
            match window {
                Ok(events) => r is Ok && final(self).replay@ == events@,
                Err(gap) => r == Err::<(), RuntimeSessionError>(
                    RuntimeSessionError::ResyncRequired {
                        requested: gap.requested,
                        oldest_available: gap.oldest_available,
                        latest: gap.latest,
                    },
                ) && final(self).replay@ == old(self).replay@,
            },
    {
        match window {
            Ok(events) => {
                self.replay = events;
                Ok(())
            },
            Err(gap) => Err(replay_gap_error(gap)),
        }
    }
}

} // verus!
