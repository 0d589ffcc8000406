//! The output selection loop.
//!
//! On a fixed interval the loop re-polls the device directory for routable
//! application streams and re-routes the user-selected one into the virtual
//! microphone source. The applied selection only ever advances to the
//! desired one after a successful move command; a failed move leaves it
//! unchanged so the next cycle retries. When the applied stream disappears
//! from the polled list, the desired selection heals to the first available
//! entry.
use vstd::prelude::*;

verus! {

/// Which application stream the user wants routed, and which one a move
/// command last routed successfully. `None` means no selection yet.
pub struct RoutingSelection {
    /// The stream index the user (or the self-healing default) selected.
    pub desired: Option<u64>,
    /// The stream index of the last successful move, if any.
    pub applied: Option<u64>,
}

/// Where the loop stands between calls.
pub enum LoopPhase {
    /// Waiting for the next poll interval.
    Idle,
    /// A poll of the device directory is underway.
    Polling,
    /// A move command for `in_flight` is underway.
    Applying,
}

/// The periodic re-poll and re-route state machine. The surrounding
/// application drives it: it asks `poll_due` against a monotonic clock,
/// gathers the listing while the loop is `Polling`, and reports each move
/// command's outcome while it is `Applying`.
pub struct SelectionLoop {
    /// The current routing selection.
    pub selection: RoutingSelection,
    /// Where the loop stands.
    pub phase: LoopPhase,
    /// The stream index the outstanding move command routes, while one is
    /// underway.
    pub in_flight: Option<u64>,
    /// Clock reading of the most recent poll.
    pub last_poll_ms: u64,
    /// How often to re-poll.
    pub poll_interval_ms: u64,
}

/// A move command is outstanding exactly while the loop is applying.
pub open spec fn loop_wf(sl: SelectionLoop) -> bool {
    sl.phase is Applying <==> sl.in_flight is Some
}

/// The desired selection after seeing a non-empty poll: when the applied
/// stream is gone from the list, or nothing was ever selected, it falls back
/// to the first available entry; otherwise the user's choice stands.
pub open spec fn healed_desired(sel: RoutingSelection, sources: Seq<u64>) -> Option<u64>
    recommends
        sources.len() > 0,
{
    match sel.applied {
        Option::Some(x) => if !sources.contains(x) {
            Option::Some(sources[0])
        } else {
            match sel.desired {
                Option::Some(d) => Option::Some(d),
                Option::None => Option::Some(sources[0]),
            }
        },
        Option::None => match sel.desired {
            Option::Some(d) => Option::Some(d),
            Option::None => Option::Some(sources[0]),
        },
    }
}

/// The loop after a poll's listing came back.
pub open spec fn poll_outcome_state(sl: SelectionLoop, sources: Seq<u64>) -> SelectionLoop {
    if sources.len() == 0 {
        SelectionLoop {
            selection: sl.selection,
            phase: LoopPhase::Idle,
            in_flight: Option::None,
            last_poll_ms: sl.last_poll_ms,
            poll_interval_ms: sl.poll_interval_ms,
        }
    } else {
        let d = healed_desired(sl.selection, sources);
        if d != sl.selection.applied {
            SelectionLoop {
                selection: RoutingSelection { desired: d, applied: sl.selection.applied },
                phase: LoopPhase::Applying,
                in_flight: d,
                last_poll_ms: sl.last_poll_ms,
                poll_interval_ms: sl.poll_interval_ms,
            }
        } else {
            SelectionLoop {
                selection: RoutingSelection { desired: d, applied: sl.selection.applied },
                phase: LoopPhase::Idle,
                in_flight: Option::None,
                last_poll_ms: sl.last_poll_ms,
                poll_interval_ms: sl.poll_interval_ms,
            }
        }
    }
}

/// The move request a poll's listing provokes: the healed desired stream,
/// when it differs from the applied one; otherwise nothing.
pub open spec fn poll_outcome_request(sl: SelectionLoop, sources: Seq<u64>) -> Option<u64> {
    if sources.len() == 0 {
        Option::None
    } else {
        let d = healed_desired(sl.selection, sources);
        if d != sl.selection.applied {
            d
        } else {
            Option::None
        }
    }
}

/// The loop after the outstanding move command finished: only a successful
/// move advances the applied selection, and only to the stream the command
/// routed; a failure leaves it unchanged for the next cycle to retry.
pub open spec fn move_result_state(sl: SelectionLoop, ok: bool) -> SelectionLoop {
    SelectionLoop {
        selection: RoutingSelection {
            desired: sl.selection.desired,
            applied: if ok { sl.in_flight } else { sl.selection.applied },
        },
        phase: LoopPhase::Idle,
        in_flight: Option::None,
        last_poll_ms: sl.last_poll_ms,
        poll_interval_ms: sl.poll_interval_ms,
    }
}

fn contains_id(sources: &Vec<u64>, x: u64) -> (r: bool)
    ensures
        r == sources@.contains(x),
{
    let mut i: usize = 0;
    while i < sources.len()
        invariant
            i <= sources@.len(),
            forall|k: int| 0 <= k < i ==> sources@[k] != x,
        decreases sources@.len() - i,
    {
        if sources[i] == x {
            return true;
        }
        i = i + 1;
    }
    proof {
        assert(forall|k: int| 0 <= k < sources@.len() ==> sources@[k] != x);
    }
    false
}

impl SelectionLoop {
    /// A loop with no selection, idle, that is due for its first poll after
    /// one interval.
    pub fn new(poll_interval_ms: u64) -> (sl: SelectionLoop)
        ensures
            loop_wf(sl),
            sl.selection.desired is None,
            sl.selection.applied is None,
            sl.phase is Idle,
            sl.in_flight is None,
            sl.last_poll_ms == 0,
            sl.poll_interval_ms == poll_interval_ms,
    {
        SelectionLoop {
            selection: RoutingSelection { desired: Option::None, applied: Option::None },
            phase: LoopPhase::Idle,
            in_flight: Option::None,
            last_poll_ms: 0,
            poll_interval_ms: poll_interval_ms,
        }
    }

    /// Whether a full poll interval has passed since the last poll.
    pub fn poll_due(&self, now_ms: u64) -> (due: bool)
        requires
            now_ms >= self.last_poll_ms,
        ensures
            due == (now_ms - self.last_poll_ms >= self.poll_interval_ms),
    {
        now_ms - self.last_poll_ms >= self.poll_interval_ms
    }

    /// Records that a poll of the device directory starts now.
    pub fn begin_poll(&mut self, now_ms: u64)
        requires
            loop_wf(*old(self)),
            old(self).phase is Idle,
        ensures
            loop_wf(*final(self)),
            final(self).phase is Polling,
            final(self).last_poll_ms == now_ms,
            final(self).selection == old(self).selection,
            final(self).in_flight == old(self).in_flight,
            final(self).poll_interval_ms == old(self).poll_interval_ms,
    {
        self.phase = LoopPhase::Polling;
        self.last_poll_ms = now_ms;
    }

    /// Takes the poll's listing of routable stream indices. An empty listing
    /// changes nothing. Otherwise the desired selection heals if the applied
    /// stream vanished, and when desired and applied differ the loop turns to
    /// applying and hands back the stream index to move into the virtual
    /// microphone source.
    pub fn finish_poll(&mut self, sources: &Vec<u64>) -> (move_target: Option<u64>)
        requires
            loop_wf(*old(self)),
            old(self).phase is Polling,
        ensures
            loop_wf(*final(self)),
            *final(self) == poll_outcome_state(*old(self), sources@),
            move_target == poll_outcome_request(*old(self), sources@),
    {
        if sources.len() == 0 {
            self.phase = LoopPhase::Idle;
            self.in_flight = Option::None;
            return Option::None;
        }
        let healed: Option<u64> = match self.selection.applied {
            Option::Some(x) => {
                if !contains_id(sources, x) {
                    Option::Some(sources[0])
                } else {
                    match self.selection.desired {
                        Option::Some(d) => Option::Some(d),
                        Option::None => Option::Some(sources[0]),
                    }
                }
            },
            Option::None => {
                match self.selection.desired {
                    Option::Some(d) => Option::Some(d),
                    Option::None => Option::Some(sources[0]),
                }
            },
        };
        self.selection.desired = healed;
        let differs: bool = match (healed, self.selection.applied) {
            (Option::Some(d), Option::Some(a)) => d != a,
            (Option::Some(_), Option::None) => true,
            (Option::None, Option::Some(_)) => true,
            (Option::None, Option::None) => false,
        };
        if differs {
            self.phase = LoopPhase::Applying;
            self.in_flight = healed;
            healed
        } else {
            self.phase = LoopPhase::Idle;
            self.in_flight = Option::None;
            Option::None
        }
    }

    /// Takes the outcome of the outstanding move command. Success applies
    /// the routed stream; failure leaves the applied selection unchanged so
    /// the next cycle retries.
    pub fn on_move_result(&mut self, ok: bool)
        requires
            loop_wf(*old(self)),
            old(self).phase is Applying,
        ensures
            loop_wf(*final(self)),
            *final(self) == move_result_state(*old(self), ok),
    {
        if ok {
            self.selection.applied = self.in_flight;
        }
        self.phase = LoopPhase::Idle;
        self.in_flight = Option::None;
    }

    /// Records the user's choice of routing source from the listing.
    pub fn apply_routing(&mut self, id: u64)
        requires
            loop_wf(*old(self)),
        ensures
            loop_wf(*final(self)),
            final(self).selection.desired == Option::Some(id),
            final(self).selection.applied == old(self).selection.applied,
            final(self).phase == old(self).phase,
            final(self).in_flight == old(self).in_flight,
            final(self).last_poll_ms == old(self).last_poll_ms,
            final(self).poll_interval_ms == old(self).poll_interval_ms,
    {
        self.selection.desired = Option::Some(id);
    }
}

/// The applied selection is never advanced by taking a poll's listing, nor
/// by a failed move; only a successful move advances it, and exactly to the
/// stream that move routed.
pub proof fn lemma_applied_advances_only_on_success(sl: SelectionLoop, sources: Seq<u64>, ok: bool)
    ensures
        poll_outcome_state(sl, sources).selection.applied == sl.selection.applied,
        !ok ==> move_result_state(sl, ok).selection.applied == sl.selection.applied,
        ok ==> move_result_state(sl, ok).selection.applied == sl.in_flight,
{
}

/// When the applied stream has vanished from a non-empty poll, the loop
/// resets the desired selection to the first listed entry, requests exactly
/// that move, and a successful move applies it — all within one applying
/// cycle.
pub proof fn lemma_vanished_selection_heals(sl: SelectionLoop, sources: Seq<u64>)
    requires
        loop_wf(sl),
        sources.len() > 0,
        sl.selection.applied matches Option::Some(x) && !sources.contains(x),
    ensures
        poll_outcome_request(sl, sources) == Option::Some(sources[0]),
        poll_outcome_state(sl, sources).selection.desired == Option::Some(sources[0]),
        poll_outcome_state(sl, sources).selection.applied == sl.selection.applied,
        move_result_state(poll_outcome_state(sl, sources), true).selection.applied
            == Option::Some(sources[0]),
{
    let healed = healed_desired(sl.selection, sources);
    assert(healed == Option::Some(sources[0]));
    assert(healed != sl.selection.applied);
}

} // verus!
