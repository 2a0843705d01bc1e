use vstd::prelude::*;

verus! {

/// What the frame decoder reported when asked for the next frame.
#[derive(Debug, Clone, Copy, PartialEq, Eq, Structural)]
pub enum DecodeStatus {
    /// A complete frame was decoded.
    Frame,
    /// The buffered bytes end in the middle of a frame.
    NeedMoreData,
    /// The bytes at the cursor are no valid frame.
    Malformed,
}

/// What to do with a decoder result.
#[derive(Debug, Clone, Copy, PartialEq, Eq, Structural)]
pub enum DecodeAction {
    /// Hand the frame to the log sink and ask for the next one.
    Forward,
    /// Stop draining: wait for more bytes.
    Wait,
    /// Drop the corrupt frame and ask for the next one.
    Skip,
    /// Stop monitoring: the stream cannot be trusted any more.
    Abort,
}

/// The decode error that ends monitoring.
#[derive(Debug, Clone, Copy, PartialEq, Eq, Structural)]
pub enum DecodeError {
    MalformedFrame,
}

/// What a decoder result calls for, where the wire encoding can or cannot
/// find the start of the next frame after a corrupt one.
pub open spec fn action_for(s: DecodeStatus, can_recover: bool) -> DecodeAction {
    match s {
        DecodeStatus::Frame => DecodeAction::Forward,
        DecodeStatus::NeedMoreData => DecodeAction::Wait,
        DecodeStatus::Malformed => if can_recover {
            DecodeAction::Skip
        } else {
            DecodeAction::Abort
        },
    }
}

/// The pump has stopped for good after the results `statuses`.
pub open spec fn aborted_after(statuses: Seq<DecodeStatus>, can_recover: bool) -> bool {
    !can_recover && exists|j: int| 0 <= j < statuses.len() && statuses[j] is Malformed
}

/// The actions that the pump takes on the results `statuses`, in turn.
pub open spec fn pump_actions(statuses: Seq<DecodeStatus>, can_recover: bool) -> Seq<DecodeAction> {
    Seq::new(
        statuses.len(),
        |j: int|
            if aborted_after(statuses.take(j), can_recover) {
                DecodeAction::Abort
            } else {
                action_for(statuses[j], can_recover)
            },
    )
}

/// Decides, result by result, what happens to the frames that a decoder
/// produces from the log stream, in the order they arrive.
pub struct FramePump {
    can_recover: bool,
    aborted: bool,
}

impl FramePump {
    pub closed spec fn can_recover(&self) -> bool {
        self.can_recover
    }

    pub closed spec fn aborted(&self) -> bool {
        self.aborted
    }

    /// A pump for an encoding that can (`can_recover`) or cannot
    /// resynchronise after a corrupt frame.
    pub fn new(can_recover: bool) -> (r: Self)
        ensures
            r.can_recover() == can_recover,
            !r.aborted(),
    {
        FramePump { can_recover, aborted: false }
    }

    /// The action for the decoder's next result. Once the pump has aborted
    /// it stays aborted.
    pub fn on_status(&mut self, status: DecodeStatus) -> (r: DecodeAction)
        ensures
            final(self).can_recover() == old(self).can_recover(),
            old(self).aborted() ==> r == DecodeAction::Abort,
            !old(self).aborted() ==> r == action_for(status, old(self).can_recover()),
            final(self).aborted() == (r == DecodeAction::Abort),
    {
        if self.aborted {
            return DecodeAction::Abort;
        }
        match status {
            DecodeStatus::Frame => DecodeAction::Forward,
            DecodeStatus::NeedMoreData => DecodeAction::Wait,
            DecodeStatus::Malformed => {
                if self.can_recover {
                    DecodeAction::Skip
                } else {
                    self.aborted = true;
                    DecodeAction::Abort
                }
            },
        }
    }

    /// The error that ends monitoring, once the pump has aborted.
    pub fn error(&self) -> (r: Option<DecodeError>)
        ensures
            r == if self.aborted() {
                Some(DecodeError::MalformedFrame)
            } else {
                None::<DecodeError>
            },
    {
        if self.aborted {
            Some(DecodeError::MalformedFrame)
        } else {
            None
        }
    }
}

/// With an encoding that can resynchronise, every decoded frame is
/// forwarded, in order, every corrupt frame is skipped, and the pump never
/// aborts.
pub proof fn lemma_recovering_pump_skips_corrupt_frames(statuses: Seq<DecodeStatus>)
    ensures
        forall|j: int|
            0 <= j < statuses.len() ==> (#[trigger] pump_actions(statuses, true)[j]
                == DecodeAction::Forward) == (statuses[j] is Frame),
        forall|j: int|
            0 <= j < statuses.len() ==> (#[trigger] pump_actions(statuses, true)[j]
                == DecodeAction::Skip) == (statuses[j] is Malformed),
        forall|j: int|
            0 <= j < statuses.len() ==> #[trigger] pump_actions(statuses, true)[j]
                != DecodeAction::Abort,
{
}

/// With an encoding that cannot resynchronise, the frames before the first
/// corrupt one are forwarded, and from the corrupt one on the pump aborts.
pub proof fn lemma_strict_pump_stops_at_corrupt_frame(statuses: Seq<DecodeStatus>, k: int)
    requires
        0 <= k < statuses.len(),
        statuses[k] is Malformed,
        forall|j: int| 0 <= j < k ==> !(statuses[j] is Malformed),
    ensures
        forall|j: int|
            0 <= j < k ==> #[trigger] pump_actions(statuses, false)[j] == action_for(
                statuses[j],
                false,
            ),
        forall|j: int|
            k <= j < statuses.len() ==> #[trigger] pump_actions(statuses, false)[j]
                == DecodeAction::Abort,
{
    assert forall|j: int| k < j < statuses.len() implies aborted_after(statuses.take(j), false) by {
        assert(statuses.take(j)[k] is Malformed);
    }
}

/// The pump's actions on a run of results are those that `pump_actions`
/// describes.
pub fn pump_all(can_recover: bool, statuses: &Vec<DecodeStatus>) -> (r: Vec<DecodeAction>)
    ensures
        r@ == pump_actions(statuses@, can_recover),
{
    let mut pump = FramePump::new(can_recover);
    let mut r: Vec<DecodeAction> = Vec::new();
    let mut j: usize = 0;
    while j < statuses.len()
        invariant
            j <= statuses.len(),
            pump.can_recover() == can_recover,
            pump.aborted() == aborted_after(statuses@.take(j as int), can_recover),
            r@ == pump_actions(statuses@.take(j as int), can_recover),
        decreases statuses.len() - j,
    {
        let ghost prev = statuses@.take(j as int);
        let a = pump.on_status(statuses[j]);
        r.push(a);
        proof {
            let next = statuses@.take(j + 1);
            assert(next.take(j as int) =~= prev);
            assert forall|i: int| 0 <= i < j implies next.take(i) =~= prev.take(i) by {}
            assert(r@ =~= pump_actions(next, can_recover));
            assert(next[j as int] == statuses@[j as int]);
            if statuses@[j as int] is Malformed {
                assert(next[j as int] is Malformed);
            }
            if aborted_after(next, can_recover) && !aborted_after(prev, can_recover) {
                let w = choose|w: int| 0 <= w < next.len() && next[w] is Malformed;
                assert(w == j);
            }
            if aborted_after(prev, can_recover) {
                let w = choose|w: int| 0 <= w < prev.len() && prev[w] is Malformed;
                assert(next[w] is Malformed);
            }
        }
        j += 1;
    }
    assert(statuses@.take(statuses.len() as int) =~= statuses@);
    r
}

} // verus!

verus! {

/// Where in the source a frame was logged.
pub struct SourceLocation {
    pub file: String,
    pub line: u64,
    pub module: String,
}

/// The source locations of the frames of one image, by frame index.
pub struct LocationTable {
    entries: Vec<(u64, SourceLocation)>,
}

impl LocationTable {
    pub closed spec fn wf(&self) -> bool {
        forall|a: int, b: int|
            0 <= a < self.entries.len() && 0 <= b < self.entries.len() && #[trigger] self.entries@[a].0
                == #[trigger] self.entries@[b].0 ==> a == b
    }

    spec fn slot(&self, index: u64) -> int {
        choose|e: int| 0 <= e < self.entries.len() && self.entries@[e].0 == index
    }

    /// The table as a map from frame index to location.
    pub closed spec fn locations(&self) -> Map<u64, SourceLocation> {
        Map::new(
            |index: u64| exists|e: int| 0 <= e < self.entries.len() && self.entries@[e].0 == index,
            |index: u64| self.entries@[self.slot(index)].1,
        )
    }

    pub fn new() -> (r: Self)
        ensures
            r.wf(),
            r.locations() == Map::<u64, SourceLocation>::empty(),
    {
        let r = LocationTable { entries: Vec::new() };
        assert(r.locations() =~= Map::<u64, SourceLocation>::empty());
        r
    }

    fn find(&self, index: u64) -> (r: Option<usize>)
        requires
            self.wf(),
        ensures
            match r {
                Some(e) => e < self.entries.len() && self.entries@[e as int].0 == index && self.slot(
                    index,
                ) == e,
                None => forall|e: int| 0 <= e < self.entries.len() ==> self.entries@[e].0 != index,
            },
    {
        let mut e: usize = 0;
        while e < self.entries.len()
            invariant
                self.wf(),
                e <= self.entries.len(),
                forall|f: int| 0 <= f < e ==> self.entries@[f].0 != index,
            decreases self.entries.len() - e,
        {
            if self.entries[e].0 == index {
                let ghost s = self.slot(index);
                assert(self.entries@[s].0 == self.entries@[e as int].0);
                return Some(e);
            }
            e += 1;
        }
        None
    }

    /// Sets the location of frame `index`, replacing any earlier one.
    pub fn insert(&mut self, index: u64, location: SourceLocation)
        requires
            old(self).wf(),
        ensures
            final(self).wf(),
            final(self).locations() == old(self).locations().insert(index, location),
    {
        let ghost before = *self;
        match self.find(index) {
            Some(e) => {
                self.entries.set(e, (index, location));
                proof {
                    assert forall|k: u64| #[trigger] self.locations().contains_key(k) implies self.locations()[k]
                        == before.locations().insert(index, location)[k] by {
                        if k != index {
                            let s = before.slot(k);
                            assert(self.entries@[s].0 == k);
                            assert(self.slot(k) == s);
                        }
                    }
                    assert forall|k: u64| before.locations().insert(index, location).contains_key(k)
                        implies #[trigger] self.locations().contains_key(k) by {
                        if k != index {
                            let s = before.slot(k);
                            assert(self.entries@[s].0 == k);
                        } else {
                            assert(self.entries@[e as int].0 == k);
                        }
                    }
                    assert(self.locations() =~= before.locations().insert(index, location));
                }
            },
            None => {
                self.entries.push((index, location));
                proof {
                    let last = self.entries.len() - 1;
                    assert(self.entries@[last].0 == index);
                    assert forall|k: u64| #[trigger] self.locations().contains_key(k) implies self.locations()[k]
                        == before.locations().insert(index, location)[k] by {
                        if k != index {
                            let s = self.slot(k);
                            assert(before.entries@[s].0 == k);
                            assert(before.slot(k) == s);
                        } else {
                            assert(self.slot(k) == last);
                        }
                    }
                    assert forall|k: u64| before.locations().insert(index, location).contains_key(k)
                        implies #[trigger] self.locations().contains_key(k) by {
                        if k != index {
                            let s = before.slot(k);
                            assert(self.entries@[s].0 == k);
                        }
                    }
                    assert(self.locations() =~= before.locations().insert(index, location));
                }
            },
        }
    }

    /// The location of frame `index`; `None` where the table has none, which
    /// is no error.
    pub fn lookup(&self, index: u64) -> (r: Option<&SourceLocation>)
        requires
            self.wf(),
        ensures
            match r {
                Some(l) => self.locations().contains_key(index) && *l == self.locations()[index],
                None => !self.locations().contains_key(index),
            },
    {
        match self.find(index) {
            Some(e) => Some(&self.entries[e].1),
            None => None,
        }
    }
}

} // verus!
