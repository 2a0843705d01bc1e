use vstd::prelude::*;

verus! {

/// How many times attaching to the log transport is tried before giving up.
pub const MAX_ATTACH_ATTEMPTS: u32 = 10;

/// What one attempt to find the log transport's control structure saw.
pub enum AttachAttempt {
    /// The control structure was found; `has_up_channel` tells whether it
    /// holds the first up-channel.
    Found { has_up_channel: bool },
    /// The control structure is not there (yet): the firmware may not have
    /// initialised it.
    NotInitialized,
    /// Any other failure.
    Failed(String),
}

/// Why no log channel could be attached.
#[derive(Debug)]
pub enum ChannelError {
    /// The control structure did not appear within the allowed attempts.
    TransportNotFound,
    /// The control structure holds no up-channel.
    UpChannelMissing,
    /// Discovery failed for another reason; this is not retried.
    Transport(String),
}

/// What to do after an attempt.
#[derive(Debug)]
pub enum AttachDecision {
    Attached,
    Retry,
    GiveUp(ChannelError),
}

/// The decision after an attempt, when `tried` attempts before it saw no
/// control structure.
pub open spec fn decide(tried: nat, a: AttachAttempt) -> AttachDecision {
    match a {
        AttachAttempt::Found { has_up_channel } => if has_up_channel {
            AttachDecision::Attached
        } else {
            AttachDecision::GiveUp(ChannelError::UpChannelMissing)
        },
        AttachAttempt::NotInitialized => if tried + 1 >= MAX_ATTACH_ATTEMPTS {
            AttachDecision::GiveUp(ChannelError::TransportNotFound)
        } else {
            AttachDecision::Retry
        },
        AttachAttempt::Failed(cause) => AttachDecision::GiveUp(ChannelError::Transport(cause)),
    }
}

/// The decision reached once the attempts `results` were made in turn,
/// stopping at the first one that settles it; `Retry` while none has.
pub open spec fn attach_outcome(results: Seq<AttachAttempt>) -> AttachDecision
    decreases results.len(),
{
    if results.len() == 0 {
        AttachDecision::Retry
    } else {
        let before = attach_outcome(results.drop_last());
        if before is Retry {
            decide((results.len() - 1) as nat, results.last())
        } else {
            before
        }
    }
}

/// The retry state of one attach to the log transport.
pub struct AttachRetry {
    tried: u32,
}

impl AttachRetry {
    /// How many attempts so far saw no control structure.
    pub closed spec fn tried(&self) -> nat {
        self.tried as nat
    }

    pub fn new() -> (r: Self)
        ensures
            r.tried() == 0,
    {
        AttachRetry { tried: 0 }
    }

    /// Records one attempt and says what to do next. Only a missing
    /// control structure is retried, and at most `MAX_ATTACH_ATTEMPTS`
    /// attempts are made in all.
    pub fn attempt(&mut self, a: AttachAttempt) -> (d: AttachDecision)
        requires
            old(self).tried() < MAX_ATTACH_ATTEMPTS,
        ensures
            d == decide(old(self).tried(), a),
            a is NotInitialized ==> final(self).tried() == old(self).tried() + 1,
            !(a is NotInitialized) ==> final(self).tried() == old(self).tried(),
    {
        match a {
            AttachAttempt::Found { has_up_channel } => {
                if has_up_channel {
                    AttachDecision::Attached
                } else {
                    AttachDecision::GiveUp(ChannelError::UpChannelMissing)
                }
            },
            AttachAttempt::NotInitialized => {
                self.tried = self.tried + 1;
                if self.tried >= MAX_ATTACH_ATTEMPTS {
                    AttachDecision::GiveUp(ChannelError::TransportNotFound)
                } else {
                    AttachDecision::Retry
                }
            },
            AttachAttempt::Failed(cause) => AttachDecision::GiveUp(ChannelError::Transport(cause)),
        }
    }
}

proof fn lemma_waiting(results: Seq<AttachAttempt>)
    requires
        results.len() < MAX_ATTACH_ATTEMPTS,
        forall|j: int| 0 <= j < results.len() ==> results[j] is NotInitialized,
    ensures
        attach_outcome(results) is Retry,
    decreases results.len(),
{
    if results.len() > 0 {
        lemma_waiting(results.drop_last());
    }
}

/// Attaching succeeds when the control structure, with its up-channel,
/// appears at any of the allowed attempts, however many before it found
/// nothing; while it is missing, attaching waits.
pub proof fn lemma_attach_succeeds_within_bound(results: Seq<AttachAttempt>, k: int)
    requires
        0 <= k < MAX_ATTACH_ATTEMPTS,
        k < results.len(),
        forall|j: int| 0 <= j < k ==> results[j] is NotInitialized,
        results[k] == (AttachAttempt::Found { has_up_channel: true }),
    ensures
        forall|m: int| 0 <= m <= k ==> #[trigger] attach_outcome(results.take(m)) is Retry,
        attach_outcome(results.take(k + 1)) is Attached,
{
    assert forall|m: int| 0 <= m <= k implies #[trigger] attach_outcome(results.take(m)) is Retry by {
        lemma_waiting(results.take(m));
    }
    let r = results.take(k + 1);
    assert(r.drop_last() =~= results.take(k));
    assert(attach_outcome(r.drop_last()) is Retry);
    assert(r.last() == results[k]);
}

/// When the control structure is missing at every one of the allowed
/// attempts, attaching fails with `TransportNotFound`, and not before.
pub proof fn lemma_attach_gives_up(results: Seq<AttachAttempt>)
    requires
        results.len() == MAX_ATTACH_ATTEMPTS,
        forall|j: int| 0 <= j < results.len() ==> results[j] is NotInitialized,
    ensures
        forall|m: int| 0 <= m < MAX_ATTACH_ATTEMPTS ==> #[trigger] attach_outcome(results.take(m)) is Retry,
        attach_outcome(results) == AttachDecision::GiveUp(ChannelError::TransportNotFound),
{
    assert forall|m: int| 0 <= m < MAX_ATTACH_ATTEMPTS implies #[trigger] attach_outcome(
        results.take(m),
    ) is Retry by {
        lemma_waiting(results.take(m));
    }
    lemma_waiting(results.drop_last());
}

/// How the log output of a run is read.
#[derive(Debug, Clone, Copy, PartialEq, Eq, Structural)]
pub enum LogMode {
    /// Frames are decoded from the channel and forwarded.
    Frames,
    /// The channel's bytes are passed through unchanged.
    Raw,
    /// No channel: the run only waits for the device to halt.
    HaltOnly,
}

/// Why the log output cannot be read.
#[derive(Debug, Clone, Copy, PartialEq, Eq, Structural)]
pub enum LogSetupError {
    /// The channel carries frames, but the image holds no table to decode them.
    MissingFrameTable,
}

/// The channel name under which the firmware sends encoded frames.
pub open spec fn frame_channel_name() -> Seq<char> {
    "defmt"@
}

/// Chooses how to read the log output, from the name of the attached
/// channel (none where no channel was found) and whether the image carries
/// a frame table.
pub fn select_log_mode(channel_name: Option<&String>, has_frame_table: bool) -> (r: Result<
    LogMode,
    LogSetupError,
>)
    ensures
        match channel_name {
            None => r == Ok::<LogMode, LogSetupError>(LogMode::HaltOnly),
            Some(name) => if name@ == frame_channel_name() {
                if has_frame_table {
                    r == Ok::<LogMode, LogSetupError>(LogMode::Frames)
                } else {
                    r == Err::<LogMode, LogSetupError>(LogSetupError::MissingFrameTable)
                }
            } else {
                r == Ok::<LogMode, LogSetupError>(LogMode::Raw)
            },
        },
{
    match channel_name {
        None => Ok(LogMode::HaltOnly),
        Some(name) => {
            let frames = String::from_str("defmt");
            proof {
                reveal_strlit("defmt");
            }
            if *name == frames {
                if has_frame_table {
                    Ok(LogMode::Frames)
                } else {
                    Err(LogSetupError::MissingFrameTable)
                }
            } else {
                Ok(LogMode::Raw)
            }
        },
    }
}

} // verus!
