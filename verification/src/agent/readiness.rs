//! The readiness states of the system.

use vstd::prelude::*;

verus! {

/// Whether the system can do its work.
#[derive(Debug, Clone, PartialEq, Eq)]
pub enum ReadinessState {
    /// Fully operational.
    Ready,
    /// Not ready yet, for the given reason; expected to recover.
    NotReadyYet(String),
    /// Failed for good, for the given reason.
    FatalExit(String),
    /// Not determined yet.
    Unknown,
}

impl ReadinessState {
    /// The variant's name.
    pub open spec fn name_view(&self) -> Seq<char> {
        match self {
            ReadinessState::Ready => "Ready"@,
            ReadinessState::NotReadyYet(_) => "NotReadyYet"@,
            ReadinessState::Unknown => "Unknown"@,
            ReadinessState::FatalExit(_) => "FatalExit"@,
        }
    }

    /// The reason of `NotReadyYet`; empty for the other states.
    pub open spec fn reason_view(&self) -> Seq<char> {
        match self {
            ReadinessState::NotReadyYet(reason) => reason@,
            _ => Seq::<char>::empty(),
        }
    }

    /// The text of the state.
    pub open spec fn text_view(&self) -> Seq<char> {
        match self {
            ReadinessState::Ready => "Ready"@,
            ReadinessState::NotReadyYet(reason) => "NotReadyYet: "@ + reason@,
            ReadinessState::Unknown => "Unknown"@,
            ReadinessState::FatalExit(reason) => "FatalExit: "@ + reason@,
        }
    }

    /// Whether the state is `Ready`.
    pub fn is_ready(&self) -> (r: bool)
        ensures
            r == (self is Ready),
    {
        matches!(self, ReadinessState::Ready)
    }

    /// The variant's name.
    pub fn as_str(&self) -> (r: &str)
        ensures
            r@ == self.name_view(),
    {
        match self {
            ReadinessState::Ready => "Ready",
            ReadinessState::NotReadyYet(_) => "NotReadyYet",
            ReadinessState::Unknown => "Unknown",
            ReadinessState::FatalExit(_) => "FatalExit",
        }
    }

    /// Whether the state is `FatalExit`.
    pub fn is_fatal(&self) -> (r: bool)
        ensures
            r == (self is FatalExit),
    {
        matches!(self, ReadinessState::FatalExit(_))
    }

    /// The reason of `NotReadyYet`; empty for the other states.
    pub fn reason(&self) -> (r: &str)
        ensures
            r@ == self.reason_view(),
    {
        match self {
            ReadinessState::NotReadyYet(reason) => reason.as_str(),
            _ => {
                proof {
                    reveal_strlit("");
                }
                ""
            },
        }
    }

    /// The text of the state: its name, followed by `: ` and the reason for
    /// the states that carry one.
    pub fn to_string(&self) -> (r: String)
        ensures
            r@ == self.text_view(),
    {
        match self {
            ReadinessState::Ready => String::from_str("Ready"),
            ReadinessState::NotReadyYet(reason) => String::from_str("NotReadyYet: ").concat(reason.as_str()),
            ReadinessState::Unknown => String::from_str("Unknown"),
            ReadinessState::FatalExit(reason) => String::from_str("FatalExit: ").concat(reason.as_str()),
        }
    }
}

/// The text of a state is its name; for the states that carry a reason the
/// name is followed by `: ` and that reason. No state is both ready and fatal,
/// and only `NotReadyYet` reports a reason.
pub proof fn law_readiness_text(s: ReadinessState)
    ensures
        s.text_view() == match s {
            ReadinessState::NotReadyYet(reason) => s.name_view() + ": "@ + reason@,
            ReadinessState::FatalExit(reason) => s.name_view() + ": "@ + reason@,
            _ => s.name_view(),
        },
        !(s is Ready && s is FatalExit),
        !(s is NotReadyYet) ==> s.reason_view() == Seq::<char>::empty(),
{
    reveal_strlit("NotReadyYet: ");
    reveal_strlit("NotReadyYet");
    reveal_strlit("FatalExit: ");
    reveal_strlit("FatalExit");
    reveal_strlit(": ");
    match s {
        ReadinessState::NotReadyYet(reason) => {
            assert("NotReadyYet: "@ =~= "NotReadyYet"@ + ": "@);
            assert("NotReadyYet: "@ + reason@ =~= "NotReadyYet"@ + ": "@ + reason@);
        },
        ReadinessState::FatalExit(reason) => {
            assert("FatalExit: "@ =~= "FatalExit"@ + ": "@);
            assert("FatalExit: "@ + reason@ =~= "FatalExit"@ + ": "@ + reason@);
        },
        _ => {},
    }
}

/// The state of the broker connection, as the readiness logic reads it.
#[derive(Debug, Clone, PartialEq, Eq)]
pub enum ConnectionState {
    /// Connected to the broker.
    Connected,
    /// Disconnected, for the given reason.
    Disconnected(String),
    /// Waiting to reconnect; the delay in seconds, written with one decimal.
    Reconnecting(String),
    /// Connecting now.
    Connecting,
    /// Failed for good, for the given reason.
    FatalExit(String),
}

/// `r` is the readiness that the connection state `state` means: ready when
/// connected, fatal when the connection failed for good, otherwise not
/// ready yet with a reason that says why.
pub open spec fn adapts(state: ConnectionState, r: ReadinessState) -> bool {
    match state {
        ConnectionState::Connected => r is Ready,
        ConnectionState::Disconnected(reason) => r matches ReadinessState::NotReadyYet(t) && t@
            == "Disconnected: "@ + reason@,
        ConnectionState::Reconnecting(delay) => r matches ReadinessState::NotReadyYet(t) && t@ == "Reconnecting in "@
            + delay@ + " sec"@,
        ConnectionState::Connecting => r matches ReadinessState::NotReadyYet(t) && t@ == "Connecting..."@,
        ConnectionState::FatalExit(reason) => r matches ReadinessState::FatalExit(t) && t@ == "Fatal error: "@
            + reason@,
    }
}

/// The readiness that a connection state means.
pub fn adapt_connection_state(state: &ConnectionState) -> (r: ReadinessState)
    ensures
        adapts(*state, r),
{
    match state {
        ConnectionState::Connected => ReadinessState::Ready,
        ConnectionState::Disconnected(reason) => ReadinessState::NotReadyYet(
            String::from_str("Disconnected: ").concat(reason.as_str()),
        ),
        ConnectionState::Reconnecting(delay) => ReadinessState::NotReadyYet(
            String::from_str("Reconnecting in ").concat(delay.as_str()).concat(" sec"),
        ),
        ConnectionState::Connecting => ReadinessState::NotReadyYet(String::from_str("Connecting...")),
        ConnectionState::FatalExit(reason) => ReadinessState::FatalExit(
            String::from_str("Fatal error: ").concat(reason.as_str()),
        ),
    }
}

/// The system is ready exactly when the broker is connected, and fatal
/// exactly when the connection failed for good.
pub proof fn law_connection_readiness(state: ConnectionState, r: ReadinessState)
    requires
        adapts(state, r),
    ensures
        r is Ready <==> state is Connected,
        r is FatalExit <==> state is FatalExit,
        r is NotReadyYet <==> (state is Disconnected || state is Reconnecting || state is Connecting),
{
}

/// The state that follows `current` when `requested` is asked for: a fatal
/// state is final and stays; any other state gives way to the request.
pub open spec fn readiness_next(current: ReadinessState, requested: ReadinessState) -> ReadinessState {
    if current is FatalExit {
        current
    } else {
        requested
    }
}

/// The state that follows `current` when `requested` is asked for.
pub fn next_readiness(current: ReadinessState, requested: ReadinessState) -> (r: ReadinessState)
    ensures
        r == readiness_next(current, requested),
{
    if current.is_fatal() {
        current
    } else {
        requested
    }
}

/// The state after the requests `reqs`, in order, from `start`.
pub open spec fn readiness_after(start: ReadinessState, reqs: Seq<ReadinessState>) -> ReadinessState
    decreases reqs.len(),
{
    if reqs.len() == 0 {
        start
    } else {
        readiness_next(readiness_after(start, reqs.drop_last()), reqs.last())
    }
}

/// A fatal state is final: whatever is requested after it, the state stays
/// the same fatal state, and so the system never becomes ready again.
pub proof fn law_fatal_is_terminal(start: ReadinessState, reqs: Seq<ReadinessState>)
    requires
        start is FatalExit,
    ensures
        readiness_after(start, reqs) == start,
        !(readiness_after(start, reqs) is Ready),
    decreases reqs.len(),
{
    if reqs.len() > 0 {
        law_fatal_is_terminal(start, reqs.drop_last());
    }
}

} // verus!
