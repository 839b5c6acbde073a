//! The three kinds of session behind one interface.

use vstd::prelude::*;

verus! {

/// What a session reports of itself at one moment. The session proper does
/// the networking and belongs to the host; the driver decides on this.
pub enum Session {
    /// A session without peers that rolls back and resimulates every frame
    /// to test determinism.
    SyncTest {
        num_players: usize,
        max_prediction: usize,
    },
    /// A session among peers.
    P2P {
        /// Whether the session has synchronized with its peers.
        running: bool,
        /// The handles of the players on this host.
        local_players: Vec<usize>,
        /// How many frames this host is ahead of its peers, by the session's
        /// estimate.
        frames_ahead: i32,
        max_prediction: usize,
    },
    /// A session that watches a host without taking part.
    Spectator {
        /// Whether the session has synchronized with its host.
        running: bool,
        /// How many frames the host is ahead.
        frames_behind_host: usize,
    },
}

/// Why a session did not advance.
#[derive(Debug, PartialEq, Eq, Hash)]
pub enum SessionError {
    /// The session is as far ahead of confirmed input as it may go.
    PredictionThreshold,
    /// A call was made with arguments that the session does not accept.
    InvalidRequest { info: String },
    /// A resimulated frame did not give the checksum of its first run.
    MismatchedChecksum { frame: i32 },
    /// The session has not synchronized yet.
    NotSynchronized,
    /// The spectator is too far behind its host to catch up.
    SpectatorTooFarBehind,
    /// A socket could not be made.
    SocketCreationFailed,
    /// A player has left.
    PlayerDisconnected,
    /// A message could not be decoded.
    DecodingError,
}

/// `ggrs::GGRSError`, the error of a session. Verus carries it through
/// without looking inside.
#[verifier::external_type_specification]
#[verifier::external_body]
pub struct ExGGRSError(ggrs::GGRSError);

/// `ggrs::GGRSError` as an error of this library: each variant becomes the
/// variant of the same name, with the same fields. Verus does not see into
/// the outside error, so nothing is claimed of which variant comes back.
#[verifier::external_body]
pub(crate) fn session_error(error: ggrs::GGRSError) -> (r: SessionError) {
    match error {
        ggrs::GGRSError::PredictionThreshold => SessionError::PredictionThreshold,
        ggrs::GGRSError::InvalidRequest { info } => SessionError::InvalidRequest { info },
        ggrs::GGRSError::MismatchedChecksum { frame } => SessionError::MismatchedChecksum { frame },
        ggrs::GGRSError::NotSynchronized => SessionError::NotSynchronized,
        ggrs::GGRSError::SpectatorTooFarBehind => SessionError::SpectatorTooFarBehind,
        ggrs::GGRSError::SocketCreationFailed => SessionError::SocketCreationFailed,
        ggrs::GGRSError::PlayerDisconnected => SessionError::PlayerDisconnected,
        ggrs::GGRSError::DecodingError => SessionError::DecodingError,
    }
}

/// The frames that a session is ahead of its peers. A spectator is behind
/// by what it reports, counted as `i32::MAX` at most; a sync test is
/// neither ahead nor behind.
pub open spec fn frames_ahead_of(session: Session) -> int {
    match session {
        Session::SyncTest { .. } => 0,
        Session::P2P { frames_ahead, .. } => frames_ahead as int,
        Session::Spectator { frames_behind_host, .. } => if frames_behind_host <= i32::MAX {
            -(frames_behind_host as int)
        } else {
            -(i32::MAX as int)
        },
    }
}

/// The handles from 0 up to, but not including, `n`.
pub open spec fn handles_up_to(n: usize) -> Seq<usize> {
    Seq::new(n as nat, |i: int| i as usize)
}

fn contains_handle(handles: &Vec<usize>, handle: usize) -> (r: bool)
    ensures
        r == handles@.contains(handle),
{
    let mut i: usize = 0;
    while i < handles.len()
        invariant
            i <= handles@.len(),
            forall|j: int| 0 <= j < i ==> handles@[j] != handle,
        decreases handles@.len() - i,
    {
        if handles[i] == handle {
            assert(handles@[i as int] == handle);
            return true;
        }
        i += 1;
    }
    false
}

impl Session {
    /// Whether polling the session exchanges anything with a remote side.
    pub open spec fn spec_polls_remote(&self) -> bool {
        !(self is SyncTest)
    }

    /// Whether the session ever has events to report. A sync test has none.
    pub open spec fn spec_has_events(&self) -> bool {
        !(self is SyncTest)
    }

    /// Whether the session takes input from local players.
    pub open spec fn spec_accepts_input(&self) -> bool {
        !(self is Spectator)
    }

    /// Whether the session is ready to advance. A sync test always is.
    pub open spec fn spec_is_running(&self) -> bool {
        match *self {
            Session::SyncTest { .. } => true,
            Session::P2P { running, .. } => running,
            Session::Spectator { running, .. } => running,
        }
    }

    /// The handles of the players whose input the session wants before it
    /// advances.
    pub open spec fn spec_input_handles(&self) -> Seq<usize> {
        match *self {
            Session::SyncTest { num_players, .. } => handles_up_to(num_players),
            Session::P2P { local_players, .. } => local_players@,
            Session::Spectator { .. } => Seq::empty(),
        }
    }

    /// The most snapshots that the session can ask to go back: none for a
    /// spectator, which never rolls back.
    pub open spec fn spec_max_prediction_window(&self) -> usize {
        match *self {
            Session::SyncTest { max_prediction, .. } => max_prediction,
            Session::P2P { max_prediction, .. } => max_prediction,
            Session::Spectator { .. } => 0,
        }
    }

    /// Whether polling the session exchanges anything with a remote side.
    pub fn polls_remote(&self) -> (r: bool)
        ensures
            r == self.spec_polls_remote(),
    {
        match self {
            Session::SyncTest { .. } => false,
            _ => true,
        }
    }

    /// Whether the session ever has events to report.
    pub fn has_events(&self) -> (r: bool)
        ensures
            r == self.spec_has_events(),
    {
        match self {
            Session::SyncTest { .. } => false,
            _ => true,
        }
    }

    /// Whether the session takes input from local players. Input handed to
    /// a spectator is dropped without an error.
    pub fn accepts_input(&self) -> (r: bool)
        ensures
            r == self.spec_accepts_input(),
    {
        match self {
            Session::Spectator { .. } => false,
            _ => true,
        }
    }

    /// Whether the session is ready to advance.
    pub fn is_running(&self) -> (r: bool)
        ensures
            r == self.spec_is_running(),
    {
        match self {
            Session::SyncTest { .. } => true,
            Session::P2P { running, .. } => *running,
            Session::Spectator { running, .. } => *running,
        }
    }

    /// The handles of the players whose input the session wants before it
    /// advances: all players in a sync test, the local ones among peers,
    /// none for a spectator.
    pub fn input_handles(&self) -> (r: Vec<usize>)
        ensures
            r@ == self.spec_input_handles(),
    {
        let mut handles: Vec<usize> = Vec::new();
        match self {
            Session::SyncTest { num_players, .. } => {
                let mut handle: usize = 0;
                while handle < *num_players
                    invariant
                        handle <= *num_players,
                        handles@ == handles_up_to(handle),
                    decreases *num_players - handle,
                {
                    handles.push(handle);
                    handle += 1;
                    assert(handles@ =~= handles_up_to(handle));
                }
            },
            Session::P2P { local_players, .. } => {
                let mut i: usize = 0;
                while i < local_players.len()
                    invariant
                        i <= local_players@.len(),
                        handles@ == local_players@.subrange(0, i as int),
                    decreases local_players@.len() - i,
                {
                    handles.push(local_players[i]);
                    i += 1;
                    assert(handles@ =~= local_players@.subrange(0, i as int));
                }
                assert(local_players@.subrange(0, i as int) =~= local_players@);
            },
            Session::Spectator { .. } => {},
        }
        handles
    }

    /// Whether input for `handle` is accepted: the handle of any player in
    /// a sync test, of a local player among peers. A spectator accepts and
    /// drops any.
    pub fn accepts_handle(&self, handle: usize) -> (r: bool)
        ensures
            r == match *self {
                Session::SyncTest { num_players, .. } => handle < num_players,
                Session::P2P { local_players, .. } => local_players@.contains(handle),
                Session::Spectator { .. } => true,
            },
    {
        match self {
            Session::SyncTest { num_players, .. } => handle < *num_players,
            Session::P2P { local_players, .. } => contains_handle(local_players, handle),
            Session::Spectator { .. } => true,
        }
    }

    /// The frames that this host is ahead of its peers: positive when it
    /// runs ahead, negative when it is behind.
    pub fn frames_ahead(&self) -> (r: i32)
        ensures
            r == frames_ahead_of(*self),
    {
        match self {
            Session::SyncTest { .. } => 0,
            Session::P2P { frames_ahead, .. } => *frames_ahead,
            Session::Spectator { frames_behind_host, .. } => {
                if *frames_behind_host <= 0x7fff_ffff {
                    -(*frames_behind_host as i32)
                } else {
                    -0x7fff_ffff
                }
            },
        }
    }

    /// The most snapshots that the session can ask to go back.
    pub fn max_prediction_window(&self) -> (r: usize)
        ensures
            r == self.spec_max_prediction_window(),
    {
        match self {
            Session::SyncTest { max_prediction, .. } => *max_prediction,
            Session::P2P { max_prediction, .. } => *max_prediction,
            Session::Spectator { .. } => 0,
        }
    }
}

} // verus!
