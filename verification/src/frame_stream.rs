//! The decisions behind streaming a game's frames to a board viewer over a
//! web socket: which stored turns to send, which notifications to follow,
//! and when to stop. The socket, the database and the broadcast channel are
//! driven by the caller, who hands each event in and carries out the action
//! that comes back.

use vstd::prelude::*;

verus! {

/// Something that happened on the socket or the game's notification channel.
#[derive(Debug, Clone, Copy, PartialEq, Eq, Structural)]
pub enum StreamEvent {
    /// The viewer closed the socket, or it ended.
    ClientClosed,
    /// The viewer sent a ping.
    ClientPing,
    /// The viewer sent something else.
    ClientOther,
    /// Reading from the socket failed.
    ClientError,
    /// A new turn was stored.
    TurnStored(i32),
    /// The stream fell behind the notification channel.
    Lagged,
    /// The notification channel was closed.
    ChannelClosed,
}

/// What to do next.
#[derive(Debug, Clone, Copy, PartialEq, Eq, Structural)]
pub enum StreamAction {
    /// Close the stream.
    Stop,
    /// Answer the ping with a pong carrying its data.
    Pong,
    /// Nothing to do; wait for the next event.
    Wait,
    /// Load the stored turns from this turn number on and send the new ones,
    /// then send the end message and stop if the game has finished.
    SendFrom(i32),
    /// Tell the viewer to reconnect, then stop.
    ReportLag,
    /// Send the end message if the game has finished, then stop.
    EndIfFinished,
}

/// What the stream does on an event, given the last turn it has sent.
pub open spec fn action_for(last_sent: i32, ev: StreamEvent) -> StreamAction {
    match ev {
        StreamEvent::ClientClosed => StreamAction::Stop,
        StreamEvent::ClientError => StreamAction::Stop,
        StreamEvent::ClientPing => StreamAction::Pong,
        StreamEvent::ClientOther => StreamAction::Wait,
        StreamEvent::TurnStored(t) => if t <= last_sent {
            StreamAction::Wait
        } else {
            StreamAction::SendFrom(t)
        },
        StreamEvent::Lagged => StreamAction::ReportLag,
        StreamEvent::ChannelClosed => StreamAction::EndIfFinished,
    }
}

/// Decides what to do on an event: notifications of turns already sent are
/// skipped, newer ones are loaded and sent.
pub fn next_action(last_sent: i32, ev: StreamEvent) -> (r: StreamAction)
    ensures
        r == action_for(last_sent, ev),
{
    match ev {
        StreamEvent::ClientClosed => StreamAction::Stop,
        StreamEvent::ClientError => StreamAction::Stop,
        StreamEvent::ClientPing => StreamAction::Pong,
        StreamEvent::ClientOther => StreamAction::Wait,
        StreamEvent::TurnStored(t) => {
            if t <= last_sent {
                StreamAction::Wait
            } else {
                StreamAction::SendFrom(t)
            }
        },
        StreamEvent::Lagged => StreamAction::ReportLag,
        StreamEvent::ChannelClosed => StreamAction::EndIfFinished,
    }
}

/// A stored turn as the stream sees it: its number and whether it has a
/// frame.
#[derive(Debug, Clone, Copy, PartialEq, Eq, Structural)]
pub struct StoredTurn {
    pub turn_number: i32,
    pub has_frame: bool,
}

/// The indices of the turns to send, in order, and the last turn sent after
/// them. On the first replay every turn with a frame is sent; afterwards
/// turns at or before the last one sent are skipped.
pub open spec fn frames_to_send(turns: Seq<StoredTurn>, last_sent: i32, replay: bool) -> (
    Seq<int>,
    i32,
)
    decreases turns.len(),
{
    if turns.len() == 0 {
        (Seq::empty(), last_sent)
    } else {
        let (idx, last) = frames_to_send(turns.drop_last(), last_sent, replay);
        let t = turns.last();
        if t.has_frame && (replay || t.turn_number > last) {
            (idx.push(turns.len() - 1), t.turn_number)
        } else {
            (idx, last)
        }
    }
}

/// The turns to send and the new last sent turn.
pub fn select_frames(turns: &[StoredTurn], last_sent: i32, replay: bool) -> (r: (Vec<usize>, i32))
    ensures
        r.0@.map_values(|i: usize| i as int) == frames_to_send(turns@, last_sent, replay).0,
        r.1 == frames_to_send(turns@, last_sent, replay).1,
{
    let n = turns.len();
    let mut idx: Vec<usize> = Vec::new();
    let mut last = last_sent;
    let mut i: usize = 0;
    while i < n
        invariant
            n == turns@.len(),
            i <= n,
            idx@.map_values(|k: usize| k as int) == frames_to_send(
                turns@.subrange(0, i as int),
                last_sent,
                replay,
            ).0,
            last == frames_to_send(turns@.subrange(0, i as int), last_sent, replay).1,
        decreases n - i,
    {
        let ghost t = turns@.subrange(0, i + 1);
        assert(t.drop_last() =~= turns@.subrange(0, i as int));
        assert(t.last() == turns@[i as int]);
        let ghost before = idx@;
        let turn = turns[i];
        if turn.has_frame && (replay || turn.turn_number > last) {
            idx.push(i);
            last = turn.turn_number;
            assert(idx@.map_values(|k: usize| k as int) =~= before.map_values(|k: usize| k as int).push(
                i as int,
            ));
        }
        i = i + 1;
    }
    assert(turns@.subrange(0, n as int) =~= turns@);
    (idx, last)
}

/// After the first replay, the turns sent come in strictly increasing
/// order, all after the last turn sent before, and the last turn sent never
/// goes back.
pub proof fn lemma_live_frames_increase(turns: Seq<StoredTurn>, last_sent: i32)
    ensures
        ({
            let (idx, last) = frames_to_send(turns, last_sent, false);
            &&& last >= last_sent
            &&& forall|a: int|
                0 <= a < idx.len() ==> 0 <= #[trigger] idx[a] < turns.len() && turns[idx[a]].has_frame
                    && turns[idx[a]].turn_number > last_sent
            &&& forall|a: int, b: int|
                0 <= a < b < idx.len() ==> turns[#[trigger] idx[a]].turn_number < turns[#[trigger] idx[b]].turn_number
            &&& idx.len() > 0 ==> last == turns[idx.last()].turn_number
        }),
    decreases turns.len(),
{
    if turns.len() > 0 {
        let p = turns.drop_last();
        lemma_live_frames_increase(p, last_sent);
        let (idx0, last0) = frames_to_send(p, last_sent, false);
        assert forall|a: int| 0 <= a < idx0.len() implies turns[#[trigger] idx0[a]] == p[idx0[a]] by {
        }
    }
}

/// Why a stream ends before any frame is sent.
#[derive(Debug, Clone, Copy, PartialEq, Eq, Structural)]
pub enum OpeningError {
    /// No game has the requested id.
    GameNotFound,
    /// Looking the game up failed.
    GameLookupFailed,
    /// Loading the stored turns failed.
    FramesFailed,
}

/// The error message the viewer is sent when the stream cannot open.
pub fn opening_error_message(e: OpeningError) -> (r: &'static str)
    ensures
        r@ == match e {
            OpeningError::GameNotFound => "Game not found"@,
            OpeningError::GameLookupFailed => "Internal server error"@,
            OpeningError::FramesFailed => "Failed to fetch game frames"@,
        },
{
    match e {
        OpeningError::GameNotFound => "Game not found",
        OpeningError::GameLookupFailed => "Internal server error",
        OpeningError::FramesFailed => "Failed to fetch game frames",
    }
}

/// What follows the replay of the stored frames: a finished game gets its
/// end message and the stream stops; a running one waits for new turns.
pub fn after_replay(finished: bool) -> (r: StreamAction)
    ensures
        r == if finished {
            StreamAction::EndIfFinished
        } else {
            StreamAction::Wait
        },
{
    if finished {
        StreamAction::EndIfFinished
    } else {
        StreamAction::Wait
    }
}

} // verus!
