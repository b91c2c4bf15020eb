use vstd::prelude::*;

verus! {

/// Whether the fire hose is spraying. Once opened it is stuck open.
#[derive(Clone, Copy, PartialEq, Eq, Debug, Hash)]
pub enum PlayerFirehoseState {
    Closed,
    Open,
}

impl Default for PlayerFirehoseState {
    fn default() -> (s: PlayerFirehoseState)
        ensures
            s == PlayerFirehoseState::Closed,
    {
        PlayerFirehoseState::Closed
    }
}

/// The state change the fire hose input asks for: holding space opens the
/// hose; nothing else changes it.
pub fn next_firehose_state(space_pressed: bool) -> (next: Option<PlayerFirehoseState>)
    ensures
        next == (if space_pressed { Some(PlayerFirehoseState::Open) } else { None::<PlayerFirehoseState> }),
{
    if space_pressed {
        Some(PlayerFirehoseState::Open)
    } else {
        None
    }
}

/// The state in force after a frame's input.
pub open spec fn firehose_after(current: PlayerFirehoseState, space_pressed: bool) -> PlayerFirehoseState {
    if space_pressed {
        PlayerFirehoseState::Open
    } else {
        current
    }
}

/// An open hose stays open whatever the player presses, and pressing space
/// always leaves it open.
pub proof fn law_hose_stays_open(current: PlayerFirehoseState, space_pressed: bool)
    ensures
        current == PlayerFirehoseState::Open ==> firehose_after(current, space_pressed) == PlayerFirehoseState::Open,
        space_pressed ==> firehose_after(current, space_pressed) == PlayerFirehoseState::Open,
{
}

/// The state in force after a run of frames, starting from `start`, where
/// `presses[i]` says whether space was held in frame `i`.
pub open spec fn firehose_after_frames(start: PlayerFirehoseState, presses: Seq<bool>) -> PlayerFirehoseState
    decreases presses.len(),
{
    if presses.len() == 0 {
        start
    } else {
        firehose_after(firehose_after_frames(start, presses.drop_last()), presses.last())
    }
}

/// From the starting (closed) state, the hose stays closed, and so no water
/// is sprayed, until space is first held; from then on it is open.
pub proof fn law_hose_closed_until_space(presses: Seq<bool>)
    ensures
        (forall|i: int| 0 <= i < presses.len() ==> !#[trigger] presses[i]) ==> firehose_after_frames(
            PlayerFirehoseState::Closed,
            presses,
        ) == PlayerFirehoseState::Closed,
        (exists|i: int| 0 <= i < presses.len() && #[trigger] presses[i]) ==> firehose_after_frames(
            PlayerFirehoseState::Closed,
            presses,
        ) == PlayerFirehoseState::Open,
    decreases presses.len(),
{
    if presses.len() > 0 {
        let rest = presses.drop_last();
        law_hose_closed_until_space(rest);
        if forall|i: int| 0 <= i < presses.len() ==> !#[trigger] presses[i] {
            assert forall|i: int| 0 <= i < rest.len() implies !#[trigger] rest[i] by {
                assert(rest[i] == presses[i]);
            }
            assert(!presses[presses.len() - 1]);
        }
        if exists|i: int| 0 <= i < presses.len() && #[trigger] presses[i] {
            let i = choose|i: int| 0 <= i < presses.len() && #[trigger] presses[i];
            if i < rest.len() {
                assert(rest[i]);
            }
        }
    }
}

/// The unnormalised movement intent from the four direction inputs: up and
/// right count +1, down and left count -1 on their axis.
pub fn movement_intent(up: bool, down: bool, left: bool, right: bool) -> (intent: (i8, i8))
    ensures
        intent.0 == (if right { 1int } else { 0int }) - (if left { 1int } else { 0int }),
        intent.1 == (if up { 1int } else { 0int }) - (if down { 1int } else { 0int }),
{
    let mut x: i8 = 0;
    let mut y: i8 = 0;
    if up {
        y = y + 1;
    }
    if down {
        y = y - 1;
    }
    if left {
        x = x - 1;
    }
    if right {
        x = x + 1;
    }
    (x, y)
}

} // verus!
