//! The per-participant snapshot that is broadcast after every processed
//! event. It carries the roster and the phase, but in a drawing phase only
//! the word's reveal mask: the snapshot type has no field for the secret,
//! so no serialization of it can leak the word.

use crate::room::{
    guesses_view, users_view, Guess, GuessV, Machine, MachineV, Room, RoomV, User, UserV,
};
use vstd::prelude::*;

verus! {

/// Mathematical model of a [`PhaseSnapshot`].
#[verifier::ext_equal]
pub enum PhaseSnapV {
    Joining { user_count: nat },
    SelectingWord { artist: u128 },
    Drawing {
        artist: u128,
        letters: Seq<Option<char>>,
        seconds_left: int,
        frames: Seq<u8>,
        guesses: Seq<GuessV>,
    },
}

/// Mathematical model of a [`Snapshot`].
#[verifier::ext_equal]
pub struct SnapshotV {
    pub me: u128,
    pub users: Seq<(u128, UserV)>,
    pub phase: PhaseSnapV,
}

/// What a room looks like to the participant `me`: everything except the
/// secret word, of which only the reveal mask remains.
pub open spec fn redact(r: RoomV, me: u128) -> SnapshotV {
    SnapshotV {
        me,
        users: r.users,
        phase: match r.machine {
            MachineV::Joining { user_count } => PhaseSnapV::Joining { user_count },
            MachineV::SelectingWord { artist } => PhaseSnapV::SelectingWord { artist },
            MachineV::Drawing(d) => PhaseSnapV::Drawing {
                artist: d.artist,
                letters: d.word.letters,
                seconds_left: d.seconds_left,
                frames: d.frames,
                guesses: d.guesses,
            },
        },
    }
}

/// The phase as observers may see it. The drawing variant holds the reveal
/// mask in place of the word.
pub enum PhaseSnapshot {
    Joining { user_count: usize },
    SelectingWord { artist: u128 },
    Drawing {
        artist: u128,
        letters: Vec<Option<char>>,
        seconds_left: i32,
        frames: Vec<u8>,
        guesses: Vec<Guess>,
    },
}

impl View for PhaseSnapshot {
    type V = PhaseSnapV;

    open spec fn view(&self) -> PhaseSnapV {
        match self {
            PhaseSnapshot::Joining { user_count } => PhaseSnapV::Joining {
                user_count: *user_count as nat,
            },
            PhaseSnapshot::SelectingWord { artist } => PhaseSnapV::SelectingWord {
                artist: *artist,
            },
            PhaseSnapshot::Drawing { artist, letters, seconds_left, frames, guesses } => {
                PhaseSnapV::Drawing {
                    artist: *artist,
                    letters: letters@,
                    seconds_left: *seconds_left as int,
                    frames: frames@,
                    guesses: guesses_view(guesses@),
                }
            },
        }
    }
}

/// One outbound payload, addressed to the participant `me`.
pub struct Snapshot {
    pub me: u128,
    pub users: Vec<(u128, User)>,
    pub phase: PhaseSnapshot,
}

impl View for Snapshot {
    type V = SnapshotV;

    open spec fn view(&self) -> SnapshotV {
        SnapshotV { me: self.me, users: users_view(self.users@), phase: self.phase@ }
    }
}

/// A copy of the roster, in insertion order.
fn copy_users(src: &Vec<(u128, User)>) -> (out: Vec<(u128, User)>)
    ensures
        users_view(out@) == users_view(src@),
{
    let n = src.len();
    let mut out: Vec<(u128, User)> = Vec::new();
    let mut i: usize = 0;
    while i < n
        invariant
            i <= n,
            n == src@.len(),
            out@.len() == i,
            forall|j: int|
                0 <= j < i ==> out@[j].0 == src@[j].0 && out@[j].1@ == src@[j].1@,
        decreases n - i,
    {
        out.push((src[i].0, src[i].1.duplicate()));
        i += 1;
    }
    proof {
        assert(users_view(out@) =~= users_view(src@));
    }
    out
}

/// A copy of the accumulated strokes.
fn copy_frames(src: &Vec<u8>) -> (out: Vec<u8>)
    ensures
        out@ == src@,
{
    let n = src.len();
    let mut out: Vec<u8> = Vec::new();
    let mut i: usize = 0;
    while i < n
        invariant
            i <= n,
            n == src@.len(),
            out@ =~= src@.take(i as int),
        decreases n - i,
    {
        out.push(src[i]);
        i += 1;
    }
    proof {
        assert(src@.take(n as int) =~= src@);
    }
    out
}

/// A copy of the recorded guesses, in order.
fn copy_guesses(src: &Vec<Guess>) -> (out: Vec<Guess>)
    ensures
        guesses_view(out@) == guesses_view(src@),
{
    let n = src.len();
    let mut out: Vec<Guess> = Vec::new();
    let mut i: usize = 0;
    while i < n
        invariant
            i <= n,
            n == src@.len(),
            out@.len() == i,
            forall|j: int| 0 <= j < i ==> out@[j]@ == src@[j]@,
        decreases n - i,
    {
        let g = &src[i];
        out.push(Guess::new(g.val.as_str(), g.correct, g.user));
        i += 1;
    }
    proof {
        assert(guesses_view(out@) =~= guesses_view(src@));
    }
    out
}

/// Builds the payload broadcast to the participant `me` after an update:
/// exactly [`redact`] of the room's state. The secret stays server-side;
/// observers get the reveal mask alone.
pub fn snapshot_for(room: &Room, me: u128) -> (s: Snapshot)
    ensures
        s@ == redact(room@, me),
{
    let users = copy_users(room.users());
    let phase: PhaseSnapshot = match room.machine() {
        Machine::Joining { user_count } => PhaseSnapshot::Joining { user_count: *user_count },
        Machine::SelectingWord { artist } => PhaseSnapshot::SelectingWord { artist: *artist },
        Machine::Drawing(d) => PhaseSnapshot::Drawing {
            artist: d.artist,
            letters: d.word.letters(),
            seconds_left: d.seconds_left,
            frames: copy_frames(&d.frames),
            guesses: copy_guesses(&d.guesses),
        },
    };
    let s = Snapshot { me, users, phase };
    proof {
        assert(s@ =~~= redact(room@, me));
    }
    s
}

} // verus!
