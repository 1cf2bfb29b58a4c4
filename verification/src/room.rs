//! The game room: roster of participants, phase state machine, turn
//! rotation. Every inbound event is applied through [`Room::update`], whose
//! whole effect is pinned to the specification-level transition function
//! [`step`].

use crate::word::{all_hidden, Word, WordV};
use vstd::prelude::*;

verus! {

/// Seconds a turn lasts after the artist has picked a word.
pub const TURN_SECONDS: i32 = 180;

/// Mathematical model of a [`User`].
#[verifier::ext_equal]
pub struct UserV {
    pub name: Seq<char>,
    pub points: int,
}

/// Mathematical model of a [`Guess`].
#[verifier::ext_equal]
pub struct GuessV {
    pub val: Seq<char>,
    pub correct: bool,
    pub user: u128,
}

/// Mathematical model of a [`DrawingModel`].
#[verifier::ext_equal]
pub struct DrawingV {
    pub artist: u128,
    pub word: WordV,
    pub seconds_left: int,
    pub frames: Seq<u8>,
    pub guesses: Seq<GuessV>,
}

/// Mathematical model of a [`Machine`].
#[verifier::ext_equal]
pub enum MachineV {
    Joining { user_count: nat },
    SelectingWord { artist: u128 },
    Drawing(DrawingV),
}

/// Mathematical model of a [`Room`].
#[verifier::ext_equal]
pub struct RoomV {
    pub users: Seq<(u128, UserV)>,
    pub machine: MachineV,
    pub turn_offset: nat,
}

/// Mathematical model of a [`Msg`].
pub enum MsgV {
    GotJoin,
    GotLeave,
    SetName { id: u128, name: Seq<char> },
    WordSelected { word: Seq<char> },
    GotCanvasFrames { frames: Seq<u8> },
    Tick,
    GotGuess { guess: Seq<char> },
}

/// Whether some roster entry carries `id`.
pub open spec fn contains_id(users: Seq<(u128, UserV)>, id: u128) -> bool {
    exists|i: int| 0 <= i < users.len() && users[i].0 == id
}

/// Index of the first roster entry carrying `id` (meaningful only when
/// [`contains_id`] holds).
pub open spec fn first_idx(users: Seq<(u128, UserV)>, id: u128) -> int
    decreases users.len(),
{
    if users.len() == 0 {
        0
    } else if users[0].0 == id {
        0
    } else {
        1 + first_idx(users.drop_first(), id)
    }
}

/// The position that scanning the roster from the front finds is exactly
/// [`first_idx`].
pub proof fn lemma_first_idx_found(users: Seq<(u128, UserV)>, id: u128, i: int)
    requires
        0 <= i < users.len(),
        users[i].0 == id,
        forall|j: int| 0 <= j < i ==> users[j].0 != id,
    ensures
        first_idx(users, id) == i,
    decreases i,
{
    if i > 0 {
        lemma_first_idx_found(users.drop_first(), id, i - 1);
    }
}

/// The artist a phase is currently waiting on, if any.
pub open spec fn active_artist(m: MachineV) -> Option<u128> {
    match m {
        MachineV::Joining { .. } => None,
        MachineV::SelectingWord { artist } => Some(artist),
        MachineV::Drawing(d) => Some(d.artist),
    }
}

/// The turn cursor after one rotation over a roster of length `len`.
pub open spec fn next_offset(len: nat, offset: nat) -> nat {
    if len == 0 {
        0
    } else {
        ((offset % len) + 1) % len
    }
}

/// One turn rotation: advance the cursor one position through the roster in
/// insertion order, wrapping around, and hand the word choice to the
/// participant now under the cursor. An empty roster falls back to the
/// joining phase.
pub open spec fn rotated(pre: RoomV) -> RoomV {
    if pre.users.len() == 0 {
        RoomV { users: pre.users, machine: MachineV::Joining { user_count: 0 }, turn_offset: 0 }
    } else {
        let o = next_offset(pre.users.len(), pre.turn_offset);
        RoomV {
            users: pre.users,
            machine: MachineV::SelectingWord { artist: pre.users[o as int].0 },
            turn_offset: o,
        }
    }
}

/// Whether a tick that leaves `seconds_left` seconds on the clock discloses
/// one more letter of `word`: one letter after each full ten seconds of
/// drawing, and never once seven tenths of the word are out.
pub open spec fn tick_reveals(word: WordV, seconds_left: int) -> bool {
    seconds_left % 10 == 0 && 10 * word.revealed_count() < 7 * word.secret.len()
}

/// The turn record as the drawing phase starts.
pub open spec fn fresh_drawing(word: Seq<char>, artist: u128) -> DrawingV {
    DrawingV {
        artist,
        word: WordV { secret: word, letters: all_hidden(word.len()) },
        seconds_left: TURN_SECONDS as int,
        frames: Seq::empty(),
        guesses: Seq::empty(),
    }
}

/// The room's transition function: the entire effect of one inbound event,
/// applied by the single event-serializing owner of the room. Events that
/// are inapplicable to the current phase, reference an absent participant,
/// or come from the wrong sender leave the room unchanged. Guesses are
/// recorded whoever sends them, the artist included: no authorship guard
/// is applied.
pub open spec fn step(pre: RoomV, sender: u128, msg: MsgV) -> RoomV {
    match msg {
        MsgV::GotJoin => {
            if contains_id(pre.users, sender) {
                pre
            } else {
                RoomV {
                    users: pre.users.push((sender, UserV { name: Seq::empty(), points: 0 })),
                    machine: pre.machine,
                    turn_offset: pre.turn_offset,
                }
            }
        },
        MsgV::SetName { id, name } => {
            if !contains_id(pre.users, id) {
                pre
            } else {
                let i = first_idx(pre.users, id);
                RoomV {
                    users: pre.users.update(i, (id, UserV { name, points: pre.users[i].1.points })),
                    machine: if pre.machine is Joining {
                        MachineV::SelectingWord { artist: id }
                    } else {
                        pre.machine
                    },
                    turn_offset: pre.turn_offset,
                }
            }
        },
        MsgV::GotLeave => {
            if !contains_id(pre.users, sender) {
                pre
            } else {
                let removed = RoomV {
                    users: pre.users.remove(first_idx(pre.users, sender)),
                    machine: pre.machine,
                    turn_offset: pre.turn_offset,
                };
                if active_artist(pre.machine) == Some(sender) {
                    rotated(removed)
                } else {
                    removed
                }
            }
        },
        MsgV::WordSelected { word } => {
            if (pre.machine matches MachineV::SelectingWord { artist } && artist == sender)
                && word.len() > 0 {
                RoomV {
                    users: pre.users,
                    machine: MachineV::Drawing(fresh_drawing(word, sender)),
                    turn_offset: pre.turn_offset,
                }
            } else {
                pre
            }
        },
        MsgV::Tick => {
            match pre.machine {
                MachineV::Drawing(d) => {
                    if d.seconds_left > 0 {
                        let s = d.seconds_left - 1;
                        let w = if tick_reveals(d.word, s) {
                            d.word.reveal_spec(1)
                        } else {
                            d.word
                        };
                        RoomV {
                            users: pre.users,
                            machine: MachineV::Drawing(
                                DrawingV { seconds_left: s, word: w, ..d },
                            ),
                            turn_offset: pre.turn_offset,
                        }
                    } else {
                        rotated(pre)
                    }
                },
                _ => pre,
            }
        },
        MsgV::GotCanvasFrames { frames } => {
            match pre.machine {
                MachineV::Drawing(d) => RoomV {
                    users: pre.users,
                    machine: MachineV::Drawing(DrawingV { frames: d.frames + frames, ..d }),
                    turn_offset: pre.turn_offset,
                },
                _ => pre,
            }
        },
        MsgV::GotGuess { guess } => {
            match pre.machine {
                MachineV::Drawing(d) => RoomV {
                    users: pre.users,
                    machine: MachineV::Drawing(
                        DrawingV {
                            guesses: d.guesses.push(
                                GuessV { val: guess, correct: guess == d.word.secret, user: sender },
                            ),
                            ..d
                        },
                    ),
                    turn_offset: pre.turn_offset,
                },
                _ => pre,
            }
        },
    }
}

/// A connected participant as the roster records them.
pub struct User {
    name: String,
    points: i32,
}

impl View for User {
    type V = UserV;

    closed spec fn view(&self) -> UserV {
        UserV { name: self.name@, points: self.points as int }
    }
}

impl User {
    /// A participant joins with a chosen name and no points yet.
    pub fn new(name: &str) -> (u: User)
        ensures
            u@ == (UserV { name: name@, points: 0 }),
    {
        User { name: name.to_owned(), points: 0 }
    }

    /// A copy of this participant's record.
    pub fn duplicate(&self) -> (u: User)
        ensures
            u@ == self@,
    {
        User { name: self.name.clone(), points: self.points }
    }

    /// The participant's display name.
    pub fn name(&self) -> (r: &String)
        ensures
            r@ == self@.name,
    {
        &self.name
    }

    /// The participant's score so far.
    pub fn points(&self) -> (r: i32)
        ensures
            r as int == self@.points,
    {
        self.points
    }
}

/// One recorded guess: its text, whether it hit the secret, and who sent it.
pub struct Guess {
    pub val: String,
    pub correct: bool,
    pub user: u128,
}

impl View for Guess {
    type V = GuessV;

    open spec fn view(&self) -> GuessV {
        GuessV { val: self.val@, correct: self.correct, user: self.user }
    }
}

impl Guess {
    pub fn new(val: &str, correct: bool, user: u128) -> (g: Guess)
        ensures
            g@ == (GuessV { val: val@, correct, user }),
    {
        Guess { val: val.to_owned(), correct, user }
    }
}

/// The roster of guesses as their models.
pub open spec fn guesses_view(guesses: Seq<Guess>) -> Seq<GuessV> {
    Seq::new(guesses.len(), |i: int| guesses[i]@)
}

/// The per-turn record: who draws, the word with its reveal mask, the
/// countdown, the strokes drawn so far and the guesses made so far.
pub struct DrawingModel {
    pub artist: u128,
    pub word: Word,
    pub seconds_left: i32,
    pub frames: Vec<u8>,
    pub guesses: Vec<Guess>,
}

impl View for DrawingModel {
    type V = DrawingV;

    open spec fn view(&self) -> DrawingV {
        DrawingV {
            artist: self.artist,
            word: self.word@,
            seconds_left: self.seconds_left as int,
            frames: self.frames@,
            guesses: guesses_view(self.guesses@),
        }
    }
}

impl DrawingModel {
    /// Starts a turn: full clock, fresh all-hidden word, no strokes, no
    /// guesses. Empty words never reach this constructor; the room guards
    /// the word-selection event.
    pub fn new(word: &str, artist: u128) -> (d: DrawingModel)
        requires
            word@.len() > 0,
        ensures
            d@ == fresh_drawing(word@, artist),
    {
        let w = match Word::new(word) {
            Ok(w) => w,
            Err(_) => unreached(),
        };
        let d = DrawingModel {
            seconds_left: TURN_SECONDS,
            artist,
            word: w,
            frames: Vec::new(),
            guesses: Vec::new(),
        };
        proof {
            assert(guesses_view(d.guesses@) =~= Seq::<GuessV>::empty());
            assert(d@ =~= fresh_drawing(word@, artist));
        }
        d
    }

    /// Records a guess, marking it correct exactly when it equals the
    /// secret. The word, its mask, the clock and the strokes are untouched.
    pub fn guess(&mut self, val: &str, user: u128)
        ensures
            final(self)@ == (DrawingV {
                guesses: old(self)@.guesses.push(
                    GuessV {
                        val: val@,
                        correct: val@ == old(self)@.word.secret,
                        user,
                    },
                ),
                ..old(self)@
            }),
    {
        let correct = self.word.matches(val);
        let g = Guess::new(val, correct, user);
        self.guesses.push(g);
        proof {
            assert(guesses_view(self.guesses@) =~= guesses_view(old(self).guesses@).push(
                GuessV { val: val@, correct: val@ == old(self)@.word.secret, user },
            ));
            assert(self@ =~~= (DrawingV {
                guesses: old(self)@.guesses.push(
                    GuessV { val: val@, correct: val@ == old(self)@.word.secret, user },
                ),
                ..old(self)@
            }));
        }
    }
}

/// The room's phase: gathering participants, waiting for the artist to pick
/// a word, or a running turn.
pub enum Machine {
    Joining { user_count: usize },
    SelectingWord { artist: u128 },
    Drawing(DrawingModel),
}

impl View for Machine {
    type V = MachineV;

    open spec fn view(&self) -> MachineV {
        match self {
            Machine::Joining { user_count } => MachineV::Joining { user_count: *user_count as nat },
            Machine::SelectingWord { artist } => MachineV::SelectingWord { artist: *artist },
            Machine::Drawing(d) => MachineV::Drawing(d@),
        }
    }
}

/// An inbound event, decoded by the connection layer and applied in one
/// global total order by the room's single owner.
pub enum Msg {
    GotJoin,
    GotLeave,
    SetName { id: u128, name: String },
    WordSelected { word: String },
    GotCanvasFrames { frames: Vec<u8> },
    Tick,
    GotGuess { guess: String },
}

impl View for Msg {
    type V = MsgV;

    open spec fn view(&self) -> MsgV {
        match self {
            Msg::GotJoin => MsgV::GotJoin,
            Msg::GotLeave => MsgV::GotLeave,
            Msg::SetName { id, name } => MsgV::SetName { id: *id, name: name@ },
            Msg::WordSelected { word } => MsgV::WordSelected { word: word@ },
            Msg::GotCanvasFrames { frames } => MsgV::GotCanvasFrames { frames: frames@ },
            Msg::Tick => MsgV::Tick,
            Msg::GotGuess { guess } => MsgV::GotGuess { guess: guess@ },
        }
    }
}

/// The roster as a sequence of participant models, in insertion order.
pub open spec fn users_view(users: Seq<(u128, User)>) -> Seq<(u128, UserV)> {
    Seq::new(users.len(), |i: int| (users[i].0, users[i].1@))
}

proof fn lemma_users_view_push(users: Seq<(u128, User)>, e: (u128, User))
    ensures
        users_view(users.push(e)) =~= users_view(users).push((e.0, e.1@)),
{
}

proof fn lemma_users_view_update(users: Seq<(u128, User)>, i: int, e: (u128, User))
    requires
        0 <= i < users.len(),
    ensures
        users_view(users.update(i, e)) =~= users_view(users).update(i, (e.0, e.1@)),
{
}

proof fn lemma_users_view_remove(users: Seq<(u128, User)>, i: int)
    requires
        0 <= i < users.len(),
    ensures
        users_view(users.remove(i)) =~= users_view(users).remove(i),
{
}

/// One shared game room. All mutation passes through [`Room::update`] on
/// the room's single owner; observers only ever see snapshots.
pub struct Room {
    users: Vec<(u128, User)>,
    machine: Machine,
    turn_offset: usize,
}

impl View for Room {
    type V = RoomV;

    closed spec fn view(&self) -> RoomV {
        RoomV {
            users: users_view(self.users@),
            machine: self.machine@,
            turn_offset: self.turn_offset as nat,
        }
    }
}

impl RoomV {
    /// The state of a freshly opened room.
    pub open spec fn init() -> RoomV {
        RoomV {
            users: Seq::empty(),
            machine: MachineV::Joining { user_count: 0 },
            turn_offset: 0,
        }
    }
}

/// Index of the first roster entry carrying `id`, scanning insertion order.
fn find_index(users: &Vec<(u128, User)>, id: u128) -> (r: Option<usize>)
    ensures
        match r {
            Some(i) => i < users@.len() && users_view(users@)[i as int].0 == id && first_idx(
                users_view(users@),
                id,
            ) == i as int && contains_id(users_view(users@), id),
            None => !contains_id(users_view(users@), id),
        },
{
    let n = users.len();
    let mut i: usize = 0;
    while i < n
        invariant
            i <= n,
            n == users@.len(),
            forall|j: int| 0 <= j < i ==> users_view(users@)[j].0 != id,
        decreases n - i,
    {
        if users[i].0 == id {
            proof {
                lemma_first_idx_found(users_view(users@), id, i as int);
            }
            return Some(i);
        }
        i += 1;
    }
    None
}

impl Room {
    /// Opens an empty room in the joining phase.
    pub fn new() -> (r: Room)
        ensures
            r@ == RoomV::init(),
    {
        let r = Room {
            users: Vec::new(),
            machine: Machine::Joining { user_count: 0 },
            turn_offset: 0,
        };
        proof {
            assert(users_view(r.users@) =~= Seq::<(u128, UserV)>::empty());
            assert(r@ =~= RoomV::init());
        }
        r
    }

    /// One turn rotation, exactly [`rotated`] on the model.
    fn rotate_turn(&mut self)
        ensures
            final(self)@ == rotated(old(self)@),
    {
        let n = self.users.len();
        if n == 0 {
            self.turn_offset = 0;
            self.machine = Machine::Joining { user_count: 0 };
        } else {
            let o = (self.turn_offset % n + 1) % n;
            self.turn_offset = o;
            let artist = self.users[o].0;
            self.machine = Machine::SelectingWord { artist };
        }
        proof {
            assert(self@ =~~= rotated(old(self)@));
        }
    }

    fn apply_join(&mut self, user: u128)
        ensures
            final(self)@ == step(old(self)@, user, MsgV::GotJoin),
    {
        match find_index(&self.users, user) {
            Some(_) => {},
            None => {
                let u = User::new("");
                proof {
                    reveal_strlit("");
                    assert(""@ =~= Seq::<char>::empty());
                    lemma_users_view_push(self.users@, (user, u));
                }
                self.users.push((user, u));
                proof {
                    assert(self@ =~~= step(old(self)@, user, MsgV::GotJoin));
                }
            },
        }
    }

    fn apply_set_name(&mut self, user: u128, id: u128, name: String)
        ensures
            final(self)@ == step(old(self)@, user, MsgV::SetName { id, name: name@ }),
    {
        let ghost nv = name@;
        match find_index(&self.users, id) {
            None => {},
            Some(i) => {
                let points = self.users[i].1.points;
                let entry = (id, User { name, points });
                proof {
                    lemma_users_view_update(self.users@, i as int, entry);
                }
                self.users[i] = entry;
                let joining = matches!(self.machine, Machine::Joining { .. });
                if joining {
                    self.machine = Machine::SelectingWord { artist: id };
                }
                proof {
                    assert(self@ =~~= step(old(self)@, user, MsgV::SetName { id, name: nv }));
                }
            },
        }
    }

    fn apply_leave(&mut self, user: u128)
        ensures
            final(self)@ == step(old(self)@, user, MsgV::GotLeave),
    {
        match find_index(&self.users, user) {
            None => {},
            Some(i) => {
                let was_artist = match &self.machine {
                    Machine::Joining { .. } => false,
                    Machine::SelectingWord { artist } => *artist == user,
                    Machine::Drawing(d) => d.artist == user,
                };
                proof {
                    lemma_users_view_remove(self.users@, i as int);
                }
                self.users.remove(i);
                if was_artist {
                    self.rotate_turn();
                }
                proof {
                    assert(self@ =~~= step(old(self)@, user, MsgV::GotLeave));
                }
            },
        }
    }

    fn apply_word_selected(&mut self, user: u128, word: String)
        ensures
            final(self)@ == step(old(self)@, user, MsgV::WordSelected { word: word@ }),
    {
        let applies = match &self.machine {
            Machine::SelectingWord { artist } => *artist == user,
            _ => false,
        };
        if applies && !word.as_str().is_empty() {
            let d = DrawingModel::new(word.as_str(), user);
            self.machine = Machine::Drawing(d);
        }
        proof {
            assert(self@ =~~= step(old(self)@, user, MsgV::WordSelected { word: word@ }));
        }
    }

    fn apply_tick(&mut self, user: u128)
        ensures
            final(self)@ == step(old(self)@, user, MsgV::Tick),
    {
        let expired: bool = match &mut self.machine {
            Machine::Drawing(d) => {
                if d.seconds_left > 0 {
                    d.seconds_left = d.seconds_left - 1;
                    let s = d.seconds_left;
                    if s % 10 == 0 {
                        let revealed = d.word.revealed_len();
                        let total = d.word.secret_len();
                        if 10 * (revealed as u128) < 7 * (total as u128) {
                            d.word.disclose(1);
                        }
                    }
                    false
                } else {
                    true
                }
            },
            _ => false,
        };
        if expired {
            self.rotate_turn();
        }
        proof {
            assert(self@ =~~= step(old(self)@, user, MsgV::Tick));
        }
    }

    fn apply_frames(&mut self, user: u128, frames: Vec<u8>)
        ensures
            final(self)@ == step(old(self)@, user, MsgV::GotCanvasFrames { frames: frames@ }),
    {
        let ghost fv = frames@;
        let mut f = frames;
        match &mut self.machine {
            Machine::Drawing(d) => {
                d.frames.append(&mut f);
            },
            _ => {},
        }
        proof {
            assert(self@ =~~= step(old(self)@, user, MsgV::GotCanvasFrames { frames: fv }));
        }
    }

    fn apply_guess(&mut self, user: u128, guess: String)
        ensures
            final(self)@ == step(old(self)@, user, MsgV::GotGuess { guess: guess@ }),
    {
        match &mut self.machine {
            Machine::Drawing(d) => {
                d.guess(guess.as_str(), user);
            },
            _ => {},
        }
        proof {
            assert(self@ =~~= step(old(self)@, user, MsgV::GotGuess { guess: guess@ }));
        }
    }

    /// The roster, in insertion order.
    pub fn users(&self) -> (r: &Vec<(u128, User)>)
        ensures
            users_view(r@) == self@.users,
    {
        &self.users
    }

    /// The current phase.
    pub fn machine(&self) -> (r: &Machine)
        ensures
            r@ == self@.machine,
    {
        &self.machine
    }

    /// Applies one inbound event from `user`: the new state is exactly
    /// [`step`] of the old one. Inapplicable events leave the room as it
    /// was; no event makes the room fail.
    pub fn update(&mut self, user: u128, msg: Msg)
        ensures
            final(self)@ == step(old(self)@, user, msg@),
    {
        match msg {
            Msg::GotJoin => self.apply_join(user),
            Msg::GotLeave => self.apply_leave(user),
            Msg::SetName { id, name } => self.apply_set_name(user, id, name),
            Msg::WordSelected { word } => self.apply_word_selected(user, word),
            Msg::GotCanvasFrames { frames } => self.apply_frames(user, frames),
            Msg::Tick => self.apply_tick(user),
            Msg::GotGuess { guess } => self.apply_guess(user, guess),
        }
    }
}

} // verus!
