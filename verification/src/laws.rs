//! The laws the session engine obeys, each proved against the
//! specification-level models in `word`, `room` and `snapshot`.

use crate::room::{
    active_artist, contains_id, first_idx, next_offset, rotated, step, GuessV, MachineV, MsgV,
    RoomV, UserV,
};
use crate::snapshot::redact;
use crate::word::{count_revealed, lemma_count_revealed_bounds, lemma_count_revealed_take_succ, WordV};
use vstd::arithmetic::div_mod::{
    lemma_add_mod_noop_right, lemma_mod_division_less_than_divisor, lemma_mod_equivalence,
    lemma_small_mod,
};
use vstd::prelude::*;

verus! {

// ---------------------------------------------------------------------------
// Disclosing letters of the secret word
// ---------------------------------------------------------------------------
/// Disclosing letters keeps the mask well-formed: the mask stays as long as
/// the secret, and every revealed position carries the secret's letter at
/// that position.
pub proof fn lemma_disclose_preserves_wf(w: WordV, count: int)
    requires
        w.wf(),
    ensures
        w.reveal_spec(count).wf(),
{
    let post = w.reveal_spec(count);
    assert forall|i: int| 0 <= i < post.letters.len() && post.letters[i] is Some implies post.letters[i]
        == Some(post.secret[i]) by {
        assert(post.letters[i] == w.reveal_at(count, i));
    }
}

/// Disclosing never takes a letter back: a position revealed before the
/// call is revealed after it, with the same letter.
pub proof fn lemma_disclose_monotone(w: WordV, count: int)
    ensures
        forall|i: int|
            0 <= i < w.letters.len() && w.letters[i] is Some ==> w.reveal_spec(count).letters[i]
                == w.letters[i],
{
}

proof fn lemma_disclose_count_prefix(w: WordV, count: int, i: int)
    requires
        0 <= i <= w.letters.len(),
    ensures
        count_revealed(w.reveal_spec(count).letters.take(i)) == count_revealed(w.letters.take(i))
            + vstd::math::min(
            i - count_revealed(w.letters.take(i)),
            vstd::math::max(count, 0),
        ),
    decreases i,
{
    if i == 0 {
        assert(w.reveal_spec(count).letters.take(0) =~= Seq::<Option<char>>::empty());
        assert(w.letters.take(0) =~= Seq::<Option<char>>::empty());
    } else {
        lemma_disclose_count_prefix(w, count, i - 1);
        lemma_count_revealed_take_succ(w.letters, i - 1);
        lemma_count_revealed_take_succ(w.reveal_spec(count).letters, i - 1);
        lemma_count_revealed_bounds(w.letters.take(i - 1));
        assert(w.reveal_spec(count).letters[i - 1] == w.reveal_at(count, i - 1));
    }
}

/// One disclosure call reveals exactly as many positions as requested,
/// stopping at the word's length: a call asking for `count` letters brings
/// the revealed total to `min(revealed + max(count, 0), len)`.
pub proof fn lemma_disclose_count(w: WordV, count: int)
    ensures
        w.reveal_spec(count).revealed_count() == vstd::math::min(
            w.revealed_count() + vstd::math::max(count, 0),
            w.letters.len() as int,
        ),
        w.reveal_spec(count).letters.len() == w.letters.len(),
{
    let n = w.letters.len() as int;
    lemma_disclose_count_prefix(w, count, n);
    assert(w.letters.take(n) =~= w.letters);
    assert(w.reveal_spec(count).letters.take(n) =~= w.reveal_spec(count).letters);
    lemma_count_revealed_bounds(w.letters);
}

/// A word after a whole sequence of disclosure calls, first call first.
pub open spec fn disclose_all(w: WordV, counts: Seq<int>) -> WordV
    decreases counts.len(),
{
    if counts.len() == 0 {
        w
    } else {
        disclose_all(w.reveal_spec(counts.first()), counts.drop_first())
    }
}

/// The sum of the requested counts, a non-positive request counting as
/// zero.
pub open spec fn sum_pos(counts: Seq<int>) -> int
    decreases counts.len(),
{
    if counts.len() == 0 {
        0
    } else {
        vstd::math::max(counts.first(), 0) + sum_pos(counts.drop_first())
    }
}

proof fn lemma_sum_pos_nonneg(counts: Seq<int>)
    ensures
        sum_pos(counts) >= 0,
    decreases counts.len(),
{
    if counts.len() > 0 {
        lemma_sum_pos_nonneg(counts.drop_first());
    }
}

/// For every sequence of disclosure calls, the number of revealed
/// positions afterwards is `min(sum of the requested counts, length)`,
/// counting from the starting mask; in particular it never exceeds the
/// word's length and never decreases.
pub proof fn lemma_disclose_all_count(w: WordV, counts: Seq<int>)
    ensures
        disclose_all(w, counts).letters.len() == w.letters.len(),
        disclose_all(w, counts).revealed_count() == vstd::math::min(
            w.revealed_count() + sum_pos(counts),
            w.letters.len() as int,
        ),
        disclose_all(w, counts).revealed_count() >= w.revealed_count(),
    decreases counts.len(),
{
    lemma_count_revealed_bounds(w.letters);
    if counts.len() == 0 {
    } else {
        lemma_disclose_count(w, counts.first());
        lemma_disclose_all_count(w.reveal_spec(counts.first()), counts.drop_first());
        lemma_sum_pos_nonneg(counts.drop_first());
    }
}

// ---------------------------------------------------------------------------
// The roster and the room invariant
// ---------------------------------------------------------------------------
/// No two roster entries carry the same participant identifier.
pub open spec fn ids_distinct(users: Seq<(u128, UserV)>) -> bool {
    forall|i: int, j: int| 0 <= i < j < users.len() ==> users[i].0 != users[j].0
}

/// What always holds of a reachable room: identifiers are unique, and the
/// participant a phase is waiting on is present in the roster.
pub open spec fn room_inv(r: RoomV) -> bool {
    &&& ids_distinct(r.users)
    &&& (match r.machine {
        MachineV::Joining { .. } => true,
        MachineV::SelectingWord { artist } => contains_id(r.users, artist),
        MachineV::Drawing(d) => contains_id(r.users, d.artist),
    })
}

proof fn lemma_push_props(users: Seq<(u128, UserV)>, e: (u128, UserV))
    requires
        !contains_id(users, e.0),
        ids_distinct(users),
    ensures
        ids_distinct(users.push(e)),
        forall|id: u128| #[trigger]
            contains_id(users.push(e), id) <==> contains_id(users, id) || e.0 == id,
{
    let post = users.push(e);
    assert forall|i: int, j: int| 0 <= i < j < post.len() implies post[i].0 != post[j].0 by {
        if j < users.len() {
        } else {
            assert(post[i].0 == users[i].0);
            if post[i].0 == e.0 {
                assert(contains_id(users, e.0));
            }
        }
    }
    assert forall|id: u128| #[trigger] contains_id(post, id) <==> contains_id(users, id) || e.0
        == id by {
        if contains_id(post, id) {
            let w = choose|w: int| 0 <= w < post.len() && post[w].0 == id;
            if w < users.len() {
                assert(users[w].0 == id);
            }
        }
        if contains_id(users, id) {
            let w = choose|w: int| 0 <= w < users.len() && users[w].0 == id;
            assert(post[w].0 == id);
        }
        if e.0 == id {
            assert(post[users.len() as int].0 == id);
        }
    }
}

proof fn lemma_update_props(users: Seq<(u128, UserV)>, i: int, e: (u128, UserV))
    requires
        0 <= i < users.len(),
        e.0 == users[i].0,
    ensures
        ids_distinct(users) ==> ids_distinct(users.update(i, e)),
        forall|id: u128| #[trigger]
            contains_id(users.update(i, e), id) <==> contains_id(users, id),
{
    let post = users.update(i, e);
    assert(forall|j: int| 0 <= j < users.len() ==> post[j].0 == users[j].0);
    assert forall|id: u128| #[trigger] contains_id(post, id) <==> contains_id(users, id) by {
        if contains_id(post, id) {
            let w = choose|w: int| 0 <= w < post.len() && post[w].0 == id;
            assert(users[w].0 == id);
        }
        if contains_id(users, id) {
            let w = choose|w: int| 0 <= w < users.len() && users[w].0 == id;
            assert(post[w].0 == id);
        }
    }
}

proof fn lemma_remove_props(users: Seq<(u128, UserV)>, i: int)
    requires
        0 <= i < users.len(),
    ensures
        ids_distinct(users) ==> ids_distinct(users.remove(i)),
        forall|id: u128|
            contains_id(users, id) && users[i].0 != id ==> #[trigger] contains_id(
                users.remove(i),
                id,
            ),
        ids_distinct(users) ==> !contains_id(users.remove(i), users[i].0),
{
    let post = users.remove(i);
    assert(forall|j: int| 0 <= j < i ==> post[j] == users[j]);
    assert(forall|j: int| i <= j < post.len() ==> post[j] == users[j + 1]);
    if ids_distinct(users) {
        assert forall|j1: int, j2: int| 0 <= j1 < j2 < post.len() implies post[j1].0
            != post[j2].0 by {
            if j1 < i {
                if j2 < i {
                } else {
                    assert(post[j2] == users[j2 + 1]);
                }
            } else {
                assert(post[j1] == users[j1 + 1]);
                assert(post[j2] == users[j2 + 1]);
            }
        }
        if contains_id(post, users[i].0) {
            let w = choose|w: int| 0 <= w < post.len() && post[w].0 == users[i].0;
            if w < i {
                assert(users[w].0 == users[i].0);
            } else {
                assert(users[w + 1].0 == users[i].0);
            }
            assert(false);
        }
    }
    assert forall|id: u128|
        contains_id(users, id) && users[i].0 != id implies #[trigger] contains_id(
        post,
        id,
    ) by {
        let w = choose|w: int| 0 <= w < users.len() && users[w].0 == id;
        if w < i {
            assert(post[w].0 == id);
        } else {
            assert(post[w - 1].0 == id);
        }
    }
}

/// Both sides of [`first_idx`]'s meaning: it lands on an entry carrying
/// `id`, and nothing before it does.
pub proof fn lemma_first_idx_props(users: Seq<(u128, UserV)>, id: u128)
    requires
        contains_id(users, id),
    ensures
        0 <= first_idx(users, id) < users.len(),
        users[first_idx(users, id)].0 == id,
        forall|j: int| 0 <= j < first_idx(users, id) ==> users[j].0 != id,
    decreases users.len(),
{
    let w = choose|w: int| 0 <= w < users.len() && users[w].0 == id;
    if users[0].0 == id {
    } else {
        assert(users.drop_first()[w - 1].0 == id);
        lemma_first_idx_props(users.drop_first(), id);
        let f = first_idx(users.drop_first(), id);
        assert forall|j: int| 0 <= j < 1 + f implies users[j].0 != id by {
            if j > 0 {
                assert(users.drop_first()[j - 1].0 != id);
            }
        }
    }
}

proof fn lemma_rotated_inv(r: RoomV)
    requires
        ids_distinct(r.users),
    ensures
        room_inv(rotated(r)),
        rotated(r).users == r.users,
        !(rotated(r).machine is Drawing),
{
    if r.users.len() > 0 {
        let n = r.users.len() as int;
        lemma_mod_division_less_than_divisor(r.turn_offset as int, n);
        lemma_mod_division_less_than_divisor(r.turn_offset as int % n + 1, n);
        let o = next_offset(r.users.len(), r.turn_offset);
        assert(0 <= o < r.users.len() && r.users[o as int].0 == rotated(r).machine->SelectingWord_artist);
        assert(contains_id(r.users, r.users[o as int].0));
    }
}

/// A freshly opened room satisfies the invariant.
pub proof fn lemma_init_inv()
    ensures
        room_inv(RoomV::init()),
{
}

/// Every event preserves the room invariant: whatever arrives, identifiers
/// stay unique and the awaited participant stays on the roster.
pub proof fn lemma_step_preserves_inv(pre: RoomV, sender: u128, msg: MsgV)
    requires
        room_inv(pre),
    ensures
        room_inv(step(pre, sender, msg)),
{
    match msg {
        MsgV::GotJoin => {
            if !contains_id(pre.users, sender) {
                lemma_push_props(pre.users, (sender, UserV { name: Seq::empty(), points: 0 }));
            }
        },
        MsgV::SetName { id, name } => {
            if contains_id(pre.users, id) {
                let i = first_idx(pre.users, id);
                lemma_first_idx_props(pre.users, id);
                lemma_update_props(
                    pre.users,
                    i,
                    (id, UserV { name, points: pre.users[i].1.points }),
                );
            }
        },
        MsgV::GotLeave => {
            if contains_id(pre.users, sender) {
                let i = first_idx(pre.users, sender);
                lemma_first_idx_props(pre.users, sender);
                lemma_remove_props(pre.users, i);
                let removed = RoomV {
                    users: pre.users.remove(i),
                    machine: pre.machine,
                    turn_offset: pre.turn_offset,
                };
                if active_artist(pre.machine) == Some(sender) {
                    lemma_rotated_inv(removed);
                } else {
                    match pre.machine {
                        MachineV::Joining { .. } => {},
                        MachineV::SelectingWord { artist } => {
                            assert(contains_id(removed.users, artist));
                        },
                        MachineV::Drawing(d) => {
                            assert(contains_id(removed.users, d.artist));
                        },
                    }
                }
            }
        },
        MsgV::WordSelected { .. } => {},
        MsgV::Tick => {
            match pre.machine {
                MachineV::Drawing(d) => {
                    if d.seconds_left <= 0 {
                        lemma_rotated_inv(pre);
                    }
                },
                _ => {},
            }
        },
        MsgV::GotCanvasFrames { .. } => {},
        MsgV::GotGuess { .. } => {},
    }
}

// ---------------------------------------------------------------------------
// Guesses
// ---------------------------------------------------------------------------
/// During a drawing phase a guess is always recorded, marked correct
/// exactly when its text equals the active secret; recording it touches
/// neither the word, nor its reveal mask, nor the clock, the strokes, the
/// roster or the turn cursor.
pub proof fn lemma_guess_recorded(pre: RoomV, sender: u128, text: Seq<char>)
    requires
        pre.machine is Drawing,
    ensures
        ({
            let d = pre.machine->Drawing_0;
            let post = step(pre, sender, MsgV::GotGuess { guess: text });
            &&& post.machine is Drawing
            &&& post.machine->Drawing_0.guesses == d.guesses.push(
                (GuessV { val: text, correct: text == d.word.secret, user: sender }),
            )
            &&& post.machine->Drawing_0.word == d.word
            &&& post.machine->Drawing_0.frames == d.frames
            &&& post.machine->Drawing_0.seconds_left == d.seconds_left
            &&& post.machine->Drawing_0.artist == d.artist
            &&& post.users == pre.users
            &&& post.turn_offset == pre.turn_offset
        }),
{
}

/// Outside a drawing phase a guess is a no-op.
pub proof fn lemma_guess_ignored_outside_drawing(pre: RoomV, sender: u128, text: Seq<char>)
    requires
        !(pre.machine is Drawing),
    ensures
        step(pre, sender, MsgV::GotGuess { guess: text }) == pre,
{
}

// ---------------------------------------------------------------------------
// Joining
// ---------------------------------------------------------------------------
/// A room after a whole sequence of join events, first event first.
pub open spec fn apply_joins(pre: RoomV, ids: Seq<u128>) -> RoomV
    decreases ids.len(),
{
    if ids.len() == 0 {
        pre
    } else {
        apply_joins(step(pre, ids.first(), MsgV::GotJoin), ids.drop_first())
    }
}

/// After `N` join events of distinct new participants are applied — in the
/// one global order the room's owner imposes — the roster holds exactly
/// `N` more participants, and the snapshot broadcast to every participant
/// shows exactly that roster.
pub proof fn lemma_joins_count(pre: RoomV, ids: Seq<u128>, me: u128)
    requires
        forall|i: int, j: int| 0 <= i < j < ids.len() ==> ids[i] != ids[j],
        forall|i: int| 0 <= i < ids.len() ==> !contains_id(pre.users, ids[i]),
    ensures
        apply_joins(pre, ids).users.len() == pre.users.len() + ids.len(),
        redact(apply_joins(pre, ids), me).users.len() == pre.users.len() + ids.len(),
    decreases ids.len(),
{
    if ids.len() > 0 {
        let e = (ids.first(), UserV { name: Seq::empty(), points: 0 });
        let pre1 = step(pre, ids.first(), MsgV::GotJoin);
        assert(!contains_id(pre.users, ids.first()));
        assert(pre1.users == pre.users.push(e));
        assert forall|i: int| 0 <= i < ids.drop_first().len() implies !contains_id(
            pre1.users,
            ids.drop_first()[i],
        ) by {
            let id = ids.drop_first()[i];
            assert(id == ids[i + 1]);
            assert(id != ids.first());
            assert(!contains_id(pre.users, id));
            if contains_id(pre1.users, id) {
                let w = choose|w: int| 0 <= w < pre1.users.len() && pre1.users[w].0 == id;
                if w < pre.users.len() {
                    assert(pre.users[w].0 == id);
                }
                assert(false);
            }
        }
        lemma_joins_count(pre1, ids.drop_first(), me);
    }
}

// ---------------------------------------------------------------------------
// Turn rotation
// ---------------------------------------------------------------------------
/// The room after `k` turn rotations.
pub open spec fn rotated_k(pre: RoomV, k: nat) -> RoomV
    decreases k,
{
    if k == 0 {
        pre
    } else {
        rotated(rotated_k(pre, (k - 1) as nat))
    }
}

/// The participant handed the word choice by the `k`-th rotation.
pub open spec fn nth_rotation_artist(pre: RoomV, k: nat) -> Option<u128> {
    active_artist(rotated_k(pre, k).machine)
}

proof fn lemma_rotated_k_offset(pre: RoomV, k: nat)
    requires
        pre.users.len() > 0,
        k >= 1,
    ensures
        rotated_k(pre, k).users == pre.users,
        rotated_k(pre, k).turn_offset == ((pre.turn_offset % pre.users.len()) + k) % pre.users.len(),
        rotated_k(pre, k).machine == (MachineV::SelectingWord {
            artist: pre.users[rotated_k(pre, k).turn_offset as int].0,
        }),
    decreases k,
{
    let n = pre.users.len() as int;
    let b = pre.turn_offset as int % n;
    lemma_mod_division_less_than_divisor(pre.turn_offset as int, n);
    if k == 1 {
        lemma_mod_division_less_than_divisor(b + 1, n);
    } else {
        lemma_rotated_k_offset(pre, (k - 1) as nat);
        let prev = rotated_k(pre, (k - 1) as nat);
        let po = prev.turn_offset as int;
        lemma_mod_division_less_than_divisor(b + (k - 1), n);
        lemma_small_mod(po as nat, n as nat);
        lemma_add_mod_noop_right(1, b + (k - 1), n);
        assert((po % n + 1) % n == (1 + po) % n);
        assert((1 + (b + (k - 1)) % n) % n == (1 + b + (k - 1)) % n);
        lemma_mod_division_less_than_divisor(b + k, n);
    }
}

/// Over one full cycle of rotations — as many as there are participants —
/// no participant is handed the turn twice, whatever the cursor started
/// at: the artists of rotations `1..=len` are pairwise distinct.
pub proof fn lemma_rotation_visits_each_once(pre: RoomV)
    requires
        ids_distinct(pre.users),
        pre.users.len() > 0,
    ensures
        forall|k1: int, k2: int|
            1 <= k1 < k2 <= pre.users.len() ==> #[trigger] nth_rotation_artist(pre, k1 as nat)
                != #[trigger] nth_rotation_artist(pre, k2 as nat),
{
    let n = pre.users.len() as int;
    let b = pre.turn_offset as int % n;
    lemma_mod_division_less_than_divisor(pre.turn_offset as int, n);
    assert forall|k1: int, k2: int| 1 <= k1 < k2 <= n implies #[trigger] nth_rotation_artist(
        pre,
        k1 as nat,
    ) != #[trigger] nth_rotation_artist(pre, k2 as nat) by {
        lemma_rotated_k_offset(pre, k1 as nat);
        lemma_rotated_k_offset(pre, k2 as nat);
        let o1 = (b + k1) % n;
        let o2 = (b + k2) % n;
        lemma_mod_division_less_than_divisor(b + k1, n);
        lemma_mod_division_less_than_divisor(b + k2, n);
        if o1 == o2 {
            lemma_mod_equivalence(b + k2, b + k1, n);
            assert((k2 - k1) % n == 0);
            lemma_small_mod((k2 - k1) as nat, n as nat);
            assert(false);
        }
        assert(pre.users[o1].0 != pre.users[o2].0);
    }
}

/// Every roster member gets the turn within one full cycle: some rotation
/// among `1..=len` hands the word choice to the participant at roster
/// position `j`. Together with [`lemma_rotation_visits_each_once`], a
/// full cycle visits each participant exactly once.
pub proof fn lemma_rotation_reaches_everyone(pre: RoomV, j: int) -> (k: int)
    requires
        ids_distinct(pre.users),
        pre.users.len() > 0,
        0 <= j < pre.users.len(),
    ensures
        1 <= k <= pre.users.len(),
        nth_rotation_artist(pre, k as nat) == Some(pre.users[j].0),
{
    let n = pre.users.len() as int;
    let b = pre.turn_offset as int % n;
    lemma_mod_division_less_than_divisor(pre.turn_offset as int, n);
    let k = ((j + n - 1 - b) % n) + 1;
    lemma_mod_division_less_than_divisor(j + n - 1 - b, n);
    lemma_rotated_k_offset(pre, k as nat);
    lemma_add_mod_noop_right(b + 1, j + n - 1 - b, n);
    assert((b + k) % n == (j + n) % n);
    vstd::arithmetic::div_mod::lemma_mod_add_multiples_vanish(j, n);
    lemma_small_mod(j as nat, n as nat);
    assert((b + k) % n == j);
    assert(nth_rotation_artist(pre, k as nat) == Some(pre.users[j].0));
    k
}

/// While one turn keeps running, whatever event arrives: the artist and
/// the secret never change, the clock never goes up, strokes and guesses
/// only accumulate, and a revealed letter is never taken back.
pub proof fn lemma_turn_data_monotone(pre: RoomV, sender: u128, msg: MsgV)
    requires
        pre.machine is Drawing,
        step(pre, sender, msg).machine is Drawing,
    ensures
        ({
            let d = pre.machine->Drawing_0;
            let d2 = step(pre, sender, msg).machine->Drawing_0;
            &&& d2.artist == d.artist
            &&& d2.word.secret == d.word.secret
            &&& d2.seconds_left <= d.seconds_left
            &&& d.frames.is_prefix_of(d2.frames)
            &&& d.guesses.is_prefix_of(d2.guesses)
            &&& forall|i: int|
                0 <= i < d.word.letters.len() && d.word.letters[i] is Some
                    ==> d2.word.letters[i] == d.word.letters[i]
        }),
{
    let d = pre.machine->Drawing_0;
    let d2 = step(pre, sender, msg).machine->Drawing_0;
    match msg {
        MsgV::Tick => {
            if d.seconds_left > 0 {
                lemma_disclose_monotone(d.word, 1);
            }
        },
        MsgV::GotCanvasFrames { frames } => {
            assert(d2.frames.take(d.frames.len() as int) =~= d.frames);
        },
        _ => {},
    }
    assert(d2.frames.take(d.frames.len() as int) =~= d.frames);
    assert(d2.guesses.take(d.guesses.len() as int) =~= d.guesses);
}

/// A tick that finds the clock run out performs exactly one rotation.
pub proof fn lemma_expiry_is_rotation(pre: RoomV, sender: u128)
    requires
        pre.machine matches MachineV::Drawing(d) && d.seconds_left <= 0,
    ensures
        step(pre, sender, MsgV::Tick) == rotated(pre),
{
}

// ---------------------------------------------------------------------------
// Disconnecting
// ---------------------------------------------------------------------------
/// When the drawing artist disconnects, the phase leaves `Drawing` at
/// once — the turn's strokes and guesses are discarded with the turn — and
/// the artist is gone from the roster.
pub proof fn lemma_artist_leave_ends_drawing(pre: RoomV, artist: u128)
    requires
        room_inv(pre),
        pre.machine matches MachineV::Drawing(d) && d.artist == artist,
    ensures
        ({
            let post = step(pre, artist, MsgV::GotLeave);
            &&& !(post.machine is Drawing)
            &&& !contains_id(post.users, artist)
            &&& post.users == pre.users.remove(first_idx(pre.users, artist))
        }),
{
    let i = first_idx(pre.users, artist);
    lemma_first_idx_props(pre.users, artist);
    lemma_remove_props(pre.users, i);
    let removed = RoomV {
        users: pre.users.remove(i),
        machine: pre.machine,
        turn_offset: pre.turn_offset,
    };
    lemma_rotated_inv(removed);
}

} // verus!
