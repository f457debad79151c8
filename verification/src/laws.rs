//! The library's general laws, proved once and for all over the session
//! model: join registers an identifier exactly once however often it joins,
//! nobody holds a turn outside play, the turn index rotates round the join
//! order, and a mailbox fetch drains exactly once.

use vstd::prelude::*;

use vstd::arithmetic::div_mod::{lemma_add_mod_noop, lemma_mod_bound, lemma_small_mod};

use crate::protocol::MessageView;
use crate::session::{count_ids, lemma_index_unique, GamerView, SessionView};

verus! {

/// A sequence of participants none of whom carries `id` counts `id` zero
/// times.
proof fn lemma_count_ids_absent(gs: Seq<GamerView>, id: Seq<char>)
    requires
        forall|i: int| 0 <= i < gs.len() ==> gs[i].gamer_id != id,
    ensures
        count_ids(gs, id) == 0,
    decreases gs.len(),
{
    if gs.len() > 0 {
        lemma_count_ids_absent(gs.drop_last(), id);
    }
}

/// A duplicate-free sequence of participants that contains `id` counts it
/// exactly once.
proof fn lemma_count_ids_distinct(gs: Seq<GamerView>, id: Seq<char>)
    requires
        forall|i: int, j: int| 0 <= i < j < gs.len() ==> gs[i].gamer_id != gs[j].gamer_id,
        exists|i: int| 0 <= i < gs.len() && gs[i].gamer_id == id,
    ensures
        count_ids(gs, id) == 1,
    decreases gs.len(),
{
    let last = gs.len() - 1;
    if gs.last().gamer_id == id {
        assert forall|i: int| 0 <= i < gs.drop_last().len() implies gs.drop_last()[i].gamer_id
            != id by {
            assert(gs[i].gamer_id != gs[last].gamer_id);
        }
        lemma_count_ids_absent(gs.drop_last(), id);
    } else {
        let w = choose|i: int| 0 <= i < gs.len() && gs[i].gamer_id == id;
        assert(w != last);
        assert(gs.drop_last()[w] == gs[w]);
        lemma_count_ids_distinct(gs.drop_last(), id);
    }
}

/// Law: joining keeps a session well-formed, registers the joining
/// identifier exactly once, and a repeated join of the same identifier
/// changes nothing more — so any sequence of joins of one identifier leaves
/// it in the turn order exactly once.
pub proof fn lemma_join_registers_once(s: SessionView, id: Seq<char>)
    requires
        s.wf(),
    ensures
        s.join_step(id).wf(),
        s.join_step(id).has_gamer(id),
        s.join_step(id).count_of(id) == 1,
        s.join_step(id).join_step(id) == s.join_step(id),
{
    let post = s.join_step(id);
    if s.has_gamer(id) {
        assert(post == s);
    } else {
        let n = s.gamers.len() as int;
        assert(post.gamers[n].gamer_id == id);
        assert(post.has_gamer(id));
        assert forall|i: int, j: int|
            0 <= i < j < post.gamers.len() implies post.gamers[i].gamer_id
            != post.gamers[j].gamer_id by {
            if j < n {
                assert(s.gamers[i].gamer_id != s.gamers[j].gamer_id);
            } else {
                assert(post.gamers[i] == s.gamers[i]);
                assert(!s.has_gamer(id));
            }
        }
    }
    lemma_count_ids_distinct(post.gamers, id);
}

/// Law: no gamer ever holds a turn while the session is not in play,
/// whatever the turn index says.
pub proof fn lemma_no_turn_outside_play(s: SessionView, id: Seq<char>)
    requires
        !(s.state is Game),
    ensures
        !s.is_gamer_turn_spec(id),
{
}

/// The session after `k` turn advances.
pub open spec fn nth_turn(s: SessionView, k: nat) -> SessionView
    decreases k,
{
    if k == 0 {
        s
    } else {
        nth_turn(s, (k - 1) as nat).next_step()
    }
}

/// Law: on a session with `n >= 1` participants, `k` turn advances move the
/// turn index to `(current + k) mod n` and touch nothing else — starting
/// from index zero, to `k mod n`.
pub proof fn lemma_turn_rotation(s: SessionView, k: nat)
    requires
        s.wf(),
        s.gamers.len() >= 1,
    ensures
        nth_turn(s, k).gamers == s.gamers,
        nth_turn(s, k).state == s.state,
        nth_turn(s, k).current == (s.current + k) % (s.gamers.len() as int),
        s.current == 0 ==> nth_turn(s, k).current == (k as int) % (s.gamers.len() as int),
        nth_turn(s, k).wf(),
    decreases k,
{
    let n = s.gamers.len() as int;
    if k == 0 {
        lemma_small_mod(s.current as nat, s.gamers.len());
    } else {
        lemma_turn_rotation(s, (k - 1) as nat);
        let x = s.current + (k - 1);
        let c = nth_turn(s, (k - 1) as nat).current;
        assert(c == x % n);
        lemma_add_mod_noop(x, 1, n);
        if n == 1 {
            lemma_mod_bound(c + 1, n);
            lemma_mod_bound(x + 1, n);
        } else {
            lemma_small_mod(1, s.gamers.len());
            assert((c + 1int % n) % n == (x + 1) % n);
        }
        assert(nth_turn(s, k).current == (c + 1) % n);
    }
}

/// Law: a broadcast appends the message to every participant's mailbox
/// except the sender's, which is left exactly as it was; nobody's identity
/// or update history moves.
pub proof fn lemma_broadcast_spares_sender(s: SessionView, m: MessageView, i: int)
    requires
        s.wf(),
        m.to is All,
        0 <= i < s.gamers.len(),
    ensures
        s.save_message_step(m).gamers.len() == s.gamers.len(),
        s.save_message_step(m).gamers[i].gamer_id == s.gamers[i].gamer_id,
        s.save_message_step(m).gamers[i].user_state.updates == s.gamers[i].user_state.updates,
        s.gamers[i].gamer_id == m.from ==> s.save_message_step(m).gamers[i] == s.gamers[i],
        s.gamers[i].gamer_id != m.from ==> s.save_message_step(m).gamers[i].user_state.mailbox
            == s.gamers[i].user_state.mailbox.push(m),
{
}

/// Law: a mailbox fetch drains exactly once. After one fetch took a
/// non-empty mailbox, an immediate second fetch by the same gamer finds it
/// empty.
pub proof fn lemma_pop_drains_exactly_once(s: SessionView, id: Seq<char>)
    requires
        s.wf(),
        s.has_gamer(id),
        s.pop_result(id).len() > 0,
    ensures
        s.pop_step(id).wf(),
        s.pop_step(id).has_gamer(id),
        s.pop_step(id).pop_result(id) == Seq::<MessageView>::empty(),
{
    let i = s.gamer_index(id);
    assert(0 <= i < s.gamers.len() && s.gamers[i].gamer_id == id);
    let post = s.pop_step(id);
    assert(post.gamers[i].gamer_id == id);
    assert forall|a: int, b: int|
        0 <= a < b < post.gamers.len() implies post.gamers[a].gamer_id
        != post.gamers[b].gamer_id by {
        assert(s.gamers[a].gamer_id != s.gamers[b].gamer_id);
    }
    lemma_index_unique(post, id, i);
    assert(post.pop_result(id) == post.gamers[i].user_state.mailbox);
}

} // verus!
