//! Creatures enter the battlefield through gates that nobody stands in.

use crate::cells::snapshot;
use crate::grid::{cell_index, in_grid};
use crate::model::{all_fit, FiendInfo, Message, Mobile};
use crate::wave::gen_range;
use crate::world::{
    has_origin, is_creature, keeps_maxima, same_but_health, static_kept, WorldData, WorldView,
};
use vstd::prelude::*;
use vstd::seq_lib::lemma_seq_contains_after_push;

verus! {

/// A queue without its `i`-th creature, the last one put in its place.
pub open spec fn swap_removed(queue: Seq<FiendInfo>, i: int) -> Seq<FiendInfo> {
    queue.update(i, queue.last()).drop_last()
}

impl WorldView {
    /// `g` is a gate in which no mobile occupant stands.
    pub open spec fn gate_free(self, g: (usize, usize)) -> bool {
        self.gates.contains(g) && self.mobile_at(g) is None
    }

    /// The world after a creature has come through gate `g`: it stands
    /// there, and its coming is logged, with a proper name in every tenth
    /// wave.
    pub open spec fn admitted(self, g: (usize, usize), fiend: FiendInfo) -> WorldView {
        WorldView {
            fiends: self.fiends.insert(g),
            ..self.with_mobile(g, Some(Mobile::Fiend { info: fiend }))
        }.logged((Message::Appears { name: fiend.name, proper: self.wave % 10 == 0 }).spec_text())
    }

    /// No gate is free.
    pub open spec fn gates_taken(self) -> bool {
        forall|g: (usize, usize)| !self.gate_free(g)
    }
}

/// One creature of the queue `midq` comes through a free gate of the world
/// `mid`; that leaves the world `post` and the queue `rest`.
pub open spec fn admission_step(
    mid: WorldView,
    midq: Seq<FiendInfo>,
    post: WorldView,
    rest: Seq<FiendInfo>,
) -> bool {
    exists|g: (usize, usize), i: int|
        mid.gate_free(g) && 0 <= i < midq.len() && post == #[trigger] mid.admitted(g, midq[i])
            && rest == swap_removed(midq, i)
}

/// `steps` creatures of `queue` come into the world `pre`, one after the
/// other, each through a gate that is free when it comes; that leaves the
/// world `post` and the queue `rest`.
pub open spec fn admission(
    pre: WorldView,
    queue: Seq<FiendInfo>,
    post: WorldView,
    rest: Seq<FiendInfo>,
    steps: nat,
) -> bool
    decreases steps,
{
    if steps == 0 {
        post == pre && rest == queue
    } else {
        exists|mid: WorldView, midq: Seq<FiendInfo>|
            #![trigger admission_step(mid, midq, post, rest)]
            admission(pre, queue, mid, midq, (steps - 1) as nat) && admission_step(
                mid,
                midq,
                post,
                rest,
            )
    }
}

/// One more creature coming in makes one more step.
pub proof fn lemma_admission_grows(
    pre: WorldView,
    queue: Seq<FiendInfo>,
    mid: WorldView,
    midq: Seq<FiendInfo>,
    post: WorldView,
    rest: Seq<FiendInfo>,
    done: nat,
)
    requires
        admission(pre, queue, mid, midq, done),
        admission_step(mid, midq, post, rest),
    ensures
        admission(pre, queue, post, rest, done + 1),
{
    assert(((done + 1) - 1) as nat == done);
}

/// Coming in changes nothing but who stands in the gates and what the log
/// says, and every creature that came in has left the queue: after `steps`
/// steps the queue is shorter by `steps`, and as many more creatures are on
/// the battlefield.
pub proof fn lemma_admission_frame(
    pre: WorldView,
    queue: Seq<FiendInfo>,
    post: WorldView,
    rest: Seq<FiendInfo>,
    steps: nat,
)
    requires
        admission(pre, queue, post, rest, steps),
    ensures
        rest.len() + steps == queue.len(),
        post.statics == pre.statics,
        post.turrets == pre.turrets,
        post.obstacles == pre.obstacles,
        post.arrows == pre.arrows,
        post.gates == pre.gates,
        post.player_info == pre.player_info,
        post.goal_location == pre.goal_location,
        post.cash == pre.cash,
        post.wave == pre.wave,
        pre.fiends.subset_of(post.fiends),
    decreases steps,
{
    if steps > 0 {
        let (mid, midq) = choose|mid: WorldView, midq: Seq<FiendInfo>|
            #![trigger admission_step(mid, midq, post, rest)]
            admission(pre, queue, mid, midq, (steps - 1) as nat) && admission_step(
                mid,
                midq,
                post,
                rest,
            );
        lemma_admission_frame(pre, queue, mid, midq, (steps - 1) as nat);
        let (g, i) = choose|g: (usize, usize), i: int|
            mid.gate_free(g) && 0 <= i < midq.len() && post == #[trigger] mid.admitted(g, midq[i])
                && rest == swap_removed(midq, i);
        assert(post == mid.admitted(g, midq[i]));
    }
}

impl WorldData {
    /// A creature comes through a free gate.
    pub fn let_in(&mut self, gate: (usize, usize), fiend: FiendInfo)
        requires
            old(self).wf(),
            old(self)@.gate_free(gate),
            fiend.wf(),
        ensures
            final(self).wf(),
            final(self)@ == old(self)@.admitted(gate, fiend),
    {
        self.fiends.insert(gate);
        self.set_mobile(gate, Some(Mobile::Fiend { info: fiend }));
        self.log_msg((Message::Appears { name: fiend.name, proper: self.wave % 10 == 0 }).text());
    }

    /// The gates in which no mobile occupant stands, in the order of the
    /// gates.
    pub fn free_gates(&self) -> (free: Vec<(usize, usize)>)
        requires
            self.wf(),
        ensures
            free@.no_duplicates(),
            forall|g: (usize, usize)| #[trigger] free@.contains(g) <==> self@.gate_free(g),
            forall|i: int, j: int|
                0 <= i < j < free@.len() ==> crate::grid::cell_lt(
                    #[trigger] free@[i],
                    #[trigger] free@[j],
                ),
    {
        let gates = snapshot(&self.gates);
        let mut free: Vec<(usize, usize)> = Vec::new();
        let mut k: usize = 0;
        while k < gates.len()
            invariant
                self.wf(),
                crate::cells::lists(gates@, self@.gates),
                k <= gates@.len(),
                free@.no_duplicates(),
                forall|i: int, j: int|
                    0 <= i < j < free@.len() ==> crate::grid::cell_lt(
                        #[trigger] free@[i],
                        #[trigger] free@[j],
                    ),
                forall|g: (usize, usize)| #[trigger]
                    free@.contains(g) <==> self@.gate_free(g) && exists|j: int|
                        0 <= j < k && gates@[j] == g,
            decreases gates@.len() - k,
        {
            let g = gates[k];
            assert(gates@.contains(g));
            if self.mobile_at(g).is_none() {
                let ghost before = free@;
                proof {
                    if before.contains(g) {
                        let j = choose|j: int| 0 <= j < k && gates@[j] == g;
                        assert(crate::grid::cell_lt(gates@[j], gates@[k as int]));
                    }
                    assert forall|i: int| 0 <= i < before.len() implies crate::grid::cell_lt(
                        #[trigger] before[i],
                        g,
                    ) by {
                        assert(before.contains(before[i]));
                        let j = choose|j: int| 0 <= j < k && gates@[j] == before[i];
                        assert(crate::grid::cell_lt(gates@[j], gates@[k as int]));
                    }
                }
                free.push(g);
                proof {
                    assert forall|x: (usize, usize)| #[trigger]
                        free@.contains(x) <==> self@.gate_free(x) && exists|j: int|
                            0 <= j < k + 1 && gates@[j] == x by {
                        lemma_seq_contains_after_push(before, g, x);
                        if before.contains(x) {
                            let j = choose|j: int| 0 <= j < k && gates@[j] == x;
                            assert(0 <= j < k + 1 && gates@[j] == x);
                        }
                        if self@.gate_free(x) && exists|j: int| 0 <= j < k + 1 && gates@[j] == x {
                            let j = choose|j: int| 0 <= j < k + 1 && gates@[j] == x;
                            if j < k {
                                assert(before.contains(x));
                            }
                        }
                    }
                }
            } else {
                proof {
                    assert forall|x: (usize, usize)| #[trigger]
                        free@.contains(x) <==> self@.gate_free(x) && exists|j: int|
                            0 <= j < k + 1 && gates@[j] == x by {
                        if free@.contains(x) {
                            let j = choose|j: int| 0 <= j < k && gates@[j] == x;
                            assert(0 <= j < k + 1 && gates@[j] == x);
                        }
                        if self@.gate_free(x) && exists|j: int| 0 <= j < k + 1 && gates@[j] == x {
                            let j = choose|j: int| 0 <= j < k + 1 && gates@[j] == x;
                            assert(j < k);
                        }
                    }
                }
            }
            k = k + 1;
        }
        proof {
            assert forall|g: (usize, usize)| #[trigger] free@.contains(g) <==> self@.gate_free(
                g,
            ) by {
                if self@.gate_free(g) {
                    assert(gates@.contains(g));
                    let j = choose|j: int| 0 <= j < gates@.len() && gates@[j] == g;
                    assert(0 <= j < k && gates@[j] == g);
                }
            }
        }
        free
    }
}

impl WorldView {
    /// The gates in which no mobile occupant stands.
    pub open spec fn free_gate_set(self) -> Set<(usize, usize)> {
        Set::new(|g: (usize, usize)| self.gate_free(g))
    }
}

/// The lesser of two numbers.
pub open spec fn spec_min(a: int, b: int) -> int {
    if a <= b {
        a
    } else {
        b
    }
}

/// The creatures `who` have come into the world `pre` through the gates
/// `cells`, each through its own, and left the queue. The gates were free
/// and are all different; the creatures now stand in them and are counted
/// among the creatures of the battlefield; no other mobile occupant was
/// touched; and the creatures that waited are those that still wait and
/// those that came in, each as often as before.
pub open spec fn placed_as(
    pre: WorldView,
    queue: Seq<FiendInfo>,
    post: WorldView,
    rest: Seq<FiendInfo>,
    cells: Seq<(usize, usize)>,
    who: Seq<FiendInfo>,
) -> bool {
    &&& cells.len() == who.len()
    &&& who.len() + rest.len() == queue.len()
    &&& cells.no_duplicates()
    &&& forall|k: int|
        0 <= k < cells.len() ==> pre.gate_free(#[trigger] cells[k]) && post.mobiles[cell_index(
            cells[k],
        )] == Some(Mobile::Fiend { info: who[k] })
    &&& forall|p: (usize, usize)|
        in_grid(p) && !cells.contains(p) ==> #[trigger] post.mobiles[cell_index(p)]
            == pre.mobiles[cell_index(p)]
    &&& post.fiends == pre.fiends.union(cells.to_set())
    &&& queue.to_multiset() == rest.to_multiset().add(who.to_multiset())
}

/// A queue holds what it holds without one creature, and that creature.
pub proof fn lemma_swap_removed_multiset(queue: Seq<FiendInfo>, i: int)
    requires
        0 <= i < queue.len(),
    ensures
        queue.to_multiset() == swap_removed(queue, i).to_multiset().insert(queue[i]),
{
    broadcast use vstd::multiset::group_multiset_axioms;

    let shorter = queue.drop_last();
    let last = queue.last();
    assert(queue =~= shorter.push(last));
    vstd::seq_lib::to_multiset_build(shorter, last);
    if i == queue.len() - 1 {
        assert(swap_removed(queue, i) =~= shorter);
    } else {
        assert(swap_removed(queue, i) =~= shorter.update(i, last));
        vstd::seq_lib::to_multiset_update(shorter, i, last);
        vstd::seq_lib::to_multiset_contains(shorter, shorter[i]);
        assert(shorter.contains(shorter[i]));
        assert(shorter.to_multiset().insert(last).remove(shorter[i]).insert(shorter[i])
            =~= shorter.to_multiset().insert(last));
    }
    assert(queue.to_multiset() =~= swap_removed(queue, i).to_multiset().insert(queue[i]));
}

/// Lets as many queued creatures into the world as there are free gates for:
/// while a creature waits and a gate is free, one of each is drawn, and the
/// creature comes through that gate. As many come in as there are free gates
/// or creatures waiting, whichever is fewer.
#[verifier::rlimit(50)]
pub fn spawn_fiends(world_data: &mut WorldData, to_spawn: &mut Vec<FiendInfo>)
    requires
        old(world_data).wf(),
        all_fit(old(to_spawn)@),
    ensures
        final(world_data).wf(),
        all_fit(final(to_spawn)@),
        exists|steps: nat| #[trigger]
            admission(
                old(world_data)@,
                old(to_spawn)@,
                final(world_data)@,
                final(to_spawn)@,
                steps,
            ),
        final(to_spawn)@.len() == 0 || final(world_data)@.gates_taken(),
        exists|cells: Seq<(usize, usize)>, who: Seq<FiendInfo>| #[trigger]
            placed_as(
                old(world_data)@,
                old(to_spawn)@,
                final(world_data)@,
                final(to_spawn)@,
                cells,
                who,
            ),
        old(to_spawn)@.len() - final(to_spawn)@.len() == spec_min(
            old(world_data)@.free_gate_set().len() as int,
            old(to_spawn)@.len() as int,
        ),
        keeps_maxima(old(world_data)@, old(to_spawn)@, final(world_data)@),
{
    let ghost mut steps: nat = 0;
    let ghost mut cells: Seq<(usize, usize)> = Seq::empty();
    let ghost mut who: Seq<FiendInfo> = Seq::empty();
    assert(admission(world_data@, to_spawn@, world_data@, to_spawn@, 0));
    let mut free = world_data.free_gates();
    let ghost free0 = free@;
    proof {
        broadcast use vstd::multiset::group_multiset_axioms;

        assert(free0.to_set() =~= world_data@.free_gate_set());
        free0.unique_seq_to_set();
        vstd::seq_lib::to_multiset_len(who);
        assert(who.to_multiset() =~= vstd::multiset::Multiset::empty());
        assert(to_spawn@.to_multiset() =~= to_spawn@.to_multiset().add(who.to_multiset()));
        assert(world_data@.fiends =~= world_data@.fiends.union(cells.to_set()));
    }
    while free.len() > 0 && to_spawn.len() > 0
        invariant
            world_data.wf(),
            old(world_data).wf(),
            all_fit(to_spawn@),
            free@.no_duplicates(),
            forall|g: (usize, usize)| #[trigger] free@.contains(g) <==> world_data@.gate_free(g),
            admission(old(world_data)@, old(to_spawn)@, world_data@, to_spawn@, steps),
            free@.len() + cells.len() == free0.len(),
            world_data@.gates == old(world_data)@.gates,
            placed_as(old(world_data)@, old(to_spawn)@, world_data@, to_spawn@, cells, who),
        decreases free@.len(),
    {
        let gate_i: usize = gen_range(0, free.len());
        let gate = free[gate_i];
        let spawn_i: usize = gen_range(0, to_spawn.len());
        let fiend = to_spawn[spawn_i];
        let ghost mid = world_data@;
        let ghost midq = to_spawn@;
        let ghost before = free@;
        assert(before.contains(gate));
        world_data.let_in(gate, fiend);
        to_spawn.swap_remove(spawn_i);
        free.remove(gate_i);
        proof {
            assert(to_spawn@ == swap_removed(midq, spawn_i as int));
            assert(admission_step(mid, midq, world_data@, to_spawn@));
            lemma_admission_grows(
                old(world_data)@,
                old(to_spawn)@,
                mid,
                midq,
                world_data@,
                to_spawn@,
                steps,
            );
            steps = steps + 1;
            assert(free@ =~= before.remove(gate_i as int));
            assert forall|x: (usize, usize)| #[trigger] free@.contains(x) <==> world_data@.gate_free(
                x,
            ) by {
                if free@.contains(x) {
                    let j = choose|j: int| 0 <= j < free@.len() && free@[j] == x;
                    if j < gate_i {
                        assert(before[j] == x);
                    } else {
                        assert(before[j + 1] == x);
                    }
                    assert(before.contains(x));
                    assert(x != gate);
                }
                if world_data@.gate_free(x) {
                    assert(x != gate);
                    assert(mid.gate_free(x));
                    assert(before.contains(x));
                    let j = choose|j: int| 0 <= j < before.len() && before[j] == x;
                    if j < gate_i {
                        assert(free@[j] == x);
                    } else {
                        assert(free@[j - 1] == x);
                    }
                }
            }
            assert(free@.no_duplicates());
            lemma_placed_grows(
                old(world_data)@,
                old(to_spawn)@,
                mid,
                midq,
                cells,
                who,
                gate,
                spawn_i as int,
            );
            cells = cells.push(gate);
            who = who.push(fiend);
        }
    }
    proof {
        if to_spawn@.len() != 0 {
            assert forall|g: (usize, usize)| !world_data@.gate_free(g) by {
                assert(!free@.contains(g));
            }
        }
        lemma_admission_frame(old(world_data)@, old(to_spawn)@, world_data@, to_spawn@, steps);
        lemma_placed_keeps_maxima(
            old(world_data)@,
            old(to_spawn)@,
            world_data@,
            to_spawn@,
            cells,
            who,
        );
    }
}

/// Creatures that come in bring the maxima that they waited with, and
/// change no other.
pub proof fn lemma_placed_keeps_maxima(
    pre: WorldView,
    queue: Seq<FiendInfo>,
    post: WorldView,
    rest: Seq<FiendInfo>,
    cells: Seq<(usize, usize)>,
    who: Seq<FiendInfo>,
)
    requires
        placed_as(pre, queue, post, rest, cells, who),
        post.statics == pre.statics,
        post.player_info == pre.player_info,
    ensures
        keeps_maxima(pre, queue, post),
{
    broadcast use vstd::multiset::group_multiset_axioms;

    assert forall|p: (usize, usize)| in_grid(p) implies static_kept(
        pre.statics[cell_index(p)],
        #[trigger] post.statics[cell_index(p)],
    ) by {}
    assert forall|p: (usize, usize)| in_grid(p) implies (#[trigger] post.mobiles[cell_index(p)] matches Some(
        Mobile::Fiend { info },
    ) ==> has_origin(pre, queue, info)) by {
        if let Some(Mobile::Fiend { info }) = post.mobiles[cell_index(p)] {
            if cells.contains(p) {
                let k = choose|k: int| 0 <= k < cells.len() && cells[k] == p;
                assert(pre.gate_free(cells[k]));
                assert(info == who[k]);
                vstd::seq_lib::to_multiset_contains(who, info);
                assert(who.contains(info));
                assert(queue.to_multiset().count(info) > 0);
                vstd::seq_lib::to_multiset_contains(queue, info);
                let j = choose|j: int| 0 <= j < queue.len() && queue[j] == info;
                assert(same_but_health(info, queue[j]));
            } else {
                assert(is_creature(pre.mobiles[cell_index(p)], info));
            }
        }
    }
}

/// One more creature coming in, through a gate that is free, is one more
/// creature placed.
pub proof fn lemma_placed_grows(
    pre: WorldView,
    queue: Seq<FiendInfo>,
    mid: WorldView,
    midq: Seq<FiendInfo>,
    cells: Seq<(usize, usize)>,
    who: Seq<FiendInfo>,
    gate: (usize, usize),
    i: int,
)
    requires
        pre.wf(),
        mid.wf(),
        mid.gates == pre.gates,
        placed_as(pre, queue, mid, midq, cells, who),
        mid.gate_free(gate),
        0 <= i < midq.len(),
    ensures
        placed_as(
            pre,
            queue,
            mid.admitted(gate, midq[i]),
            swap_removed(midq, i),
            cells.push(gate),
            who.push(midq[i]),
        ),
{
    broadcast use vstd::multiset::group_multiset_axioms;

    let post = mid.admitted(gate, midq[i]);
    let rest = swap_removed(midq, i);
    let cells2 = cells.push(gate);
    let who2 = who.push(midq[i]);
    assert(in_grid(gate));
    assert(!cells.contains(gate)) by {
        if cells.contains(gate) {
            let k = choose|k: int| 0 <= k < cells.len() && cells[k] == gate;
            assert(mid.mobiles[cell_index(cells[k])] is Some);
        }
    }
    assert(pre.gate_free(gate));
    assert forall|k: int| 0 <= k < cells2.len() implies pre.gate_free(#[trigger] cells2[k])
        && post.mobiles[cell_index(cells2[k])] == Some(Mobile::Fiend { info: who2[k] }) by {
        if k < cells.len() {
            assert(cells2[k] == cells[k]);
            assert(pre.gate_free(cells[k]));
            assert(in_grid(cells[k]));
            assert(cells.contains(cells[k]));
        }
    }
    assert forall|p: (usize, usize)| in_grid(p) && !cells2.contains(p) implies #[trigger] post.mobiles[cell_index(
        p,
    )] == pre.mobiles[cell_index(p)] by {
        assert(cells2[cells.len() as int] == gate);
        assert(p != gate);
        if cells.contains(p) {
            let k = choose|k: int| 0 <= k < cells.len() && cells[k] == p;
            assert(cells2[k] == p);
        }
    }
    assert(post.fiends =~= pre.fiends.union(cells2.to_set())) by {
        assert forall|p: (usize, usize)| cells2.to_set().contains(p) <==> cells.to_set().contains(p)
            || p == gate by {
            vstd::seq_lib::lemma_seq_contains_after_push(cells, gate, p);
        }
    }
    lemma_swap_removed_multiset(midq, i);
    vstd::seq_lib::to_multiset_build(who, midq[i]);
    assert(queue.to_multiset() =~= rest.to_multiset().add(who2.to_multiset()));
}

} // verus!
