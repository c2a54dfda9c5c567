use vstd::prelude::*;

use rand::rngs::StdRng;

use crate::board::can_move;
use crate::evaluation::{evaluate, evaluation, EvalWeights};
use crate::gamestate::{state_after, Gamestate};
use crate::minmax::searchable;
use crate::pieces::{Move, Team};
use crate::rng::random_index;
use crate::thin::{move_at, move_count, thin_moves};

verus! {

/// A node of the search tree: its state, the indices of its children in the arena (one per
/// move of the state, in generation order, or none before expansion), its visit count and
/// the sum of the values propagated through it.
#[derive(Clone, Debug)]
pub struct MctsNode {
    pub children: Vec<usize>,
    pub gamestate: Gamestate,
    pub visits: u32,
    pub value: i64,
}

/// A Monte Carlo search tree kept in an arena: node 0 is the root, and every child is stored
/// behind its parent.
#[derive(Clone, Debug)]
pub struct MonteCarloTree {
    pub nodes: Vec<MctsNode>,
}

/// The sum of `a` and `b`, clamped to the 64-bit range.
pub open spec fn clamped_sum(a: i64, b: i64) -> i64 {
    if a + b > i64::MAX {
        i64::MAX
    } else if a + b < i64::MIN {
        i64::MIN
    } else {
        (a + b) as i64
    }
}

fn add_clamped(a: i64, b: i64) -> (r: i64)
    ensures
        r == clamped_sum(a, b),
{
    if b > 0 && a > i64::MAX - b {
        i64::MAX
    } else if b < 0 && a < i64::MIN - b {
        i64::MIN
    } else {
        a + b
    }
}

/// `path` holds node indices below `len`, all above the root, in strictly rising order (as
/// the nodes of a path from the root do, children being stored behind their parents).
pub open spec fn rising(path: Seq<usize>, len: nat) -> bool {
    &&& forall|k: int| 0 <= k < path.len() ==> 0 < #[trigger] path[k] < len
    &&& forall|j: int, k: int| 0 <= j < k < path.len() ==> path[j] < path[k]
}

/// The state reached from `g` by playing, for each drawn index in turn, the move of the team
/// to move with that index (counted modulo the number of moves). Play stops once the game
/// is over or the team to move has no move.
pub open spec fn playout(g: Gamestate, draws: Seq<usize>) -> Gamestate
    decreases draws.len(),
{
    if draws.len() == 0 {
        g
    } else {
        let h = playout(g, draws.drop_last());
        let moves = h.board.legal_moves(h.to_move());
        if h.is_over() || moves.len() == 0 {
            h
        } else {
            state_after(h, moves[draws.last() as int % moves.len() as int])
        }
    }
}

/// The game is over, or the team to move has no move.
pub open spec fn finished(g: Gamestate) -> bool {
    g.is_over() || g.board.legal_moves(g.to_move()).len() == 0
}

/// `s` is the value for `me` of a finished state that play from `g` can reach.
pub open spec fn rollout_value(g: Gamestate, s: i64, me: Team, w: EvalWeights) -> bool {
    exists|draws: Seq<usize>|
        finished(#[trigger] playout(g, draws)) && s == evaluation(playout(g, draws), me, w)
}

/// The score `s` of one iteration: the rollout value of the last node of `path` (the root
/// when `path` is empty), added to the value sum of the root and of every node on `path`;
/// every other node keeps its sum, and new nodes start at zero.
pub open spec fn scored(
    before: MonteCarloTree,
    after: MonteCarloTree,
    path: Seq<usize>,
    s: i64,
    me: Team,
    w: EvalWeights,
) -> bool {
    let rolled = if path.len() == 0 {
        0
    } else {
        path.last() as int
    };
    &&& rollout_value(after.nodes@[rolled].gamestate, s, me, w)
    &&& forall|k: int|
        0 <= k < after.nodes@.len() ==> {
            let earlier = if k < before.nodes@.len() {
                before.nodes@[k].value
            } else {
                0
            };
            #[trigger] after.nodes@[k].value == if k == 0 || path.contains(k as usize) {
                clamped_sum(earlier, s)
            } else {
                earlier
            }
        }
}

/// Plays `draws` from `state` as `playout` does: the state the indices lead to.
pub fn play_draws(state: &Gamestate, draws: &Vec<usize>) -> (r: Gamestate)
    requires
        searchable(*state),
    ensures
        r == playout(*state, draws@),
        searchable(r),
{
    let mut g = *state;
    let mut i: usize = 0;
    while i < draws.len()
        invariant
            0 <= i <= draws@.len(),
            searchable(g),
            g == playout(*state, draws@.take(i as int)),
        decreases draws@.len() - i,
    {
        proof {
            assert(draws@.take(i + 1).drop_last() =~= draws@.take(i as int));
            assert(draws@.take(i + 1).last() == draws@[i as int]);
        }
        if !g.game_over() {
            let moves = g.available_moves_current_player();
            let n = move_count(&moves);
            if n > 0 {
                let k = draws[i] % n;
                let m = move_at(&moves, k);
                proof {
                    g.board.lemma_legal_moves_can_move(g.to_move());
                    assert(can_move(g.board.view(), thin_moves(moves)[k as int], g.to_move()));
                }
                g.apply_move(&m);
            }
        }
        i = i + 1;
    }
    proof {
        assert(draws@.take(draws@.len() as int) =~= draws@);
    }
    g
}

impl MonteCarloTree {
    /// Every child index points behind its parent into the arena, and every state may be
    /// searched.
    pub open spec fn wf(&self) -> bool {
        &&& self.nodes@.len() >= 1
        &&& forall|i: int|
            0 <= i < self.nodes@.len() ==> searchable(#[trigger] self.nodes@[i].gamestate)
        &&& forall|i: int, j: int|
            0 <= i < self.nodes@.len() && 0 <= j < self.nodes@[i].children@.len() ==> {
                let c = #[trigger] self.nodes@[i].children@[j];
                i < c < self.nodes@.len()
            }
    }

    /// A tree holding only the root `state`.
    pub fn from(state: Gamestate) -> (r: Self)
        requires
            searchable(state),
        ensures
            r.wf(),
            r.nodes@.len() == 1,
            r.nodes@[0].gamestate == state,
            r.nodes@[0].children@.len() == 0,
            r.nodes@[0].visits == 0,
            r.nodes@[0].value == 0,
    {
        let root = MctsNode { children: Vec::new(), gamestate: state, visits: 0, value: 0 };
        let mut nodes = Vec::new();
        nodes.push(root);
        MonteCarloTree { nodes }
    }

    pub fn is_leaf(&self, i: usize) -> (r: bool)
        requires
            i < self.nodes@.len(),
        ensures
            r == (self.nodes@[i as int].children@.len() == 0),
    {
        self.nodes[i].children.len() == 0
    }

    /// Gives the leaf `i` one child per move of its state, in generation order.
    pub fn expand(&mut self, i: usize)
        requires
            old(self).wf(),
            i < old(self).nodes@.len(),
            old(self).nodes@[i as int].children@.len() == 0,
            !old(self).nodes@[i as int].gamestate.is_over(),
            old(self).nodes@.len() + 16384 < usize::MAX,
        ensures
            final(self).wf(),
            final(self).nodes@.len() == old(self).nodes@.len() + old(self).nodes@[i as int].gamestate.board.legal_moves(
                old(self).nodes@[i as int].gamestate.to_move(),
            ).len(),
            forall|k: int| 0 <= k < old(self).nodes@.len() && k != i ==> #[trigger] final(self).nodes@[k] == old(self).nodes@[k],
            final(self).nodes@[i as int].gamestate == old(self).nodes@[i as int].gamestate,
            final(self).nodes@[i as int].visits == old(self).nodes@[i as int].visits,
            final(self).nodes@[i as int].value == old(self).nodes@[i as int].value,
            forall|j: int|
                0 <= j < final(self).nodes@[i as int].children@.len() ==> {
                    let g = old(self).nodes@[i as int].gamestate;
                    let c = #[trigger] final(self).nodes@[i as int].children@[j];
                    &&& c == old(self).nodes@.len() + j
                    &&& final(self).nodes@[c as int].gamestate == state_after(g, g.board.legal_moves(g.to_move())[j])
                    &&& final(self).nodes@[c as int].children@.len() == 0
                    &&& final(self).nodes@[c as int].visits == 0
                    &&& final(self).nodes@[c as int].value == 0
                },
            final(self).nodes@[i as int].children@.len() == old(self).nodes@[i as int].gamestate.board.legal_moves(
                old(self).nodes@[i as int].gamestate.to_move(),
            ).len(),
    {
        let state = self.nodes[i].gamestate;
        let moves = state.available_moves_current_player();
        let ghost ms = thin_moves(moves);
        let n = move_count(&moves);
        proof {
            state.board.lemma_legal_moves_can_move(state.to_move());
            state.board.lemma_kind_moves_len(crate::pieces::PieceType::Moewe, state.to_move(), 64);
            state.board.lemma_kind_moves_len(crate::pieces::PieceType::Robbe, state.to_move(), 64);
            state.board.lemma_kind_moves_len(crate::pieces::PieceType::Seestern, state.to_move(), 64);
            state.board.lemma_kind_moves_len(crate::pieces::PieceType::Herzmuschel, state.to_move(), 64);
        }
        let ghost start = self.nodes@;
        let mut children: Vec<usize> = Vec::new();
        let mut k: usize = 0;
        while k < n
            invariant
                0 <= k <= n,
                n == ms.len(),
                n <= 16384,
                ms == thin_moves(moves),
                ms == state.board.legal_moves(state.to_move()),
                state == start[i as int].gamestate,
                searchable(state),
                !state.is_over(),
                i < start.len(),
                start.len() + 16384 < usize::MAX,
                forall|j: int| 0 <= j < ms.len() ==> can_move(state.board.view(), #[trigger] ms[j], state.to_move()),
                self.nodes@.len() == start.len() + k,
                forall|q: int| 0 <= q < start.len() ==> #[trigger] self.nodes@[q] == start[q],
                children@.len() == k,
                forall|j: int|
                    0 <= j < k ==> {
                        let c = #[trigger] children@[j];
                        &&& c == start.len() + j
                        &&& self.nodes@[c as int].gamestate == state_after(state, ms[j])
                        &&& self.nodes@[c as int].children@.len() == 0
                        &&& self.nodes@[c as int].visits == 0
                        &&& self.nodes@[c as int].value == 0
                        &&& searchable(self.nodes@[c as int].gamestate)
                    },
            decreases n - k,
        {
            let m = move_at(&moves, k);
            let mut child = state;
            proof {
                assert(can_move(state.board.view(), ms[k as int], state.to_move()));
            }
            child.apply_move(&m);
            let index = self.nodes.len();
            self.nodes.push(MctsNode { children: Vec::new(), gamestate: child, visits: 0, value: 0 });
            children.push(index);
            k = k + 1;
        }
        let mut node = self.nodes[i].clone_node();
        node.children = children;
        self.nodes[i] = node;
        proof {
            assert forall|q: int| 0 <= q < self.nodes@.len() implies searchable(#[trigger] self.nodes@[q].gamestate) by {
                if q < start.len() {
                    assert(self.nodes@[q].gamestate == start[q].gamestate);
                } else {
                    let j = q - start.len();
                    assert(children@[j] == q);
                }
            }
            assert forall|p: int, j: int|
                0 <= p < self.nodes@.len() && 0 <= j < self.nodes@[p].children@.len() implies {
                let c = #[trigger] self.nodes@[p].children@[j];
                p < c < self.nodes@.len()
            } by {
                if p == i {
                } else if p < start.len() {
                    assert(self.nodes@[p] == start[p]);
                    assert(start[p].children@[j] > p);
                } else {
                    let jj = p - start.len();
                    assert(children@[jj] == p);
                }
            }
        }
    }

    /// Adds `value` to the sum and one to the visits of the root and of every node on `path`.
    pub fn backprop(&mut self, path: &Vec<usize>, value: i64)
        requires
            old(self).wf(),
            rising(path@, old(self).nodes@.len()),
            forall|k: int| 0 <= k < old(self).nodes@.len() ==> #[trigger] old(self).nodes@[k].visits < u32::MAX,
        ensures
            final(self).wf(),
            final(self).nodes@.len() == old(self).nodes@.len(),
            forall|k: int|
                0 <= k < final(self).nodes@.len() ==> {
                    let on_path = k == 0 || path@.contains(k as usize);
                    &&& #[trigger] final(self).nodes@[k].gamestate == old(self).nodes@[k].gamestate
                    &&& final(self).nodes@[k].children == old(self).nodes@[k].children
                    &&& final(self).nodes@[k].visits == old(self).nodes@[k].visits + (if on_path {
                        1int
                    } else {
                        0int
                    })
                    &&& final(self).nodes@[k].value == if on_path {
                        clamped_sum(old(self).nodes@[k].value, value)
                    } else {
                        old(self).nodes@[k].value
                    }
                },
    {
        let ghost start = self.nodes@;
        let n_nodes = self.nodes.len();
        self.visit(0, value);
        let mut k: usize = 0;
        while k < path.len()
            invariant
                0 <= k <= path@.len(),
                self.wf(),
                self.nodes@.len() == start.len(),
                start.len() == n_nodes,
                rising(path@, start.len()),
                forall|q: int|
                    0 <= q < start.len() ==> {
                        let on_path = q == 0 || path@.take(k as int).contains(q as usize);
                        &&& #[trigger] self.nodes@[q].gamestate == start[q].gamestate
                        &&& self.nodes@[q].children == start[q].children
                        &&& self.nodes@[q].visits == start[q].visits + (if on_path {
                            1int
                        } else {
                            0int
                        })
                        &&& self.nodes@[q].value == if on_path {
                            clamped_sum(start[q].value, value)
                        } else {
                            start[q].value
                        }
                    },
                forall|q: int| 0 <= q < start.len() ==> #[trigger] start[q].visits < u32::MAX,
            decreases path@.len() - k,
        {
            let node = path[k];
            proof {
                assert(self.nodes@[node as int].gamestate == start[node as int].gamestate);
                assert(!path@.take(k as int).contains(node)) by {
                    if path@.take(k as int).contains(node) {
                        let j = choose|j: int| 0 <= j < k && #[trigger] path@.take(k as int)[j] == node;
                        assert(path@[j] == node);
                    }
                }
            }
            self.visit(node, value);
            proof {
                assert forall|q: int| 0 <= q < start.len() implies (#[trigger] path@.take(k + 1).contains(q as usize) <==> (
                    path@.take(k as int).contains(q as usize) || q == node)) by {
                    if path@.take(k + 1).contains(q as usize) {
                        let j = choose|j: int| 0 <= j < k + 1 && #[trigger] path@.take(k + 1)[j] == q as usize;
                        if j < k {
                            assert(path@.take(k as int)[j] == q as usize);
                        } else {
                            assert(j == k);
                            assert(path@.take(k + 1)[j] == path@[j]);
                            assert(path@[k as int] == node);
                            assert(q == node as int);
                        }
                    }
                    if path@.take(k as int).contains(q as usize) {
                        let j = choose|j: int| 0 <= j < k && #[trigger] path@.take(k as int)[j] == q as usize;
                        assert(path@.take(k + 1)[j] == q as usize);
                    }
                    if q == node {
                        assert(path@.take(k + 1)[k as int] == node);
                    }
                }
            }
            k = k + 1;
        }
        proof {
            assert(path@.take(path@.len() as int) =~= path@);
            assert forall|q: int| 0 <= q < start.len() implies #[trigger] self.nodes@[q].gamestate == start[q].gamestate
                && self.nodes@[q].visits == start[q].visits + (if q == 0 || path@.contains(q as usize) {
                1int
            } else {
                0int
            }) by {
                assert(self.nodes@[q].gamestate == start[q].gamestate);
                assert(k == path@.len());
                assert(path@.take(k as int) == path@);
            }
        }
    }

    fn visit(&mut self, i: usize, value: i64)
        requires
            old(self).wf(),
            i < old(self).nodes@.len(),
            old(self).nodes@[i as int].visits < u32::MAX,
        ensures
            final(self).wf(),
            final(self).nodes@.len() == old(self).nodes@.len(),
            forall|q: int|
                0 <= q < final(self).nodes@.len() && q != i ==> #[trigger] final(self).nodes@[q] == old(self).nodes@[q],
            final(self).nodes@[i as int].gamestate == old(self).nodes@[i as int].gamestate,
            final(self).nodes@[i as int].children == old(self).nodes@[i as int].children,
            final(self).nodes@[i as int].visits == old(self).nodes@[i as int].visits + 1,
            final(self).nodes@[i as int].value == clamped_sum(old(self).nodes@[i as int].value, value),
    {
        let visits = self.nodes[i].visits;
        let sum = self.nodes[i].value;
        self.nodes[i].visits = visits + 1;
        self.nodes[i].value = add_clamped(sum, value);
    }

    /// One iteration of the search below the leaf that `path` selected (the root when `path`
    /// is empty): a leaf never visited is rolled out; a visited one whose game goes on is
    /// expanded and its first child rolled out and added to `path`; a finished one is
    /// evaluated. The value then goes to every node of `path` and to the root.
    pub fn iterate(&mut self, path: &mut Vec<usize>, rng: &mut StdRng, me: Team, w: &EvalWeights)
        requires
            old(self).wf(),
            rising(old(path)@, old(self).nodes@.len()),
            old(path)@.len() == 0 ==> old(self).nodes@[0].children@.len() == 0,
            old(path)@.len() > 0 ==> old(self).nodes@[old(path)@.last() as int].children@.len() == 0,
            old(self).nodes@.len() + 16384 < usize::MAX,
            forall|k: int|
                0 <= k < old(self).nodes@.len() ==> #[trigger] old(self).nodes@[k].visits < u32::MAX
                    - old(path)@.len() - 1,
        ensures
            final(self).wf(),
            final(self).nodes@.len() >= old(self).nodes@.len(),
            final(self).nodes@[0].visits == old(self).nodes@[0].visits + 1,
            final(path)@ == old(path)@ || final(path)@ == old(path)@.push(old(self).nodes@.len() as usize),
            forall|k: int| 0 <= k < final(path)@.len() ==> final(self).nodes@[#[trigger] final(path)@[k] as int].visits >= 1,
            ({
                let leaf = if old(path)@.len() == 0 {
                    0
                } else {
                    old(path)@.last() as int
                };
                old(self).nodes@[leaf].visits == 0 ==> final(path)@ == old(path)@ && final(self).nodes@.len()
                    == old(self).nodes@.len()
            }),
            ({
                let leaf = if old(path)@.len() == 0 {
                    0
                } else {
                    old(path)@.last() as int
                };
                let g = old(self).nodes@[leaf].gamestate;
                let moves = g.board.legal_moves(g.to_move());
                old(self).nodes@[leaf].visits > 0 && !g.is_over() ==> {
                    &&& final(self).nodes@.len() == old(self).nodes@.len() + moves.len()
                    &&& final(self).nodes@[leaf].children@.len() == moves.len()
                    &&& forall|j: int|
                        0 <= j < moves.len() ==> #[trigger] final(self).nodes@[old(self).nodes@.len() + j].gamestate
                            == state_after(g, moves[j])
                    &&& moves.len() > 0 ==> final(path)@ == old(path)@.push(old(self).nodes@.len() as usize)
                    &&& moves.len() == 0 ==> final(path)@ == old(path)@
                }
            }),
            exists|s: i64| #[trigger] scored(*old(self), *final(self), final(path)@, s, me, *w),
    {
        let leaf = if path.len() == 0 {
            0
        } else {
            path[path.len() - 1]
        };
        let state = self.nodes[leaf].gamestate;
        let score: i64;
        proof {
            assert(playout(state, Seq::<usize>::empty()) == state);
        }
        if self.nodes[leaf].visits == 0 {
            score = rollout(&state, rng, me, w);
        } else if !state.game_over() {
            let ghost before = self.nodes@;
            self.expand(leaf);
            if self.nodes[leaf].children.len() > 0 {
                let child = self.nodes[leaf].children[0];
                let child_state = self.nodes[child].gamestate;
                score = rollout(&child_state, rng, me, w);
                path.push(child);
                proof {
                    assert(path@.last() == child);
                }
            } else {
                score = evaluate(&state, me, w);
                proof {
                    assert(finished(playout(state, Seq::<usize>::empty())));
                }
            }
            proof {
                let moves = state.board.legal_moves(state.to_move());
                assert forall|j: int| 0 <= j < moves.len() implies #[trigger] self.nodes@[before.len() + j].gamestate
                    == state_after(state, moves[j]) by {
                    assert(self.nodes@[leaf as int].children@[j] == before.len() + j);
                }
            }
            proof {
                assert forall|k: int| 0 <= k < self.nodes@.len() implies #[trigger] self.nodes@[k].visits < u32::MAX
                    - path@.len() by {
                    if k < before.len() && k != leaf {
                        assert(self.nodes@[k] == before[k]);
                    }
                    if k >= before.len() {
                        let j = k - before.len();
                        assert(self.nodes@[leaf as int].children@[j] == k);
                    }
                }
            }
        } else {
            score = evaluate(&state, me, w);
            proof {
                assert(finished(playout(state, Seq::<usize>::empty())));
            }
        }
        let ghost mid = self.nodes@;
        let ghost rolled = if path@.len() == 0 {
            0
        } else {
            path@.last() as int
        };
        proof {
            assert(mid[0].visits == old(self).nodes@[0].visits);
            assert(rollout_value(mid[rolled].gamestate, score, me, *w));
            assert forall|k: int| 0 <= k < mid.len() implies #[trigger] mid[k].value == (if k < old(self).nodes@.len() {
                old(self).nodes@[k].value
            } else {
                0
            }) by {
                if old(self).nodes@.len() < mid.len() && k >= old(self).nodes@.len() {
                    let j = k - old(self).nodes@.len();
                    assert(mid[leaf as int].children@[j] == k);
                } else if k != leaf {
                    assert(mid[k] == old(self).nodes@[k]);
                }
            }
        }
        self.backprop(path, score);
        proof {
            assert(self.nodes@[0].gamestate == mid[0].gamestate);
            assert forall|k: int| 0 <= k < path@.len() implies self.nodes@[#[trigger] path@[k] as int].visits >= 1 by {
                let q = path@[k] as int;
                assert(self.nodes@[q].gamestate == mid[q].gamestate);
                assert(path@.contains(path@[k]));
            }
            assert(self.nodes@[rolled].gamestate == mid[rolled].gamestate);
            assert forall|k: int| 0 <= k < self.nodes@.len() implies #[trigger] self.nodes@[k].value == (if k == 0
                || path@.contains(k as usize) {
                clamped_sum(if k < old(self).nodes@.len() { old(self).nodes@[k].value } else { 0 }, score)
            } else {
                if k < old(self).nodes@.len() {
                    old(self).nodes@[k].value
                } else {
                    0
                }
            }) by {
                assert(self.nodes@[k].gamestate == mid[k].gamestate);
            }
            assert(scored(*old(self), *self, path@, score, me, *w));
            let g = old(self).nodes@[leaf as int].gamestate;
            let moves = g.board.legal_moves(g.to_move());
            assert forall|j: int| 0 <= j < moves.len() && old(self).nodes@.len() + j < self.nodes@.len() implies
                #[trigger] self.nodes@[old(self).nodes@.len() + j].gamestate == mid[old(self).nodes@.len() + j].gamestate by {
                assert(self.nodes@[old(self).nodes@.len() + j].gamestate == mid[old(self).nodes@.len() + j].gamestate);
            }
            assert(self.nodes@[leaf as int].gamestate == mid[leaf as int].gamestate);
        }
    }

    /// The move of the root's state that leads to its child with the largest value sum (the
    /// first such move in generation order).
    pub fn best_move(&self) -> (r: Move)
        requires
            self.wf(),
            self.nodes@[0].children@.len() > 0,
            self.nodes@[0].children@.len() == self.nodes@[0].gamestate.board.legal_moves(
                self.nodes@[0].gamestate.to_move(),
            ).len(),
        ensures
            exists|k: int|
                0 <= k < self.nodes@[0].children@.len() && r == self.nodes@[0].gamestate.board.legal_moves(
                    self.nodes@[0].gamestate.to_move(),
                )[k] && (forall|j: int|
                    0 <= j < self.nodes@[0].children@.len() ==> self.nodes@[#[trigger] self.nodes@[0].children@[j] as int].value
                        <= self.nodes@[self.nodes@[0].children@[k] as int].value) && (forall|j: int|
                    0 <= j < k ==> self.nodes@[#[trigger] self.nodes@[0].children@[j] as int].value
                        < self.nodes@[self.nodes@[0].children@[k] as int].value),
    {
        let k = self.best_node_index();
        let moves = self.nodes[0].gamestate.available_moves_current_player();
        move_at(&moves, k)
    }

    /// The index, among the root's children, of the first one with the largest value sum.
    pub fn best_node_index(&self) -> (r: usize)
        requires
            self.wf(),
            self.nodes@[0].children@.len() > 0,
        ensures
            r < self.nodes@[0].children@.len(),
            forall|j: int|
                0 <= j < self.nodes@[0].children@.len() ==> self.nodes@[self.nodes@[0].children@[j] as int].value
                    <= self.nodes@[self.nodes@[0].children@[r as int] as int].value,
            forall|j: int|
                0 <= j < r ==> self.nodes@[self.nodes@[0].children@[j] as int].value
                    < self.nodes@[self.nodes@[0].children@[r as int] as int].value,
    {
        let children = &self.nodes[0].children;
        let mut best_index: usize = 0;
        let mut best_value: i64 = self.nodes[children[0]].value;
        let mut j: usize = 1;
        while j < children.len()
            invariant
                self.wf(),
                children@ == self.nodes@[0].children@,
                1 <= j <= children@.len(),
                best_index < j,
                best_value == self.nodes@[children@[best_index as int] as int].value,
                forall|q: int| 0 <= q < j ==> self.nodes@[#[trigger] children@[q] as int].value <= best_value,
                forall|q: int| 0 <= q < best_index ==> self.nodes@[#[trigger] children@[q] as int].value < best_value,
            decreases children@.len() - j,
        {
            let v = self.nodes[children[j]].value;
            if v > best_value {
                best_value = v;
                best_index = j;
            }
            j = j + 1;
        }
        best_index
    }
}

impl MctsNode {
    fn clone_node(&self) -> (r: MctsNode)
        ensures
            r.gamestate == self.gamestate,
            r.children@ == self.children@,
            r.visits == self.visits,
            r.value == self.value,
    {
        MctsNode {
            children: self.children.clone(),
            gamestate: self.gamestate,
            visits: self.visits,
            value: self.value,
        }
    }
}

/// Plays uniformly random moves from `state` until the game ends or the team to move has no
/// move, and evaluates the final state for `me`: the random indices drawn are some `draws`
/// for `playout`.
pub fn rollout(state: &Gamestate, rng: &mut StdRng, me: Team, w: &EvalWeights) -> (r: i64)
    requires
        searchable(*state),
    ensures
        rollout_value(*state, r, me, *w),
{
    let mut g = *state;
    let ghost mut draws: Seq<usize> = Seq::empty();
    let mut stuck = false;
    while !stuck && !g.game_over()
        invariant
            searchable(g),
            g == playout(*state, draws),
            stuck ==> g.board.legal_moves(g.to_move()).len() == 0,
        decreases 2 * (60 - g.turn) + (if stuck {
            0int
        } else {
            1int
        }),
    {
        let moves = g.available_moves_current_player();
        let n = move_count(&moves);
        if n == 0 {
            stuck = true;
        } else {
            let k = random_index(rng, n);
            let m = move_at(&moves, k);
            proof {
                g.board.lemma_legal_moves_can_move(g.to_move());
                assert(can_move(g.board.view(), thin_moves(moves)[k as int], g.to_move()));
                assert(draws.push(k).drop_last() =~= draws);
                vstd::arithmetic::div_mod::lemma_small_mod(k as nat, n as nat);
                draws = draws.push(k);
            }
            g.apply_move(&m);
        }
    }
    let r = evaluate(&g, me, w);
    proof {
        assert(finished(playout(*state, draws)) && r == evaluation(playout(*state, draws), me, *w));
    }
    r
}

} // verus!
