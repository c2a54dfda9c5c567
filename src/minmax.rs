use vstd::prelude::*;

use crate::board::can_move;
use crate::evaluation::{evaluate, evaluation, lemma_evaluation_range, EvalWeights};
use crate::gamestate::{state_after, Gamestate};
use crate::pieces::{Move, Team};
use crate::clock::elapsed_millis;
use crate::thin::{move_at, move_count, thin_moves};
use std::time::Instant;

verus! {

/// A state the search may explore: well formed, and far enough from the limits of the turn
/// counter and the points that every move until turn 60 can be applied.
pub open spec fn searchable(g: Gamestate) -> bool {
    &&& g.wf()
    &&& g.turn <= 60
    &&& g.ambers[0] + 2 * (60 - g.turn) <= 253
    &&& g.ambers[1] + 2 * (60 - g.turn) <= 253
}

/// The value of `g` for `me` found by looking `depth` moves ahead: the evaluation at depth 0
/// or at the end of the game, else the best child value for the team to move.
pub open spec fn minimax(g: Gamestate, depth: nat, me: Team, w: EvalWeights) -> int
    decreases depth, 1nat, 0nat,
{
    if depth == 0 || g.is_over() {
        evaluation(g, me, w)
    } else {
        best_of(g, g.board.legal_moves(g.to_move()), depth, me, w)
    }
}

/// The best value among the children of `g` reached by `moves`: the largest when `me` is to
/// move, the smallest otherwise; the worst value of the 64-bit range when there is none.
pub open spec fn best_of(g: Gamestate, moves: Seq<Move>, depth: nat, me: Team, w: EvalWeights) -> int
    decreases depth, 0nat, moves.len(),
{
    if depth == 0 {
        0
    } else if moves.len() == 0 {
        if g.to_move() == me {
            i64::MIN as int
        } else {
            i64::MAX as int
        }
    } else {
        let rest = best_of(g, moves.drop_last(), depth, me, w);
        let v = minimax(state_after(g, moves.last()), (depth - 1) as nat, me, w);
        if g.to_move() == me {
            if v > rest {
                v
            } else {
                rest
            }
        } else {
            if v < rest {
                v
            } else {
                rest
            }
        }
    }
}

/// What a fail-soft alpha-beta search promises of its result `r` for the true value `v` and
/// the window `(alpha, beta)`: exact inside the window, a bound on the side where it fails.
pub open spec fn fail_soft(r: int, v: int, alpha: int, beta: int) -> bool {
    &&& (alpha < r < beta ==> r == v)
    &&& (r <= alpha ==> v <= r)
    &&& (r >= beta ==> v >= r)
}

/// With the whole 64-bit range as window, the pruned search returns exactly the value of the
/// exhaustive search to the same depth with the same evaluation.
pub proof fn lemma_alpha_beta_exact(r: i64, g: Gamestate, depth: nat, me: Team, w: EvalWeights)
    requires
        fail_soft(r as int, minimax(g, depth, me, w), i64::MIN as int, i64::MAX as int),
    ensures
        r == minimax(g, depth, me, w),
{
    lemma_minimax_range(g, depth, me, w);
}

/// Every value of the search fits the 64-bit range.
pub proof fn lemma_minimax_range(g: Gamestate, depth: nat, me: Team, w: EvalWeights)
    ensures
        i64::MIN <= minimax(g, depth, me, w) <= i64::MAX,
    decreases depth, 1nat, 0nat,
{
    if depth == 0 || g.is_over() {
        lemma_evaluation_range(g, me, w);
    } else {
        lemma_best_of_range(g, g.board.legal_moves(g.to_move()), depth, me, w);
    }
}

proof fn lemma_best_of_range(g: Gamestate, moves: Seq<Move>, depth: nat, me: Team, w: EvalWeights)
    ensures
        i64::MIN <= best_of(g, moves, depth, me, w) <= i64::MAX,
    decreases depth, 0nat, moves.len(),
{
    if depth > 0 && moves.len() > 0 {
        lemma_best_of_range(g, moves.drop_last(), depth, me, w);
        lemma_minimax_range(state_after(g, moves.last()), (depth - 1) as nat, me, w);
    }
}

proof fn lemma_best_of_prefix(g: Gamestate, moves: Seq<Move>, k: int, depth: nat, me: Team, w: EvalWeights)
    requires
        0 <= k < moves.len(),
        depth > 0,
    ensures
        best_of(g, moves.take(k + 1), depth, me, w) == ({
            let rest = best_of(g, moves.take(k), depth, me, w);
            let v = minimax(state_after(g, moves[k]), (depth - 1) as nat, me, w);
            if g.to_move() == me {
                if v > rest {
                    v
                } else {
                    rest
                }
            } else {
                if v < rest {
                    v
                } else {
                    rest
                }
            }
        }),
{
    assert(moves.take(k + 1).drop_last() =~= moves.take(k));
    assert(moves.take(k + 1).last() == moves[k]);
}

/// The best value over all moves bounds the best value over the first `k` of them.
proof fn lemma_best_of_bounds(g: Gamestate, moves: Seq<Move>, k: int, depth: nat, me: Team, w: EvalWeights)
    requires
        0 <= k <= moves.len(),
        depth > 0,
    ensures
        g.to_move() == me ==> best_of(g, moves, depth, me, w) >= best_of(g, moves.take(k), depth, me, w),
        g.to_move() != me ==> best_of(g, moves, depth, me, w) <= best_of(g, moves.take(k), depth, me, w),
    decreases moves.len() - k,
{
    if k < moves.len() {
        lemma_best_of_prefix(g, moves, k, depth, me, w);
        lemma_best_of_bounds(g, moves, k + 1, depth, me, w);
    } else {
        assert(moves.take(k) =~= moves);
    }
}

/// The alpha-beta searcher: a fixed depth, the team it plays for and the evaluation weights.
#[derive(Clone, Copy, Debug)]
pub struct MinMax {
    pub max_depth: u8,
    pub my_team: Team,
    pub weights: EvalWeights,
}

impl MinMax {
    pub fn new(search_depth: u8, weights: EvalWeights) -> (r: Self)
        ensures
            r.max_depth == search_depth,
            r.my_team == Team::ONE,
            r.weights == weights,
    {
        MinMax { max_depth: search_depth, my_team: Team::ONE, weights }
    }

    /// Fail-soft alpha-beta search of `state` to `depth`, for `self.my_team`.
    pub fn min_max(&self, state: &Gamestate, depth: u8, alpha: i64, beta: i64) -> (r: i64)
        requires
            searchable(*state),
            alpha < beta,
        ensures
            fail_soft(
                r as int,
                minimax(*state, depth as nat, self.my_team, self.weights),
                alpha as int,
                beta as int,
            ),
        decreases depth,
    {
        if depth == 0 || state.game_over() {
            return evaluate(state, self.my_team, &self.weights);
        }
        let ghost g = *state;
        let ghost d = depth as nat;
        let ghost me = self.my_team;
        let ghost w = self.weights;
        let moves = state.available_moves_current_player();
        let ghost ms = thin_moves(moves);
        let n = move_count(&moves);
        proof {
            state.board.lemma_legal_moves_can_move(state.to_move());
            assert(ms.take(n as int) =~= ms);
        }
        let maximizing = state.current_player() == self.my_team;
        let mut best: i64 = if maximizing {
            i64::MIN
        } else {
            i64::MAX
        };
        let mut a = alpha;
        let mut b = beta;
        let mut i: usize = 0;
        while i < n
            invariant
                0 <= i <= n,
                n == ms.len(),
                ms == thin_moves(moves),
                ms == g.board.legal_moves(g.to_move()),
                g == *state,
                d == depth as nat,
                depth > 0,
                !g.is_over(),
                searchable(g),
                alpha < beta,
                me == self.my_team,
                w == self.weights,
                maximizing == (g.to_move() == me),
                forall|j: int| 0 <= j < ms.len() ==> can_move(g.board.view(), #[trigger] ms[j], g.to_move()),
                maximizing ==> {
                    &&& b == beta
                    &&& a == (if best > alpha { best } else { alpha })
                    &&& best < beta
                    &&& (best <= alpha ==> best_of(g, ms.take(i as int), d, me, w) <= best)
                    &&& (best > alpha ==> best_of(g, ms.take(i as int), d, me, w) == best)
                },
                !maximizing ==> {
                    &&& a == alpha
                    &&& b == (if best < beta { best } else { beta })
                    &&& best > alpha
                    &&& (best >= beta ==> best_of(g, ms.take(i as int), d, me, w) >= best)
                    &&& (best < beta ==> best_of(g, ms.take(i as int), d, me, w) == best)
                },
            decreases n - i,
        {
            let m = move_at(&moves, i);
            let mut child = *state;
            proof {
                assert(can_move(g.board.view(), ms[i as int], g.to_move()));
            }
            child.apply_move(&m);
            let value = self.min_max(&child, depth - 1, a, b);
            proof {
                lemma_best_of_prefix(g, ms, i as int, d, me, w);
            }
            if maximizing {
                if value > best {
                    best = value;
                }
                if value > a {
                    a = value;
                }
                if b <= a {
                    proof {
                        lemma_best_of_prefix(g, ms, i as int, d, me, w);
                        lemma_best_of_bounds(g, ms, i + 1, d, me, w);
                    }
                    return best;
                }
            } else {
                if value < best {
                    best = value;
                }
                if value < b {
                    b = value;
                }
                if b <= a {
                    proof {
                        lemma_best_of_bounds(g, ms, i + 1, d, me, w);
                    }
                    return best;
                }
            }
            i = i + 1;
        }
        best
    }

    /// What a node of the timed search answers without searching once `elapsed_ms` has
    /// reached `budget_ms`: the current bound of the side to move there, `alpha` when
    /// `self.my_team` is to move and `beta` otherwise. `None` while time is left.
    pub fn cutoff(&self, state: &Gamestate, elapsed_ms: u64, budget_ms: u64, alpha: i64, beta: i64) -> (r:
        Option<i64>)
        ensures
            r == if elapsed_ms >= budget_ms {
                Some(if state.to_move() == self.my_team { alpha } else { beta })
            } else {
                None::<i64>
            },
    {
        if elapsed_ms >= budget_ms {
            if state.current_player() == self.my_team {
                Some(alpha)
            } else {
                Some(beta)
            }
        } else {
            None
        }
    }

    /// Fail-soft alpha-beta search under a time budget. A node entered after `budget_ms`
    /// milliseconds since `start` is not searched: it answers what `cutoff` gives for the
    /// clock's reading, and the search reports itself incomplete. A
    /// complete search keeps the promise of `min_max`.
    pub fn min_max_timed(
        &self,
        state: &Gamestate,
        depth: u8,
        alpha: i64,
        beta: i64,
        start: &Instant,
        budget_ms: u64,
    ) -> (r: (i64, bool))
        requires
            searchable(*state),
            alpha < beta,
        ensures
            r.1 ==> fail_soft(
                r.0 as int,
                minimax(*state, depth as nat, self.my_team, self.weights),
                alpha as int,
                beta as int,
            ),
            depth == 0 || state.is_over() ==> r.1 && r.0 == evaluation(*state, self.my_team, self.weights),
            !r.1 ==> depth > 0 && !state.is_over(),
        decreases depth,
    {
        if depth == 0 || state.game_over() {
            return (evaluate(state, self.my_team, &self.weights), true);
        }
        if let Some(bound) = self.cutoff(state, elapsed_millis(start), budget_ms, alpha, beta) {
            return (bound, false);
        }
        let mut complete = true;
        let ghost g = *state;
        let ghost d = depth as nat;
        let ghost me = self.my_team;
        let ghost w = self.weights;
        let moves = state.available_moves_current_player();
        let ghost ms = thin_moves(moves);
        let n = move_count(&moves);
        proof {
            state.board.lemma_legal_moves_can_move(state.to_move());
            assert(ms.take(n as int) =~= ms);
        }
        let maximizing = state.current_player() == self.my_team;
        let mut best: i64 = if maximizing {
            i64::MIN
        } else {
            i64::MAX
        };
        let mut a = alpha;
        let mut b = beta;
        let mut i: usize = 0;
        while i < n
            invariant
                0 <= i <= n,
                n == ms.len(),
                ms == thin_moves(moves),
                ms == g.board.legal_moves(g.to_move()),
                g == *state,
                d == depth as nat,
                depth > 0,
                !g.is_over(),
                searchable(g),
                alpha < beta,
                me == self.my_team,
                w == self.weights,
                maximizing == (g.to_move() == me),
                forall|j: int| 0 <= j < ms.len() ==> can_move(g.board.view(), #[trigger] ms[j], g.to_move()),
                maximizing ==> {
                    &&& b == beta
                    &&& a == (if best > alpha { best } else { alpha })
                    &&& best < beta
                    &&& (complete && best <= alpha ==> best_of(g, ms.take(i as int), d, me, w) <= best)
                    &&& (complete && best > alpha ==> best_of(g, ms.take(i as int), d, me, w) == best)
                },
                !maximizing ==> {
                    &&& a == alpha
                    &&& b == (if best < beta { best } else { beta })
                    &&& best > alpha
                    &&& (complete && best >= beta ==> best_of(g, ms.take(i as int), d, me, w) >= best)
                    &&& (complete && best < beta ==> best_of(g, ms.take(i as int), d, me, w) == best)
                },
            decreases n - i,
        {
            let m = move_at(&moves, i);
            let mut child = *state;
            proof {
                assert(can_move(g.board.view(), ms[i as int], g.to_move()));
            }
            child.apply_move(&m);
            let (value, done) = self.min_max_timed(&child, depth - 1, a, b, start, budget_ms);
            complete = complete && done;
            proof {
                lemma_best_of_prefix(g, ms, i as int, d, me, w);
            }
            if maximizing {
                if value > best {
                    best = value;
                }
                if value > a {
                    a = value;
                }
                if b <= a {
                    proof {
                        lemma_best_of_prefix(g, ms, i as int, d, me, w);
                        lemma_best_of_bounds(g, ms, i + 1, d, me, w);
                    }
                    return (best, complete);
                }
            } else {
                if value < best {
                    best = value;
                }
                if value < b {
                    b = value;
                }
                if b <= a {
                    proof {
                        lemma_best_of_bounds(g, ms, i + 1, d, me, w);
                    }
                    return (best, complete);
                }
            }
            i = i + 1;
        }
        (best, complete)
    }

    /// The value of `state` for `self.my_team` by plain minimax, without pruning.
    pub fn exhaustive(&self, state: &Gamestate, depth: u8) -> (r: i64)
        requires
            searchable(*state),
        ensures
            r == minimax(*state, depth as nat, self.my_team, self.weights),
        decreases depth,
    {
        if depth == 0 || state.game_over() {
            return evaluate(state, self.my_team, &self.weights);
        }
        let ghost g = *state;
        let ghost d = depth as nat;
        let ghost me = self.my_team;
        let ghost w = self.weights;
        let moves = state.available_moves_current_player();
        let ghost ms = thin_moves(moves);
        let n = move_count(&moves);
        proof {
            state.board.lemma_legal_moves_can_move(state.to_move());
            assert(ms.take(n as int) =~= ms);
            assert(ms.take(0) =~= Seq::<Move>::empty());
        }
        let maximizing = state.current_player() == self.my_team;
        let mut best: i64 = if maximizing {
            i64::MIN
        } else {
            i64::MAX
        };
        let mut i: usize = 0;
        while i < n
            invariant
                0 <= i <= n,
                n == ms.len(),
                ms == thin_moves(moves),
                ms == g.board.legal_moves(g.to_move()),
                g == *state,
                d == depth as nat,
                depth > 0,
                !g.is_over(),
                searchable(g),
                me == self.my_team,
                w == self.weights,
                maximizing == (g.to_move() == me),
                forall|j: int| 0 <= j < ms.len() ==> can_move(g.board.view(), #[trigger] ms[j], g.to_move()),
                best == best_of(g, ms.take(i as int), d, me, w),
            decreases n - i,
        {
            let m = move_at(&moves, i);
            let mut child = *state;
            proof {
                assert(can_move(g.board.view(), ms[i as int], g.to_move()));
            }
            child.apply_move(&m);
            let value = self.exhaustive(&child, depth - 1);
            proof {
                lemma_best_of_prefix(g, ms, i as int, d, me, w);
            }
            if maximizing {
                if value > best {
                    best = value;
                }
            } else {
                if value < best {
                    best = value;
                }
            }
            i = i + 1;
        }
        best
    }

    /// The first move, in generation order, whose child has the highest value when searched
    /// `max_depth - 1` moves further.
    pub fn recommend_move(&mut self, state: &Gamestate, my_team: Team) -> (r: Move)
        requires
            searchable(*state),
            !state.is_over(),
            state.to_move() == my_team,
            state.board.legal_moves(my_team).len() > 0,
            old(self).max_depth > 0,
        ensures
            final(self).my_team == my_team,
            final(self).max_depth == old(self).max_depth,
            final(self).weights == old(self).weights,
            best_first(*state, state.board.legal_moves(my_team), r, (old(self).max_depth - 1) as nat, my_team, old(self).weights),
    {
        self.my_team = my_team;
        self.best_at(state, self.max_depth - 1)
    }

    /// Iterative deepening under a time budget: searches to depth 1, 2, ... up to
    /// `max_depth` and keeps the move of the deepest search that finished within `budget_ms`
    /// milliseconds since `start`. The first depth is always searched in full.
    pub fn best_move_timed(&mut self, state: &Gamestate, my_team: Team, start: &Instant, budget_ms: u64) -> (r: Move)
        requires
            searchable(*state),
            !state.is_over(),
            state.to_move() == my_team,
            state.board.legal_moves(my_team).len() > 0,
            old(self).max_depth > 0,
        ensures
            final(self).my_team == my_team,
            final(self).max_depth == old(self).max_depth,
            final(self).weights == old(self).weights,
            exists|d: nat|
                d < old(self).max_depth && best_first(
                    *state,
                    state.board.legal_moves(my_team),
                    r,
                    d,
                    my_team,
                    old(self).weights,
                ),
    {
        self.my_team = my_team;
        let mut best = self.best_at(state, 0);
        let mut depth: u8 = 1;
        while depth < self.max_depth
            invariant
                searchable(*state),
                !state.is_over(),
                state.to_move() == my_team,
                state.board.legal_moves(my_team).len() > 0,
                self.my_team == my_team,
                self.max_depth == old(self).max_depth,
                self.weights == old(self).weights,
                1 <= depth <= self.max_depth,
                exists|d: nat|
                    d < depth && best_first(*state, state.board.legal_moves(my_team), best, d, my_team, self.weights),
            decreases self.max_depth - depth,
        {
            if elapsed_millis(start) >= budget_ms {
                break;
            }
            match self.best_at_timed(state, depth, start, budget_ms) {
                Some(m) => {
                    best = m;
                },
                None => {
                    break;
                },
            }
            depth = depth + 1;
        }
        best
    }

    /// The first move whose child has the highest value when searched `depth` moves further.
    fn best_at(&self, state: &Gamestate, depth: u8) -> (r: Move)
        requires
            searchable(*state),
            !state.is_over(),
            state.to_move() == self.my_team,
            state.board.legal_moves(self.my_team).len() > 0,
        ensures
            best_first(*state, state.board.legal_moves(self.my_team), r, depth as nat, self.my_team, self.weights),
    {
        let my_team = self.my_team;
        let moves = state.available_moves(my_team);
        let ghost ms = thin_moves(moves);
        let ghost dd = depth as nat;
        let n = move_count(&moves);
        proof {
            state.board.lemma_legal_moves_can_move(my_team);
        }
        let mut best_index: usize = 0;
        let mut best_value: i64 = i64::MIN;
        let mut i: usize = 0;
        while i < n
            invariant
                0 <= i <= n,
                n == ms.len(),
                n > 0,
                ms == thin_moves(moves),
                ms == state.board.legal_moves(my_team),
                my_team == state.to_move(),
                self.my_team == my_team,
                dd == depth as nat,
                searchable(*state),
                !state.is_over(),
                forall|j: int| 0 <= j < ms.len() ==> can_move(state.board.view(), #[trigger] ms[j], my_team),
                best_index < n,
                i > 0 ==> best_index < i,
                i > 0 ==> best_value == child_value(*state, ms[best_index as int], dd, my_team, self.weights),
                forall|j: int| 0 <= j < i ==> child_value(*state, #[trigger] ms[j], dd, my_team, self.weights) <= best_value,
                forall|j: int| 0 <= j < best_index ==> child_value(*state, #[trigger] ms[j], dd, my_team, self.weights) < best_value,
                i == 0 ==> best_index == 0 && best_value == i64::MIN,
            decreases n - i,
        {
            let m = move_at(&moves, i);
            let mut child = *state;
            proof {
                assert(can_move(state.board.view(), ms[i as int], my_team));
            }
            child.apply_move(&m);
            let value = self.min_max(&child, depth, i64::MIN, i64::MAX);
            proof {
                lemma_alpha_beta_exact(value, child, dd, my_team, self.weights);
            }
            if i == 0 || value > best_value {
                best_value = value;
                best_index = i;
            }
            i = i + 1;
        }
        move_at(&moves, best_index)
    }

    /// As `best_at`, under a time budget: `None` when a search ran out of time.
    fn best_at_timed(&self, state: &Gamestate, depth: u8, start: &Instant, budget_ms: u64) -> (r: Option<Move>)
        requires
            searchable(*state),
            !state.is_over(),
            state.to_move() == self.my_team,
            state.board.legal_moves(self.my_team).len() > 0,
        ensures
            r matches Some(m) ==> best_first(*state, state.board.legal_moves(self.my_team), m, depth as nat, self.my_team, self.weights),
    {
        let my_team = self.my_team;
        let moves = state.available_moves(my_team);
        let ghost ms = thin_moves(moves);
        let ghost dd = depth as nat;
        let n = move_count(&moves);
        proof {
            state.board.lemma_legal_moves_can_move(my_team);
        }
        let mut best_index: usize = 0;
        let mut best_value: i64 = i64::MIN;
        let mut i: usize = 0;
        while i < n
            invariant
                0 <= i <= n,
                n == ms.len(),
                n > 0,
                ms == thin_moves(moves),
                ms == state.board.legal_moves(my_team),
                my_team == state.to_move(),
                self.my_team == my_team,
                dd == depth as nat,
                searchable(*state),
                !state.is_over(),
                forall|j: int| 0 <= j < ms.len() ==> can_move(state.board.view(), #[trigger] ms[j], my_team),
                best_index < n,
                i > 0 ==> best_index < i,
                i > 0 ==> best_value == child_value(*state, ms[best_index as int], dd, my_team, self.weights),
                forall|j: int| 0 <= j < i ==> child_value(*state, #[trigger] ms[j], dd, my_team, self.weights) <= best_value,
                forall|j: int| 0 <= j < best_index ==> child_value(*state, #[trigger] ms[j], dd, my_team, self.weights) < best_value,
                i == 0 ==> best_index == 0 && best_value == i64::MIN,
            decreases n - i,
        {
            let m = move_at(&moves, i);
            let mut child = *state;
            proof {
                assert(can_move(state.board.view(), ms[i as int], my_team));
            }
            child.apply_move(&m);
            let (value, complete) = self.min_max_timed(&child, depth, i64::MIN, i64::MAX, start, budget_ms);
            if !complete {
                return None;
            }
            proof {
                lemma_alpha_beta_exact(value, child, dd, my_team, self.weights);
            }
            if i == 0 || value > best_value {
                best_value = value;
                best_index = i;
            }
            i = i + 1;
        }
        Some(move_at(&moves, best_index))
    }
}

/// The first position holding the largest of `values`; used to pick the root move from the
/// values of all root moves, in generation order, when they were searched apart.
pub fn best_index(values: &Vec<i64>) -> (r: usize)
    requires
        values@.len() > 0,
    ensures
        r < values@.len(),
        forall|j: int| 0 <= j < values@.len() ==> #[trigger] values@[j] <= values@[r as int],
        forall|j: int| 0 <= j < r ==> #[trigger] values@[j] < values@[r as int],
{
    let mut best: usize = 0;
    let mut i: usize = 1;
    while i < values.len()
        invariant
            1 <= i <= values@.len(),
            best < i,
            forall|j: int| 0 <= j < i ==> #[trigger] values@[j] <= values@[best as int],
            forall|j: int| 0 <= j < best ==> #[trigger] values@[j] < values@[best as int],
        decreases values@.len() - i,
    {
        if values[i] > values[best] {
            best = i;
        }
        i = i + 1;
    }
    best
}

/// The value of the child of `g` reached by `m`, searched `depth` moves further.
pub open spec fn child_value(g: Gamestate, m: Move, depth: nat, me: Team, w: EvalWeights) -> int {
    minimax(state_after(g, m), depth, me, w)
}

/// `m` is the first of `moves` whose child has the highest value.
pub open spec fn best_first(g: Gamestate, moves: Seq<Move>, m: Move, depth: nat, me: Team, w: EvalWeights) -> bool {
    exists|k: int|
        0 <= k < moves.len() && moves[k] == m && (forall|j: int|
            0 <= j < moves.len() ==> child_value(g, #[trigger] moves[j], depth, me, w) <= child_value(
                g,
                m,
                depth,
                me,
                w,
            )) && (forall|j: int|
            0 <= j < k ==> child_value(g, #[trigger] moves[j], depth, me, w) < child_value(g, m, depth, me, w))
}

} // verus!
