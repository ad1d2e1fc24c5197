use vstd::prelude::*;

use crate::analyzer::{random_in_range, Analyzer};
use crate::field::{lemma_valid_moves_sound, spec_valid_moves, Field, Move};

verus! {

/// A game interface: a state enumerates its legal moves and applies one,
/// reporting the terminal status or failing on an illegal move.
pub trait Game<M> {
    /// The state invariant that the operations rely on and preserve.
    spec fn inv(&self) -> bool;

    fn valid_moves(&self) -> (r: Vec<M>)
        requires
            self.inv(),
    ;

    fn make_move(&mut self, m: M) -> (r: Result<Option<u8>, ()>)
        requires
            old(self).inv(),
        ensures
            final(self).inv(),
    ;
}

impl Game<Move> for Field {
    open spec fn inv(&self) -> bool {
        self.wf()
    }

    fn valid_moves(&self) -> (r: Vec<Move>) {
        Field::valid_moves(self)
    }

    fn make_move(&mut self, m: Move) -> (r: Result<Option<u8>, ()>) {
        Field::make_move(self, m)
    }
}

/// A search value: a definite outcome of the game tree, or a finite
/// heuristic score.
#[derive(Copy, Clone)]
enum SearchValue {
    NegInf,
    Finite(i64),
    PosInf,
}

/// Strictly-greater comparison of search values.
spec fn spec_value_gt(a: SearchValue, b: SearchValue) -> bool {
    match (a, b) {
        (SearchValue::NegInf, _) => false,
        (SearchValue::Finite(_), SearchValue::PosInf) => false,
        (SearchValue::Finite(x), SearchValue::Finite(y)) => x > y,
        (SearchValue::Finite(_), SearchValue::NegInf) => true,
        (SearchValue::PosInf, SearchValue::PosInf) => false,
        (SearchValue::PosInf, _) => true,
    }
}

/// Strictly-greater comparison of search values.
fn value_gt(a: SearchValue, b: SearchValue) -> (r: bool)
    ensures
        r == spec_value_gt(a, b),
{
    match (a, b) {
        (SearchValue::NegInf, _) => false,
        (SearchValue::Finite(_), SearchValue::PosInf) => false,
        (SearchValue::Finite(x), SearchValue::Finite(y)) => x > y,
        (SearchValue::Finite(_), SearchValue::NegInf) => true,
        (SearchValue::PosInf, SearchValue::PosInf) => false,
        (SearchValue::PosInf, _) => true,
    }
}

/// Applying `m` to `s` ends the game at once with the mover the winner.
pub open spec fn spec_immediate_win(s: Field, m: Move) -> bool {
    s.spec_apply(m).spec_winner() == Some(s.current_player_id)
}

/// Applying `m` to `s` ends the game at once without the mover winning:
/// an immediate defeat or draw.
pub open spec fn spec_immediate_loss(s: Field, m: Move) -> bool {
    s.spec_apply(m).spec_winner() matches Some(w) && w != s.current_player_id
}

/// The minimax player: explores the game tree to a fixed depth, scoring
/// leaves with its evaluator plus a small random tie-breaking jitter.
pub struct Bot<A: Analyzer> {
    max_depth: u32,
    analyzer: A,
}

impl<A: Analyzer> Bot<A> {
    /// The configured search depth.
    pub closed spec fn spec_max_depth(&self) -> u32 {
        self.max_depth
    }

    /// The configured evaluator.
    pub closed spec fn spec_analyzer(&self) -> A {
        self.analyzer
    }

    /// A player that searches `max_depth` plies deep with the given
    /// evaluator.
    pub fn new(max_depth: u32, analyzer: A) -> (r: Bot<A>)
        ensures
            r.spec_max_depth() == max_depth,
            r.spec_analyzer() == analyzer,
    {
        Bot { max_depth, analyzer }
    }

    /// The evaluator's score plus a small tie-breaking jitter: for a
    /// deterministic evaluator the result strays at most 19 score units
    /// (a hundredth of a point) from the exact score.
    fn heuristic(&self, player_id: u8, field: Field) -> (r: i64)
        requires
            field.wf(),
            player_id == 1 || player_id == 2,
        ensures
            -2_000_020 <= r <= 2_000_020,
            self.analyzer.is_deterministic() ==> self.analyzer.spec_score(player_id, field) - 19
                <= r as int <= self.analyzer.spec_score(player_id, field) + 19,
    {
        self.analyzer.heuristic(player_id, field) + random_in_range(-19, 20)
    }

    /// Chooses a move for the side to move: `None` exactly when the player
    /// to move has no legal move; otherwise a legal move of maximal search
    /// value, the earliest enumerated among ties. In particular, when every
    /// legal move ends the game the same way — all immediate wins, or all
    /// immediate defeats — the first enumerated move is chosen.
    pub fn decide(&self, field: Field) -> (r: Option<Move>)
        requires
            field.wf(),
        ensures
            r is None <==> spec_valid_moves(field).len() == 0,
            r matches Some(m) ==> field.spec_is_valid_move(m) && spec_valid_moves(field).contains(
                m,
            ),
            spec_valid_moves(field).len() > 0 && (forall|i: int|
                0 <= i < spec_valid_moves(field).len() ==> spec_immediate_loss(
                    field,
                    #[trigger] spec_valid_moves(field)[i],
                )) ==> r == Some(spec_valid_moves(field)[0]),
            spec_valid_moves(field).len() > 0 && (forall|i: int|
                0 <= i < spec_valid_moves(field).len() ==> spec_immediate_win(
                    field,
                    #[trigger] spec_valid_moves(field)[i],
                )) ==> r == Some(spec_valid_moves(field)[0]),
    {
        let player_id = field.current_player_id;
        let valid_moves = field.valid_moves();
        if valid_moves.len() == 0 {
            return None;
        }
        let mut value: Option<SearchValue> = None;
        let mut good_m: Option<Move> = None;
        let mut i: usize = 0;
        while i < valid_moves.len()
            invariant
                field.wf(),
                player_id == field.current_player_id,
                valid_moves@ == spec_valid_moves(field),
                i <= valid_moves@.len(),
                value is Some <==> good_m is Some,
                i == 0 ==> value is None,
                i > 0 ==> good_m is Some,
                good_m matches Some(g) ==> field.spec_is_valid_move(g) && spec_valid_moves(
                    field,
                ).contains(g),
                i > 0 && (forall|j: int|
                    0 <= j < i ==> spec_immediate_loss(field, #[trigger] valid_moves@[j]))
                    ==> good_m == Some(valid_moves@[0]) && value == Some(SearchValue::NegInf),
                i > 0 && (forall|j: int|
                    0 <= j < i ==> spec_immediate_win(field, #[trigger] valid_moves@[j]))
                    ==> good_m == Some(valid_moves@[0]) && value == Some(SearchValue::PosInf),
            decreases valid_moves@.len() - i,
        {
            proof {
                lemma_valid_moves_sound(field);
            }
            let m = valid_moves[i];
            proof {
                assert(valid_moves@[i as int] == m);
                assert(spec_valid_moves(field).contains(m));
            }
            let mut nextfield = field;
            let newvalue = match nextfield.make_move(m).unwrap() {
                Some(winner) => if winner == player_id {
                    SearchValue::PosInf
                } else {
                    SearchValue::NegInf
                },
                None => self.minimax(nextfield, player_id, 1),
            };
            let replace = match value {
                None => true,
                Some(v) => value_gt(newvalue, v),
            };
            if replace {
                value = Some(newvalue);
                good_m = Some(m);
            }
            proof {
                if spec_immediate_loss(field, valid_moves@[i as int]) {
                    assert(newvalue == SearchValue::NegInf);
                }
                if spec_immediate_win(field, valid_moves@[i as int]) {
                    assert(newvalue == SearchValue::PosInf);
                }
            }
            i += 1;
        }
        good_m
    }

    /// The minimax value of `field` seen from `player_id`, `depth` plies
    /// into the search: the side to move maximizes when it is `player_id`
    /// and minimizes otherwise; a move that ends the game values its branch
    /// as an immediate win or loss. A leaf is worth the evaluator's score
    /// plus the jitter; an interior node without moves is worth the
    /// identity of its max or min.
    fn minimax(&self, field: Field, player_id: u8, depth: u32) -> (r: SearchValue)
        requires
            field.wf(),
            player_id == 1 || player_id == 2,
        ensures
            r matches SearchValue::Finite(v) ==> -2_000_020 <= v <= 2_000_020,
            depth >= self.spec_max_depth() ==> r is Finite,
            depth >= self.spec_max_depth() && self.spec_analyzer().is_deterministic() ==> (
            r matches SearchValue::Finite(v) && self.spec_analyzer().spec_score(player_id, field)
                - 19 <= v as int <= self.spec_analyzer().spec_score(player_id, field) + 19),
            depth < self.spec_max_depth() && spec_valid_moves(field).len() == 0 ==> r == (
            if player_id == field.current_player_id {
                SearchValue::NegInf
            } else {
                SearchValue::PosInf
            }),
        decreases self.max_depth - depth,
    {
        if depth >= self.max_depth {
            return SearchValue::Finite(self.heuristic(player_id, field));
        }
        let maximize = player_id == field.current_player_id;
        let valid_moves = field.valid_moves();
        let mut i: usize = 0;
        if maximize {
            let mut value = SearchValue::NegInf;
            while i < valid_moves.len()
                invariant
                    field.wf(),
                    player_id == 1 || player_id == 2,
                    valid_moves@ == spec_valid_moves(field),
                    i <= valid_moves@.len(),
                    depth < self.max_depth,
                    value matches SearchValue::Finite(v) ==> -2_000_020 <= v <= 2_000_020,
                    spec_valid_moves(field).len() == 0 ==> value == SearchValue::NegInf,
                decreases valid_moves@.len() - i,
            {
                proof {
                    lemma_valid_moves_sound(field);
                }
                let m = valid_moves[i];
                let mut nextfield = field;
                let nextvalue = match nextfield.make_move(m).unwrap() {
                    Some(winner) => if winner == player_id {
                        SearchValue::PosInf
                    } else {
                        SearchValue::NegInf
                    },
                    None => self.minimax(nextfield, player_id, depth + 1),
                };
                if value_gt(nextvalue, value) {
                    value = nextvalue;
                }
                i += 1;
            }
            value
        } else {
            let mut value = SearchValue::PosInf;
            while i < valid_moves.len()
                invariant
                    field.wf(),
                    player_id == 1 || player_id == 2,
                    valid_moves@ == spec_valid_moves(field),
                    i <= valid_moves@.len(),
                    depth < self.max_depth,
                    value matches SearchValue::Finite(v) ==> -2_000_020 <= v <= 2_000_020,
                    spec_valid_moves(field).len() == 0 ==> value == SearchValue::PosInf,
                decreases valid_moves@.len() - i,
            {
                proof {
                    lemma_valid_moves_sound(field);
                }
                let m = valid_moves[i];
                let mut nextfield = field;
                let nextvalue = match nextfield.make_move(m).unwrap() {
                    Some(winner) => if winner == player_id {
                        SearchValue::PosInf
                    } else {
                        SearchValue::NegInf
                    },
                    None => self.minimax(nextfield, player_id, depth + 1),
                };
                if value_gt(value, nextvalue) {
                    value = nextvalue;
                }
                i += 1;
            }
            value
        }
    }
}

} // verus!
