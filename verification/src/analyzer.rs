use vstd::prelude::*;

use crate::field::{on_board, spec_valid_moves, Field, Move};
use rand::Rng;

verus! {

/// Scores are integers in units of 1/1960 of the natural score unit: the
/// positional weights are exact multiples of 1/7, the mobility bonus is a
/// quarter point per move, and the amplified material score is a multiple
/// of 1/490, so every evaluator's exact value is an integer at this scale.
pub const SCORE_SCALE: i64 = 1960;

/// A heuristic evaluator: scores a state from one player's point of view,
/// higher being better for that player.
pub trait Analyzer {
    /// True when the score is a function of the inputs alone.
    spec fn is_deterministic(&self) -> bool;

    /// The exact score of a deterministic evaluator; meaningless otherwise.
    spec fn spec_score(&self, player_id: u8, field: Field) -> int;

    fn heuristic(&self, player_id: u8, field: Field) -> (r: i64)
        requires
            field.wf(),
            player_id == 1 || player_id == 2,
        ensures
            -2_000_000 <= r <= 2_000_000,
            self.is_deterministic() ==> r as int == self.spec_score(player_id, field),
    ;
}

/// Twice the Chebyshev distance from `(x, y)` to the board's center, which
/// lies between the four middle cells.
pub open spec fn center_distance2(x: int, y: int) -> int {
    let ax = if 2 * x >= 5 {
        2 * x - 5
    } else {
        5 - 2 * x
    };
    let ay = if 2 * y >= 5 {
        2 * y - 5
    } else {
        5 - 2 * y
    };
    if ax > ay {
        ax
    } else {
        ay
    }
}

/// Positional weight of cell `(x, y)`, in units of 1/7: cells nearer the
/// center weigh more, between 9 and 13 sevenths on the board.
pub open spec fn cell_cost7(x: int, y: int) -> int {
    14 - center_distance2(x, y)
}

/// The contribution of the cell with raster index `i` to the material
/// score, in units of 1/7: its weight, positively for `player`'s cells,
/// negatively for the opponent's, zero when empty.
pub open spec fn cell_contrib7(s: Field, player: u8, i: int) -> int {
    let x = i % 6;
    let y = i / 6;
    let c = s.cell(x, y);
    if c == 0 {
        0
    } else if c == player {
        cell_cost7(x, y)
    } else {
        -cell_cost7(x, y)
    }
}

/// The material score of the first `n` cells, in units of 1/7.
pub open spec fn material7_upto(s: Field, player: u8, n: int) -> int
    decreases n,
{
    if n <= 0 {
        0
    } else {
        material7_upto(s, player, n - 1) + cell_contrib7(s, player, n - 1)
    }
}

/// The material score of the whole board from `player`'s point of view,
/// in units of 1/7.
pub open spec fn material7(s: Field, player: u8) -> int {
    material7_upto(s, player, 36)
}

/// The number of clone moves among the first `n` of `ms`.
pub open spec fn count_cloning(ms: Seq<Move>, n: int) -> int
    decreases n,
{
    if n <= 0 {
        0
    } else {
        count_cloning(ms, n - 1) + if ms[n - 1].spec_is_cloning() {
            1int
        } else {
            0int
        }
    }
}

/// The mobility-augmented score, in units of 1/1960: the material score b
/// (in units of 1/7) is amplified to b squared, scaled by a tenth and kept
/// signed, which works out to 4·b·b at this scale; each clone move of the
/// side to move adds a quarter point (490 here), counted for the
/// perspective player when it is their turn and against them otherwise.
pub open spec fn spec_surrounder_score(s: Field, player: u8) -> int {
    let b = material7(s, player);
    let amp = if b >= 0 {
        4 * b * b
    } else {
        -(4 * b * b)
    };
    let c = count_cloning(spec_valid_moves(s), spec_valid_moves(s).len() as int);
    amp + if s.current_player_id == player {
        490 * c
    } else {
        -(490 * c)
    }
}

proof fn lemma_material7_bound(s: Field, player: u8, n: int)
    requires
        0 <= n <= 36,
    ensures
        -13 * n <= material7_upto(s, player, n) <= 13 * n,
    decreases n,
{
    if n > 0 {
        lemma_material7_bound(s, player, n - 1);
    }
}

proof fn lemma_count_cloning_bound(ms: Seq<Move>, n: int)
    requires
        0 <= n,
    ensures
        0 <= count_cloning(ms, n) <= n,
    decreases n,
{
    if n > 0 {
        lemma_count_cloning_bound(ms, n - 1);
    }
}

/// Relies on rand::Rng::gen_range on rand::thread_rng: it returns a
/// uniformly distributed value of the given non-empty range. Nothing more
/// is promised of any one call.
#[verifier::external_body]
pub(crate) fn random_in_range(low: i64, high: i64) -> (r: i64)
    requires
        low < high,
    ensures
        low <= r < high,
{
    rand::thread_rng().gen_range(low..high)
}

/// Positional weight of the on-board cell `p`, in units of 1/7.
pub fn calculate_cell_cost(p: [i8; 2]) -> (r: i64)
    requires
        on_board(p[0] as int, p[1] as int),
    ensures
        r as int == cell_cost7(p[0] as int, p[1] as int),
        9 <= r <= 13,
{
    let x = p[0] as i64;
    let y = p[1] as i64;
    let ax = if 2 * x >= 5 {
        2 * x - 5
    } else {
        5 - 2 * x
    };
    let ay = if 2 * y >= 5 {
        2 * y - 5
    } else {
        5 - 2 * y
    };
    14 - if ax > ay {
        ax
    } else {
        ay
    }
}

/// The material score of the whole board, in units of 1/7.
fn material_score7(field: &Field, player_id: u8) -> (r: i64)
    ensures
        r as int == material7(*field, player_id),
        -468 <= r <= 468,
{
    let mut total: i64 = 0;
    let mut i: usize = 0;
    while i < 36
        invariant
            i <= 36,
            total == material7_upto(*field, player_id, i as int),
            -13 * i <= total <= 13 * i,
        decreases 36 - i,
    {
        let x = (i % 6) as i8;
        let y = (i / 6) as i8;
        let cell = match field.get([x, y]) {
            Some(c) => c,
            None => 0,
        };
        if cell != 0 {
            let cost = calculate_cell_cost([x, y]);
            if cell == player_id {
                total += cost;
            } else {
                total -= cost;
            }
        }
        i += 1;
    }
    proof {
        lemma_material7_bound(*field, player_id, 36);
    }
    total
}

/// The number of clone moves available to the side to move.
pub fn count_cloning_moves(field: Field) -> (r: usize)
    ensures
        r as int == count_cloning(spec_valid_moves(field), spec_valid_moves(field).len() as int),
        r <= spec_valid_moves(field).len(),
{
    let vm = field.valid_moves();
    let mut count: usize = 0;
    let mut i: usize = 0;
    while i < vm.len()
        invariant
            i <= vm@.len(),
            vm@ == spec_valid_moves(field),
            count as int == count_cloning(vm@, i as int),
            count <= i,
        decreases vm@.len() - i,
    {
        if vm[i].is_cloning() {
            count += 1;
        }
        i += 1;
    }
    count
}

/// The material evaluator: sums the positional weights of the occupied
/// cells, positively for the perspective player's cells and negatively for
/// the opponent's.
pub struct Basic;

impl Basic {
    /// The material score, in units of 1/1960 (280 per seventh).
    pub fn score(&self, player_id: u8, field: &Field) -> (r: i64)
        ensures
            r as int == 280 * material7(*field, player_id),
            -131_040 <= r <= 131_040,
    {
        280 * material_score7(field, player_id)
    }
}

impl Analyzer for Basic {
    open spec fn is_deterministic(&self) -> bool {
        true
    }

    open spec fn spec_score(&self, player_id: u8, field: Field) -> int {
        280 * material7(field, player_id)
    }

    fn heuristic(&self, player_id: u8, field: Field) -> (r: i64) {
        self.score(player_id, &field)
    }
}

/// The random stub evaluator: ignores its inputs and returns noise in
/// [0, 1) of the natural unit, used as a baseline.
pub struct Dumbass;

impl Analyzer for Dumbass {
    open spec fn is_deterministic(&self) -> bool {
        false
    }

    open spec fn spec_score(&self, _player_id: u8, _field: Field) -> int {
        0
    }

    fn heuristic(&self, _player_id: u8, _field: Field) -> (r: i64)
        ensures
            0 <= r < SCORE_SCALE,
    {
        random_in_range(0, SCORE_SCALE)
    }
}

/// The mobility-augmented evaluator: reshapes the material score and adds
/// a bonus for every clone move available to the side to move.
pub struct Surrounder;

impl Surrounder {
    /// The mobility-augmented score, in units of 1/1960.
    pub fn score(&self, player_id: u8, field: &Field) -> (r: i64)
        ensures
            r as int == spec_surrounder_score(*field, player_id),
            -1_400_000 <= r <= 1_400_000,
    {
        let b = material_score7(field, player_id);
        proof {
            assert(0 <= b * b <= 468 * 468) by (nonlinear_arith)
                requires
                    -468 <= b <= 468,
            ;
        }
        let bb = b * b;
        let amp = if b >= 0 {
            4 * bb
        } else {
            -(4 * bb)
        };
        let c = count_cloning_moves(*field);
        proof {
            crate::field::lemma_gen_steps_len(*field, 900);
        }
        let bonus = 490 * (c as i64);
        proof {
            assert(-876_096 <= amp <= 876_096);
            assert(0 <= bonus <= 441_000);
            assert(4 * ((b as int) * (b as int)) == 4 * (b as int) * (b as int))
                by (nonlinear_arith);
        }
        amp + if field.current_player_id == player_id {
            bonus
        } else {
            -bonus
        }
    }
}

impl Analyzer for Surrounder {
    open spec fn is_deterministic(&self) -> bool {
        true
    }

    open spec fn spec_score(&self, player_id: u8, field: Field) -> int {
        spec_surrounder_score(field, player_id)
    }

    fn heuristic(&self, player_id: u8, field: Field) -> (r: i64) {
        self.score(player_id, &field)
    }
}

/// A closed choice among the evaluators, selectable by a name token.
pub enum AnalyzerChoice {
    Basic(Basic),
    Dumbass(Dumbass),
    Surrounder(Surrounder),
}

impl Analyzer for AnalyzerChoice {
    open spec fn is_deterministic(&self) -> bool {
        !(self is Dumbass)
    }

    open spec fn spec_score(&self, player_id: u8, field: Field) -> int {
        match self {
            AnalyzerChoice::Basic(_) => 280 * material7(field, player_id),
            AnalyzerChoice::Dumbass(_) => 0,
            AnalyzerChoice::Surrounder(_) => spec_surrounder_score(field, player_id),
        }
    }

    fn heuristic(&self, player_id: u8, field: Field) -> (r: i64) {
        match self {
            AnalyzerChoice::Basic(a) => a.heuristic(player_id, field),
            AnalyzerChoice::Dumbass(a) => a.heuristic(player_id, field),
            AnalyzerChoice::Surrounder(a) => a.heuristic(player_id, field),
        }
    }
}

/// True when `s` reads "surrounder".
fn is_surrounder_token(s: &str) -> (r: bool)
    ensures
        r == (s@ == "surrounder"@),
{
    proof {
        reveal_strlit("surrounder");
    }
    if s.unicode_len() != 10 {
        return false;
    }
    let t = "surrounder";
    let mut i: usize = 0;
    while i < 10
        invariant
            i <= 10,
            s@.len() == 10,
            t@ == "surrounder"@,
            t@.len() == 10,
            forall|j: int| 0 <= j < i ==> s@[j] == t@[j],
        decreases 10 - i,
    {
        let a = s.get_char(i);
        let b = t.get_char(i);
        if a != b {
            return false;
        }
        i += 1;
    }
    proof {
        assert(s@ =~= "surrounder"@);
    }
    true
}

/// Selects an evaluator by its name token: "surrounder" names the
/// mobility-augmented evaluator; "basic", like any other token, names the
/// material evaluator.
pub fn parse_analyzer_type(s: &str) -> (r: AnalyzerChoice)
    ensures
        s@ == "surrounder"@ ==> r is Surrounder,
        s@ != "surrounder"@ ==> r is Basic,
{
    if is_surrounder_token(s) {
        AnalyzerChoice::Surrounder(Surrounder)
    } else {
        AnalyzerChoice::Basic(Basic)
    }
}

} // verus!
