use vstd::prelude::*;

verus! {

/// Width of the board, in cells.
pub const FIELD_WIDTH: usize = 6;

/// Height of the board, in cells.
pub const FIELD_HEIGHT: usize = 6;

/// Total number of cells on the board.
pub const FIELD_SIZE: usize = 36;

/// True when `(x, y)` lies on the 6-by-6 board.
pub open spec fn on_board(x: int, y: int) -> bool {
    0 <= x < 6 && 0 <= y < 6
}

/// Chebyshev distance between two cells.
pub open spec fn chebyshev(x1: int, y1: int, x2: int, y2: int) -> int {
    let ax = if x1 >= x2 {
        x1 - x2
    } else {
        x2 - x1
    };
    let ay = if y1 >= y2 {
        y1 - y2
    } else {
        y2 - y1
    };
    if ax > ay {
        ax
    } else {
        ay
    }
}

/// A move from a source cell to a destination cell. Coordinates may hold
/// off-board values transiently; validation rejects such moves.
#[derive(Copy, Clone, Debug, PartialEq, Eq)]
pub struct Move {
    pub source: [i8; 2],
    pub destination: [i8; 2],
}

impl Move {
    /// Source column, as a mathematical integer.
    pub open spec fn sx(self) -> int {
        self.source[0] as int
    }

    /// Source row.
    pub open spec fn sy(self) -> int {
        self.source[1] as int
    }

    /// Destination column.
    pub open spec fn dx(self) -> int {
        self.destination[0] as int
    }

    /// Destination row.
    pub open spec fn dy(self) -> int {
        self.destination[1] as int
    }

    /// Chebyshev distance between source and destination.
    pub open spec fn spec_distance(self) -> int {
        chebyshev(self.sx(), self.sy(), self.dx(), self.dy())
    }

    /// A move is valid when it is a clone (distance 1) or a jump (distance 2).
    pub open spec fn spec_is_valid(self) -> bool {
        0 < self.spec_distance() <= 2
    }

    /// A clone adds a new stone without vacating the source.
    pub open spec fn spec_is_cloning(self) -> bool {
        self.spec_distance() == 1
    }

    /// A jump relocates a stone, vacating the source.
    pub open spec fn spec_is_moving(self) -> bool {
        self.spec_distance() == 2
    }

    /// Chebyshev distance between source and destination.
    pub fn distance(&self) -> (r: u8)
        ensures
            r as int == self.spec_distance(),
    {
        let sx = self.source[0] as i16;
        let sy = self.source[1] as i16;
        let dx = self.destination[0] as i16;
        let dy = self.destination[1] as i16;
        let ax = if dx >= sx {
            dx - sx
        } else {
            sx - dx
        };
        let ay = if dy >= sy {
            dy - sy
        } else {
            sy - dy
        };
        if ax > ay {
            ax as u8
        } else {
            ay as u8
        }
    }

    /// True when the move is a clone or a jump.
    pub fn is_valid(&self) -> (r: bool)
        ensures
            r == self.spec_is_valid(),
    {
        let d = self.distance();
        d > 0 && d <= 2
    }

    /// True when the move is a clone.
    pub fn is_cloning(&self) -> (r: bool)
        ensures
            r == self.spec_is_cloning(),
    {
        self.distance() == 1
    }

    /// True when the move is a jump.
    pub fn is_moving(&self) -> (r: bool)
        ensures
            r == self.spec_is_moving(),
    {
        self.distance() == 2
    }
}

/// The letter naming column `x`.
pub open spec fn col_char(x: int) -> char {
    if x == 0 {
        'a'
    } else if x == 1 {
        'b'
    } else if x == 2 {
        'c'
    } else if x == 3 {
        'd'
    } else if x == 4 {
        'e'
    } else {
        'f'
    }
}

/// The digit naming row `y`.
pub open spec fn row_char(y: int) -> char {
    if y == 0 {
        '1'
    } else if y == 1 {
        '2'
    } else if y == 2 {
        '3'
    } else if y == 3 {
        '4'
    } else if y == 4 {
        '5'
    } else {
        '6'
    }
}

/// The column a letter names, or -1 when it names none.
pub open spec fn col_of(c: char) -> int {
    if c == 'a' {
        0
    } else if c == 'b' {
        1
    } else if c == 'c' {
        2
    } else if c == 'd' {
        3
    } else if c == 'e' {
        4
    } else if c == 'f' {
        5
    } else {
        -1
    }
}

/// The row a digit names, or -1 when it names none.
pub open spec fn row_of(c: char) -> int {
    if c == '1' {
        0
    } else if c == '2' {
        1
    } else if c == '3' {
        2
    } else if c == '4' {
        3
    } else if c == '5' {
        4
    } else if c == '6' {
        5
    } else {
        -1
    }
}

/// The text of a move: two space-separated two-character cell references,
/// each a column letter followed by a row digit.
pub open spec fn spec_render(m: Move) -> Seq<char> {
    seq![col_char(m.sx()), row_char(m.sy()), ' ', col_char(m.dx()), row_char(m.dy())]
}

/// The move a text denotes: `None` unless the text is exactly two cell
/// references separated by one space and the move is a clone or a jump.
pub open spec fn spec_parse(s: Seq<char>) -> Option<Move> {
    if s.len() != 5 {
        None
    } else {
        let sx = col_of(s[0]);
        let sy = row_of(s[1]);
        let dx = col_of(s[3]);
        let dy = row_of(s[4]);
        if s[2] == ' ' && sx >= 0 && sy >= 0 && dx >= 0 && dy >= 0 {
            let m = Move { source: [sx as i8, sy as i8], destination: [dx as i8, dy as i8] };
            if m.spec_is_valid() {
                Some(m)
            } else {
                None
            }
        } else {
            None
        }
    }
}

/// The column a letter names, or -1 when it names none.
fn col_index(c: char) -> (r: i8)
    ensures
        r as int == col_of(c),
{
    match c {
        'a' => 0,
        'b' => 1,
        'c' => 2,
        'd' => 3,
        'e' => 4,
        'f' => 5,
        _ => -1,
    }
}

/// The row a digit names, or -1 when it names none.
fn row_index(c: char) -> (r: i8)
    ensures
        r as int == row_of(c),
{
    match c {
        '1' => 0,
        '2' => 1,
        '3' => 2,
        '4' => 3,
        '5' => 4,
        '6' => 5,
        _ => -1,
    }
}

/// The one-letter name of column `x`.
fn col_str(x: i8) -> (r: &'static str)
    requires
        0 <= x < 6,
    ensures
        r@ == seq![col_char(x as int)],
{
    let r: &'static str = if x == 0 {
        "a"
    } else if x == 1 {
        "b"
    } else if x == 2 {
        "c"
    } else if x == 3 {
        "d"
    } else if x == 4 {
        "e"
    } else {
        "f"
    };
    proof {
        reveal_strlit("a");
        reveal_strlit("b");
        reveal_strlit("c");
        reveal_strlit("d");
        reveal_strlit("e");
        reveal_strlit("f");
        assert(r@ =~= seq![col_char(x as int)]);
    }
    r
}

/// The one-digit name of row `y`.
fn row_str(y: i8) -> (r: &'static str)
    requires
        0 <= y < 6,
    ensures
        r@ == seq![row_char(y as int)],
{
    let r: &'static str = if y == 0 {
        "1"
    } else if y == 1 {
        "2"
    } else if y == 2 {
        "3"
    } else if y == 3 {
        "4"
    } else if y == 4 {
        "5"
    } else {
        "6"
    };
    proof {
        reveal_strlit("1");
        reveal_strlit("2");
        reveal_strlit("3");
        reveal_strlit("4");
        reveal_strlit("5");
        reveal_strlit("6");
        assert(r@ =~= seq![row_char(y as int)]);
    }
    r
}

impl Move {
    /// Parses a move from its two-cell text form.
    pub fn from_string(s: &str) -> (r: Option<Move>)
        ensures
            r == spec_parse(s@),
    {
        if s.unicode_len() != 5 {
            return None;
        }
        let c0 = s.get_char(0);
        let c1 = s.get_char(1);
        let c2 = s.get_char(2);
        let c3 = s.get_char(3);
        let c4 = s.get_char(4);
        let sx = col_index(c0);
        let sy = row_index(c1);
        let dx = col_index(c3);
        let dy = row_index(c4);
        if !(c2 == ' ' && sx >= 0 && sy >= 0 && dx >= 0 && dy >= 0) {
            return None;
        }
        let m = Move { source: [sx, sy], destination: [dx, dy] };
        if m.is_valid() {
            Some(m)
        } else {
            None
        }
    }

    /// Renders the move in its two-cell text form.
    pub fn to_string(&self) -> (r: String)
        requires
            on_board(self.sx(), self.sy()),
            on_board(self.dx(), self.dy()),
        ensures
            r@ == spec_render(*self),
    {
        let mut s = String::new();
        s.append(col_str(self.source[0]));
        s.append(row_str(self.source[1]));
        s.append(" ");
        s.append(col_str(self.destination[0]));
        s.append(row_str(self.destination[1]));
        proof {
            reveal_strlit(" ");
            assert(s@ =~= spec_render(*self));
        }
        s
    }
}

/// Rendering a clone or jump between on-board cells and parsing the text
/// yields the move back.
pub proof fn lemma_parse_render_roundtrip(m: Move)
    requires
        on_board(m.sx(), m.sy()),
        on_board(m.dx(), m.dy()),
        m.spec_is_valid(),
    ensures
        spec_parse(spec_render(m)) == Some(m),
{
    let s = spec_render(m);
    assert(col_of(s[0]) == m.sx());
    assert(row_of(s[1]) == m.sy());
    assert(col_of(s[3]) == m.dx());
    assert(row_of(s[4]) == m.dy());
    let m2 = Move {
        source: [m.sx() as i8, m.sy() as i8],
        destination: [m.dx() as i8, m.dy() as i8],
    };
    assert(m2.source == m.source && m2.destination == m.destination);
    assert(m2 == m);
}

/// The board together with the player whose turn it is. Cells are stored in
/// raster order (row-major); cell codes are 0 for empty, 1 and 2 for the
/// two players.
#[derive(Copy, Clone, Debug)]
pub struct Field {
    pub data: [u8; 36],
    pub current_player_id: u8,
}

/// The player who moves after `p`.
pub open spec fn spec_next_player(p: u8) -> u8 {
    if p == 1 {
        2
    } else {
        1
    }
}

impl Field {
    /// Every cell holds 0, 1 or 2, and it is some player's turn.
    pub open spec fn wf(self) -> bool {
        &&& forall|i: int| 0 <= i < 36 ==> self.data@[i] <= 2
        &&& (self.current_player_id == 1 || self.current_player_id == 2)
    }

    /// The owner code of cell `(x, y)`.
    pub open spec fn cell(self, x: int, y: int) -> u8 {
        self.data@[y * 6 + x]
    }

    /// What `get` returns: the cell's owner on the board, nothing off it.
    pub open spec fn spec_get(self, p: [i8; 2]) -> Option<u8> {
        if on_board(p[0] as int, p[1] as int) {
            Some(self.cell(p[0] as int, p[1] as int))
        } else {
            None
        }
    }

    /// A move is legal for this state when it is a clone or jump from a cell
    /// the current player owns to an empty on-board cell.
    pub open spec fn spec_is_valid_move(self, m: Move) -> bool {
        &&& m.spec_is_valid()
        &&& on_board(m.sx(), m.sy())
        &&& self.cell(m.sx(), m.sy()) == self.current_player_id
        &&& on_board(m.dx(), m.dy())
        &&& self.cell(m.dx(), m.dy()) == 0
    }

    /// The number of cells that `player` owns among the first `n` cells.
    pub open spec fn count_owned(self, player: u8, n: int) -> int
        decreases n,
    {
        if n <= 0 {
            0
        } else {
            self.count_owned(player, n - 1) + if self.data@[n - 1] == player {
                1int
            } else {
                0int
            }
        }
    }

    /// The owner of cell `(x, y)` after applying `m`: the destination gains
    /// the mover's stone, a jump vacates the source, and every opponent cell
    /// within one cell of the destination is flipped to the mover.
    pub open spec fn spec_apply_cell(self, m: Move, x: int, y: int) -> u8 {
        let p = self.current_player_id;
        if x == m.dx() && y == m.dy() {
            p
        } else if x == m.sx() && y == m.sy() && m.spec_is_moving() {
            0
        } else if chebyshev(x, y, m.dx(), m.dy()) <= 1 && self.cell(x, y) != 0 && self.cell(x, y)
            != p {
            p
        } else {
            self.cell(x, y)
        }
    }

    /// The state after applying the legal move `m`: every cell as
    /// `spec_apply_cell` gives it, with the turn passed to the other player.
    pub open spec fn spec_apply(self, m: Move) -> Field {
        Field {
            data: [
            self.spec_apply_cell(m, 0, 0),
            self.spec_apply_cell(m, 1, 0),
            self.spec_apply_cell(m, 2, 0),
            self.spec_apply_cell(m, 3, 0),
            self.spec_apply_cell(m, 4, 0),
            self.spec_apply_cell(m, 5, 0),
            self.spec_apply_cell(m, 0, 1),
            self.spec_apply_cell(m, 1, 1),
            self.spec_apply_cell(m, 2, 1),
            self.spec_apply_cell(m, 3, 1),
            self.spec_apply_cell(m, 4, 1),
            self.spec_apply_cell(m, 5, 1),
            self.spec_apply_cell(m, 0, 2),
            self.spec_apply_cell(m, 1, 2),
            self.spec_apply_cell(m, 2, 2),
            self.spec_apply_cell(m, 3, 2),
            self.spec_apply_cell(m, 4, 2),
            self.spec_apply_cell(m, 5, 2),
            self.spec_apply_cell(m, 0, 3),
            self.spec_apply_cell(m, 1, 3),
            self.spec_apply_cell(m, 2, 3),
            self.spec_apply_cell(m, 3, 3),
            self.spec_apply_cell(m, 4, 3),
            self.spec_apply_cell(m, 5, 3),
            self.spec_apply_cell(m, 0, 4),
            self.spec_apply_cell(m, 1, 4),
            self.spec_apply_cell(m, 2, 4),
            self.spec_apply_cell(m, 3, 4),
            self.spec_apply_cell(m, 4, 4),
            self.spec_apply_cell(m, 5, 4),
            self.spec_apply_cell(m, 0, 5),
            self.spec_apply_cell(m, 1, 5),
            self.spec_apply_cell(m, 2, 5),
            self.spec_apply_cell(m, 3, 5),
            self.spec_apply_cell(m, 4, 5),
            self.spec_apply_cell(m, 5, 5),
            ],
            current_player_id: spec_next_player(self.current_player_id),
        }
    }

    /// The terminal status of this state: `None` while the player to move
    /// still has a legal move; otherwise the player owning strictly more
    /// cells, or 0 for a draw.
    pub open spec fn spec_winner(self) -> Option<u8> {
        if spec_valid_moves(self).len() > 0 {
            None
        } else {
            let c1 = self.count_owned(1, 36);
            let c2 = self.count_owned(2, 36);
            if c1 == c2 {
                Some(0u8)
            } else if c1 > c2 {
                Some(1u8)
            } else {
                Some(2u8)
            }
        }
    }

    /// An empty board with player one to move.
    pub fn new() -> (r: Field)
        ensures
            r.wf(),
            r.current_player_id == 1,
            forall|x: int, y: int| #[trigger] on_board(x, y) ==> r.cell(x, y) == 0,
    {
        Field { data: [0u8; 36], current_player_id: 1 }
    }

    /// All cell positions in raster order.
    pub fn into_iter(&self) -> (r: Vec<[i8; 2]>)
        ensures
            r@.len() == 36,
            forall|i: int|
                0 <= i < 36 ==> (#[trigger] r@[i])[0] as int == i % 6 && r@[i][1] as int == i / 6,
    {
        let mut v: Vec<[i8; 2]> = Vec::new();
        let mut i: usize = 0;
        while i < 36
            invariant
                i <= 36,
                v@.len() == i,
                forall|j: int|
                    0 <= j < i ==> (#[trigger] v@[j])[0] as int == j % 6 && v@[j][1] as int == j
                        / 6,
            decreases 36 - i,
        {
            v.push([(i % 6) as i8, (i / 6) as i8]);
            i += 1;
        }
        v
    }

    /// True when `p` lies on the board.
    pub fn is_valid_position(p: [i8; 2]) -> (r: bool)
        ensures
            r == on_board(p[0] as int, p[1] as int),
    {
        p[0] >= 0 && p[0] < FIELD_WIDTH as i8 && p[1] >= 0 && p[1] < FIELD_HEIGHT as i8
    }

    /// The owner code of the cell at `p`, or `None` off the board.
    pub fn get(&self, p: [i8; 2]) -> (r: Option<u8>)
        ensures
            r == self.spec_get(p),
    {
        if !Self::is_valid_position(p) {
            return None;
        }
        let idx = (p[1] as usize) * 6 + (p[0] as usize);
        Some(self.data[idx])
    }

    /// Writes owner code `v` into the cell at `p`; fails off the board and
    /// changes nothing there.
    pub fn set(&mut self, p: [i8; 2], v: u8) -> (r: Result<(), ()>)
        requires
            v <= 2,
        ensures
            final(self).current_player_id == old(self).current_player_id,
            !on_board(p[0] as int, p[1] as int) ==> r == Err::<(), ()>(()) && *final(self) == *old(
                self,
            ),
            on_board(p[0] as int, p[1] as int) ==> r == Ok::<(), ()>(()) && final(self).data@
                == old(self).data@.update((p[1] as int) * 6 + (p[0] as int), v),
    {
        if !Self::is_valid_position(p) {
            return Err(());
        }
        let idx = (p[1] as usize) * 6 + (p[0] as usize);
        self.data[idx] = v;
        Ok(())
    }

    /// True when `m` is legal for this state.
    pub fn is_valid_move(&self, m: Move) -> (r: bool)
        ensures
            r == self.spec_is_valid_move(m),
    {
        if !m.is_valid() {
            return false;
        }
        let cell = match self.get(m.source) {
            Some(c) => c,
            None => {
                return false;
            },
        };
        if cell != self.current_player_id {
            return false;
        }
        let rcell = match self.get(m.destination) {
            Some(c) => c,
            None => {
                return false;
            },
        };
        if rcell != 0 {
            return false;
        }
        true
    }
}

impl PartialEq for Field {
    /// Two states are equal when every cell and the player to move agree.
    fn eq(&self, other: &Field) -> (r: bool) {
        if self.current_player_id != other.current_player_id {
            return false;
        }
        let mut i: usize = 0;
        while i < 36
            invariant
                i <= 36,
                forall|j: int| 0 <= j < i ==> self.data@[j] == other.data@[j],
            decreases 36 - i,
        {
            if self.data[i] != other.data[i] {
                return false;
            }
            i += 1;
        }
        proof {
            assert(self.data@ =~= other.data@);
        }
        true
    }
}

impl vstd::std_specs::cmp::PartialEqSpecImpl for Field {
    open spec fn obeys_eq_spec() -> bool {
        true
    }

    open spec fn eq_spec(&self, other: &Field) -> bool {
        self.data@ == other.data@ && self.current_player_id == other.current_player_id
    }
}

impl Default for Field {
    /// The seeded starting layout: player one in two opposite corners,
    /// player two in the other two, player one to move.
    fn default() -> (r: Field)
        ensures
            r.wf(),
            r.current_player_id == 1,
            r.cell(0, 0) == 1 && r.cell(5, 5) == 1,
            r.cell(5, 0) == 2 && r.cell(0, 5) == 2,
            forall|x: int, y: int|
                #[trigger] on_board(x, y) && !(x == 0 && y == 0) && !(x == 5 && y == 5) && !(x == 5
                    && y == 0) && !(x == 0 && y == 5) ==> r.cell(x, y) == 0,
    {
        let mut f = Field::new();
        let _ = f.set([0, 0], 1);
        let _ = f.set([5, 0], 2);
        let _ = f.set([0, 5], 2);
        let _ = f.set([5, 5], 1);
        f
    }
}

/// The candidate move of enumeration step `n`: steps walk the cells in
/// raster order and, within a cell, the 5-by-5 offset box in a fixed
/// nested order (column offset outer, row offset inner, both ascending).
pub open spec fn cand(n: int) -> Move {
    let ci = n / 25;
    let k = n % 25;
    let x = ci % 6;
    let y = ci / 6;
    let ox = k / 5 - 2;
    let oy = k % 5 - 2;
    Move { source: [x as i8, y as i8], destination: [(x + ox) as i8, (y + oy) as i8] }
}

/// The moves collected by the first `n` enumeration steps: a candidate is
/// kept when its offset is not the center of the box, it is legal for the
/// state, and — for clone moves — an equal move was not collected before.
pub open spec fn gen_steps(s: Field, n: int) -> Seq<Move>
    decreases n,
{
    if n <= 0 {
        Seq::empty()
    } else {
        let prev = gen_steps(s, n - 1);
        let m = cand(n - 1);
        if (n - 1) % 25 != 12 && s.spec_is_valid_move(m) && !(m.spec_is_cloning()
            && prev.contains(m)) {
            prev.push(m)
        } else {
            prev
        }
    }
}

/// The exact sequence of moves that `valid_moves` returns.
pub open spec fn spec_valid_moves(s: Field) -> Seq<Move> {
    gen_steps(s, 900)
}

/// True when `v` holds a move equal to `m`.
fn contains_move(v: &Vec<Move>, m: Move) -> (r: bool)
    ensures
        r == v@.contains(m),
{
    let mut i: usize = 0;
    while i < v.len()
        invariant
            i <= v@.len(),
            forall|j: int| 0 <= j < i ==> v@[j] != m,
        decreases v@.len() - i,
    {
        let c = v[i];
        if c.source[0] == m.source[0] && c.source[1] == m.source[1] && c.destination[0]
            == m.destination[0] && c.destination[1] == m.destination[1] {
            proof {
                assert(c.source == m.source);
                assert(c.destination == m.destination);
                assert(v@[i as int] == m);
            }
            return true;
        }
        i += 1;
    }
    false
}

impl Field {
    /// Every legal move for the current player, in enumeration order: cells
    /// in raster order and, within a cell, offsets of the 5-by-5 box in a
    /// fixed nested order. An empty result signals that the game has ended.
    pub fn valid_moves(&self) -> (r: Vec<Move>)
        ensures
            r@ == spec_valid_moves(*self),
    {
        let mut v: Vec<Move> = Vec::new();
        let mut n: usize = 0;
        while n < 900
            invariant
                n <= 900,
                v@ == gen_steps(*self, n as int),
            decreases 900 - n,
        {
            let ci = n / 25;
            let k = n % 25;
            let x = (ci % 6) as i8;
            let y = (ci / 6) as i8;
            let ox = (k / 5) as i8 - 2;
            let oy = (k % 5) as i8 - 2;
            if ox != 0 || oy != 0 {
                let m = Move { source: [x, y], destination: [x + ox, y + oy] };
                proof {
                    assert(m == cand(n as int));
                }
                if self.is_valid_move(m) {
                    let skip = if m.is_cloning() {
                        contains_move(&v, m)
                    } else {
                        false
                    };
                    if !skip {
                        v.push(m);
                    }
                }
            }
            n += 1;
        }
        v
    }

    /// The terminal status of this state, as `spec_winner` defines it.
    pub fn get_winner(&self) -> (r: Option<u8>)
        ensures
            r == self.spec_winner(),
    {
        let vm = self.valid_moves();
        if vm.len() > 0 {
            return None;
        }
        let mut p1_count: u32 = 0;
        let mut p2_count: u32 = 0;
        let mut i: usize = 0;
        while i < 36
            invariant
                i <= 36,
                p1_count == self.count_owned(1, i as int),
                p2_count == self.count_owned(2, i as int),
                p1_count <= i,
                p2_count <= i,
            decreases 36 - i,
        {
            let c = self.data[i];
            if c == 1 {
                p1_count += 1;
            } else if c == 2 {
                p2_count += 1;
            }
            i += 1;
        }
        if p1_count == p2_count {
            return Some(0);
        }
        Some(
            if p1_count > p2_count {
                1
            } else {
                2
            },
        )
    }

    /// Applies `m`: a jump vacates the source, the destination gains the
    /// mover's stone, every opponent cell within one cell of the destination
    /// is flipped to the mover, and the turn passes to the other player. The
    /// returned value is the terminal status of the new state. An illegal
    /// move fails and changes nothing.
    #[verifier::rlimit(60)]
    pub fn make_move(&mut self, m: Move) -> (r: Result<Option<u8>, ()>)
        requires
            old(self).wf(),
        ensures
            final(self).wf(),
            !old(self).spec_is_valid_move(m) ==> r == Err::<Option<u8>, ()>(()) && *final(self)
                == *old(self),
            old(self).spec_is_valid_move(m) ==> {
                &&& final(self).current_player_id == spec_next_player(old(self).current_player_id)
                &&& forall|x: int, y: int|
                    #[trigger] on_board(x, y) ==> final(self).cell(x, y) == old(
                        self,
                    ).spec_apply_cell(m, x, y)
                &&& *final(self) == old(self).spec_apply(m)
                &&& r == Ok::<Option<u8>, ()>(final(self).spec_winner())
            },
    {
        if !self.is_valid_move(m) {
            return Err(());
        }
        let player_id = match self.get(m.source) {
            Some(c) => c,
            None => {
                return Err(());
            },
        };
        if m.is_moving() {
            let _ = self.set(m.source, 0);
        }
        let _ = self.set(m.destination, player_id);
        let ghost g2 = self.data@;
        let dx = m.destination[0];
        let dy = m.destination[1];
        let mut k: usize = 0;
        while k < 9
            invariant
                k <= 9,
                old(self).wf(),
                old(self).spec_is_valid_move(m),
                player_id == old(self).current_player_id,
                self.current_player_id == old(self).current_player_id,
                dx as int == m.dx() && dy as int == m.dy(),
                self.data@.len() == 36,
                forall|x: int, y: int|
                    #[trigger] on_board(x, y) ==> self.data@[y * 6 + x] == (
                    if cap_processed(x - m.dx(), y - m.dy(), k as int) && !(x == m.dx() && y
                        == m.dy()) && g2[y * 6 + x] != 0 && g2[y * 6 + x] != player_id {
                        player_id
                    } else {
                        g2[y * 6 + x]
                    }),
                forall|x: int, y: int|
                    #[trigger] on_board(x, y) ==> g2[y * 6 + x] == (
                    if x == m.dx() && y == m.dy() {
                        player_id
                    } else if x == m.sx() && y == m.sy() && m.spec_is_moving() {
                        0u8
                    } else {
                        old(self).cell(x, y)
                    }),
            decreases 9 - k,
        {
            if k != 4 {
                let ox = (k / 3) as i8 - 1;
                let oy = (k % 3) as i8 - 1;
                let capturep = [dx + ox, dy + oy];
                match self.get(capturep) {
                    Some(capturecell) => {
                        if capturecell != 0 && capturecell != player_id {
                            let _ = self.set(capturep, player_id);
                        }
                    },
                    None => {},
                }
            }
            k += 1;
        }
        self.current_player_id = 1 + self.current_player_id % 2;
        proof {
            assert forall|x: int, y: int| #[trigger] on_board(x, y) implies self.cell(x, y) == old(
                self,
            ).spec_apply_cell(m, x, y) by {
                assert(self.data@[y * 6 + x] == (
                if cap_processed(x - m.dx(), y - m.dy(), 9) && !(x == m.dx() && y == m.dy()) && g2[y
                    * 6 + x] != 0 && g2[y * 6 + x] != player_id {
                    player_id
                } else {
                    g2[y * 6 + x]
                }));
                assert(cap_processed(x - m.dx(), y - m.dy(), 9) == (chebyshev(
                    x,
                    y,
                    m.dx(),
                    m.dy(),
                ) <= 1));
            }
            assert forall|i: int| 0 <= i < 36 implies self.data@[i] <= 2 by {
                let x = i % 6;
                let y = i / 6;
                assert(on_board(x, y));
                assert(y * 6 + x == i);
            }
            lemma_apply_agrees(*old(self), *self, m);
        }
        Ok(self.get_winner())
    }
}

/// A state whose every cell follows `spec_apply_cell` and whose turn has
/// passed is exactly `spec_apply` of the old state.
#[verifier::rlimit(100)]
proof fn lemma_apply_agrees(pre: Field, post: Field, m: Move)
    requires
        post.data@.len() == 36,
        forall|x: int, y: int|
            #[trigger] on_board(x, y) ==> post.cell(x, y) == pre.spec_apply_cell(m, x, y),
        post.current_player_id == spec_next_player(pre.current_player_id),
    ensures
        post == pre.spec_apply(m),
{
    let target = pre.spec_apply(m);
    assert forall|i: int| 0 <= i < 36 implies post.data@[i] == target.data@[i] by {
        let x = i % 6;
        let y = i / 6;
        assert(on_board(x, y));
        assert(y * 6 + x == i);
        assert(post.cell(x, y) == pre.spec_apply_cell(m, x, y));
        assert(target.data@[i] == pre.spec_apply_cell(m, x, y));
    }
    assert(post.data@ =~= target.data@);
    assert(post.data == target.data);
}

/// True when the capture sweep has already examined the neighbor at offset
/// `(ddx, ddy)` from the destination after `k` of its steps.
pub open spec fn cap_processed(ddx: int, ddy: int, k: int) -> bool {
    -1 <= ddx <= 1 && -1 <= ddy <= 1 && (ddx + 1) * 3 + (ddy + 1) < k
}

/// The enumeration collects at most one move per step.
pub proof fn lemma_gen_steps_len(s: Field, n: int)
    requires
        0 <= n,
    ensures
        gen_steps(s, n).len() <= n,
    decreases n,
{
    if n > 0 {
        lemma_gen_steps_len(s, n - 1);
    }
}

proof fn lemma_gen_steps_sound(s: Field, n: int)
    ensures
        forall|i: int|
            0 <= i < gen_steps(s, n).len() ==> s.spec_is_valid_move(#[trigger] gen_steps(s, n)[i]),
    decreases n,
{
    if n > 0 {
        lemma_gen_steps_sound(s, n - 1);
        let prev = gen_steps(s, n - 1);
        let cur = gen_steps(s, n);
        assert forall|i: int| 0 <= i < cur.len() implies s.spec_is_valid_move(cur[i]) by {
            if i < prev.len() {
                assert(cur[i] == prev[i]);
            } else {
                assert(cur[i] == cand(n - 1));
            }
        }
    }
}

proof fn lemma_gen_steps_prefix(s: Field, i: int, j: int)
    requires
        0 <= i <= j,
    ensures
        gen_steps(s, i).len() <= gen_steps(s, j).len(),
        forall|t: int| 0 <= t < gen_steps(s, i).len() ==> gen_steps(s, j)[t] == gen_steps(s, i)[t],
    decreases j - i,
{
    if i < j {
        lemma_gen_steps_prefix(s, i, j - 1);
    }
}

/// Every move that `valid_moves` returns is a clone or a jump whose source
/// the current player owns and whose destination is an empty on-board cell.
pub proof fn lemma_valid_moves_sound(s: Field)
    ensures
        forall|i: int|
            0 <= i < spec_valid_moves(s).len() ==> s.spec_is_valid_move(
                #[trigger] spec_valid_moves(s)[i],
            ),
{
    lemma_gen_steps_sound(s, 900);
}

/// Applying a move that `valid_moves` returned never fails: each one is
/// legal for its state, and `make_move` fails exactly on illegal moves.
pub proof fn lemma_enumerated_move_applies(s: Field, i: int)
    requires
        0 <= i < spec_valid_moves(s).len(),
    ensures
        s.spec_is_valid_move(spec_valid_moves(s)[i]),
{
    lemma_valid_moves_sound(s);
}

/// Every move that is legal for the state appears in `valid_moves`.
pub proof fn lemma_valid_moves_complete(s: Field, m: Move)
    requires
        s.spec_is_valid_move(m),
    ensures
        spec_valid_moves(s).contains(m),
{
    let ci = m.sy() * 6 + m.sx();
    let k = (m.dx() - m.sx() + 2) * 5 + (m.dy() - m.sy() + 2);
    let n = ci * 25 + k;
    assert(0 <= k < 25);
    assert(0 <= n < 900);
    vstd::arithmetic::div_mod::lemma_fundamental_div_mod_converse(n, 25, ci, k);
    vstd::arithmetic::div_mod::lemma_fundamental_div_mod_converse(ci, 6, m.sy(), m.sx());
    vstd::arithmetic::div_mod::lemma_fundamental_div_mod_converse(
        k,
        5,
        m.dx() - m.sx() + 2,
        m.dy() - m.sy() + 2,
    );
    let c = cand(n);
    assert(n / 25 == ci && n % 25 == k);
    assert(ci % 6 == m.sx() && ci / 6 == m.sy());
    assert(k / 5 == m.dx() - m.sx() + 2 && k % 5 == m.dy() - m.sy() + 2);
    assert(c.source[0] == m.source[0] && c.source[1] == m.source[1]);
    assert(c.destination[0] == m.destination[0] && c.destination[1] == m.destination[1]);
    assert(c.source == m.source && c.destination == m.destination);
    assert(cand(n) == m);
    assert(k != 12);
    let prev = gen_steps(s, n);
    assert(gen_steps(s, n + 1).contains(m)) by {
        if m.spec_is_cloning() && prev.contains(m) {
            assert(gen_steps(s, n + 1) == prev);
        } else {
            assert(gen_steps(s, n + 1) == prev.push(m));
            assert(prev.push(m)[prev.len() as int] == m);
        }
    }
    lemma_gen_steps_prefix(s, n + 1, 900);
    let t = choose|t: int|
        0 <= t < gen_steps(s, n + 1).len() && #[trigger] gen_steps(s, n + 1)[t] == m;
    assert(spec_valid_moves(s)[t] == m);
}

/// A state is terminal exactly when the player to move has no legal move;
/// the winner is then decided by the cell counts alone.
pub proof fn lemma_terminal_iff_no_moves(s: Field)
    ensures
        s.spec_winner() is None <==> exists|m: Move| s.spec_is_valid_move(m),
        s.spec_winner() is Some ==> s.spec_winner() == (if s.count_owned(1, 36) == s.count_owned(
            2,
            36,
        ) {
            Some(0u8)
        } else if s.count_owned(1, 36) > s.count_owned(2, 36) {
            Some(1u8)
        } else {
            Some(2u8)
        }),
{
    if s.spec_winner() is None {
        lemma_valid_moves_sound(s);
        assert(s.spec_is_valid_move(spec_valid_moves(s)[0]));
    }
    if exists|m: Move| s.spec_is_valid_move(m) {
        let m = choose|m: Move| s.spec_is_valid_move(m);
        lemma_valid_moves_complete(s, m);
    }
}

/// A clone move leaves its source cell with the mover's stone; a jump
/// vacates it.
pub proof fn lemma_move_source_cell(s: Field, m: Move)
    requires
        s.spec_is_valid_move(m),
    ensures
        m.spec_is_cloning() ==> s.spec_apply_cell(m, m.sx(), m.sy()) == s.current_player_id,
        m.spec_is_moving() ==> s.spec_apply_cell(m, m.sx(), m.sy()) == 0,
{
}

/// The capture sweep flips exactly the opponent cells within one cell of
/// the destination; beyond that radius only the source can change.
pub proof fn lemma_capture_sweep(s: Field, m: Move, x: int, y: int)
    requires
        s.spec_is_valid_move(m),
        on_board(x, y),
    ensures
        chebyshev(x, y, m.dx(), m.dy()) <= 1 && s.cell(x, y) != 0 && s.cell(x, y)
            != s.current_player_id ==> s.spec_apply_cell(m, x, y) == s.current_player_id,
        chebyshev(x, y, m.dx(), m.dy()) > 1 && !(x == m.sx() && y == m.sy())
            ==> s.spec_apply_cell(m, x, y) == s.cell(x, y),
        !(x == m.dx() && y == m.dy()) && !(x == m.sx() && y == m.sy()) && (s.cell(x, y) == 0
            || s.cell(x, y) == s.current_player_id) ==> s.spec_apply_cell(m, x, y) == s.cell(x, y),
{
}

/// The enumeration step at which a move with on-board source and an
/// offset of at most two cells is examined.
pub open spec fn step_of(m: Move) -> int {
    (m.sy() * 6 + m.sx()) * 25 + (m.dx() - m.sx() + 2) * 5 + (m.dy() - m.sy() + 2)
}

proof fn lemma_step_of_cand(t: int)
    requires
        0 <= t < 900,
    ensures
        step_of(cand(t)) == t,
{
    let ci = t / 25;
    let k = t % 25;
    assert(0 <= ci < 36 && 0 <= k < 25);
    let m = cand(t);
    assert(m.sx() == ci % 6 && m.sy() == ci / 6);
    assert(m.dx() - m.sx() == k / 5 - 2 && m.dy() - m.sy() == k % 5 - 2);
    assert(m.sy() * 6 + m.sx() == ci);
    assert((m.dx() - m.sx() + 2) * 5 + (m.dy() - m.sy() + 2) == k);
}

proof fn lemma_gen_steps_distinct(s: Field, n: int)
    requires
        0 <= n <= 900,
    ensures
        forall|i: int|
            0 <= i < gen_steps(s, n).len() ==> 0 <= step_of(#[trigger] gen_steps(s, n)[i]) < n,
        forall|i: int, j: int|
            0 <= i < j < gen_steps(s, n).len() ==> gen_steps(s, n)[i] != gen_steps(s, n)[j],
    decreases n,
{
    if n > 0 {
        lemma_gen_steps_distinct(s, n - 1);
        let prev = gen_steps(s, n - 1);
        let cur = gen_steps(s, n);
        if cur.len() > prev.len() {
            lemma_step_of_cand(n - 1);
            assert(cur[prev.len() as int] == cand(n - 1));
            assert forall|i: int, j: int| 0 <= i < j < cur.len() implies cur[i] != cur[j] by {
                if j < prev.len() {
                    assert(cur[i] == prev[i] && cur[j] == prev[j]);
                } else {
                    assert(cur[i] == prev[i]);
                    assert(step_of(cur[i]) < n - 1);
                    assert(step_of(cur[j]) == n - 1);
                }
            }
        }
    }
}

/// The enumeration never examines the same candidate twice, so the guard
/// that skips an already-collected clone move never takes anything out.
pub proof fn lemma_valid_moves_distinct(s: Field)
    ensures
        forall|i: int, j: int|
            0 <= i < j < spec_valid_moves(s).len() ==> spec_valid_moves(s)[i] != spec_valid_moves(
                s,
            )[j],
{
    lemma_gen_steps_distinct(s, 900);
}

} // verus!
