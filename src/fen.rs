use vstd::prelude::*;

use crate::board::{lemma_view_determines_board, Board, Position};
use crate::gamestate::Gamestate;
use crate::pieces::{kind_letter, kind_of_letter, Piece, PieceType, Team};

verus! {

/// The value of a decimal digit character.
pub open spec fn digit_value(c: char) -> int {
    c as int - '0' as int
}

pub open spec fn is_digit(c: char) -> bool {
    '0' <= c && c <= '9'
}

/// The character of the decimal digit `d`.
pub open spec fn digit_char(d: int) -> char {
    (d + '0' as int) as char
}

/// Whether a piece letter is upper case, the case of team `ONE`.
pub open spec fn is_upper_piece_letter(c: char) -> bool {
    c == 'H' || c == 'M' || c == 'S' || c == 'R'
}

/// The letter of a piece: its kind's letter, upper case for team `ONE`.
pub open spec fn piece_letter(p: Piece) -> char {
    if p.team == Team::ONE {
        (kind_letter(p.piece_type) as int - 32) as char
    } else {
        kind_letter(p.piece_type)
    }
}

/// The text of a piece: its letter, then `*` when it is a stack.
pub open spec fn piece_text(p: Piece) -> Seq<char> {
    if p.stacked {
        seq![piece_letter(p), '*']
    } else {
        seq![piece_letter(p)]
    }
}

/// The text of the pending run of `empties` empty squares.
pub open spec fn run_text(empties: nat) -> Seq<char> {
    if empties > 0 {
        seq![digit_char(empties as int)]
    } else {
        Seq::empty()
    }
}

/// The text of the cells of `row` from file `f` on, with `empties` empty squares pending.
pub open spec fn row_text(row: Seq<Option<Piece>>, f: nat, empties: nat) -> Seq<char>
    decreases 8 - f,
{
    if f >= 8 {
        run_text(empties)
    } else {
        match row[f as int] {
            None => row_text(row, f + 1, empties + 1),
            Some(p) => run_text(empties) + piece_text(p) + row_text(row, f + 1, 0),
        }
    }
}

/// The cells of rank `r` of a position, file 0 first.
pub open spec fn rank_cells(v: Position, r: int) -> Seq<Option<Piece>> {
    v.subrange(8 * r, 8 * r + 8)
}

/// The text of the ranks of a position from rank `7 - k` down to rank 0, separated by `/`.
pub open spec fn ranks_text(v: Position, k: nat) -> Seq<char>
    decreases 8 - k,
{
    if k >= 7 {
        row_text(rank_cells(v, 0), 0, 0)
    } else {
        row_text(rank_cells(v, 7 - k), 0, 0) + seq!['/'] + ranks_text(v, k + 1)
    }
}

/// The decimal text of a number.
pub open spec fn decimal(n: nat) -> Seq<char>
    decreases n,
{
    if n < 10 {
        seq![digit_char(n as int)]
    } else {
        decimal(n / 10) + seq![digit_char((n % 10) as int)]
    }
}

/// The compact text of a state: the ranks from 7 down to 0, the turn, the points.
pub open spec fn fen_text(g: Gamestate) -> Seq<char> {
    ranks_text(g.board.view(), 0) + seq![' '] + decimal(g.turn as nat) + seq![' '] + decimal(
        g.ambers[0] as nat,
    ) + seq!['/'] + decimal(g.ambers[1] as nat)
}

/// The piece a letter, followed by `*` or not, stands for.
pub open spec fn piece_of(c: char, stacked: bool) -> Option<Piece> {
    match kind_of_letter(c) {
        None => None,
        Some(k) => Some(
            Piece {
                piece_type: k,
                team: if is_upper_piece_letter(c) { Team::ONE } else { Team::TWO },
                stacked,
            },
        ),
    }
}

/// Reads the tokens of one rank from position `i` of `t`, with the files below `f` already
/// read into `cells`: the eight cells and the position after the rank, or `None`.
pub open spec fn parse_row(t: Seq<char>, i: int, f: nat, cells: Seq<Option<Piece>>) -> Option<
    (Seq<Option<Piece>>, int),
>
    decreases t.len() - i,
{
    if f >= 8 {
        Some((cells, i))
    } else if i < 0 || i >= t.len() {
        None
    } else {
        let c = t[i];
        if '1' <= c && c <= '8' {
            let n = digit_value(c);
            if f + n > 8 {
                None
            } else {
                parse_row(t, i + 1, (f + n) as nat, cells + Seq::new(n as nat, |j: int| None::<Piece>))
            }
        } else {
            let stacked = i + 1 < t.len() && t[i + 1] == '*';
            match piece_of(c, stacked) {
                None => None,
                Some(p) => parse_row(t, if stacked { i + 2 } else { i + 1 }, f + 1, cells.push(Some(p))),
            }
        }
    }
}

/// Reads the ranks from rank `7 - k` down from position `i`, each followed by `/`, the last
/// by a space; `rows` holds the ranks read so far, the top rank first.
pub open spec fn parse_ranks(t: Seq<char>, i: int, k: nat, rows: Seq<Seq<Option<Piece>>>) -> Option<
    (Seq<Seq<Option<Piece>>>, int),
>
    decreases 8 - k,
{
    if k >= 8 {
        Some((rows, i))
    } else {
        match parse_row(t, i, 0, Seq::empty()) {
            None => None,
            Some((cells, j)) => {
                let sep = if k < 7 { '/' } else { ' ' };
                if 0 <= j < t.len() && t[j] == sep {
                    parse_ranks(t, j + 1, k + 1, rows.push(cells))
                } else {
                    None
                }
            },
        }
    }
}

/// The position whose rank `r` is `rows[7 - r]`.
pub open spec fn position_of_rows(rows: Seq<Seq<Option<Piece>>>) -> Position {
    Seq::new(64, |s: int| rows[7 - s / 8][s % 8])
}

/// Reads a number in plain decimal (one to three digits, no leading zero, below 256) from
/// position `i`: its value and the position after it, or `None`.
pub open spec fn parse_number(t: Seq<char>, i: int) -> Option<(u8, int)> {
    let n1 = 0 <= i < t.len() && is_digit(t[i]);
    let n2 = n1 && i + 1 < t.len() && is_digit(t[i + 1]);
    let n3 = n2 && i + 2 < t.len() && is_digit(t[i + 2]);
    let len = if n3 {
        3int
    } else if n2 {
        2int
    } else if n1 {
        1int
    } else {
        0int
    };
    let v = if n3 {
        100 * digit_value(t[i]) + 10 * digit_value(t[i + 1]) + digit_value(t[i + 2])
    } else if n2 {
        10 * digit_value(t[i]) + digit_value(t[i + 1])
    } else {
        digit_value(t[i])
    };
    if len == 0 || (len > 1 && t[i] == '0') || v > 255 || (i + len < t.len() && is_digit(
        t[i + len],
    )) {
        None
    } else {
        Some((v as u8, i + len))
    }
}

/// Reads `turn a/b` from position `i` to the end: three numbers as `parse_number` reads them,
/// a turn of at most 60 (the last turn of a game) and points of at most 3 (more than any
/// team can reach).
pub open spec fn parse_tail(t: Seq<char>, i: int) -> Option<(u8, u8, u8)> {
    match parse_number(t, i) {
        None => None,
        Some((turn, j)) => if j < t.len() && t[j] == ' ' {
            match parse_number(t, j + 1) {
                None => None,
                Some((a, k)) => if k < t.len() && t[k] == '/' {
                    match parse_number(t, k + 1) {
                        None => None,
                        Some((b, e)) => if e == t.len() && turn <= 60 && a <= 3 && b <= 3 {
                            Some((turn, a, b))
                        } else {
                            None
                        },
                    }
                } else {
                    None
                },
            }
        } else {
            None
        },
    }
}

/// The board, turn and points a compact text describes, or `None` when it is malformed.
pub open spec fn parse_fen(t: Seq<char>) -> Option<(Position, u8, u8, u8)> {
    match parse_ranks(t, 0, 0, Seq::empty()) {
        None => None,
        Some((rows, i)) => match parse_tail(t, i) {
            None => None,
            Some((turn, a, b)) => Some((position_of_rows(rows), turn, a, b)),
        },
    }
}

proof fn lemma_no_ranks(t: Seq<char>)
    requires
        parse_ranks(t, 0, 0, Seq::<Seq<Option<Piece>>>::empty()) is None,
    ensures
        parse_fen(t) is None,
{
}

/// The reason a compact text was refused.
#[derive(Clone, Debug, PartialEq, Eq)]
pub enum FenError {
    /// The text does not follow the grammar; it is carried along.
    Malformed(String),
}

/// Relies on `String`'s `FromIterator<&char>`: the string holds the characters in order.
#[verifier::external_body]
fn string_of_chars(chars: &Vec<char>) -> (r: String)
    ensures
        r@ == chars@,
{
    String::from_iter(chars.iter())
}

fn digit_to_char(d: u8) -> (c: char)
    requires
        d < 10,
    ensures
        c == digit_char(d as int),
{
    ((d + 48u8) as char)
}

fn letter_of(p: Piece) -> (c: char)
    ensures
        c == piece_letter(p),
{
    match (p.piece_type, p.team) {
        (PieceType::Herzmuschel, Team::ONE) => 'H',
        (PieceType::Moewe, Team::ONE) => 'M',
        (PieceType::Seestern, Team::ONE) => 'S',
        (PieceType::Robbe, Team::ONE) => 'R',
        (PieceType::Herzmuschel, Team::TWO) => 'h',
        (PieceType::Moewe, Team::TWO) => 'm',
        (PieceType::Seestern, Team::TWO) => 's',
        (PieceType::Robbe, Team::TWO) => 'r',
    }
}

fn push_run(out: &mut Vec<char>, empties: u8)
    requires
        empties <= 8,
    ensures
        final(out)@ == old(out)@ + run_text(empties as nat),
{
    if empties > 0 {
        out.push(digit_to_char(empties));
    }
    proof {
        assert(final(out)@ =~= old(out)@ + run_text(empties as nat));
    }
}

fn push_decimal(out: &mut Vec<char>, n: u8)
    ensures
        final(out)@ == old(out)@ + decimal(n as nat),
{
    let ghost start = out@;
    if n >= 100 {
        out.push(digit_to_char(n / 100));
    }
    if n >= 10 {
        out.push(digit_to_char((n / 10) % 10));
    }
    out.push(digit_to_char(n % 10));
    proof {
        let m = n as nat;
        if m >= 100 {
            assert(decimal(m / 100) == seq![digit_char((m / 100) as int)]);
            assert((m / 10) / 10 == m / 100);
            assert(decimal(m / 10) == decimal(m / 100) + seq![digit_char(((m / 10) % 10) as int)]);
        } else if m >= 10 {
            assert(decimal(m / 10) == seq![digit_char((m / 10) as int)]);
        }
        assert(out@ =~= start + decimal(m));
    }
}

impl Gamestate {
    /// The compact text of the state: the ranks from 7 down to 0 separated by `/` (files left
    /// to right, runs of empty squares as a digit, a piece as its letter, upper case for team
    /// `ONE`, followed by `*` for a stack), a space, the turn, a space, and the points `a/b`.
    pub fn to_fen(&self) -> (r: String)
        ensures
            r@ == fen_text(*self),
    {
        let ghost v = self.board.view();
        let mut out: Vec<char> = Vec::new();
        let mut k: u8 = 0;
        while k < 8
            invariant
                k <= 8,
                v == self.board.view(),
                k < 8 ==> out@ + ranks_text(v, k as nat) == ranks_text(v, 0),
                k == 8 ==> out@ == ranks_text(v, 0),
            decreases 8 - k,
        {
            let ghost before = out@;
            push_row(&mut out, &self.board, 7 - k);
            if k < 7 {
                out.push('/');
                proof {
                    assert(out@ + ranks_text(v, (k + 1) as nat) =~= before + ranks_text(v, k as nat));
                }
            } else {
                proof {
                    assert(out@ =~= before + ranks_text(v, k as nat));
                }
            }
            k = k + 1;
        }
        let ghost board_part = out@;
        out.push(' ');
        push_decimal(&mut out, self.turn);
        out.push(' ');
        push_decimal(&mut out, self.ambers[0]);
        out.push('/');
        push_decimal(&mut out, self.ambers[1]);
        proof {
            assert(out@ =~= fen_text(*self));
        }
        string_of_chars(&out)
    }
}

/// Appends the text of rank `r` of `board`.
fn push_row(out: &mut Vec<char>, board: &Board, r: u8)
    requires
        r < 8,
    ensures
        final(out)@ == old(out)@ + row_text(rank_cells(board.view(), r as int), 0, 0),
{
    let ghost row = rank_cells(board.view(), r as int);
    let ghost start = out@;
    let mut empties: u8 = 0;
    let mut f: u8 = 0;
    while f < 8
        invariant
            f <= 8,
            empties <= f,
            r < 8,
            row == rank_cells(board.view(), r as int),
            out@ + row_text(row, f as nat, empties as nat) == start + row_text(row, 0, 0),
        decreases 8 - f,
    {
        let ghost before = out@;
        let cell = board.piece_at(8 * r + f);
        proof {
            assert(row[f as int] == board.view()[8 * r + f]);
        }
        match cell {
            None => {
                empties = empties + 1;
            },
            Some(p) => {
                push_run(out, empties);
                out.push(letter_of(p));
                if p.stacked {
                    out.push('*');
                }
                proof {
                    assert(out@ =~= before + run_text(empties as nat) + piece_text(p));
                    assert(row_text(row, f as nat, empties as nat) == run_text(empties as nat)
                        + piece_text(p) + row_text(row, (f + 1) as nat, 0));
                    assert(out@ + row_text(row, (f + 1) as nat, 0) =~= before + row_text(
                        row,
                        f as nat,
                        empties as nat,
                    ));
                }
                empties = 0;
            },
        }
        f = f + 1;
    }
    push_run(out, empties);
    proof {
        assert(out@ =~= start + row_text(row, 0, 0));
    }
}

fn digit_of(c: char) -> (d: u8)
    requires
        is_digit(c),
    ensures
        d as int == digit_value(c),
        d < 10,
{
    ((c as u32) - 48u32) as u8
}

fn piece_from_char(c: char, stacked: bool) -> (r: Option<Piece>)
    ensures
        r == piece_of(c, stacked),
{
    match PieceType::from_short_form(c) {
        None => None,
        Some(k) => {
            let team = if c == 'H' || c == 'M' || c == 'S' || c == 'R' {
                Team::ONE
            } else {
                Team::TWO
            };
            Some(Piece { piece_type: k, team, stacked })
        },
    }
}

/// Reads a number from position `i`, as `parse_number` does.
fn read_number(t: &str, n: usize, i: usize) -> (r: Option<(u8, usize)>)
    requires
        n == t@.len(),
    ensures
        match r {
            None => parse_number(t@, i as int) is None,
            Some((v, j)) => parse_number(t@, i as int) == Some((v, j as int)) && j <= n,
        },
{
    if i >= n {
        return None;
    }
    let c0 = t.get_char(i);
    if !('0' <= c0 && c0 <= '9') {
        return None;
    }
    let mut value: u32 = digit_of(c0) as u32;
    let mut len: usize = 1;
    if i + 1 < n {
        let c1 = t.get_char(i + 1);
        if '0' <= c1 && c1 <= '9' {
            value = 10 * value + digit_of(c1) as u32;
            len = 2;
            if i + 2 < n {
                let c2 = t.get_char(i + 2);
                if '0' <= c2 && c2 <= '9' {
                    value = 10 * value + digit_of(c2) as u32;
                    len = 3;
                }
            }
        }
    }
    if len > 1 && c0 == '0' {
        return None;
    }
    if value > 255 {
        return None;
    }
    if i + len < n {
        let next = t.get_char(i + len);
        if '0' <= next && next <= '9' {
            return None;
        }
    }
    Some((value as u8, i + len))
}

/// Reads one rank from position `i`, as `parse_row` does.
fn read_row(t: &str, n: usize, i: usize) -> (r: Option<(Vec<Option<Piece>>, usize)>)
    requires
        n == t@.len(),
        i <= n,
    ensures
        match r {
            None => parse_row(t@, i as int, 0, Seq::empty()) is None,
            Some((cells, j)) => parse_row(t@, i as int, 0, Seq::empty()) == Some((cells@, j as int))
                && j <= n && cells@.len() == 8,
        },
{
    let mut cells: Vec<Option<Piece>> = Vec::new();
    let mut f: usize = 0;
    let mut pos: usize = i;
    while f < 8
        invariant
            n == t@.len(),
            pos <= n,
            f <= 8,
            cells@.len() == f,
            parse_row(t@, pos as int, f as nat, cells@) == parse_row(t@, i as int, 0, Seq::empty()),
        decreases n - pos,
    {
        if pos >= n {
            return None;
        }
        let c = t.get_char(pos);
        if '1' <= c && c <= '8' {
            let d = digit_of(c) as usize;
            if f + d > 8 {
                return None;
            }
            let ghost before = cells@;
            let mut j: usize = 0;
            while j < d
                invariant
                    j <= d,
                    cells@ == before + Seq::new(j as nat, |x: int| None::<Piece>),
                decreases d - j,
            {
                cells.push(None);
                j = j + 1;
                proof {
                    assert(cells@ =~= before + Seq::new(j as nat, |x: int| None::<Piece>));
                }
            }
            f = f + d;
            pos = pos + 1;
        } else {
            let stacked = pos + 1 < n && t.get_char(pos + 1) == '*';
            match piece_from_char(c, stacked) {
                None => {
                    return None;
                },
                Some(p) => {
                    cells.push(Some(p));
                    f = f + 1;
                    pos = if stacked {
                        pos + 2
                    } else {
                        pos + 1
                    };
                },
            }
        }
    }
    Some((cells, pos))
}

impl Gamestate {
    /// Reads a state from its compact text. The text must consist of eight ranks, each
    /// describing exactly eight squares, then a turn of at most 60 and two points of at most 3;
    /// anything else is refused.
    pub fn load_fen(fen: &str) -> (r: Result<Gamestate, FenError>)
        ensures
            match r {
                Ok(g) => g.wf() && parse_fen(fen@) == Some(
                    (g.board.view(), g.turn, g.ambers[0], g.ambers[1]),
                ),
                Err(FenError::Malformed(text)) => parse_fen(fen@) is None && text@ == fen@,
            },
    {
        let t = fen;
        let n = t.unicode_len();
        let mut board = Board::empty();
        let ghost mut rows: Seq<Seq<Option<Piece>>> = Seq::empty();
        let mut i: usize = 0;
        let mut k: usize = 0;
        while k < 8
            invariant
                t@ == fen@,
                n == t@.len(),
                i <= n,
                k <= 8,
                rows.len() == k,
                forall|j: int| 0 <= j < k ==> (#[trigger] rows[j]).len() == 8,
                parse_ranks(t@, i as int, k as nat, rows) == parse_ranks(t@, 0, 0, Seq::empty()),
                board.wf(),
                forall|s: int|
                    0 <= s < 64 ==> #[trigger] board.view()[s] == if 7 - s / 8 < k {
                        rows[7 - s / 8][s % 8]
                    } else {
                        None
                    },
            decreases 8 - k,
        {
            match read_row(t, n, i) {
                None => {
                    proof {
                        assert(parse_ranks(t@, i as int, k as nat, rows) is None);
                        lemma_no_ranks(t@);

                    }
                    return Err(FenError::Malformed(t.to_owned()));
                },
                Some((cells, j)) => {
                    let sep = if k < 7 {
                        '/'
                    } else {
                        ' '
                    };
                    if j >= n || t.get_char(j) != sep {
                        proof {
                            assert(parse_ranks(t@, i as int, k as nat, rows) is None);
                            lemma_no_ranks(t@);

                        }
                        return Err(FenError::Malformed(t.to_owned()));
                    }
                    let rank: usize = 7 - k;
                    let ghost before = board.view();
                    proof {
                        assert forall|s: int| 0 <= s < 64 && s / 8 == rank implies #[trigger] before[s] is None by {
                            assert(7 - s / 8 == k);
                        }
                    }
                    let mut f: usize = 0;
                    while f < 8
                        invariant
                            f <= 8,
                            rank == 7 - k,
                            k < 8,
                            cells@.len() == 8,
                            board.wf(),
                            forall|s: int| 0 <= s < 64 && s / 8 == rank ==> #[trigger] before[s] is None,
                            forall|s: int|
                                0 <= s < 64 ==> #[trigger] board.view()[s] == if s / 8 == rank && s % 8
                                    < f {
                                    cells@[s % 8]
                                } else {
                                    before[s]
                                },
                        decreases 8 - f,
                    {
                        if let Some(p) = cells[f] {
                            board.set_piece((8 * rank + f) as u8, p);
                        }
                        f = f + 1;
                        proof {
                            assert forall|s: int| 0 <= s < 64 implies #[trigger] board.view()[s]
                                == if s / 8 == rank && s % 8 < f {
                                cells@[s % 8]
                            } else {
                                before[s]
                            } by {
                                let pos = 8 * rank + f - 1;
                                vstd::arithmetic::div_mod::lemma_fundamental_div_mod(s, 8);
                                assert(pos / 8 == rank && pos % 8 == f - 1) by (nonlinear_arith)
                                    requires
                                        pos == 8 * rank + f - 1,
                                        1 <= f <= 8,
                                ;
                                if s / 8 == rank && s % 8 == f - 1 {
                                    assert(s == pos);
                                }
                            }
                        }
                    }
                    proof {
                        rows = rows.push(cells@);
                        assert forall|s: int| 0 <= s < 64 implies #[trigger] board.view()[s] == if 7 - s
                            / 8 < k + 1 {
                            rows[7 - s / 8][s % 8]
                        } else {
                            None
                        } by {
                            if s / 8 == rank {
                                assert(7 - s / 8 == k);
                            }
                        }
                    }
                    i = j + 1;
                    k = k + 1;
                },
            }
        }
        proof {
            assert(parse_ranks(t@, i as int, 8, rows) == Some((rows, i as int)));
            assert forall|s: int| 0 <= s < 64 implies #[trigger] board.view()[s] == position_of_rows(rows)[s] by {
                assert(7 - s / 8 < 8);
            }
            assert(board.view() =~= position_of_rows(rows));
        }
        let (turn, j) = match read_number(t, n, i) {
            Some(x) => x,
            None => {
                return Err(FenError::Malformed(t.to_owned()));
            },
        };
        if j >= n || t.get_char(j) != ' ' {
            return Err(FenError::Malformed(t.to_owned()));
        }
        let (a, k2) = match read_number(t, n, j + 1) {
            Some(x) => x,
            None => {
                return Err(FenError::Malformed(t.to_owned()));
            },
        };
        if k2 >= n || t.get_char(k2) != '/' {
            return Err(FenError::Malformed(t.to_owned()));
        }
        let (b, e) = match read_number(t, n, k2 + 1) {
            Some(x) => x,
            None => {
                return Err(FenError::Malformed(t.to_owned()));
            },
        };
        if e != n || turn > 60 || a > 3 || b > 3 {
            return Err(FenError::Malformed(t.to_owned()));
        }
        let g = Gamestate::new_with(board, turn, [a, b]);
        Ok(g)
    }
}

proof fn lemma_digit_char(n: int)
    requires
        0 <= n <= 9,
    ensures
        is_digit(digit_char(n)),
        digit_value(digit_char(n)) == n,
        digit_char(n) != '*',
        digit_char(n) != '/',
        digit_char(n) != ' ',
        1 <= n <= 8 ==> ('1' <= digit_char(n) && digit_char(n) <= '8'),
{
}

proof fn lemma_piece_letter(p: Piece)
    ensures
        piece_of(piece_letter(p), p.stacked) == Some(p),
        !('1' <= piece_letter(p) && piece_letter(p) <= '8'),
        piece_letter(p) != '*',
{
}

/// The text of a row never starts with `*`.
proof fn lemma_row_text_head(row: Seq<Option<Piece>>, f: nat, e: nat)
    requires
        e <= 8,
        e + (8 - f) <= 8 || f >= 8,
    ensures
        row_text(row, f, e).len() > 0 ==> row_text(row, f, e)[0] != '*',
    decreases 8 - f,
{
    if f >= 8 {
        if e > 0 {
            lemma_digit_char(e as int);
        }
    } else {
        match row[f as int] {
            None => {
                lemma_row_text_head(row, f + 1, e + 1);
            },
            Some(p) => {
                if e > 0 {
                    lemma_digit_char(e as int);
                } else {
                    lemma_piece_letter(p);
                    assert((run_text(e) + piece_text(p) + row_text(row, f + 1, 0))[0] == piece_text(p)[0]);
                }
            },
        }
    }
}

/// Reading the text of a row gives the row back.
proof fn lemma_parse_row_text(t: Seq<char>, i: int, row: Seq<Option<Piece>>, f: nat, e: nat)
    requires
        row.len() == 8,
        f <= 8,
        e <= f,
        forall|j: int| f - e <= j < f ==> row[j] is None,
        0 <= i,
        i + row_text(row, f, e).len() < t.len(),
        t.subrange(i, i + row_text(row, f, e).len()) == row_text(row, f, e),
        t[i + row_text(row, f, e).len()] != '*',
    ensures
        parse_row(t, i, (f - e) as nat, row.take(f - e)) == Some((row, i + row_text(row, f, e).len())),
    decreases 8 - f,
{
    let text = row_text(row, f, e);
    assert forall|k: int| 0 <= k < text.len() implies t[i + k] == #[trigger] text[k] by {
        assert(t.subrange(i, i + text.len())[k] == t[i + k]);
    }
    if f >= 8 {
        if e == 0 {
            assert(row.take(8) =~= row);
        } else {
            lemma_digit_char(e as int);
            assert(text == seq![digit_char(e as int)]);
            assert(text[0] == digit_char(e as int));
            assert(t[i] == digit_char(e as int));
            let cells = row.take(f - e) + Seq::new(e, |j: int| None::<Piece>);
            assert(cells =~= row);
            assert(parse_row(t, i + 1, 8, cells) == Some((cells, i + 1)));
        }
    } else {
        match row[f as int] {
            None => {
                lemma_parse_row_text(t, i, row, f + 1, e + 1);
            },
            Some(p) => {
                let run = run_text(e);
                let pt = piece_text(p);
                let rest = row_text(row, f + 1, 0);
                assert(text == run + pt + rest);
                let i1 = i + run.len();
                let i2 = i1 + pt.len();
                lemma_piece_letter(p);
                lemma_row_text_head(row, f + 1, 0);
                assert(t[i1] == piece_letter(p)) by {
                    assert(text[run.len() as int] == piece_letter(p));
                }
                if p.stacked {
                    assert(t[i1 + 1] == '*') by {
                        assert(text[run.len() + 1int] == '*');
                    }
                } else {
                    if rest.len() > 0 {
                        assert(t[i1 + 1] == rest[0]) by {
                            assert(text[run.len() + 1int] == rest[0]);
                        }
                    } else {
                        assert(i1 + 1 == i + text.len());
                    }
                }
                assert(t.subrange(i2, i2 + rest.len()) =~= rest) by {
                    assert forall|k: int| 0 <= k < rest.len() implies t.subrange(i2, i2 + rest.len())[k]
                        == rest[k] by {
                        assert(text[run.len() + pt.len() + k] == rest[k]);
                    }
                }
                lemma_parse_row_text(t, i2, row, f + 1, 0);
                assert(row.take(f as int).push(Some(p)) =~= row.take(f + 1int));
                assert(i2 + rest.len() == i + text.len());
                assert(i1 + 1 < t.len());
                assert(parse_row(t, i1, f, row.take(f as int)) == parse_row(
                    t,
                    i2,
                    f + 1,
                    row.take(f as int).push(Some(p)),
                ));
                assert(parse_row(t, i1, f, row.take(f as int)) == Some((row, i + text.len())));
                if e > 0 {
                    lemma_digit_char(e as int);
                    assert(text[0] == digit_char(e as int));
                    assert(t[i] == digit_char(e as int));
                    assert(row.take(f - e) + Seq::new(e, |j: int| None::<Piece>) =~= row.take(f as int));
                    assert(i1 == i + 1);
                } else {
                    assert(i1 == i);
                }
            },
        }
    }
}

/// Reading the text of the ranks from rank `7 - k` down gives those ranks back.
proof fn lemma_parse_ranks_text(t: Seq<char>, i: int, v: Position, k: nat)
    requires
        v.len() == 64,
        k <= 7,
        0 <= i,
        i + ranks_text(v, k).len() < t.len(),
        t.subrange(i, i + ranks_text(v, k).len()) == ranks_text(v, k),
        t[i + ranks_text(v, k).len()] == ' ',
    ensures
        forall|rows: Seq<Seq<Option<Piece>>>|
            rows =~= Seq::new(k, |j: int| rank_cells(v, 7 - j)) ==> #[trigger] parse_ranks(t, i, k, rows)
                == Some((Seq::new(8, |j: int| rank_cells(v, 7 - j)), i + ranks_text(v, k).len() + 1)),
    decreases 8 - k,
{
    let text = ranks_text(v, k);
    let row = rank_cells(v, 7 - k);
    let rt = row_text(row, 0, 0);
    assert forall|q: int| 0 <= q < text.len() implies t[i + q] == #[trigger] text[q] by {
        assert(t.subrange(i, i + text.len())[q] == t[i + q]);
    }
    assert(row.take(0) =~= Seq::<Option<Piece>>::empty());
    assert(t.subrange(i, i + rt.len()) =~= rt) by {
        assert forall|q: int| 0 <= q < rt.len() implies t.subrange(i, i + rt.len())[q] == rt[q] by {
            assert(text[q] == rt[q]);
        }
    }
    if k < 7 {
        let tail = ranks_text(v, k + 1);
        assert(text == rt + seq!['/'] + tail);
        assert(t[i + rt.len()] == '/') by {
            assert(text[rt.len() as int] == '/');
        }
        lemma_parse_row_text(t, i, row, 0, 0);
        let i2 = i + rt.len() + 1;
        assert(t.subrange(i2, i2 + tail.len()) =~= tail) by {
            assert forall|q: int| 0 <= q < tail.len() implies t.subrange(i2, i2 + tail.len())[q] == tail[q] by {
                assert(text[rt.len() + 1 + q] == tail[q]);
            }
        }
        lemma_parse_ranks_text(t, i2, v, k + 1);
        assert forall|rows: Seq<Seq<Option<Piece>>>|
            rows =~= Seq::new(k, |j: int| rank_cells(v, 7 - j)) implies #[trigger] parse_ranks(t, i, k, rows)
                == Some((Seq::new(8, |j: int| rank_cells(v, 7 - j)), i + text.len() + 1)) by {
            assert(rows.push(row) =~= Seq::new(k + 1, |j: int| rank_cells(v, 7 - j)));
            assert(parse_row(t, i, 0, Seq::empty()) == Some((row, i + rt.len())));
            assert(parse_ranks(t, i2, k + 1, rows.push(row)) == Some(
                (Seq::new(8, |j: int| rank_cells(v, 7 - j)), i2 + tail.len() + 1),
            ));
            assert(i2 + tail.len() + 1 == i + text.len() + 1);
        }
    } else {
        assert(text == rt);
        lemma_parse_row_text(t, i, row, 0, 0);
        assert forall|rows: Seq<Seq<Option<Piece>>>|
            rows =~= Seq::new(k, |j: int| rank_cells(v, 7 - j)) implies #[trigger] parse_ranks(t, i, k, rows)
                == Some((Seq::new(8, |j: int| rank_cells(v, 7 - j)), i + text.len() + 1)) by {
            assert(rows.push(row) =~= Seq::new(8, |j: int| rank_cells(v, 7 - j)));
            assert(parse_ranks(t, i + text.len() + 1, 8, rows.push(row)) == Some((rows.push(row), i + text.len() + 1)));
        }
    }
}

/// A number's decimal text, followed by a non-digit or the end, reads back as the number.
proof fn lemma_parse_decimal(t: Seq<char>, i: int, n: u8)
    requires
        0 <= i,
        i + decimal(n as nat).len() <= t.len(),
        t.subrange(i, i + decimal(n as nat).len()) == decimal(n as nat),
        i + decimal(n as nat).len() < t.len() ==> !is_digit(t[i + decimal(n as nat).len()]),
    ensures
        parse_number(t, i) == Some((n, i + decimal(n as nat).len())),
{
    let d = decimal(n as nat);
    let m = n as int;
    assert forall|q: int| 0 <= q < d.len() implies t[i + q] == #[trigger] d[q] by {
        assert(t.subrange(i, i + d.len())[q] == t[i + q]);
    }
    lemma_digit_char(m % 10);
    if m < 10 {
        assert(d == seq![digit_char(m)]);
        assert(t[i] == d[0]);
    } else if m < 100 {
        lemma_digit_char(m / 10);
        assert(decimal((m / 10) as nat) == seq![digit_char(m / 10)]);
        assert(d == seq![digit_char(m / 10), digit_char(m % 10)]);
        assert(t[i] == d[0] && t[i + 1] == d[1]);
    } else {
        lemma_digit_char(m / 100);
        lemma_digit_char((m / 10) % 10);
        assert((m / 10) / 10 == m / 100);
        assert(decimal((m / 100) as nat) == seq![digit_char(m / 100)]);
        assert(decimal((m / 10) as nat) == seq![digit_char(m / 100), digit_char((m / 10) % 10)]);
        assert(d == seq![digit_char(m / 100), digit_char((m / 10) % 10), digit_char(m % 10)]);
        assert(t[i] == d[0] && t[i + 1] == d[1] && t[i + 2] == d[2]);
    }
}

/// The text of a state with a turn of at most 60 and points of at most 3 reads back as that
/// state's board, turn and points.
pub proof fn lemma_parse_fen_text(g: Gamestate)
    requires
        g.turn <= 60,
        g.ambers[0] <= 3,
        g.ambers[1] <= 3,
    ensures
        parse_fen(fen_text(g)) == Some((g.board.view(), g.turn, g.ambers[0], g.ambers[1])),
{
    let v = g.board.view();
    let t = fen_text(g);
    let rt = ranks_text(v, 0);
    let dt = decimal(g.turn as nat);
    let da = decimal(g.ambers[0] as nat);
    let db = decimal(g.ambers[1] as nat);
    assert(t == rt + seq![' '] + dt + seq![' '] + da + seq!['/'] + db);
    assert(t.subrange(0, rt.len() as int) =~= rt);
    assert(t[rt.len() as int] == ' ');
    lemma_parse_ranks_text(t, 0, v, 0);
    let rows = Seq::new(8, |j: int| rank_cells(v, 7 - j));
    assert(Seq::<Seq<Option<Piece>>>::empty() =~= Seq::new(0, |j: int| rank_cells(v, 7 - j)));
    assert(parse_ranks(t, 0, 0, Seq::empty()) == Some((rows, rt.len() + 1int)));
    let i = rt.len() + 1int;
    let j = i + dt.len();
    let k = j + 1 + da.len();
    let e = k + 1 + db.len();
    assert(t.len() == e);
    assert(t.subrange(i, j) =~= dt);
    assert(t[j] == ' ');
    lemma_parse_decimal(t, i, g.turn);
    assert(t.subrange(j + 1, k) =~= da);
    assert(t[k] == '/');
    lemma_parse_decimal(t, j + 1, g.ambers[0]);
    assert(t.subrange(k + 1, e) =~= db);
    lemma_parse_decimal(t, k + 1, g.ambers[1]);
    assert(parse_tail(t, i as int) == Some((g.turn, g.ambers[0], g.ambers[1])));
    assert forall|s: int| 0 <= s < 64 implies #[trigger] position_of_rows(rows)[s] == v[s] by {
        vstd::arithmetic::div_mod::lemma_fundamental_div_mod(s, 8);
        assert(rows[7 - s / 8] == rank_cells(v, s / 8));
    }
    assert(position_of_rows(rows) =~= v);
}

/// Reading back the text of a state whose turn and points lie in the ranges of the text
/// (every state of a game does) gives the same state: `Gamestate::load_fen(&g.to_fen())`
/// is `Ok(g)`. (`to_fen` returns `fen_text(g)`, and what `load_fen` returns is a well-formed
/// `h` whose board, turn and points are the ones `parse_fen` reads.)
pub proof fn lemma_fen_round_trip(g: Gamestate, h: Gamestate)
    requires
        g.wf(),
        g.turn <= 60,
        g.ambers[0] <= 3,
        g.ambers[1] <= 3,
        h.wf(),
        parse_fen(fen_text(g)) == Some((h.board.view(), h.turn, h.ambers[0], h.ambers[1])),
    ensures
        h == g,
{
    lemma_parse_fen_text(g);
    lemma_view_determines_board(g.board, h.board);
    assert(g.ambers@ =~= h.ambers@);
    assert(g.ambers == h.ambers);
}

} // verus!
