use vstd::prelude::*;

verus! {

/// A playing party. `ONE` starts on rank 0 and moves first, `TWO` starts on rank 7.
#[derive(Clone, Copy, Debug, PartialEq, Eq, Hash, Structural)]
pub enum Team {
    ONE,
    TWO,
}

pub open spec fn opponent_spec(t: Team) -> Team {
    match t {
        Team::ONE => Team::TWO,
        Team::TWO => Team::ONE,
    }
}

pub open spec fn team_index(t: Team) -> int {
    match t {
        Team::ONE => 0,
        Team::TWO => 1,
    }
}

impl Team {
    /// The other team.
    pub fn opponent(self) -> (r: Team)
        ensures
            r == opponent_spec(self),
    {
        match self {
            Team::ONE => Team::TWO,
            Team::TWO => Team::ONE,
        }
    }

    /// Same as `opponent`.
    pub fn next(&self) -> (r: Team)
        ensures
            r == opponent_spec(*self),
    {
        self.opponent()
    }

    /// The direction along the files in which the team's pieces advance.
    pub fn direction(self) -> (r: i32)
        ensures
            r == (if self == Team::ONE { 1i32 } else { -1i32 }),
    {
        match self {
            Team::ONE => 1,
            Team::TWO => -1,
        }
    }

    /// The team to move at `turn` when `start_team` moves on odd turns.
    pub fn current(start_team: Team, turn: u8) -> (r: Team)
        ensures
            r == (if turn % 2 == 1 { start_team } else { opponent_spec(start_team) }),
    {
        if turn % 2 == 1 {
            start_team
        } else {
            start_team.opponent()
        }
    }

    /// Position of the team in two-element per-team arrays.
    pub fn index(self) -> (r: usize)
        ensures
            r as int == team_index(self),
    {
        match self {
            Team::ONE => 0,
            Team::TWO => 1,
        }
    }
}

/// The four kinds of pieces.
#[derive(Clone, Copy, Debug, PartialEq, Eq, Hash, Structural)]
pub enum PieceType {
    /// Moves only diagonally forwards.
    Herzmuschel,
    /// Moves only to the orthogonally adjacent squares.
    Moewe,
    /// Moves diagonally or straight forwards.
    Seestern,
    /// Moves like a knight in chess; the only piece that is not light.
    Robbe,
}

pub open spec fn is_light_spec(p: PieceType) -> bool {
    p != PieceType::Robbe
}

pub open spec fn kind_index(p: PieceType) -> int {
    match p {
        PieceType::Herzmuschel => 0,
        PieceType::Moewe => 1,
        PieceType::Seestern => 2,
        PieceType::Robbe => 3,
    }
}

/// The letter of a kind, in lower case.
pub open spec fn kind_letter(p: PieceType) -> char {
    match p {
        PieceType::Herzmuschel => 'h',
        PieceType::Moewe => 'm',
        PieceType::Seestern => 's',
        PieceType::Robbe => 'r',
    }
}

/// The kind whose letter, in either case, is `c`.
pub open spec fn kind_of_letter(c: char) -> Option<PieceType> {
    if c == 'h' || c == 'H' {
        Some(PieceType::Herzmuschel)
    } else if c == 'm' || c == 'M' {
        Some(PieceType::Moewe)
    } else if c == 's' || c == 'S' {
        Some(PieceType::Seestern)
    } else if c == 'r' || c == 'R' {
        Some(PieceType::Robbe)
    } else {
        None
    }
}

/// The kind whose full name is `s`.
pub open spec fn kind_of_name(s: Seq<char>) -> Option<PieceType> {
    if s == "Herzmuschel"@ {
        Some(PieceType::Herzmuschel)
    } else if s == "Moewe"@ {
        Some(PieceType::Moewe)
    } else if s == "Seestern"@ {
        Some(PieceType::Seestern)
    } else if s == "Robbe"@ {
        Some(PieceType::Robbe)
    } else {
        None
    }
}

impl PieceType {
    /// Whether the kind is light: every kind but the Robbe.
    pub fn is_light(self) -> (r: bool)
        ensures
            r == is_light_spec(self),
    {
        !matches!(self, PieceType::Robbe)
    }

    /// Position of the kind in per-kind tables.
    pub fn index(self) -> (r: usize)
        ensures
            r as int == kind_index(self),
    {
        match self {
            PieceType::Herzmuschel => 0,
            PieceType::Moewe => 1,
            PieceType::Seestern => 2,
            PieceType::Robbe => 3,
        }
    }

    /// The lower-case letter of the kind.
    pub fn to_short_form(&self) -> (r: char)
        ensures
            r == kind_letter(*self),
    {
        match self {
            PieceType::Herzmuschel => 'h',
            PieceType::Moewe => 'm',
            PieceType::Seestern => 's',
            PieceType::Robbe => 'r',
        }
    }

    /// The kind of a letter in either case, if it names one.
    pub fn from_short_form(c: char) -> (r: Option<PieceType>)
        ensures
            r == kind_of_letter(c),
    {
        if c == 'h' || c == 'H' {
            Some(PieceType::Herzmuschel)
        } else if c == 'm' || c == 'M' {
            Some(PieceType::Moewe)
        } else if c == 's' || c == 'S' {
            Some(PieceType::Seestern)
        } else if c == 'r' || c == 'R' {
            Some(PieceType::Robbe)
        } else {
            None
        }
    }

    /// The kind named by its full name ("Herzmuschel", "Moewe", "Seestern", "Robbe").
    pub fn piece_type_from_name(name: &str) -> (r: Option<PieceType>)
        ensures
            r == kind_of_name(name@),
    {
        proof {
            reveal_strlit("Herzmuschel");
            reveal_strlit("Moewe");
            reveal_strlit("Seestern");
            reveal_strlit("Robbe");
        }
        if str_eq(name, "Herzmuschel") {
            Some(PieceType::Herzmuschel)
        } else if str_eq(name, "Moewe") {
            Some(PieceType::Moewe)
        } else if str_eq(name, "Seestern") {
            Some(PieceType::Seestern)
        } else if str_eq(name, "Robbe") {
            Some(PieceType::Robbe)
        } else {
            None
        }
    }
}

/// Character-wise equality of two strings.
pub fn str_eq(a: &str, b: &str) -> (r: bool)
    ensures
        r == (a@ == b@),
{
    let n = a.unicode_len();
    if n != b.unicode_len() {
        return false;
    }
    let mut i: usize = 0;
    while i < n
        invariant
            n == a@.len(),
            n == b@.len(),
            i <= n,
            forall|j: int| 0 <= j < i ==> a@[j] == b@[j],
        decreases n - i,
    {
        if a.get_char(i) != b.get_char(i) {
            return false;
        }
        i = i + 1;
    }
    assert(a@ =~= b@);
    true
}

/// A piece on the board: its kind, its owner, and whether a second piece of the owner
/// lies underneath it.
#[derive(Clone, Copy, Debug, PartialEq, Eq, Hash, Structural)]
pub struct Piece {
    pub piece_type: PieceType,
    pub team: Team,
    pub stacked: bool,
}

impl Piece {
    pub fn new(piece_type: PieceType, team: Team, stacked: bool) -> (r: Self)
        ensures
            r == (Piece { piece_type, team, stacked }),
    {
        Piece { piece_type, team, stacked }
    }
}

/// A move of the piece of kind `piece` from square `from` to square `to`.
#[derive(Clone, Copy, Debug, PartialEq, Eq, Hash, Structural)]
pub struct Move {
    pub from: u8,
    pub to: u8,
    pub piece: PieceType,
}

} // verus!
