use vstd::prelude::*;

verus! {

/// The side a piece belongs to.
#[derive(Clone, Copy, Debug, PartialEq, Eq, Structural)]
pub enum Side {
    White,
    Black,
}

/// The six kinds of chess pieces, without a side.
#[derive(Clone, Copy, Debug, PartialEq, Eq, Structural)]
pub enum PieceKind {
    Pawn,
    Knight,
    Bishop,
    Rook,
    Queen,
    King,
}

/// The occupant of a square: a piece of a side, or `Empty`.
#[derive(Clone, Copy, Debug, PartialEq, Eq, Structural)]
pub enum Piece {
    Pawn(Side),
    Knight(Side),
    Bishop(Side),
    Rook(Side),
    Queen(Side),
    King(Side),
    Empty,
}

/// The "file" (column) of a square, `A` to `H`.
#[derive(Clone, Copy, Debug, PartialEq, Eq, Structural)]
pub enum File {
    A,
    B,
    C,
    D,
    E,
    F,
    G,
    H,
}

/// A square given by its file and its rank; a square is on the board when its rank is 1 to 8.
#[derive(Clone, Copy, Debug, PartialEq, Eq, Structural)]
pub struct Position(pub File, pub i8);

/// A proposed move: the moving piece, where it starts and ends, whether it captures, and the
/// piece chosen when a pawn promotes.
#[derive(Clone, Copy, Debug, PartialEq, Eq, Structural)]
pub struct Move {
    pub piece: Piece,
    pub start_pos: Position,
    pub end_pos: Position,
    pub captured: bool,
    pub promotion: Option<PieceKind>,
}

/// Which castling moves are still permitted.
#[derive(Clone, Copy, Debug, PartialEq, Eq, Structural)]
pub struct CastlingRights {
    pub white_kingside: bool,
    pub white_queenside: bool,
    pub black_kingside: bool,
    pub black_queenside: bool,
}

/// Conditions that the engine reports to its caller.
#[derive(Clone, Copy, Debug, PartialEq, Eq, Structural)]
pub enum ChessError {
    OutOfBounds,
    IllegalMove,
}

/// A chess position: the 64 squares, indexed `rank * 8 + file` from a1 (0) to h8 (63), and the
/// state that the rules need besides the pieces.
#[derive(Clone, Copy, Debug)]
pub struct BaseBoard {
    squares: [Piece; 64],
    side_to_move: Side,
    castling: CastlingRights,
    en_passant: Option<Position>,
    halfmove_clock: u32,
}

/// The mathematical value of a board.
pub ghost struct BoardView {
    pub cells: Seq<Piece>,
    pub side_to_move: Side,
    pub castling: CastlingRights,
    pub en_passant: Option<Position>,
    pub halfmove_clock: int,
}

impl View for BaseBoard {
    type V = BoardView;

    closed spec fn view(&self) -> BoardView {
        BoardView {
            cells: self.squares@,
            side_to_move: self.side_to_move,
            castling: self.castling,
            en_passant: self.en_passant,
            halfmove_clock: self.halfmove_clock as int,
        }
    }
}

/// Index of a file, `A` being 0.
pub open spec fn file_index(f: File) -> int {
    match f {
        File::A => 0,
        File::B => 1,
        File::C => 2,
        File::D => 3,
        File::E => 4,
        File::F => 5,
        File::G => 6,
        File::H => 7,
    }
}

/// The file of an index in `0..8`.
pub open spec fn file_of(i: int) -> File {
    if i <= 0 {
        File::A
    } else if i == 1 {
        File::B
    } else if i == 2 {
        File::C
    } else if i == 3 {
        File::D
    } else if i == 4 {
        File::E
    } else if i == 5 {
        File::F
    } else if i == 6 {
        File::G
    } else {
        File::H
    }
}

/// A position lies on the board.
pub open spec fn pos_valid(p: Position) -> bool {
    1 <= p.1 <= 8
}

/// Zero-based file of a position.
pub open spec fn pos_file(p: Position) -> int {
    file_index(p.0)
}

/// Zero-based rank of a position.
pub open spec fn pos_rank(p: Position) -> int {
    p.1 as int - 1
}

/// Index in the 64 cells of the square at a zero-based file and rank.
pub open spec fn cell_index(f: int, r: int) -> int {
    r * 8 + f
}

pub open spec fn in_bounds(f: int, r: int) -> bool {
    0 <= f < 8 && 0 <= r < 8
}

/// The occupant of the square at a zero-based file and rank.
pub open spec fn cell(v: BoardView, f: int, r: int) -> Piece {
    v.cells[cell_index(f, r)]
}

/// The occupant of a position.
pub open spec fn cell_at(v: BoardView, p: Position) -> Piece {
    cell(v, pos_file(p), pos_rank(p))
}

pub open spec fn side_of(p: Piece) -> Option<Side> {
    match p {
        Piece::Pawn(s) => Some(s),
        Piece::Knight(s) => Some(s),
        Piece::Bishop(s) => Some(s),
        Piece::Rook(s) => Some(s),
        Piece::Queen(s) => Some(s),
        Piece::King(s) => Some(s),
        Piece::Empty => None,
    }
}

pub open spec fn owned_by(p: Piece, s: Side) -> bool {
    side_of(p) == Some(s)
}

pub open spec fn opponent(s: Side) -> Side {
    match s {
        Side::White => Side::Black,
        Side::Black => Side::White,
    }
}

/// The piece of a kind and a side.
pub open spec fn make_piece(k: PieceKind, s: Side) -> Piece {
    match k {
        PieceKind::Pawn => Piece::Pawn(s),
        PieceKind::Knight => Piece::Knight(s),
        PieceKind::Bishop => Piece::Bishop(s),
        PieceKind::Rook => Piece::Rook(s),
        PieceKind::Queen => Piece::Queen(s),
        PieceKind::King => Piece::King(s),
    }
}

/// The piece on a file at the start of a game, on the back rank of a side.
pub open spec fn back_rank_piece(f: int, s: Side) -> Piece {
    if f == 0 || f == 7 {
        Piece::Rook(s)
    } else if f == 1 || f == 6 {
        Piece::Knight(s)
    } else if f == 2 || f == 5 {
        Piece::Bishop(s)
    } else if f == 3 {
        Piece::Queen(s)
    } else {
        Piece::King(s)
    }
}

/// The occupant of a square at the start of a game.
pub open spec fn initial_piece(f: int, r: int) -> Piece {
    if r == 0 {
        back_rank_piece(f, Side::White)
    } else if r == 1 {
        Piece::Pawn(Side::White)
    } else if r == 6 {
        Piece::Pawn(Side::Black)
    } else if r == 7 {
        back_rank_piece(f, Side::Black)
    } else {
        Piece::Empty
    }
}

/// The standard starting position.
pub open spec fn is_initial(v: BoardView) -> bool {
    &&& v.cells.len() == 64
    &&& forall|f: int, r: int| #![trigger cell(v, f, r)] in_bounds(f, r) ==> cell(v, f, r) == initial_piece(f, r)
    &&& v.side_to_move == Side::White
    &&& v.castling == CastlingRights {
        white_kingside: true,
        white_queenside: true,
        black_kingside: true,
        black_queenside: true,
    }
    &&& v.en_passant.is_none()
    &&& v.halfmove_clock == 0
}

/// Creating and inspecting boards.
pub trait Board: Sized {
    spec fn board_view(&self) -> BoardView;

    /// The standard starting position, White to move.
    fn new() -> (r: Self)
        ensures
            is_initial(r.board_view()),
    ;

    /// The rows of the board, rank 8 first, each from file a to h.
    fn as_array(&self) -> (r: [[Piece; 8]; 8])
        ensures
            forall|row: int, f: int|
                0 <= row < 8 && 0 <= f < 8 ==> #[trigger] r@[row]@[f] == cell(self.board_view(), f, 7 - row),
    ;
}

pub(crate) fn file_to_index(f: File) -> (r: usize)
    ensures
        r as int == file_index(f),
{
    match f {
        File::A => 0,
        File::B => 1,
        File::C => 2,
        File::D => 3,
        File::E => 4,
        File::F => 5,
        File::G => 6,
        File::H => 7,
    }
}

pub(crate) fn index_to_file(i: usize) -> (r: File)
    requires
        i < 8,
    ensures
        r == file_of(i as int),
        file_index(r) == i as int,
{
    if i == 0 {
        File::A
    } else if i == 1 {
        File::B
    } else if i == 2 {
        File::C
    } else if i == 3 {
        File::D
    } else if i == 4 {
        File::E
    } else if i == 5 {
        File::F
    } else if i == 6 {
        File::G
    } else {
        File::H
    }
}

fn back_rank(f: usize, s: Side) -> (r: Piece)
    requires
        f < 8,
    ensures
        r == back_rank_piece(f as int, s),
{
    if f == 0 || f == 7 {
        Piece::Rook(s)
    } else if f == 1 || f == 6 {
        Piece::Knight(s)
    } else if f == 2 || f == 5 {
        Piece::Bishop(s)
    } else if f == 3 {
        Piece::Queen(s)
    } else {
        Piece::King(s)
    }
}


/// The rank (1 to 8) on which a side's king and rooks start.
pub open spec fn home_rank(s: Side) -> i8 {
    match s {
        Side::White => 1,
        Side::Black => 8,
    }
}

/// A move has the shape of castling: the king of a side from its start square two files
/// towards either rook, on its home rank.
pub open spec fn is_castle_shape(m: Move) -> bool {
    exists|s: Side|
        #![trigger home_rank(s)]
        m.piece == Piece::King(s) && m.start_pos == Position(File::E, home_rank(s)) && m.end_pos.1
            == home_rank(s) && (m.end_pos.0 == File::G || m.end_pos.0 == File::C)
}

/// The letter of a piece in move notation; pawns have none.
pub open spec fn piece_letter(p: Piece) -> Seq<char> {
    match p {
        Piece::Pawn(_) => seq![],
        Piece::Knight(_) => seq!['N'],
        Piece::Bishop(_) => seq!['B'],
        Piece::Rook(_) => seq!['R'],
        Piece::Queen(_) => seq!['Q'],
        Piece::King(_) => seq!['K'],
        Piece::Empty => seq!['E', 'R', 'R'],
    }
}

pub open spec fn kind_letter(k: PieceKind) -> Seq<char> {
    match k {
        PieceKind::Pawn => seq![],
        PieceKind::Knight => seq!['N'],
        PieceKind::Bishop => seq!['B'],
        PieceKind::Rook => seq!['R'],
        PieceKind::Queen => seq!['Q'],
        PieceKind::King => seq!['K'],
    }
}

pub open spec fn file_char(f: File) -> char {
    match f {
        File::A => 'a',
        File::B => 'b',
        File::C => 'c',
        File::D => 'd',
        File::E => 'e',
        File::F => 'f',
        File::G => 'g',
        File::H => 'h',
    }
}

/// The digit of a rank from 1 to 8.
pub open spec fn rank_char(r: i8) -> char {
    if r == 1 {
        '1'
    } else if r == 2 {
        '2'
    } else if r == 3 {
        '3'
    } else if r == 4 {
        '4'
    } else if r == 5 {
        '5'
    } else if r == 6 {
        '6'
    } else if r == 7 {
        '7'
    } else {
        '8'
    }
}

pub open spec fn square_text(p: Position) -> Seq<char> {
    seq![file_char(p.0), rank_char(p.1)]
}

/// The short notation of a move: `O-O` or `O-O-O` for castling, otherwise the piece letter,
/// the start square, `x` for a capture, the end square and `=` with the letter of a promotion.
pub open spec fn notation(m: Move) -> Seq<char> {
    if is_castle_shape(m) {
        if m.end_pos.0 == File::G {
            seq!['O', '-', 'O']
        } else {
            seq!['O', '-', 'O', '-', 'O']
        }
    } else {
        piece_letter(m.piece) + square_text(m.start_pos) + (if m.captured {
            seq!['x']
        } else {
            seq![]
        }) + square_text(m.end_pos) + match m.promotion {
            Some(k) => seq!['='] + kind_letter(k),
            None => seq![],
        }
    }
}

fn piece_letter_str(p: Piece) -> (r: &'static str)
    ensures
        r@ == piece_letter(p),
{
    match p {
        Piece::Pawn(_) => {
            proof { reveal_strlit(""); }
            ""
        },
        Piece::Knight(_) => {
            proof { reveal_strlit("N"); }
            "N"
        },
        Piece::Bishop(_) => {
            proof { reveal_strlit("B"); }
            "B"
        },
        Piece::Rook(_) => {
            proof { reveal_strlit("R"); }
            "R"
        },
        Piece::Queen(_) => {
            proof { reveal_strlit("Q"); }
            "Q"
        },
        Piece::King(_) => {
            proof { reveal_strlit("K"); }
            "K"
        },
        Piece::Empty => {
            proof { reveal_strlit("ERR"); }
            "ERR"
        },
    }
}

fn kind_letter_str(k: PieceKind) -> (r: &'static str)
    ensures
        r@ == kind_letter(k),
{
    match k {
        PieceKind::Pawn => {
            proof { reveal_strlit(""); }
            ""
        },
        PieceKind::Knight => {
            proof { reveal_strlit("N"); }
            "N"
        },
        PieceKind::Bishop => {
            proof { reveal_strlit("B"); }
            "B"
        },
        PieceKind::Rook => {
            proof { reveal_strlit("R"); }
            "R"
        },
        PieceKind::Queen => {
            proof { reveal_strlit("Q"); }
            "Q"
        },
        PieceKind::King => {
            proof { reveal_strlit("K"); }
            "K"
        },
    }
}

fn file_str(f: File) -> (r: &'static str)
    ensures
        r@ == seq![file_char(f)],
{
    match f {
        File::A => {
            proof { reveal_strlit("a"); }
            "a"
        },
        File::B => {
            proof { reveal_strlit("b"); }
            "b"
        },
        File::C => {
            proof { reveal_strlit("c"); }
            "c"
        },
        File::D => {
            proof { reveal_strlit("d"); }
            "d"
        },
        File::E => {
            proof { reveal_strlit("e"); }
            "e"
        },
        File::F => {
            proof { reveal_strlit("f"); }
            "f"
        },
        File::G => {
            proof { reveal_strlit("g"); }
            "g"
        },
        File::H => {
            proof { reveal_strlit("h"); }
            "h"
        },
    }
}

fn rank_str(r: i8) -> (s: &'static str)
    ensures
        s@ == seq![rank_char(r)],
{
    if r == 1 {
        proof { reveal_strlit("1"); }
        "1"
    } else if r == 2 {
        proof { reveal_strlit("2"); }
        "2"
    } else if r == 3 {
        proof { reveal_strlit("3"); }
        "3"
    } else if r == 4 {
        proof { reveal_strlit("4"); }
        "4"
    } else if r == 5 {
        proof { reveal_strlit("5"); }
        "5"
    } else if r == 6 {
        proof { reveal_strlit("6"); }
        "6"
    } else if r == 7 {
        proof { reveal_strlit("7"); }
        "7"
    } else {
        proof { reveal_strlit("8"); }
        "8"
    }
}

/// A side's home rank, computed.
fn home_rank_of(s: Side) -> (r: i8)
    ensures
        r == home_rank(s),
{
    match s {
        Side::White => 1,
        Side::Black => 8,
    }
}

pub(crate) fn side_of_piece(p: Piece) -> (r: Option<Side>)
    ensures
        r == side_of(p),
{
    match p {
        Piece::Pawn(s) => Some(s),
        Piece::Knight(s) => Some(s),
        Piece::Bishop(s) => Some(s),
        Piece::Rook(s) => Some(s),
        Piece::Queen(s) => Some(s),
        Piece::King(s) => Some(s),
        Piece::Empty => None,
    }
}

impl Move {
    /// Whether this move has the shape of castling.
    pub fn castle_shape(&self) -> (r: bool)
        ensures
            r == is_castle_shape(*self),
    {
        match self.piece {
            Piece::King(s) => {
                let home = home_rank_of(s);
                let r = self.start_pos.0 == File::E && self.start_pos.1 == home && self.end_pos.1
                    == home && (self.end_pos.0 == File::G || self.end_pos.0 == File::C);
                proof {
                    if is_castle_shape(*self) {
                        let t = choose|t: Side| #![trigger home_rank(t)]
                            self.piece == Piece::King(t) && self.start_pos == Position(
                                File::E,
                                home_rank(t),
                            ) && self.end_pos.1 == home_rank(t) && (self.end_pos.0 == File::G
                                || self.end_pos.0 == File::C);
                        assert(t == s);
                    }
                    if r {
                        assert(home_rank(s) == home);
                    }
                }
                r
            },
            _ => false,
        }
    }

    /// The move in short notation, such as `Ra3b6`, `Kh2xd5`, `O-O` or `e7e8=Q`.
    pub fn render(&self) -> (r: String)
        ensures
            r@ == notation(*self),
    {
        if self.castle_shape() {
            if self.end_pos.0 == File::G {
                proof { reveal_strlit("O-O"); }
                String::from_str("O-O")
            } else {
                proof { reveal_strlit("O-O-O"); }
                String::from_str("O-O-O")
            }
        } else {
            let mut out = String::from_str(piece_letter_str(self.piece));
            out.append(file_str(self.start_pos.0));
            out.append(rank_str(self.start_pos.1));
            if self.captured {
                proof { reveal_strlit("x"); }
                out.append("x");
            }
            out.append(file_str(self.end_pos.0));
            out.append(rank_str(self.end_pos.1));
            match self.promotion {
                Some(k) => {
                    proof { reveal_strlit("="); }
                    out.append("=");
                    out.append(kind_letter_str(k));
                },
                None => {},
            }
            proof {
                assert(out@ =~= notation(*self));
            }
            out
        }
    }
}

impl BaseBoard {
    /// A board from its 64 squares (indexed `rank * 8 + file`, a1 being 0) and its state.
    pub fn from_parts(
        squares: [Piece; 64],
        side_to_move: Side,
        castling: CastlingRights,
        en_passant: Option<Position>,
        halfmove_clock: u32,
    ) -> (r: BaseBoard)
        ensures
            r@ == (BoardView {
                cells: squares@,
                side_to_move,
                castling,
                en_passant,
                halfmove_clock: halfmove_clock as int,
            }),
    {
        BaseBoard { squares, side_to_move, castling, en_passant, halfmove_clock }
    }

    /// A board always has 64 squares.
    pub proof fn lemma_cells_len(&self)
        ensures
            self@.cells.len() == 64,
    {
    }

    /// A copy of the 64 squares, indexed `rank * 8 + file`.
    pub fn squares(&self) -> (r: [Piece; 64])
        ensures
            r@ == self@.cells,
            r@.len() == 64,
    {
        self.squares
    }

    pub fn side_to_move(&self) -> (r: Side)
        ensures
            r == self@.side_to_move,
    {
        self.side_to_move
    }

    pub fn castling_rights(&self) -> (r: CastlingRights)
        ensures
            r == self@.castling,
    {
        self.castling
    }

    pub fn en_passant_target(&self) -> (r: Option<Position>)
        ensures
            r == self@.en_passant,
    {
        self.en_passant
    }

    pub fn halfmove_clock(&self) -> (r: u32)
        ensures
            r as int == self@.halfmove_clock,
    {
        self.halfmove_clock
    }

    /// The occupant of a square at a zero-based file and rank.
    pub fn piece_at(&self, f: usize, r: usize) -> (p: Piece)
        requires
            f < 8,
            r < 8,
        ensures
            p == cell(self@, f as int, r as int),
    {
        self.squares[r * 8 + f]
    }

    /// The occupant of a position; `OutOfBounds` exactly when its rank is not 1 to 8.
    pub fn occupant_at(&self, pos: Position) -> (r: Result<Piece, ChessError>)
        ensures
            pos_valid(pos) ==> r == Ok::<Piece, ChessError>(cell_at(self@, pos)),
            !pos_valid(pos) ==> r == Err::<Piece, ChessError>(ChessError::OutOfBounds),
    {
        if pos.1 < 1 || pos.1 > 8 {
            Err(ChessError::OutOfBounds)
        } else {
            let f = file_to_index(pos.0);
            let rank = (pos.1 - 1) as usize;
            Ok(self.piece_at(f, rank))
        }
    }
}

impl Board for BaseBoard {
    open spec fn board_view(&self) -> BoardView {
        self@
    }

    fn new() -> (r: BaseBoard) {
        let mut squares: [Piece; 64] = [Piece::Empty; 64];
        let mut f: usize = 0;
        while f < 8
            invariant
                0 <= f <= 8,
                forall|g: int, r: int| #![trigger squares@[cell_index(g, r)]]
                    in_bounds(g, r) ==> squares@[cell_index(g, r)] == if g < f {
                        initial_piece(g, r)
                    } else {
                        Piece::Empty
                    },
            decreases 8 - f,
        {
            squares[f] = back_rank(f, Side::White);
            squares[8 + f] = Piece::Pawn(Side::White);
            squares[48 + f] = Piece::Pawn(Side::Black);
            squares[56 + f] = back_rank(f, Side::Black);
            f = f + 1;
        }
        let r = BaseBoard {
            squares,
            side_to_move: Side::White,
            castling: CastlingRights {
                white_kingside: true,
                white_queenside: true,
                black_kingside: true,
                black_queenside: true,
            },
            en_passant: None,
            halfmove_clock: 0,
        };
        assert forall|g: int, rk: int| #![trigger cell(r@, g, rk)] in_bounds(g, rk) implies cell(r@, g, rk)
            == initial_piece(g, rk) by {
            assert(squares@[cell_index(g, rk)] == initial_piece(g, rk));
        }
        r
    }

    fn as_array(&self) -> (r: [[Piece; 8]; 8]) {
        let mut grid: [[Piece; 8]; 8] = [[Piece::Empty; 8]; 8];
        let mut row: usize = 0;
        while row < 8
            invariant
                0 <= row <= 8,
                forall|i: int, f: int|
                    0 <= i < row && 0 <= f < 8 ==> #[trigger] grid@[i]@[f] == cell(self@, f, 7 - i),
            decreases 8 - row,
        {
            let mut line: [Piece; 8] = [Piece::Empty; 8];
            let mut f: usize = 0;
            while f < 8
                invariant
                    0 <= f <= 8,
                    row < 8,
                    forall|g: int| 0 <= g < f ==> #[trigger] line@[g] == cell(self@, g, 7 - row),
                decreases 8 - f,
            {
                line[f] = self.piece_at(f, 7 - row);
                f = f + 1;
            }
            grid[row] = line;
            row = row + 1;
        }
        grid
    }
}

} // verus!
