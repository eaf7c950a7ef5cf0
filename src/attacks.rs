//! Attack bitboards. Bit `s` of a board is square `s`: rank `s / 8`,
//! file `s % 8`. Every set is stated as the mask of the squares that meet a
//! predicate, and computed by a scan over the 64 squares.
use vstd::prelude::*;

verus! {

pub const FILE_A: u64 = 0x0101_0101_0101_0101;

pub const FILE_H: u64 = 0x8080_8080_8080_8080;

/// Piece codes, as the engine numbers them.
pub struct Piece;

impl Piece {
    pub const WHITE: usize = 0;
    pub const BLACK: usize = 1;
    pub const PAWN: usize = 2;
    pub const KNIGHT: usize = 3;
    pub const BISHOP: usize = 4;
    pub const ROOK: usize = 5;
    pub const QUEEN: usize = 6;
    pub const KING: usize = 7;
}

pub open spec fn rank(s: int) -> int {
    s / 8
}

pub open spec fn file(s: int) -> int {
    s % 8
}

pub open spec fn abs(x: int) -> int {
    if x < 0 {
        -x
    } else {
        x
    }
}

pub open spec fn sign(x: int) -> int {
    if x > 0 {
        1
    } else if x < 0 {
        -1
    } else {
        0
    }
}

/// Whether square `s` is set in `b`.
pub open spec fn bit_set(b: u64, s: int) -> bool {
    (b >> (s as u64)) & 1 == 1
}

/// The board of the squares `0..n` that meet `p`.
pub open spec fn mask_upto(p: spec_fn(int) -> bool, n: int) -> u64
    decreases n,
{
    if n <= 0 {
        0
    } else {
        mask_upto(p, n - 1) | (if p(n - 1) {
            1u64 << ((n - 1) as u64)
        } else {
            0u64
        })
    }
}

pub open spec fn mask_of(p: spec_fn(int) -> bool) -> u64 {
    mask_upto(p, 64)
}

pub open spec fn knight_step(a: int, t: int) -> bool {
    let dr = abs(rank(t) - rank(a));
    let df = abs(file(t) - file(a));
    (dr == 1 && df == 2) || (dr == 2 && df == 1)
}

pub open spec fn king_step(a: int, t: int) -> bool {
    t != a && abs(rank(t) - rank(a)) <= 1 && abs(file(t) - file(a)) <= 1
}

/// A pawn of `side` (0 white, moving up the ranks; 1 black) on `a`
/// attacks `t`.
pub open spec fn pawn_step(side: int, a: int, t: int) -> bool {
    rank(t) == rank(a) + (if side == 0 {
        1int
    } else {
        -1int
    }) && abs(file(t) - file(a)) == 1
}

/// The square `k` steps from `a` towards `t`.
pub open spec fn toward(a: int, t: int, k: int) -> int {
    (rank(a) + k * sign(rank(t) - rank(a))) * 8 + file(a) + k * sign(file(t) - file(a))
}

pub open spec fn distance(a: int, t: int) -> int {
    let dr = abs(rank(t) - rank(a));
    let df = abs(file(t) - file(a));
    if dr > df {
        dr
    } else {
        df
    }
}

/// No square strictly between `a` and `t` is occupied.
pub open spec fn clear_between(a: int, t: int, occ: u64) -> bool {
    forall|k: int| 1 <= k < distance(a, t) ==> !bit_set(occ, #[trigger] toward(a, t, k))
}

pub open spec fn orthogonal(a: int, t: int) -> bool {
    t != a && (rank(t) == rank(a) || file(t) == file(a))
}

pub open spec fn diagonal(a: int, t: int) -> bool {
    t != a && abs(rank(t) - rank(a)) == abs(file(t) - file(a))
}

/// A slider on `a` reaches `t`: the path is clear up to and including the
/// first occupied square.
pub open spec fn rook_reach(a: int, occ: u64) -> spec_fn(int) -> bool {
    |t: int| orthogonal(a, t) && clear_between(a, t, occ)
}

pub open spec fn bishop_reach(a: int, occ: u64) -> spec_fn(int) -> bool {
    |t: int| diagonal(a, t) && clear_between(a, t, occ)
}

pub open spec fn rook_attacks(a: int, occ: u64) -> u64 {
    mask_of(rook_reach(a, occ))
}

pub open spec fn bishop_attacks(a: int, occ: u64) -> u64 {
    mask_of(bishop_reach(a, occ))
}

/// The rank, file, diagonal or anti-diagonal through `i` that holds `j`,
/// tried in that order; empty if there is none.
pub open spec fn line_pred(i: int, j: int) -> spec_fn(int) -> bool {
    if file(j) == file(i) {
        |t: int| file(t) == file(i)
    } else if rank(j) == rank(i) {
        |t: int| rank(t) == rank(i)
    } else if file(j) - rank(j) == file(i) - rank(i) {
        |t: int| file(t) - rank(t) == file(i) - rank(i)
    } else if file(j) + rank(j) == file(i) + rank(i) {
        |t: int| file(t) + rank(t) == file(i) + rank(i)
    } else {
        |t: int| false
    }
}

/// The squares whose occupancy decides a rook's attacks from `a`: its rank
/// and file without `a` and without the board's edge squares.
pub open spec fn rook_mask_pred(a: int) -> spec_fn(int) -> bool {
    |t: int|
        (file(t) == file(a) && rank(t) != rank(a) && 1 <= rank(t) <= 6) || (rank(t) == rank(a) && file(
            t,
        ) != file(a) && 1 <= file(t) <= 6)
}

pub open spec fn bishop_mask_pred(a: int) -> spec_fn(int) -> bool {
    |t: int| diagonal(a, t) && 1 <= rank(t) <= 6 && 1 <= file(t) <= 6
}

pub open spec fn knight_pred(a: int) -> spec_fn(int) -> bool {
    |t: int| knight_step(a, t)
}

pub open spec fn king_pred(a: int) -> spec_fn(int) -> bool {
    |t: int| king_step(a, t)
}

pub open spec fn pawn_pred(side: int, a: int) -> spec_fn(int) -> bool {
    |t: int| pawn_step(side, a, t)
}

fn abs_diff(x: usize, y: usize) -> (r: usize)
    ensures
        r == abs(x - y),
{
    if x >= y {
        x - y
    } else {
        y - x
    }
}

fn bit_at(b: u64, s: usize) -> (r: bool)
    requires
        s < 64,
    ensures
        r == bit_set(b, s as int),
{
    (b >> (s as u64)) & 1 == 1
}

fn clear_path(a: usize, t: usize, occ: u64) -> (r: bool)
    requires
        a < 64,
        t < 64,
        orthogonal(a as int, t as int) || diagonal(a as int, t as int),
    ensures
        r == clear_between(a as int, t as int, occ),
{
    let (ra, fa, rt, ft) = (a / 8, a % 8, t / 8, t % 8);
    let dr = abs_diff(ra, rt);
    let df = abs_diff(fa, ft);
    let dist = if dr > df { dr } else { df };
    let mut k: usize = 1;
    while k < dist
        invariant
            a < 64,
            t < 64,
            ra == rank(a as int),
            fa == file(a as int),
            rt == rank(t as int),
            ft == file(t as int),
            dr == abs(rt - ra),
            df == abs(ft - fa),
            dist == distance(a as int, t as int),
            orthogonal(a as int, t as int) || diagonal(a as int, t as int),
            1 <= k <= dist,
            forall|j: int| 1 <= j < k ==> !bit_set(occ, #[trigger] toward(a as int, t as int, j)),
        decreases dist - k,
    {
        let r = if rt > ra {
            ra + k
        } else if rt < ra {
            ra - k
        } else {
            ra
        };
        let f = if ft > fa {
            fa + k
        } else if ft < fa {
            fa - k
        } else {
            fa
        };
        assert(r * 8 + f == toward(a as int, t as int, k as int)) by {
            assert(k * 1int == k);
            assert(k * (-1int) == -k);
            assert(k * 0int == 0);
        }
        if bit_at(occ, r * 8 + f) {
            return false;
        }
        k = k + 1;
    }
    true
}

proof fn lemma_or_bit(m: u64, k: u64, s: u64)
    requires
        k < 64,
        s < 64,
    ensures
        ((m | (1u64 << k)) >> s) & 1 == 1 <==> ((m >> s) & 1 == 1 || s == k),
        ((m | 0u64) >> s) & 1 == 1 <==> (m >> s) & 1 == 1,
{
    assert(((m | (1u64 << k)) >> s) & 1 == 1 <==> ((m >> s) & 1 == 1 || s == k)) by (bit_vector)
        requires
            k < 64,
            s < 64,
    ;
    assert(((m | 0u64) >> s) & 1 == 1 <==> (m >> s) & 1 == 1) by (bit_vector);
}

/// Square `s` is set in the mask of `p` over `0..n` exactly when `s < n`
/// and `p` holds of it.
pub proof fn lemma_mask_bit(p: spec_fn(int) -> bool, n: int, s: int)
    requires
        0 <= n <= 64,
        0 <= s < 64,
    ensures
        bit_set(mask_upto(p, n), s) == (s < n && p(s)),
    decreases n,
{
    if n == 0 {
        let z = s as u64;
        assert(((0u64 >> z) & 1 == 1) == false) by (bit_vector);
    } else {
        lemma_mask_bit(p, n - 1, s);
        lemma_or_bit(mask_upto(p, n - 1), (n - 1) as u64, s as u64);
    }
}

/// The attack and mask patterns that a scan can compute.
pub enum Pattern {
    Knight,
    King,
    Pawn(usize),
    Rook,
    Bishop,
    RookMask,
    BishopMask,
    Line(usize),
}

pub open spec fn pattern_pred(p: Pattern, a: int, occ: u64) -> spec_fn(int) -> bool {
    match p {
        Pattern::Knight => knight_pred(a),
        Pattern::King => king_pred(a),
        Pattern::Pawn(side) => pawn_pred(side as int, a),
        Pattern::Rook => rook_reach(a, occ),
        Pattern::Bishop => bishop_reach(a, occ),
        Pattern::RookMask => rook_mask_pred(a),
        Pattern::BishopMask => bishop_mask_pred(a),
        Pattern::Line(j) => line_pred(a, j as int),
    }
}

/// Whether square `t` belongs to pattern `p` from square `a`.
fn in_pattern(p: &Pattern, a: usize, t: usize, occ: u64) -> (r: bool)
    requires
        a < 64,
        t < 64,
        p matches Pattern::Line(j) ==> j < 64,
    ensures
        r == (pattern_pred(*p, a as int, occ))(t as int),
{
    let (ra, fa, rt, ft) = (a / 8, a % 8, t / 8, t % 8);
    let dr = abs_diff(ra, rt);
    let df = abs_diff(fa, ft);
    match p {
        Pattern::Knight => (dr == 1 && df == 2) || (dr == 2 && df == 1),
        Pattern::King => t != a && dr <= 1 && df <= 1,
        Pattern::Pawn(side) => {
            let forward = if *side == 0 {
                rt == ra + 1
            } else {
                rt + 1 == ra
            };
            forward && df == 1
        },
        Pattern::Rook => {
            let line = t != a && (ra == rt || fa == ft);
            line && clear_path(a, t, occ)
        },
        Pattern::Bishop => {
            let line = t != a && dr == df;
            line && clear_path(a, t, occ)
        },
        Pattern::RookMask => (fa == ft && ra != rt && 1 <= rt && rt <= 6) || (ra == rt && fa != ft && 1
            <= ft && ft <= 6),
        Pattern::BishopMask => t != a && dr == df && 1 <= rt && rt <= 6 && 1 <= ft && ft <= 6,
        Pattern::Line(j) => {
            let (rj, fj) = (*j / 8, *j % 8);
            if fj == fa {
                ft == fa
            } else if rj == ra {
                rt == ra
            } else if fj + ra == fa + rj {
                ft + ra == fa + rt
            } else if fj + rj == fa + ra {
                ft + rt == fa + ra
            } else {
                false
            }
        },
    }
}

/// The board of all squares in pattern `p` from square `a`.
fn scan(p: Pattern, a: usize, occ: u64) -> (r: u64)
    requires
        a < 64,
        p matches Pattern::Line(j) ==> j < 64,
    ensures
        r == mask_of(pattern_pred(p, a as int, occ)),
{
    let mut m: u64 = 0;
    let mut t: usize = 0;
    while t < 64
        invariant
            a < 64,
            p matches Pattern::Line(j) ==> j < 64,
            t <= 64,
            m == mask_upto(pattern_pred(p, a as int, occ), t as int),
        decreases 64 - t,
    {
        let bit: u64 = if in_pattern(&p, a, t, occ) {
            1u64 << (t as u64)
        } else {
            0
        };
        m = m | bit;
        t = t + 1;
    }
    m
}

/// The line through `i` that holds `j`, whole, edge to edge.
pub fn line_through(i: usize, j: usize) -> (r: u64)
    requires
        i < 64,
        j < 64,
    ensures
        r == mask_of(line_pred(i as int, j as int)),
{
    scan(Pattern::Line(j), i, 0)
}

/// The squares whose occupancy matters to a rook on `square`.
pub fn mask_rook_attacks(square: usize) -> (r: u64)
    requires
        square < 64,
    ensures
        r == mask_of(rook_mask_pred(square as int)),
{
    scan(Pattern::RookMask, square, 0)
}

/// The squares whose occupancy matters to a bishop on `square`.
pub fn mask_bishop_attacks(square: usize) -> (r: u64)
    requires
        square < 64,
    ensures
        r == mask_of(bishop_mask_pred(square as int)),
{
    scan(Pattern::BishopMask, square, 0)
}

pub struct BishopAttacks;

impl BishopAttacks {
    pub fn get_bishop_attacks(square: usize, occupancy: u64) -> (r: u64)
        requires
            square < 64,
        ensures
            r == bishop_attacks(square as int, occupancy),
    {
        scan(Pattern::Bishop, square, occupancy)
    }
}

pub struct RookAttacks;

impl RookAttacks {
    pub fn get_rook_attacks(square: usize, occupancy: u64) -> (r: u64)
        requires
            square < 64,
        ensures
            r == rook_attacks(square as int, occupancy),
    {
        scan(Pattern::Rook, square, occupancy)
    }
}

pub struct Attacks;

impl Attacks {
    /// The attacks of a knight, bishop, rook, queen or king, by piece code.
    pub fn of_piece<const PC: usize>(from: usize, occ: u64) -> (r: u64)
        requires
            from < 64,
            Piece::KNIGHT <= PC <= Piece::KING,
        ensures
            PC == Piece::KNIGHT ==> r == mask_of(knight_pred(from as int)),
            PC == Piece::BISHOP ==> r == bishop_attacks(from as int, occ),
            PC == Piece::ROOK ==> r == rook_attacks(from as int, occ),
            PC == Piece::QUEEN ==> r == bishop_attacks(from as int, occ) | rook_attacks(from as int, occ),
            PC == Piece::KING ==> r == mask_of(king_pred(from as int)),
    {
        if PC == Piece::KNIGHT {
            Attacks::knight(from)
        } else if PC == Piece::BISHOP {
            Attacks::bishop(from, occ)
        } else if PC == Piece::ROOK {
            Attacks::rook(from, occ)
        } else if PC == Piece::QUEEN {
            Attacks::queen(from, occ)
        } else {
            Attacks::king(from)
        }
    }

    /// The squares a pawn of `side` on `sq` attacks.
    pub fn pawn(sq: usize, side: usize) -> (r: u64)
        requires
            sq < 64,
            side < 2,
        ensures
            r == mask_of(pawn_pred(side as int, sq as int)),
    {
        scan(Pattern::Pawn(side), sq, 0)
    }

    pub fn knight(sq: usize) -> (r: u64)
        requires
            sq < 64,
        ensures
            r == mask_of(knight_pred(sq as int)),
    {
        scan(Pattern::Knight, sq, 0)
    }

    pub fn king(sq: usize) -> (r: u64)
        requires
            sq < 64,
        ensures
            r == mask_of(king_pred(sq as int)),
    {
        scan(Pattern::King, sq, 0)
    }

    pub fn bishop(sq: usize, occ: u64) -> (r: u64)
        requires
            sq < 64,
        ensures
            r == bishop_attacks(sq as int, occ),
    {
        BishopAttacks::get_bishop_attacks(sq, occ)
    }

    pub fn rook(sq: usize, occ: u64) -> (r: u64)
        requires
            sq < 64,
        ensures
            r == rook_attacks(sq as int, occ),
    {
        RookAttacks::get_rook_attacks(sq, occ)
    }

    pub fn queen(sq: usize, occ: u64) -> (r: u64)
        requires
            sq < 64,
        ensures
            r == bishop_attacks(sq as int, occ) | rook_attacks(sq as int, occ),
    {
        Self::bishop(sq, occ) | Self::rook(sq, occ)
    }

    /// The rook attacks that appear once the first blockers among
    /// `blockers` are lifted off the board.
    pub fn xray_rook(sq: usize, occ: u64, blockers: u64) -> (r: u64)
        requires
            sq < 64,
        ensures
            r == rook_attacks(sq as int, occ) ^ rook_attacks(
                sq as int,
                occ ^ (rook_attacks(sq as int, occ) & blockers),
            ),
    {
        let attacks = Self::rook(sq, occ);
        attacks ^ Self::rook(sq, occ ^ (attacks & blockers))
    }

    pub fn xray_bishop(sq: usize, occ: u64, blockers: u64) -> (r: u64)
        requires
            sq < 64,
        ensures
            r == bishop_attacks(sq as int, occ) ^ bishop_attacks(
                sq as int,
                occ ^ (bishop_attacks(sq as int, occ) & blockers),
            ),
    {
        let attacks = Self::bishop(sq, occ);
        attacks ^ Self::bishop(sq, occ ^ (attacks & blockers))
    }

    /// Every square that some piece on `sq` could reach on an empty board.
    pub fn all_destinations(sq: usize) -> (r: u64)
        requires
            sq < 64,
        ensures
            r == ((bishop_attacks(sq as int, 0) | rook_attacks(sq as int, 0)) | mask_of(knight_pred(sq as int)))
                | mask_of(king_pred(sq as int)),
    {
        Self::queen(sq, 0) | Self::knight(sq) | Self::king(sq)
    }

    /// The squares attacked by a set of white pawns, all at once.
    pub fn white_pawn_setwise(pawns: u64) -> (r: u64)
        ensures
            r == ((pawns & !FILE_A) << 7u64) | ((pawns & !FILE_H) << 9u64),
    {
        ((pawns & !FILE_A) << 7) | ((pawns & !FILE_H) << 9)
    }

    /// The squares attacked by a set of black pawns, all at once.
    pub fn black_pawn_setwise(pawns: u64) -> (r: u64)
        ensures
            r == ((pawns & !FILE_A) >> 9u64) | ((pawns & !FILE_H) >> 7u64),
    {
        ((pawns & !FILE_A) >> 9) | ((pawns & !FILE_H) >> 7)
    }
}

} // verus!
