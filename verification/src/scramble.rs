use vstd::prelude::*;
use rand::RngExt;

verus! {

/// Number of moves in a scramble.
pub const SCRAMBLE_LEN: usize = 20;

/// One scramble move: a face index below 6 (`U`, `D`, `F`, `B`, `L`, `R`)
/// and a modifier index below 3 (plain, counter-clockwise `^`, double `2`).
#[derive(Clone, Copy, Debug, PartialEq, Eq, Structural)]
pub struct Move {
    pub face: u8,
    pub modifier: u8,
}

/// Both indices of the move lie inside their vocabularies.
pub open spec fn move_ok(m: Move) -> bool {
    m.face < 6 && m.modifier < 3
}

/// A well-formed scramble: exactly `SCRAMBLE_LEN` moves, every move inside
/// the vocabularies, and no two consecutive moves on the same face.
pub open spec fn scramble_ok(s: Seq<Move>) -> bool {
    &&& s.len() == SCRAMBLE_LEN
    &&& forall|i: int| 0 <= i < s.len() ==> move_ok(#[trigger] s[i])
    &&& forall|i: int| 1 <= i < s.len() ==> (#[trigger] s[i]).face != s[i - 1].face
}

/// The face letter of a face index.
pub open spec fn face_char(f: u8) -> char {
    if f == 0 {
        'U'
    } else if f == 1 {
        'D'
    } else if f == 2 {
        'F'
    } else if f == 3 {
        'B'
    } else if f == 4 {
        'L'
    } else {
        'R'
    }
}

/// The characters a modifier index appends to its face letter.
pub open spec fn modifier_chars(m: u8) -> Seq<char> {
    if m == 0 {
        Seq::empty()
    } else if m == 1 {
        seq!['^']
    } else {
        seq!['2']
    }
}

/// The characters of one move's token.
pub open spec fn token_chars(m: Move) -> Seq<char> {
    seq![face_char(m.face)] + modifier_chars(m.modifier)
}

/// The display text of a move sequence: tokens joined by a double space.
pub open spec fn text_of(s: Seq<Move>) -> Seq<char>
    decreases s.len(),
{
    if s.len() == 0 {
        Seq::empty()
    } else if s.len() == 1 {
        token_chars(s[0])
    } else {
        text_of(s.drop_last()) + seq![' ', ' '] + token_chars(s.last())
    }
}

/// A randomized move sequence for scrambling the cube.
#[derive(Debug)]
pub struct Scramble {
    pub moves: Vec<Move>,
}

impl View for Scramble {
    type V = Seq<Move>;

    open spec fn view(&self) -> Seq<Move> {
        self.moves@
    }
}

impl Scramble {
    /// The scramble satisfies the generation rule.
    pub open spec fn wf(&self) -> bool {
        scramble_ok(self@)
    }

    /// Renders the scramble as text, tokens separated by a double space.
    pub fn text(&self) -> (r: String)
        ensures
            r@ == text_of(self@),
    {
        let mut r = String::new();
        let mut i: usize = 0;
        while i < self.moves.len()
            invariant
                i <= self.moves@.len(),
                r@ == text_of(self.moves@.subrange(0, i as int)),
            decreases self.moves@.len() - i,
        {
            if i > 0 {
                r.append("  ");
                proof {
                    reveal_strlit("  ");
                    assert("  "@ =~= seq![' ', ' ']);
                }
            }
            let m = self.moves[i];
            r.append(face_str(m.face));
            r.append(modifier_str(m.modifier));
            proof {
                let prefix = self.moves@.subrange(0, i as int);
                let extended = self.moves@.subrange(0, i + 1 as int);
                assert(extended.drop_last() =~= prefix);
                assert(extended.last() == self.moves@[i as int]);
                assert(r@ =~= text_of(extended));
            }
            i += 1;
        }
        proof {
            assert(self.moves@.subrange(0, self.moves@.len() as int) =~= self.moves@);
        }
        r
    }
}

impl Clone for Scramble {
    /// The copy carries the same move sequence.
    fn clone(&self) -> (r: Self)
        ensures
            r@ == self@,
    {
        let mut moves: Vec<Move> = Vec::new();
        let mut i: usize = 0;
        while i < self.moves.len()
            invariant
                i <= self.moves@.len(),
                moves@ =~= self.moves@.subrange(0, i as int),
            decreases self.moves@.len() - i,
        {
            moves.push(self.moves[i]);
            i += 1;
        }
        proof {
            assert(self.moves@.subrange(0, self.moves@.len() as int) =~= self.moves@);
        }
        Scramble { moves }
    }
}

/// The face letter as a string slice.
fn face_str(f: u8) -> (r: &'static str)
    ensures
        r@ == seq![face_char(f)],
{
    proof {
        reveal_strlit("U");
        reveal_strlit("D");
        reveal_strlit("F");
        reveal_strlit("B");
        reveal_strlit("L");
        reveal_strlit("R");
    }
    if f == 0 {
        "U"
    } else if f == 1 {
        "D"
    } else if f == 2 {
        "F"
    } else if f == 3 {
        "B"
    } else if f == 4 {
        "L"
    } else {
        "R"
    }
}

/// The modifier suffix as a string slice.
fn modifier_str(m: u8) -> (r: &'static str)
    ensures
        r@ == modifier_chars(m),
{
    proof {
        reveal_strlit("");
        reveal_strlit("^");
        reveal_strlit("2");
    }
    if m == 0 {
        ""
    } else if m == 1 {
        "^"
    } else {
        "2"
    }
}

/// Draws an index from the process-wide random source.
///
/// Relies on `rand::rng` and `rand::RngExt::random_range`: the result is
/// drawn uniformly from the half-open range below `bound`, which is
/// non-empty because `bound` is positive, so the call does not panic.
#[verifier::external_body]
fn random_below(bound: usize) -> (r: usize)
    requires
        bound > 0,
    ensures
        r < bound,
{
    rand::rng().random_range(0..bound)
}

/// Generates a fresh scramble: exactly `SCRAMBLE_LEN` moves, each face and
/// modifier drawn from its vocabulary, and no move repeating the face of the
/// one before it. After the first move, the face is drawn uniformly from the
/// five faces that differ from the previous one, which is the distribution
/// rejection sampling over all six faces would give.
pub fn generate_scramble() -> (s: Scramble)
    ensures
        s.wf(),
{
    let mut moves: Vec<Move> = Vec::new();
    while moves.len() < SCRAMBLE_LEN
        invariant
            moves@.len() <= SCRAMBLE_LEN,
            forall|i: int| 0 <= i < moves@.len() ==> move_ok(#[trigger] moves@[i]),
            forall|i: int| 1 <= i < moves@.len() ==> (#[trigger] moves@[i]).face != moves@[i - 1].face,
        decreases SCRAMBLE_LEN - moves@.len(),
    {
        let face: u8 = if moves.len() == 0 {
            random_below(6) as u8
        } else {
            let last = moves[moves.len() - 1].face;
            let draw = random_below(5) as u8;
            if draw < last {
                draw
            } else {
                draw + 1
            }
        };
        let modifier: u8 = random_below(3) as u8;
        moves.push(Move { face, modifier });
    }
    Scramble { moves }
}

} // verus!
