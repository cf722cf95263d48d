//! The move vocabulary and the decoding of half-bytes into actions.

use vstd::prelude::*;

use crate::error::WalkError;

verus! {

/// One of the eight knight-style jumps, or no movement at all.
///
/// The name of a jump spells its offset: `N2E1` is two rows up and one
/// column to the right.
#[derive(Debug, Clone, Copy, PartialEq, Eq, Structural)]
pub enum Jump {
    N2E1,
    N1E2,
    S1E2,
    S2E1,
    S2W1,
    S1W2,
    N1W2,
    N2W1,
    Still,
}

/// A jump together with the direction in which the target cell is counted.
#[derive(Debug, Clone, Copy, PartialEq, Eq, Structural)]
pub enum Action {
    Increment(Jump),
    Decrement(Jump),
}

impl Jump {
    /// The offset of the jump as (row delta, column delta). Rows grow
    /// downwards, so a northward jump has a negative row delta.
    pub open spec fn offset(self) -> (int, int) {
        match self {
            Jump::N2E1 => (-2, 1),
            Jump::N1E2 => (-1, 2),
            Jump::S1E2 => (1, 2),
            Jump::S2E1 => (2, 1),
            Jump::S2W1 => (2, -1),
            Jump::S1W2 => (1, -2),
            Jump::N1W2 => (-1, -2),
            Jump::N2W1 => (-2, -1),
            Jump::Still => (0, 0),
        }
    }

    /// The offset of the jump, for executable code.
    pub fn delta(&self) -> (d: (isize, isize))
        ensures
            d.0 == self.offset().0,
            d.1 == self.offset().1,
    {
        match self {
            Jump::N2E1 => (-2, 1),
            Jump::N1E2 => (-1, 2),
            Jump::S1E2 => (1, 2),
            Jump::S2E1 => (2, 1),
            Jump::S2W1 => (2, -1),
            Jump::S1W2 => (1, -2),
            Jump::N1W2 => (-1, -2),
            Jump::N2W1 => (-2, -1),
            Jump::Still => (0, 0),
        }
    }
}

impl Action {
    /// The jump that the action makes.
    pub open spec fn jump(self) -> Jump {
        match self {
            Action::Increment(j) => j,
            Action::Decrement(j) => j,
        }
    }

    /// Whether the target cell is counted up.
    pub open spec fn counts_up(self) -> bool {
        self is Increment
    }
}

/// The eight jumps that a half-byte can select, in selection order.
pub open spec fn jump_table() -> Seq<Jump> {
    seq![
        Jump::N2E1,
        Jump::N1E2,
        Jump::S1E2,
        Jump::S2E1,
        Jump::S2W1,
        Jump::S1W2,
        Jump::N1W2,
        Jump::N2W1,
    ]
}

/// The action that a half-byte `v` in `0..=15` stands for: the low three
/// bits select the jump, the high bit selects counting down.
pub open spec fn decode(v: int) -> Action {
    if v < 8 {
        Action::Increment(jump_table()[v % 8])
    } else {
        Action::Decrement(jump_table()[v % 8])
    }
}

/// Decodes one half-byte. A value above 15 is refused.
pub fn get_action(b: u8) -> (r: Result<Action, WalkError>)
    ensures
        b < 16 ==> r == Ok::<Action, WalkError>(decode(b as int)),
        b >= 16 ==> r == Err::<Action, WalkError>(WalkError::InvalidNibble(b)),
{
    match b {
        0 => Ok(Action::Increment(Jump::N2E1)),
        1 => Ok(Action::Increment(Jump::N1E2)),
        2 => Ok(Action::Increment(Jump::S1E2)),
        3 => Ok(Action::Increment(Jump::S2E1)),
        4 => Ok(Action::Increment(Jump::S2W1)),
        5 => Ok(Action::Increment(Jump::S1W2)),
        6 => Ok(Action::Increment(Jump::N1W2)),
        7 => Ok(Action::Increment(Jump::N2W1)),
        8 => Ok(Action::Decrement(Jump::N2E1)),
        9 => Ok(Action::Decrement(Jump::N1E2)),
        10 => Ok(Action::Decrement(Jump::S1E2)),
        11 => Ok(Action::Decrement(Jump::S2E1)),
        12 => Ok(Action::Decrement(Jump::S2W1)),
        13 => Ok(Action::Decrement(Jump::S1W2)),
        14 => Ok(Action::Decrement(Jump::N1W2)),
        15 => Ok(Action::Decrement(Jump::N2W1)),
        _ => Err(WalkError::InvalidNibble(b)),
    }
}

/// Every half-byte decodes to one of the eight jumps of the table, counted
/// up exactly for the values below 8. Standing still is never decoded.
pub proof fn lemma_decode(v: int)
    requires
        0 <= v <= 15,
    ensures
        decode(v).counts_up() <==> v < 8,
        decode(v).jump() == jump_table()[v % 8],
        decode(v).jump() != Jump::Still,
{
}

/// The half-bytes of a byte string: of each byte first the high half, then
/// the low half, the bytes in their order.
pub open spec fn nibble_stream(bytes: Seq<u8>) -> Seq<u8> {
    Seq::new(
        2 * bytes.len(),
        |i: int|
            if i % 2 == 0 {
                bytes[i / 2] / 16
            } else {
                bytes[i / 2] % 16
            },
    )
}

/// Whether every value of the sequence is a half-byte.
pub open spec fn all_nibbles(values: Seq<u8>) -> bool {
    forall|i: int| 0 <= i < values.len() ==> values[i] < 16
}

/// The actions that a sequence of half-bytes stands for.
pub open spec fn decode_stream(nibbles: Seq<u8>) -> Seq<Action> {
    Seq::new(nibbles.len(), |i: int| decode(nibbles[i] as int))
}

/// The half-bytes of a byte string are half-bytes, two for each byte.
pub proof fn lemma_nibble_stream(bytes: Seq<u8>)
    ensures
        nibble_stream(bytes).len() == 2 * bytes.len(),
        all_nibbles(nibble_stream(bytes)),
{
}

/// Splits bytes into half-bytes, high half first.
pub fn nibbles(bytes: &[u8]) -> (out: Vec<u8>)
    ensures
        out@ == nibble_stream(bytes@),
{
    let mut out: Vec<u8> = Vec::new();
    let mut i: usize = 0;
    while i < bytes.len()
        invariant
            i <= bytes.len(),
            out@.len() == 2 * i,
            forall|k: int| 0 <= k < out@.len() ==> out@[k] == nibble_stream(bytes@)[k],
        decreases bytes.len() - i,
    {
        let b: u8 = bytes[i];
        let high: u8 = b >> 4;
        let low: u8 = b & 0x0F;
        proof {
            assert(b >> 4 == b / 16) by (bit_vector);
            assert(b & 0x0F == b % 16) by (bit_vector);
        }
        out.push(high);
        out.push(low);
        i += 1;
    }
    proof {
        assert(out@ =~= nibble_stream(bytes@));
    }
    out
}

/// Decodes a sequence of half-bytes. The whole sequence is checked: where a
/// value above 15 occurs, the first such value is reported and no action is
/// handed out.
pub fn decode_all(values: &[u8]) -> (r: Result<Vec<Action>, WalkError>)
    ensures
        all_nibbles(values@) <==> r is Ok,
        r matches Ok(actions) ==> actions@ == decode_stream(values@),
        r matches Err(e) ==> exists|k: int|
            0 <= k < values@.len() && all_nibbles(values@.take(k)) && values@[k] >= 16 && e
                == WalkError::InvalidNibble(#[trigger] values@[k]),
{
    let mut actions: Vec<Action> = Vec::new();
    let mut i: usize = 0;
    while i < values.len()
        invariant
            i <= values.len(),
            actions@.len() == i,
            forall|k: int| 0 <= k < i ==> values@[k] < 16,
            forall|k: int| 0 <= k < i ==> actions@[k] == decode(values@[k] as int),
        decreases values.len() - i,
    {
        match get_action(values[i]) {
            Ok(action) => {
                actions.push(action);
            },
            Err(e) => {
                proof {
                    assert(all_nibbles(values@.take(i as int)));
                    assert(values@[i as int] >= 16);
                }
                return Err(e);
            },
        }
        i += 1;
    }
    proof {
        assert(actions@ =~= decode_stream(values@));
    }
    Ok(actions)
}

} // verus!
