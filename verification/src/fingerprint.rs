//! From bytes to picture: the walk that a digest drives, and the digest of
//! arbitrary data.

use sha3::{Digest, Sha3_512};
use vstd::prelude::*;

use crate::action::{
    decode_all, decode_stream, lemma_nibble_stream, nibble_stream, nibbles, Action,
};
use crate::canvas::{Canvas, FlatGrid, Grid};
use crate::error::WalkError;
use crate::model::{CanvasModel, GridModel};
use crate::picture::picture;

verus! {

/// The grid that the walk driven by `digest` leaves behind on a blank grid
/// of the given size: the token starts in the middle and makes two jumps
/// for each byte, the first for its high half.
pub open spec fn trace(digest: Seq<u8>, rows: nat, cols: nat, wrap: bool) -> GridModel {
    CanvasModel::start(GridModel::blank(rows, cols)).run(
        decode_stream(nibble_stream(digest)),
        wrap,
    ).grid
}

/// What `render_digest` owes for its arguments: a refusal exactly for a
/// grid without cells, and otherwise the picture of the trace.
pub open spec fn drawn(
    digest: Seq<u8>,
    rows: nat,
    cols: nat,
    wrap: bool,
    outcome: Result<String, WalkError>,
) -> bool {
    match outcome {
        Ok(text) => rows > 0 && cols > 0 && text@ == picture(trace(digest, rows, cols, wrap)),
        Err(e) => (rows == 0 || cols == 0) && e == WalkError::DegenerateGrid,
    }
}

/// Draws the walk that `digest` drives on a blank grid of `rows` by `cols`
/// cells. A grid without rows or columns is refused before anything is
/// decoded. The number of cells has to fit into one allocation.
pub fn render_digest(digest: &[u8], rows: usize, cols: usize, is_unbounded: bool) -> (r: Result<
    String,
    WalkError,
>)
    requires
        rows * cols <= isize::MAX,
    ensures
        drawn(digest@, rows as nat, cols as nat, is_unbounded, r),
{
    let mut canvas: Canvas<FlatGrid> = match Canvas::new(FlatGrid::new(rows, cols)) {
        Ok(canvas) => canvas,
        Err(e) => {
            return Err(e);
        },
    };
    let halves: Vec<u8> = nibbles(digest);
    proof {
        lemma_nibble_stream(digest@);
    }
    // All actions are decoded before the first one is applied. The halves
    // of bytes are half-bytes, so none is refused.
    let actions: Vec<Action> = match decode_all(halves.as_slice()) {
        Ok(actions) => actions,
        Err(e) => {
            return Err(e);
        },
    };
    canvas.walk(actions.as_slice(), is_unbounded);
    Ok(canvas.render())
}

/// The SHA3-512 digest of a byte string.
pub uninterp spec fn sha3_512(data: Seq<u8>) -> Seq<u8>;

/// Hashes `data` with `Sha3_512` of the `sha3` crate: a new hasher is fed
/// the whole input once and finalized. The contract claims only that the
/// bytes handed back are the SHA3-512 digest of the input, a function of
/// the input alone.
#[verifier::external_body]
fn digest_of(data: &[u8]) -> (digest: Vec<u8>)
    ensures
        digest@ == sha3_512(data@),
{
    let mut hasher = Sha3_512::new();
    hasher.update(data);
    hasher.finalize().to_vec()
}

/// Draws the fingerprint of `data`: the walk that its SHA3-512 digest
/// drives on a blank grid of `rows` by `cols` cells.
pub fn fingerprint(data: &[u8], rows: usize, cols: usize, is_unbounded: bool) -> (r: Result<
    String,
    WalkError,
>)
    requires
        rows * cols <= isize::MAX,
    ensures
        drawn(sha3_512(data@), rows as nat, cols as nat, is_unbounded, r),
{
    if rows == 0 || cols == 0 {
        return Err(WalkError::DegenerateGrid);
    }
    let digest: Vec<u8> = digest_of(data);
    render_digest(digest.as_slice(), rows, cols, is_unbounded)
}

/// Two runs on the same digest and the same configuration end alike:
/// whatever `render_digest` may hand out for its arguments, it is twice the
/// same refusal or twice the same text.
pub proof fn lemma_render_digest_deterministic(
    digest: Seq<u8>,
    rows: nat,
    cols: nat,
    wrap: bool,
    first: Result<String, WalkError>,
    second: Result<String, WalkError>,
)
    requires
        drawn(digest, rows, cols, wrap, first),
        drawn(digest, rows, cols, wrap, second),
    ensures
        first is Err <==> second is Err,
        first is Err ==> first->Err_0 == second->Err_0,
        first is Ok ==> first->Ok_0@ == second->Ok_0@,
{
}

/// Two runs on the same data and the same configuration end alike:
/// whatever `fingerprint` may hand out for its arguments, it is twice the
/// same refusal or twice the same text.
pub proof fn lemma_fingerprint_deterministic(
    data: Seq<u8>,
    rows: nat,
    cols: nat,
    wrap: bool,
    first: Result<String, WalkError>,
    second: Result<String, WalkError>,
)
    requires
        drawn(sha3_512(data), rows, cols, wrap, first),
        drawn(sha3_512(data), rows, cols, wrap, second),
    ensures
        first is Err <==> second is Err,
        first is Err ==> first->Err_0 == second->Err_0,
        first is Ok ==> first->Ok_0@ == second->Ok_0@,
{
    lemma_render_digest_deterministic(sha3_512(data), rows, cols, wrap, first, second);
}

} // verus!
