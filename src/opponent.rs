//! The automated opponent: a uniformly random legal column, found by sampling
//! the columns without replacement.
use vstd::prelude::*;
use crate::board::{Board, COLUMNS, board_full, column_full};

verus! {

/// Relies on rand::thread_rng and rand::Rng::gen_range: a value drawn from
/// `0..bound`; gen_range panics only when that range is empty.
#[verifier::external_body]
fn random_below(bound: usize) -> (r: usize)
    requires
        bound > 0,
    ensures
        r < bound,
{
    rand::Rng::gen_range(&mut rand::thread_rng(), 0..bound)
}

/// Takes the entry at position `draw` out of the columns not yet tried, and
/// returns that column when it still has room.
pub fn sample_column(board: &Board, untried: &mut Vec<usize>, draw: usize) -> (r: Option<usize>)
    requires
        board.wf(),
        draw < old(untried).len(),
        forall|i: int| 0 <= i < old(untried).len() ==> #[trigger] old(untried)@[i] < COLUMNS,
    ensures
        final(untried)@ == old(untried)@.remove(draw as int),
        r is Some <==> !column_full(board@, old(untried)@[draw as int] as int),
        r matches Some(c) ==> c == old(untried)@[draw as int],
{
    let col = untried.remove(draw);
    if board.is_column_empty(col) {
        Some(col)
    } else {
        None
    }
}

/// A column that still has room, chosen uniformly at random, or `None` when
/// every column is full.
pub fn choose_column(board: &Board) -> (r: Option<usize>)
    requires
        board.wf(),
    ensures
        r is None <==> board_full(board@),
        r matches Some(c) ==> c < COLUMNS && !column_full(board@, c as int),
{
    let mut untried: Vec<usize> = Vec::new();
    let mut c: usize = 0;
    while c < COLUMNS
        invariant
            c <= COLUMNS,
            untried@.len() == c,
            forall|i: int| 0 <= i < c ==> #[trigger] untried@[i] == i,
        decreases COLUMNS - c,
    {
        untried.push(c);
        c = c + 1;
    }
    assert forall|k: int|
        0 <= k < COLUMNS && !#[trigger] column_full(board@, k) implies untried@.contains(
            k as usize,
        ) by {
        assert(untried@[k] == k as usize);
    }
    while untried.len() > 0
        invariant
            board.wf(),
            forall|i: int| 0 <= i < untried.len() ==> #[trigger] untried@[i] < COLUMNS,
            forall|k: int|
                0 <= k < COLUMNS && !#[trigger] column_full(board@, k) ==> untried@.contains(
                    k as usize,
                ),
        decreases untried.len(),
    {
        let ghost before = untried@;
        let draw = random_below(untried.len());
        match sample_column(board, &mut untried, draw) {
            Some(col) => {
                return Some(col);
            },
            None => {
                assert forall|k: int|
                    0 <= k < COLUMNS && !#[trigger] column_full(board@, k) implies untried@.contains(
                        k as usize,
                    ) by {
                    let j = choose|j: int| 0 <= j < before.len() && before[j] == k as usize;
                    if j < draw {
                        assert(untried@[j] == k as usize);
                    } else {
                        assert(untried@[j - 1] == k as usize);
                    }
                }
            },
        }
    }
    assert forall|k: int| 0 <= k < COLUMNS implies #[trigger] column_full(board@, k) by {
        if !column_full(board@, k) {
            assert(untried@.contains(k as usize));
        }
    }
    None
}

} // verus!
