use vstd::prelude::*;

use rand::seq::IndexedRandom;

verus! {

/// The kinds of furniture the room generator places.
#[derive(Debug, Clone, Copy, PartialEq, Eq)]
pub enum ObjectKind {
    Table,
    Chair,
    KitchenCounter,
    Fridge,
    Stove,
}

/// Every furniture kind, in declaration order.
pub fn all_kinds() -> (kinds: Vec<ObjectKind>)
    ensures
        kinds@ == seq![
            ObjectKind::Table,
            ObjectKind::Chair,
            ObjectKind::KitchenCounter,
            ObjectKind::Fridge,
            ObjectKind::Stove,
        ],
{
    let mut kinds = Vec::new();
    kinds.push(ObjectKind::Table);
    kinds.push(ObjectKind::Chair);
    kinds.push(ObjectKind::KitchenCounter);
    kinds.push(ObjectKind::Fridge);
    kinds.push(ObjectKind::Stove);
    kinds
}

/// Picks one of `kinds` uniformly at random with `rand`'s
/// `IndexedRandom::choose` on the thread-local generator. The contract
/// claims only what holds of every outcome: `None` exactly for an empty
/// slice, otherwise one of its elements.
#[verifier::external_body]
fn choose_kind(kinds: &[ObjectKind]) -> (picked: Option<ObjectKind>)
    ensures
        picked is None <==> kinds@.len() == 0,
        picked matches Some(k) ==> kinds@.contains(k),
{
    kinds.choose(&mut rand::rng()).copied()
}

/// A furniture kind drawn at random from all kinds.
pub fn random_object_kind() -> (kind: ObjectKind)
    ensures
        seq![
            ObjectKind::Table,
            ObjectKind::Chair,
            ObjectKind::KitchenCounter,
            ObjectKind::Fridge,
            ObjectKind::Stove,
        ].contains(kind),
{
    let kinds = all_kinds();
    let picked = choose_kind(kinds.as_slice());
    match picked {
        Some(k) => k,
        None => {
            assert(false);
            ObjectKind::Table
        },
    }
}

/// The cells of a `rows` by `cols` grid in row-major order: cell number `k`
/// is `(k / cols, k % cols)`.
pub fn iter_cells(rows: usize, cols: usize) -> (cells: Vec<(usize, usize)>)
    requires
        rows * cols <= usize::MAX,
    ensures
        cells@.len() == rows * cols,
        forall|k: int|
            0 <= k < cells@.len() ==> #[trigger] cells@[k].0 == k / (cols as int) && cells@[k].1 == k
                % (cols as int),
{
    let mut cells: Vec<(usize, usize)> = Vec::new();
    let mut r: usize = 0;
    while r < rows
        invariant
            r <= rows,
            rows * cols <= usize::MAX,
            cells@.len() == r * cols,
            forall|k: int|
                0 <= k < cells@.len() ==> #[trigger] cells@[k].0 == k / (cols as int) && cells@[k].1 == k
                    % (cols as int),
        decreases rows - r,
    {
        proof {
            assert((r + 1) * cols <= rows * cols) by (nonlinear_arith)
                requires
                    r < rows,
            ;
            assert((r + 1) * cols == r * cols + cols) by (nonlinear_arith);
        }
        let mut c: usize = 0;
        while c < cols
            invariant
                r < rows,
                c <= cols,
                rows * cols <= usize::MAX,
                (r + 1) * cols <= rows * cols,
                (r + 1) * cols == r * cols + cols,
                cells@.len() == r * cols + c,
                forall|k: int|
                    0 <= k < cells@.len() ==> #[trigger] cells@[k].0 == k / (cols as int) && cells@[k].1
                        == k % (cols as int),
            decreases cols - c,
        {
            proof {
                vstd::arithmetic::div_mod::lemma_fundamental_div_mod_converse(
                    r * cols + c,
                    cols as int,
                    r as int,
                    c as int,
                );
            }
            cells.push((r, c));
            c = c + 1;
        }
        r = r + 1;
    }
    cells
}

/// Every cell of the grid appears, exactly at position `row * cols + col`.
pub proof fn law_cells_cover_grid(rows: nat, cols: nat, row: nat, col: nat)
    requires
        row < rows,
        col < cols,
    ensures
        row * cols + col < rows * cols,
        (row * cols + col) as int / (cols as int) == row,
        (row * cols + col) as int % (cols as int) == col,
{
    assert(row * cols + col < rows * cols) by (nonlinear_arith)
        requires
            row < rows,
            col < cols,
    ;
    vstd::arithmetic::div_mod::lemma_fundamental_div_mod_converse(
        (row * cols + col) as int,
        cols as int,
        row as int,
        col as int,
    );
}

} // verus!
