//! Choosing the next encoding that the device can use.
//!
//! The scan starts at the candidate after the current one, wraps around the
//! end of the table, and looks at each candidate at most once. The first one
//! whose requirements the device meets is chosen. The current candidate is
//! the last one looked at, so a scan that finds nothing else ends where it
//! began.

use crate::formats::{Compression, FormatSet};
use crate::table::{CandidateTable, CandidateView};
use vstd::arithmetic::div_mod::{
    lemma_add_mod_noop_right,
    lemma_mod_add_multiples_vanish,
    lemma_mod_bound,
    lemma_small_mod,
};
use vstd::prelude::*;

verus! {

/// Whether the device, supporting `supported`, can use candidate `i`.
pub open spec fn eligible(table: Seq<CandidateView>, i: int, supported: Set<Compression>) -> bool {
    table[i].required.subset_of(supported)
}

/// The position looked at in step `step` of a scan over `n` candidates that
/// starts after `current`; steps count from 0.
pub open spec fn scan_position(n: int, current: int, step: int) -> int {
    (current + 1 + step) % n
}

/// How many candidates a scan passes over from step `step` on, before it
/// stops at an eligible one or has looked at the whole table.
pub open spec fn skips_from(
    table: Seq<CandidateView>,
    current: int,
    supported: Set<Compression>,
    step: nat,
) -> nat
    decreases table.len() - step,
{
    if step >= table.len() {
        0
    } else if eligible(table, scan_position(table.len() as int, current, step as int), supported) {
        0
    } else {
        1 + skips_from(table, current, supported, step + 1)
    }
}

/// How many candidates a scan from `current` passes over. It is the whole
/// length of the table exactly when no candidate is eligible.
pub open spec fn skip_count(
    table: Seq<CandidateView>,
    current: int,
    supported: Set<Compression>,
) -> nat {
    skips_from(table, current, supported, 0)
}

/// How many candidates a scan from `current` looks at: those it passes over
/// and, where it stops early, the one it stops on.
pub open spec fn examined(
    table: Seq<CandidateView>,
    current: int,
    supported: Set<Compression>,
) -> nat {
    let k = skip_count(table, current, supported);
    if k < table.len() {
        k + 1
    } else {
        k
    }
}

/// The positions that a scan from `current` passes over, in scan order.
pub open spec fn skipped_positions(
    table: Seq<CandidateView>,
    current: int,
    supported: Set<Compression>,
) -> Seq<int> {
    Seq::new(
        skip_count(table, current, supported),
        |j: int| scan_position(table.len() as int, current, j),
    )
}

/// The position that a scan from `current` ends on: the first eligible one
/// in scan order, and `current` itself where there is none.
pub open spec fn selected(
    table: Seq<CandidateView>,
    current: int,
    supported: Set<Compression>,
) -> int {
    let k = skip_count(table, current, supported);
    if k < table.len() {
        scan_position(table.len() as int, current, k as int)
    } else {
        current
    }
}

/// Where `times` scans in a row end, each starting where the one before it
/// ended, while the device's capabilities stay the same.
pub open spec fn selected_after(
    table: Seq<CandidateView>,
    current: int,
    supported: Set<Compression>,
    times: nat,
) -> int
    decreases times,
{
    if times == 0 {
        current
    } else {
        selected_after(table, selected(table, current, supported), supported, (times - 1) as nat)
    }
}

/// The outcome of one scan.
pub struct Selection {
    /// The position the scan ended on.
    pub index: usize,
    /// The positions passed over as unsupported, in the order in which the
    /// scan met them. Each is worth a diagnostic line to the caller.
    pub skipped: Vec<usize>,
}

/// The positions of `v` as mathematical integers.
pub open spec fn positions(v: Seq<usize>) -> Seq<int> {
    Seq::new(v.len(), |j: int| v[j] as int)
}

/// Scans the table from the candidate after `current` and returns the first
/// position that `supported` makes eligible, together with the positions
/// passed over on the way. Where no candidate is eligible the result is
/// `current` and every position was passed over.
pub fn select(table: &CandidateTable, current: usize, supported: FormatSet) -> (r: Selection)
    requires
        current < table@.len(),
    ensures
        r.index == selected(table@, current as int, supported@),
        r.skipped@.len() == skip_count(table@, current as int, supported@),
        positions(r.skipped@) == skipped_positions(table@, current as int, supported@),
        r.index < table@.len(),
        r.skipped@.len() <= table@.len(),
        (exists|i: int| 0 <= i < table@.len() && eligible(table@, i, supported@)) ==> eligible(
            table@,
            r.index as int,
            supported@,
        ),
        (forall|i: int| 0 <= i < table@.len() ==> !eligible(table@, i, supported@)) ==> r.index
            == current,
{
    let n = table.len();
    let mut new_index = current;
    let mut skipped: Vec<usize> = Vec::new();
    let mut found = false;
    proof {
        lemma_small_mod(current as nat, n as nat);
    }
    while skipped.len() < n && !found
        invariant
            n == table@.len(),
            current < n,
            new_index < n,
            skipped@.len() <= n,
            !found ==> new_index == (current + skipped@.len()) % (n as int),
            found ==> skipped@.len() < n && new_index == scan_position(
                n as int,
                current as int,
                skipped@.len() as int,
            ) && eligible(table@, new_index as int, supported@),
            forall|j: int|
                0 <= j < skipped@.len() ==> skipped@[j] == scan_position(
                    n as int,
                    current as int,
                    j,
                ) && !eligible(table@, #[trigger] scan_position(n as int, current as int, j), supported@),
        decreases n - skipped@.len() + (if found { 0int } else { 1int }),
    {
        proof {
            lemma_scan_advances(n as int, current as int, skipped@.len() as int);
            lemma_mod_bound(current + 1 + skipped@.len(), n as int);
        }
        new_index = (new_index + 1) % n;
        if supported.contains(table.get(new_index).required) {
            found = true;
        } else {
            skipped.push(new_index);
        }
    }
    proof {
        lemma_skip_count_is(table@, current as int, supported@, skipped@.len());
        assert(positions(skipped@) =~= skipped_positions(table@, current as int, supported@));
        if !found {
            lemma_mod_add_multiples_vanish(current as int, n as int);
        }
        lemma_selection_is_supported(table@, current as int, supported@);
    }
    Selection { index: new_index, skipped }
}

/// One step on from where the scan stood before step `step` is the
/// position of step `step`.
proof fn lemma_scan_advances(n: int, current: int, step: int)
    requires
        0 < n,
        0 <= current,
        0 <= step,
    ensures
        ((current + step) % n + 1) % n == scan_position(n, current, step),
{
    lemma_add_mod_noop_right(1, current + step, n);
    assert(1 + (current + step) % n == (current + step) % n + 1);
    assert(1 + (current + step) == current + 1 + step);
}

/// What a scan passes over is fixed by where it stops: `k` is the skip count
/// as soon as the first `k` positions of the scan are not eligible and the
/// one after them, if the table has one, is.
pub proof fn lemma_skip_count_is(
    table: Seq<CandidateView>,
    current: int,
    supported: Set<Compression>,
    k: nat,
)
    requires
        k <= table.len(),
        forall|j: int|
            0 <= j < k ==> !eligible(
                table,
                #[trigger] scan_position(table.len() as int, current, j),
                supported,
            ),
        k < table.len() ==> eligible(
            table,
            scan_position(table.len() as int, current, k as int),
            supported,
        ),
    ensures
        skip_count(table, current, supported) == k,
{
    lemma_skips_from_is(table, current, supported, k, 0);
}

proof fn lemma_skips_from_is(
    table: Seq<CandidateView>,
    current: int,
    supported: Set<Compression>,
    k: nat,
    step: nat,
)
    requires
        step <= k <= table.len(),
        forall|j: int|
            0 <= j < k ==> !eligible(
                table,
                #[trigger] scan_position(table.len() as int, current, j),
                supported,
            ),
        k < table.len() ==> eligible(
            table,
            scan_position(table.len() as int, current, k as int),
            supported,
        ),
    ensures
        skips_from(table, current, supported, step) == k - step,
    decreases k - step,
{
    if step < k {
        assert(!eligible(table, scan_position(table.len() as int, current, step as int), supported));
        lemma_skips_from_is(table, current, supported, k, step + 1);
    }
}

/// Where a scan stops: it looks at no more candidates than the table holds,
/// nothing it passes over is eligible, and where it stops early it stops on
/// an eligible candidate.
pub proof fn lemma_skip_count_stops(
    table: Seq<CandidateView>,
    current: int,
    supported: Set<Compression>,
)
    ensures
        skip_count(table, current, supported) <= table.len(),
        examined(table, current, supported) <= table.len(),
        forall|j: int|
            0 <= j < skip_count(table, current, supported) ==> !eligible(
                table,
                #[trigger] scan_position(table.len() as int, current, j),
                supported,
            ),
        skip_count(table, current, supported) < table.len() ==> eligible(
            table,
            scan_position(
                table.len() as int,
                current,
                skip_count(table, current, supported) as int,
            ),
            supported,
        ),
{
    lemma_skips_from_stops(table, current, supported, 0);
}

proof fn lemma_skips_from_stops(
    table: Seq<CandidateView>,
    current: int,
    supported: Set<Compression>,
    step: nat,
)
    requires
        step <= table.len(),
    ensures
        step + skips_from(table, current, supported, step) <= table.len(),
        forall|j: int|
            step <= j < step + skips_from(table, current, supported, step) ==> !eligible(
                table,
                #[trigger] scan_position(table.len() as int, current, j),
                supported,
            ),
        step + skips_from(table, current, supported, step) < table.len() ==> eligible(
            table,
            scan_position(
                table.len() as int,
                current,
                (step + skips_from(table, current, supported, step)) as int,
            ),
            supported,
        ),
    decreases table.len() - step,
{
    if step < table.len() && !eligible(
        table,
        scan_position(table.len() as int, current, step as int),
        supported,
    ) {
        lemma_skips_from_stops(table, current, supported, step + 1);
    }
}

/// A scan looks at every position of the table: position `i` is met in
/// some step below the table's length.
pub proof fn lemma_scan_reaches(n: int, current: int, i: int) -> (step: int)
    requires
        0 <= current < n,
        0 <= i < n,
    ensures
        0 <= step < n,
        scan_position(n, current, step) == i,
{
    if i > current {
        lemma_small_mod(i as nat, n as nat);
        i - current - 1
    } else {
        lemma_small_mod(i as nat, n as nat);
        lemma_mod_add_multiples_vanish(i, n);
        assert(current + 1 + (i - current - 1 + n) == n + i);
        i - current - 1 + n
    }
}

/// A scan meets no position twice: different steps below the table's length
/// look at different positions.
pub proof fn lemma_scan_positions_distinct(n: int, current: int, j: int, k: int)
    requires
        0 <= current < n,
        0 <= j < k < n,
    ensures
        scan_position(n, current, j) != scan_position(n, current, k),
{
    lemma_scan_position_value(n, current, j);
    lemma_scan_position_value(n, current, k);
}

/// The position of a step without the remainder: the scan runs up to the
/// end of the table and goes on from its start.
proof fn lemma_scan_position_value(n: int, current: int, step: int)
    requires
        0 <= current < n,
        0 <= step < n,
    ensures
        scan_position(n, current, step) == if current + 1 + step < n {
            current + 1 + step
        } else {
            current + 1 + step - n
        },
{
    if current + 1 + step < n {
        lemma_small_mod((current + 1 + step) as nat, n as nat);
    } else {
        lemma_small_mod((current + 1 + step - n) as nat, n as nat);
        lemma_mod_add_multiples_vanish(current + 1 + step - n, n);
        assert(n + (current + 1 + step - n) == current + 1 + step);
    }
}

/// The result of a selection is a position of the table.
pub proof fn lemma_selected_in_table(
    table: Seq<CandidateView>,
    current: int,
    supported: Set<Compression>,
)
    requires
        0 <= current < table.len(),
    ensures
        0 <= selected(table, current, supported) < table.len(),
{
    lemma_mod_bound(current + 1 + skip_count(table, current, supported), table.len() as int);
}

/// Capability containment: whenever any candidate of the table is eligible,
/// the selected one is, so what it requires is within what the device
/// supports. Where none is eligible the selection is the current position,
/// unchanged.
pub proof fn lemma_selection_is_supported(
    table: Seq<CandidateView>,
    current: int,
    supported: Set<Compression>,
)
    requires
        0 <= current < table.len(),
    ensures
        (exists|i: int| 0 <= i < table.len() && eligible(table, i, supported)) ==> eligible(
            table,
            selected(table, current, supported),
            supported,
        ),
        (forall|i: int| 0 <= i < table.len() ==> !eligible(table, i, supported)) ==> selected(
            table,
            current,
            supported,
        ) == current,
{
    let n = table.len() as int;
    let k = skip_count(table, current, supported);
    lemma_skip_count_stops(table, current, supported);
    if k == table.len() {
        assert forall|i: int| 0 <= i < n implies !eligible(table, i, supported) by {
            let step = lemma_scan_reaches(n, current, i);
            assert(!eligible(table, scan_position(n, current, step), supported));
        }
    } else {
        lemma_mod_bound(current + 1 + k, n);
    }
}

/// A stable no-op: while no candidate but the current one is eligible, a
/// selection returns the current position, after looking at no more
/// candidates than the table holds.
pub proof fn lemma_select_stable(
    table: Seq<CandidateView>,
    current: int,
    supported: Set<Compression>,
)
    requires
        0 <= current < table.len(),
        forall|i: int| 0 <= i < table.len() && i != current ==> !eligible(table, i, supported),
    ensures
        selected(table, current, supported) == current,
        examined(table, current, supported) <= table.len(),
{
    let n = table.len() as int;
    let k = skip_count(table, current, supported);
    lemma_skip_count_stops(table, current, supported);
    if k < table.len() {
        lemma_mod_bound(current + 1 + k, n);
    }
}

/// The same no-op however often the selection runs: with unchanging
/// capabilities that make no candidate but the current one eligible, any
/// number of selections in a row ends on the current position.
pub proof fn lemma_repeated_select_stable(
    table: Seq<CandidateView>,
    current: int,
    supported: Set<Compression>,
    times: nat,
)
    requires
        0 <= current < table.len(),
        forall|i: int| 0 <= i < table.len() && i != current ==> !eligible(table, i, supported),
    ensures
        selected_after(table, current, supported, times) == current,
    decreases times,
{
    if times > 0 {
        lemma_select_stable(table, current, supported);
        lemma_repeated_select_stable(table, current, supported, (times - 1) as nat);
    }
}

} // verus!
