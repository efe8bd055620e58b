use vstd::prelude::*;
use crate::util::random::random_index;
use crate::game::faction::FactionID;

verus! {

/// The galaxy is cut into a square grid of this many cells a side, and each
/// faction gets one cell as its home zone.
pub const GRID_SIZE: usize = 16;

/// How many cells around a faction's zone no other faction may take.
pub const EXCLUSION: usize = 1;

/// The number of cells of the grid, numbered row by row: cell `k` lies in
/// row `k / GRID_SIZE` and column `k % GRID_SIZE`.
pub const GRID_CELLS: usize = 256;

/// Cells `a` and `b` lie within `EXCLUSION` rows and columns of each other.
pub open spec fn spec_near(a: int, b: int) -> bool {
    let (ax, ay, bx, by) = (a / 16, a % 16, b / 16, b % 16);
    ax <= bx + EXCLUSION && bx <= ax + EXCLUSION && ay <= by + EXCLUSION && by <= ay + EXCLUSION
}

/// The number of taken cells.
pub open spec fn spec_count_taken(s: Seq<bool>) -> nat
    decreases s.len(),
{
    if s.len() == 0 {
        0
    } else {
        spec_count_taken(s.drop_last()) + if s.last() { 1nat } else { 0nat }
    }
}

proof fn lemma_count_le_len(s: Seq<bool>)
    ensures
        spec_count_taken(s) <= s.len(),
        spec_count_taken(s) == s.len() <==> forall|k: int| 0 <= k < s.len() ==> #[trigger] s[k],
    decreases s.len(),
{
    if s.len() > 0 {
        lemma_count_le_len(s.drop_last());
        if forall|k: int| 0 <= k < s.len() ==> #[trigger] s[k] {
            assert forall|k: int| 0 <= k < s.drop_last().len() implies #[trigger] s.drop_last()[k] by {
                assert(s[k]);
            }
            assert(s[s.len() - 1]);
        }
        if spec_count_taken(s) == s.len() {
            assert forall|k: int| 0 <= k < s.len() implies #[trigger] s[k] by {
                if k < s.len() - 1 {
                    assert(s.drop_last()[k] == s[k]);
                }
            }
        }
    }
}

proof fn lemma_count_take(s: Seq<bool>, k: int)
    requires
        0 <= k < s.len(),
    ensures
        spec_count_taken(s.update(k, true)) <= spec_count_taken(s) + 1,
    decreases s.len(),
{
    if k < s.len() - 1 {
        lemma_count_take(s.drop_last(), k);
        assert(s.update(k, true).drop_last() =~= s.drop_last().update(k, true));
    } else {
        assert(s.update(k, true).drop_last() =~= s.drop_last());
    }
}

proof fn lemma_cell(x: int, y: int)
    requires
        0 <= x < 16,
        0 <= y < 16,
    ensures
        0 <= x * 16 + y < 256,
        (x * 16 + y) / 16 == x,
        (x * 16 + y) % 16 == y,
{
    assert(0 <= x * 16 + y < 256) by (nonlinear_arith)
        requires
            0 <= x < 16,
            0 <= y < 16,
    ;
    assert((x * 16 + y) / 16 == x && (x * 16 + y) % 16 == y) by (nonlinear_arith)
        requires
            0 <= x < 16,
            0 <= y < 16,
    ;
}

/// The row and column of cell `k`.
pub fn cell_coordinates(k: usize) -> (c: (usize, usize))
    requires
        k < GRID_CELLS,
    ensures
        c == (k / 16, k % 16),
        c.0 < GRID_SIZE && c.1 < GRID_SIZE,
{
    (k / GRID_SIZE, k % GRID_SIZE)
}

/// Takes the cell `c` and every cell within `EXCLUSION` rows and columns of
/// it; the others keep their state.
pub fn mark_zone(taken: &mut Vec<bool>, c: usize)
    requires
        old(taken)@.len() == GRID_CELLS,
        c < GRID_CELLS,
    ensures
        final(taken)@.len() == GRID_CELLS,
        forall|k: int| 0 <= k < GRID_CELLS ==> #[trigger] final(taken)@[k] == (old(taken)@[k] || spec_near(c as int, k)),
        spec_count_taken(final(taken)@) <= spec_count_taken(old(taken)@) + 9,
{
    let cx = c / GRID_SIZE;
    let cy = c % GRID_SIZE;
    let lo_x = if cx >= EXCLUSION { cx - EXCLUSION } else { 0 };
    let hi_x = if cx + EXCLUSION < GRID_SIZE { cx + EXCLUSION } else { GRID_SIZE - 1 };
    let lo_y = if cy >= EXCLUSION { cy - EXCLUSION } else { 0 };
    let hi_y = if cy + EXCLUSION < GRID_SIZE { cy + EXCLUSION } else { GRID_SIZE - 1 };
    let ghost start = taken@;
    let mut i: usize = lo_x;
    while i <= hi_x
        invariant
            c < GRID_CELLS,
            cx == c / 16,
            cy == c % 16,
            lo_x == (if cx >= 1 { cx - 1 } else { 0 }),
            hi_x == (if cx + 1 < 16 { cx + 1 } else { 15 }),
            lo_y == (if cy >= 1 { cy - 1 } else { 0 }),
            hi_y == (if cy + 1 < 16 { cy + 1 } else { 15 }),
            lo_x <= i <= hi_x + 1,
            taken@.len() == GRID_CELLS,
            forall|k: int|
                0 <= k < GRID_CELLS ==> #[trigger] taken@[k] == (start[k] || (spec_near(c as int, k) && k / 16 < i)),
            spec_count_taken(taken@) <= spec_count_taken(start) + 3 * (i - lo_x),
        decreases hi_x + 1 - i,
    {
        let ghost before_row = taken@;
        let mut j: usize = lo_y;
        while j <= hi_y
            invariant
                c < GRID_CELLS,
                cx == c / 16,
                cy == c % 16,
                lo_x == (if cx >= 1 { cx - 1 } else { 0 }),
                hi_x == (if cx + 1 < 16 { cx + 1 } else { 15 }),
                lo_y == (if cy >= 1 { cy - 1 } else { 0 }),
                hi_y == (if cy + 1 < 16 { cy + 1 } else { 15 }),
                lo_x <= i <= hi_x,
                lo_y <= j <= hi_y + 1,
                taken@.len() == GRID_CELLS,
                forall|k: int|
                    0 <= k < GRID_CELLS ==> #[trigger] taken@[k] == (start[k] || (spec_near(c as int, k) && (k / 16 < i
                        || (k / 16 == i && k % 16 < j)))),
                spec_count_taken(taken@) <= spec_count_taken(before_row) + (j - lo_y),
                spec_count_taken(before_row) <= spec_count_taken(start) + 3 * (i - lo_x),
            decreases hi_y + 1 - j,
        {
            proof {
                lemma_cell(i as int, j as int);
                lemma_count_take(taken@, i * 16 + j);
            }
            let k = i * GRID_SIZE + j;
            let ghost prev = taken@;
            taken.set(k, true);
            proof {
                assert forall|m: int| 0 <= m < GRID_CELLS implies #[trigger] taken@[m] == (start[m] || (spec_near(
                    c as int,
                    m,
                ) && (m / 16 < i || (m / 16 == i && m % 16 < j + 1)))) by {
                    if m != k {
                        assert(taken@[m] == prev[m]);
                    }
                }
            }
            j = j + 1;
        }
        i = i + 1;
    }
    proof {
        assert forall|k: int| 0 <= k < GRID_CELLS implies #[trigger] taken@[k] == (start[k] || spec_near(c as int, k)) by {
            if spec_near(c as int, k) {
                assert(k / 16 <= hi_x);
            }
        }
    }
}

/// A free cell of the grid, picked at random among the free ones; none when
/// every cell is taken.
pub fn pick_free_cell(taken: &Vec<bool>) -> (r: Option<usize>)
    ensures
        r matches Some(k) ==> k < taken@.len() && !taken@[k as int],
        r is None <==> forall|k: int| 0 <= k < taken@.len() ==> #[trigger] taken@[k],
{
    let mut free: Vec<usize> = Vec::new();
    let mut k: usize = 0;
    while k < taken.len()
        invariant
            k <= taken@.len(),
            forall|a: int| 0 <= a < free@.len() ==> (#[trigger] free@[a]) < taken@.len() && !taken@[free@[a] as int],
            free@.len() == 0 ==> forall|m: int| 0 <= m < k ==> #[trigger] taken@[m],
        decreases taken@.len() - k,
    {
        if !taken[k] {
            free.push(k);
        }
        k = k + 1;
    }
    if free.len() == 0 {
        return None;
    }
    let picked = free[random_index(free.len())];
    assert(!taken@[picked as int]);
    Some(picked)
}

/// The cell of faction `f` in the zones handed out so far, if it has one.
pub open spec fn spec_zone_of(zones: Seq<(FactionID, usize)>, f: FactionID, c: usize) -> bool {
    exists|z: int| 0 <= z < zones.len() && zones[z] == (f, c)
}

/// Hands each player the home zone of its faction: the first player of a
/// faction draws a free cell at random, which takes the cells around it
/// too; the others of its faction share that cell. `factions` holds each
/// player's faction; the result holds each player's cell. Zones of distinct
/// factions are never within `EXCLUSION` cells of each other. Nothing comes
/// back when a faction finds no free cell left, which takes more than
/// twenty-eight players.
pub fn assign_faction_cells(factions: &Vec<FactionID>) -> (r: Option<Vec<usize>>)
    ensures
        factions@.len() <= 28 ==> r is Some,
        r matches Some(cells) ==> {
            &&& cells@.len() == factions@.len()
            &&& forall|a: int| 0 <= a < cells@.len() ==> (#[trigger] cells@[a]) < GRID_CELLS
            &&& forall|a: int, b: int|
                0 <= a < cells@.len() && 0 <= b < cells@.len() && factions@[a] == factions@[b] ==> #[trigger] cells@[a]
                    == #[trigger] cells@[b]
            &&& forall|a: int, b: int|
                0 <= a < cells@.len() && 0 <= b < cells@.len() && factions@[a] != factions@[b] ==> !spec_near(
                    #[trigger] cells@[a] as int,
                    #[trigger] cells@[b] as int,
                )
        },
{
    let mut taken: Vec<bool> = Vec::new();
    let mut n: usize = 0;
    while n < GRID_CELLS
        invariant
            n <= GRID_CELLS,
            taken@.len() == n,
            forall|k: int| 0 <= k < n ==> !(#[trigger] taken@[k]),
            spec_count_taken(taken@) == 0,
        decreases GRID_CELLS - n,
    {
        proof {
            assert(taken@.push(false).drop_last() =~= taken@);
        }
        taken.push(false);
        n = n + 1;
    }
    let mut zones: Vec<(FactionID, usize)> = Vec::new();
    let mut cells: Vec<usize> = Vec::new();
    let mut i: usize = 0;
    while i < factions.len()
        invariant
            i <= factions@.len(),
            taken@.len() == GRID_CELLS,
            cells@.len() == i,
            zones@.len() <= i,
            spec_count_taken(taken@) <= 9 * zones@.len(),
            forall|a: int| 0 <= a < zones@.len() ==> (#[trigger] zones@[a]).1 < GRID_CELLS,
            forall|a: int, b: int| 0 <= a < b < zones@.len() ==> (#[trigger] zones@[a]).0 != (#[trigger] zones@[b]).0,
            forall|a: int, b: int|
                0 <= a < zones@.len() && 0 <= b < zones@.len() && a != b ==> !spec_near(
                    (#[trigger] zones@[a]).1 as int,
                    (#[trigger] zones@[b]).1 as int,
                ),
            forall|a: int, k: int|
                0 <= a < zones@.len() && 0 <= k < GRID_CELLS && spec_near((#[trigger] zones@[a]).1 as int, k)
                    ==> #[trigger] taken@[k],
            forall|a: int| 0 <= a < i ==> spec_zone_of(zones@, factions@[a], #[trigger] cells@[a]),
        decreases factions@.len() - i,
    {
        let f = factions[i];
        let ghost old_zones = zones@;
        let ghost old_cells = cells@;
        let mut z: usize = 0;
        while z < zones.len()
            invariant
                z <= zones@.len(),
                forall|b: int| 0 <= b < z ==> (#[trigger] zones@[b]).0 != f,
            ensures
                z <= zones@.len(),
                forall|b: int| 0 <= b < z ==> (#[trigger] zones@[b]).0 != f,
                z < zones@.len() ==> zones@[z as int].0 == f,
            decreases zones@.len() - z,
        {
            if zones[z].0 == f {
                break;
            }
            z = z + 1;
        }
        if z < zones.len() {
            let c = zones[z].1;
            cells.push(c);
            proof {
                assert(zones@[z as int] == (f, c));
                assert(spec_zone_of(zones@, factions@[i as int], cells@[i as int]));
            }
        } else {
            proof {
                lemma_count_le_len(taken@);
                if factions@.len() <= 28 {
                    assert(spec_count_taken(taken@) < GRID_CELLS);
                }
            }
            let picked = pick_free_cell(&taken);
            let c = match picked {
                Some(c) => c,
                None => {
                    return None;
                },
            };
            let ghost before = taken@;
            mark_zone(&mut taken, c);
            proof {
                assert forall|a: int| 0 <= a < zones@.len() implies !spec_near((#[trigger] zones@[a]).1 as int, c as int) by {
                    if spec_near(zones@[a].1 as int, c as int) {
                        assert(before[c as int]);
                    }
                }
            }
            zones.push((f, c));
            cells.push(c);
            proof {
                assert forall|a: int, b: int|
                    0 <= a < zones@.len() && 0 <= b < zones@.len() && a != b implies !spec_near(
                    (#[trigger] zones@[a]).1 as int,
                    (#[trigger] zones@[b]).1 as int,
                ) by {
                    let last = zones@.len() - 1;
                    if b == last {
                        assert(!spec_near(zones@[a].1 as int, c as int));
                    } else if a == last {
                        assert(!spec_near(zones@[b].1 as int, c as int));
                    }
                }
                assert(zones@[zones@.len() - 1] == (f, c));
                assert(spec_zone_of(zones@, factions@[i as int], cells@[i as int]));
            }
        }
        proof {
            assert forall|a: int| 0 <= a < i + 1 implies spec_zone_of(zones@, factions@[a], #[trigger] cells@[a]) by {
                if a < i {
                    assert(cells@[a] == old_cells[a]);
                    assert(spec_zone_of(old_zones, factions@[a], old_cells[a]));
                    let w = choose|w: int| 0 <= w < old_zones.len() && old_zones[w] == (factions@[a], old_cells[a]);
                    assert(zones@[w] == old_zones[w]);
                } else {
                    assert(cells@[a] == cells@[i as int]);
                }
            }
        }
        i = i + 1;
    }
    proof {
        assert forall|a: int, b: int|
            0 <= a < cells@.len() && 0 <= b < cells@.len() implies (factions@[a] == factions@[b] ==> #[trigger] cells@[a]
                == #[trigger] cells@[b]) && (factions@[a] != factions@[b] ==> !spec_near(cells@[a] as int, cells@[b] as int))
            && cells@[a] < GRID_CELLS by {
            let wa = choose|w: int| 0 <= w < zones@.len() && zones@[w] == (factions@[a], cells@[a]);
            let wb = choose|w: int| 0 <= w < zones@.len() && zones@[w] == (factions@[b], cells@[b]);
            if wa < wb {
                assert(zones@[wa].0 != zones@[wb].0);
            } else if wb < wa {
                assert(zones@[wb].0 != zones@[wa].0);
            }
        }
    }
    Some(cells)
}

} // verus!
