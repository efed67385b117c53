//! What every snapshot satisfies, whatever the catalogue and the counts: the
//! order of its tables, how its totals add up, its busiest map, and the range
//! of its percentages.

use vstd::prelude::*;
use crate::catalog::{MapModel, key_less, lemma_key_order};
use crate::export::{
    eligible_count,
    count_of, is_reported, largest_count, largest_group, map_stat_of, mode_row, mode_rows,
    percent_hundredths, reported_rows, reported_total, GroupModel, MapStatModel, ModeStatModel, add_to_groups, groups_count, groups_of, groups_total,
    insert_map_row, insert_mode_row, lemma_add_to_groups_totals, lemma_rows_total_reported,
    lemma_rows_total_sorted, map_precedes, mode_precedes, rows_total, snapshot_of, sort_map_rows,
    sort_mode_rows,
};

verus! {

/// Map rows in report order: no row comes before an earlier one.
pub open spec fn map_rows_ordered(rows: Seq<MapStatModel>) -> bool {
    forall|i: int, j: int| 0 <= i < j < rows.len() ==> !map_precedes(#[trigger] rows[j], #[trigger] rows[i])
}

/// Mode rows in report order: no row comes before an earlier one.
pub open spec fn mode_rows_ordered(rows: Seq<ModeStatModel>) -> bool {
    forall|i: int, j: int| 0 <= i < j < rows.len() ==> !mode_precedes(#[trigger] rows[j], #[trigger] rows[i])
}

proof fn lemma_map_precedes_order(a: MapStatModel, b: MapStatModel, c: MapStatModel)
    ensures
        map_precedes(a, b) ==> !map_precedes(b, a),
        !map_precedes(a, b) && !map_precedes(b, c) ==> !map_precedes(a, c),
{
    lemma_key_order(a.display_name, b.display_name, c.display_name);
    lemma_key_order(c.display_name, b.display_name, a.display_name);
    lemma_key_order(a.display_name, c.display_name, b.display_name);
}

proof fn lemma_mode_precedes_order(a: ModeStatModel, b: ModeStatModel, c: ModeStatModel)
    ensures
        mode_precedes(a, b) ==> !mode_precedes(b, a),
        !mode_precedes(a, b) && !mode_precedes(b, c) ==> !mode_precedes(a, c),
{
    lemma_key_order(a.game_mode, b.game_mode, c.game_mode);
    lemma_key_order(c.game_mode, b.game_mode, a.game_mode);
    lemma_key_order(a.game_mode, c.game_mode, b.game_mode);
}

proof fn lemma_insert_map_row_ordered(sorted: Seq<MapStatModel>, x: MapStatModel)
    requires
        map_rows_ordered(sorted),
    ensures
        map_rows_ordered(insert_map_row(sorted, x)),
        insert_map_row(sorted, x).len() == sorted.len() + 1,
        forall|i: int| 0 <= i < insert_map_row(sorted, x).len() ==> {
            ||| #[trigger] insert_map_row(sorted, x)[i] == x
            ||| sorted.contains(insert_map_row(sorted, x)[i])
        },
    decreases sorted.len(),
{
    if sorted.len() > 0 && map_precedes(x, sorted.last()) {
        let shorter = sorted.drop_last();
        let last = sorted.last();
        assert(map_rows_ordered(shorter)) by {
            assert forall|i: int, j: int| 0 <= i < j < shorter.len() implies !map_precedes(#[trigger] shorter[j], #[trigger] shorter[i]) by {
                assert(shorter[i] == sorted[i] && shorter[j] == sorted[j]);
            }
        }
        lemma_insert_map_row_ordered(shorter, x);
        let inner = insert_map_row(shorter, x);
        assert forall|i: int| 0 <= i < inner.len() implies !map_precedes(last, #[trigger] inner[i]) by {
            if inner[i] == x {
                lemma_map_precedes_order(x, last, last);
            } else {
                let k = choose|k: int| 0 <= k < shorter.len() && shorter[k] == inner[i];
                assert(sorted[k] == shorter[k]);
                assert(sorted[sorted.len() - 1] == last);
            }
        }
        assert forall|i: int| 0 <= i < inner.len() implies inner[i] == x || sorted.contains(#[trigger] inner[i]) by {
            if inner[i] != x {
                let k = choose|k: int| 0 <= k < shorter.len() && shorter[k] == inner[i];
                assert(sorted[k] == shorter[k]);
            }
        }
        assert(sorted.contains(last)) by {
            assert(sorted[sorted.len() - 1] == last);
        }
        let r = inner.push(last);
        assert(r == insert_map_row(sorted, x));
        assert forall|i: int, j: int| 0 <= i < j < r.len() implies !map_precedes(#[trigger] r[j], #[trigger] r[i]) by {
            if j < inner.len() {
                assert(r[i] == inner[i] && r[j] == inner[j]);
            } else {
                assert(r[i] == inner[i]);
            }
        }
    } else if sorted.len() > 0 {
        let r = sorted.push(x);
        let last = sorted.last();
        assert forall|i: int| 0 <= i < sorted.len() implies !map_precedes(x, #[trigger] sorted[i]) by {
            if i < sorted.len() - 1 {
                assert(!map_precedes(sorted[sorted.len() - 1], sorted[i]));
                lemma_map_precedes_order(x, last, sorted[i]);
            }
        }
        assert forall|i: int, j: int| 0 <= i < j < r.len() implies !map_precedes(#[trigger] r[j], #[trigger] r[i]) by {
            assert(r[i] == sorted[i]);
            if j < sorted.len() {
                assert(r[j] == sorted[j]);
            }
        }
        assert forall|i: int| 0 <= i < sorted.len() implies sorted.contains(#[trigger] r[i]) by {
            assert(r[i] == sorted[i]);
        }
    } else {
        assert(insert_map_row(sorted, x) =~= seq![x]);
    }
}

proof fn lemma_sort_map_rows(rows: Seq<MapStatModel>)
    ensures
        map_rows_ordered(sort_map_rows(rows)),
        sort_map_rows(rows).len() == rows.len(),
        forall|i: int| 0 <= i < sort_map_rows(rows).len() ==> rows.contains(#[trigger] sort_map_rows(rows)[i]),
    decreases rows.len(),
{
    if rows.len() > 0 {
        let shorter = rows.drop_last();
        lemma_sort_map_rows(shorter);
        lemma_insert_map_row_ordered(sort_map_rows(shorter), rows.last());
        let s = sort_map_rows(rows);
        assert forall|i: int| 0 <= i < s.len() implies rows.contains(#[trigger] s[i]) by {
            if s[i] == rows.last() {
                assert(rows[rows.len() - 1] == rows.last());
            } else {
                let inner = sort_map_rows(shorter);
                let k = choose|k: int| 0 <= k < inner.len() && inner[k] == s[i];
                let m = choose|m: int| 0 <= m < shorter.len() && shorter[m] == inner[k];
                assert(rows[m] == shorter[m]);
            }
        }
    } else {
        assert(sort_map_rows(rows) =~= Seq::<MapStatModel>::empty());
    }
}

proof fn lemma_insert_mode_row_ordered(sorted: Seq<ModeStatModel>, x: ModeStatModel)
    requires
        mode_rows_ordered(sorted),
    ensures
        mode_rows_ordered(insert_mode_row(sorted, x)),
        insert_mode_row(sorted, x).len() == sorted.len() + 1,
        forall|i: int| 0 <= i < insert_mode_row(sorted, x).len() ==> {
            ||| #[trigger] insert_mode_row(sorted, x)[i] == x
            ||| sorted.contains(insert_mode_row(sorted, x)[i])
        },
    decreases sorted.len(),
{
    if sorted.len() > 0 && mode_precedes(x, sorted.last()) {
        let shorter = sorted.drop_last();
        let last = sorted.last();
        assert(mode_rows_ordered(shorter)) by {
            assert forall|i: int, j: int| 0 <= i < j < shorter.len() implies !mode_precedes(#[trigger] shorter[j], #[trigger] shorter[i]) by {
                assert(shorter[i] == sorted[i] && shorter[j] == sorted[j]);
            }
        }
        lemma_insert_mode_row_ordered(shorter, x);
        let inner = insert_mode_row(shorter, x);
        assert forall|i: int| 0 <= i < inner.len() implies !mode_precedes(last, #[trigger] inner[i]) by {
            if inner[i] == x {
                lemma_mode_precedes_order(x, last, last);
            } else {
                let k = choose|k: int| 0 <= k < shorter.len() && shorter[k] == inner[i];
                assert(sorted[k] == shorter[k]);
                assert(sorted[sorted.len() - 1] == last);
            }
        }
        assert forall|i: int| 0 <= i < inner.len() implies inner[i] == x || sorted.contains(#[trigger] inner[i]) by {
            if inner[i] != x {
                let k = choose|k: int| 0 <= k < shorter.len() && shorter[k] == inner[i];
                assert(sorted[k] == shorter[k]);
            }
        }
        assert(sorted.contains(last)) by {
            assert(sorted[sorted.len() - 1] == last);
        }
        let r = inner.push(last);
        assert(r == insert_mode_row(sorted, x));
        assert forall|i: int, j: int| 0 <= i < j < r.len() implies !mode_precedes(#[trigger] r[j], #[trigger] r[i]) by {
            if j < inner.len() {
                assert(r[i] == inner[i] && r[j] == inner[j]);
            } else {
                assert(r[i] == inner[i]);
            }
        }
    } else if sorted.len() > 0 {
        let r = sorted.push(x);
        let last = sorted.last();
        assert forall|i: int| 0 <= i < sorted.len() implies !mode_precedes(x, #[trigger] sorted[i]) by {
            if i < sorted.len() - 1 {
                assert(!mode_precedes(sorted[sorted.len() - 1], sorted[i]));
                lemma_mode_precedes_order(x, last, sorted[i]);
            }
        }
        assert forall|i: int, j: int| 0 <= i < j < r.len() implies !mode_precedes(#[trigger] r[j], #[trigger] r[i]) by {
            assert(r[i] == sorted[i]);
            if j < sorted.len() {
                assert(r[j] == sorted[j]);
            }
        }
        assert forall|i: int| 0 <= i < sorted.len() implies sorted.contains(#[trigger] r[i]) by {
            assert(r[i] == sorted[i]);
        }
    } else {
        assert(insert_mode_row(sorted, x) =~= seq![x]);
    }
}

proof fn lemma_sort_mode_rows(rows: Seq<ModeStatModel>)
    ensures
        mode_rows_ordered(sort_mode_rows(rows)),
        sort_mode_rows(rows).len() == rows.len(),
        forall|i: int| 0 <= i < sort_mode_rows(rows).len() ==> rows.contains(#[trigger] sort_mode_rows(rows)[i]),
    decreases rows.len(),
{
    if rows.len() > 0 {
        let shorter = rows.drop_last();
        lemma_sort_mode_rows(shorter);
        lemma_insert_mode_row_ordered(sort_mode_rows(shorter), rows.last());
        let s = sort_mode_rows(rows);
        assert forall|i: int| 0 <= i < s.len() implies rows.contains(#[trigger] s[i]) by {
            if s[i] == rows.last() {
                assert(rows[rows.len() - 1] == rows.last());
            } else {
                let inner = sort_mode_rows(shorter);
                let k = choose|k: int| 0 <= k < inner.len() && inner[k] == s[i];
                let m = choose|m: int| 0 <= m < shorter.len() && shorter[m] == inner[k];
                assert(rows[m] == shorter[m]);
            }
        }
    } else {
        assert(sort_mode_rows(rows) =~= Seq::<ModeStatModel>::empty());
    }
}

/// The maps of a snapshot are in report order: more selections first, equal
/// selections by display name.
pub proof fn lemma_snapshot_maps_ordered(catalogue: Seq<MapModel>, counts: Seq<u32>, captured_at: Seq<char>)
    ensures
        map_rows_ordered(snapshot_of(catalogue, counts, captured_at).maps),
{
    let s = snapshot_of(catalogue, counts, captured_at);
    lemma_sort_map_rows(crate::export::reported_rows(catalogue, counts, crate::export::largest_count(catalogue, counts)));
}

/// The modes of a snapshot are in report order: more selections first, equal
/// selections by name.
pub proof fn lemma_snapshot_modes_ordered(catalogue: Seq<MapModel>, counts: Seq<u32>, captured_at: Seq<char>)
    ensures
        mode_rows_ordered(snapshot_of(catalogue, counts, captured_at).modes),
{
    let maps = snapshot_of(catalogue, counts, captured_at).maps;
    let total = crate::export::reported_total(catalogue, counts);
    let groups = groups_of(maps);
    lemma_sort_mode_rows(crate::export::mode_rows(groups, total, crate::export::largest_group(groups)));
}

/// The selections of the mode rows, summed.
pub open spec fn modes_total(rows: Seq<ModeStatModel>) -> nat
    decreases rows.len(),
{
    if rows.len() == 0 { 0 } else { modes_total(rows.drop_last()) + rows.last().searching }
}

/// The maps of the mode rows, summed.
pub open spec fn modes_map_count(rows: Seq<ModeStatModel>) -> nat
    decreases rows.len(),
{
    if rows.len() == 0 { 0 } else { modes_map_count(rows.drop_last()) + rows.last().map_count }
}

proof fn lemma_groups_total_last(g: Seq<GroupModel>)
    requires
        g.len() > 0,
    ensures
        groups_total(g) == groups_total(g.drop_last()) + g.last().searching,
        groups_count(g) == groups_count(g.drop_last()) + g.last().map_count,
    decreases g.len(),
{
    if g.len() > 1 {
        lemma_groups_total_last(g.drop_first());
        assert(g.drop_first().drop_last() =~= g.drop_last().drop_first());
        assert(g.drop_last()[0] == g[0]);
        assert(g.drop_first().last() == g.last());
    } else {
        assert(g.drop_last().len() == 0);
        assert(g.drop_first().len() == 0);
        assert(groups_total(g.drop_last()) == 0);
        assert(groups_count(g.drop_last()) == 0);
        assert(groups_total(g.drop_first()) == 0);
        assert(groups_count(g.drop_first()) == 0);
        assert(g.last() == g[0]);
    }
}

proof fn lemma_groups_of_totals(rows: Seq<MapStatModel>)
    ensures
        groups_total(groups_of(rows)) == rows_total(rows),
        groups_count(groups_of(rows)) == rows.len(),
    decreases rows.len(),
{
    if rows.len() > 0 {
        lemma_groups_of_totals(rows.drop_last());
        lemma_add_to_groups_totals(groups_of(rows.drop_last()), rows.last());
    }
}

proof fn lemma_mode_rows_totals(g: Seq<GroupModel>, total: nat, largest: nat)
    ensures
        modes_total(mode_rows(g, total, largest)) == groups_total(g),
        modes_map_count(mode_rows(g, total, largest)) == groups_count(g),
    decreases g.len(),
{
    if g.len() > 0 {
        lemma_mode_rows_totals(g.drop_last(), total, largest);
        lemma_groups_total_last(g);
        assert(mode_rows(g, total, largest).drop_last() =~= mode_rows(g.drop_last(), total, largest));
    } else {
        assert(mode_rows(g, total, largest).len() == 0);
    }
}

proof fn lemma_insert_mode_totals(sorted: Seq<ModeStatModel>, x: ModeStatModel)
    ensures
        modes_total(insert_mode_row(sorted, x)) == modes_total(sorted) + x.searching,
        modes_map_count(insert_mode_row(sorted, x)) == modes_map_count(sorted) + x.map_count,
    decreases sorted.len(),
{
    if sorted.len() > 0 && mode_precedes(x, sorted.last()) {
        lemma_insert_mode_totals(sorted.drop_last(), x);
        assert(insert_mode_row(sorted, x).drop_last() == insert_mode_row(sorted.drop_last(), x));
    } else {
        assert(sorted.push(x).drop_last() == sorted);
    }
}

proof fn lemma_sort_mode_totals(rows: Seq<ModeStatModel>)
    ensures
        modes_total(sort_mode_rows(rows)) == modes_total(rows),
        modes_map_count(sort_mode_rows(rows)) == modes_map_count(rows),
    decreases rows.len(),
{
    if rows.len() > 0 {
        lemma_sort_mode_totals(rows.drop_last());
        lemma_insert_mode_totals(sort_mode_rows(rows.drop_last()), rows.last());
    }
}

/// The totals of a snapshot add up: the summary's selections are those of
/// its maps, and also those of its modes; the modes count every map once;
/// the summary counts the maps.
pub proof fn lemma_snapshot_totals(catalogue: Seq<MapModel>, counts: Seq<u32>, captured_at: Seq<char>)
    ensures
        snapshot_of(catalogue, counts, captured_at).summary.total_map_selections
            == rows_total(snapshot_of(catalogue, counts, captured_at).maps),
        modes_total(snapshot_of(catalogue, counts, captured_at).modes)
            == snapshot_of(catalogue, counts, captured_at).summary.total_map_selections,
        modes_map_count(snapshot_of(catalogue, counts, captured_at).modes)
            == snapshot_of(catalogue, counts, captured_at).maps.len(),
        snapshot_of(catalogue, counts, captured_at).summary.maps_reporting
            == snapshot_of(catalogue, counts, captured_at).maps.len(),
{
    let largest = largest_count(catalogue, counts);
    let rows = reported_rows(catalogue, counts, largest);
    let maps = sort_map_rows(rows);
    let total = reported_total(catalogue, counts);
    let groups = groups_of(maps);
    lemma_rows_total_reported(catalogue, counts, largest);
    lemma_rows_total_sorted(rows);
    lemma_groups_of_totals(maps);
    lemma_mode_rows_totals(groups, total, largest_group(groups));
    lemma_sort_mode_totals(mode_rows(groups, total, largest_group(groups)));
}

/// The busiest map of a snapshot's summary is its first map, and no map has
/// more selections; the summary names none exactly when no map has a
/// selection.
pub proof fn lemma_snapshot_busiest(catalogue: Seq<MapModel>, counts: Seq<u32>, captured_at: Seq<char>)
    ensures
        forall|i: int| 0 <= i < snapshot_of(catalogue, counts, captured_at).maps.len()
            ==> #[trigger] snapshot_of(catalogue, counts, captured_at).maps[i].searching
                <= snapshot_of(catalogue, counts, captured_at).summary.busiest_map_searching,
        snapshot_of(catalogue, counts, captured_at).summary.busiest_map is None <==> forall|i: int|
            0 <= i < snapshot_of(catalogue, counts, captured_at).maps.len()
            ==> #[trigger] snapshot_of(catalogue, counts, captured_at).maps[i].searching == 0,
        snapshot_of(catalogue, counts, captured_at).summary.busiest_map matches Some(name) ==> {
            &&& snapshot_of(catalogue, counts, captured_at).maps[0].display_name == name
            &&& snapshot_of(catalogue, counts, captured_at).maps[0].searching
                == snapshot_of(catalogue, counts, captured_at).summary.busiest_map_searching
        },
{
    let maps = snapshot_of(catalogue, counts, captured_at).maps;
    lemma_snapshot_maps_ordered(catalogue, counts, captured_at);
    assert forall|i: int| 0 < i < maps.len() implies #[trigger] maps[i].searching <= maps[0].searching by {
        assert(!map_precedes(maps[i], maps[0]));
    }
}

/// A part against a whole that is at least as large is at most 100.00 %.
pub proof fn lemma_percent_at_most_whole(part: nat, whole: nat)
    requires
        part <= whole,
    ensures
        percent_hundredths(part, whole) <= 10000,
{
    if whole > 0 {
        let max = u64::MAX as nat;
        let half = whole / 2;
        assert(half < whole) by (nonlinear_arith)
            requires whole > 0, half == whole / 2;
        if part * 10000 > max {
            assert(whole * 10000 > max) by (nonlinear_arith)
                requires part * 10000 > max, part <= whole;
            assert(max / whole < 10000) by (nonlinear_arith)
                requires whole * 10000 > max, whole > 0;
            let rounded = if max + half > max { max } else { (max + half) as nat };
            assert(rounded == max);
        } else {
            let scaled = part * 10000;
            let rounded = if scaled + half > max { max } else { (scaled + half) as nat };
            assert(rounded <= whole * 10000 + half) by (nonlinear_arith)
                requires rounded <= scaled + half, scaled == part * 10000, part <= whole;
            assert(rounded / whole <= 10000) by (nonlinear_arith)
                requires rounded <= whole * 10000 + half, half < whole, whole > 0;
        }
    }
}

proof fn lemma_largest_count_bounds(catalogue: Seq<MapModel>, counts: Seq<u32>, i: int)
    requires
        0 <= i < catalogue.len(),
    ensures
        count_of(counts, catalogue[i].index) <= largest_count(catalogue, counts),
    decreases catalogue.len(),
{
    if i < catalogue.len() - 1 {
        lemma_largest_count_bounds(catalogue.drop_last(), counts, i);
        assert(catalogue.drop_last()[i] == catalogue[i]);
    }
}

proof fn lemma_reported_rows_origin(catalogue: Seq<MapModel>, counts: Seq<u32>, largest: u32, r: MapStatModel)
    requires
        reported_rows(catalogue, counts, largest).contains(r),
    ensures
        exists|i: int| 0 <= i < catalogue.len() && r == map_stat_of(#[trigger] catalogue[i], counts, largest),
    decreases catalogue.len(),
{
    let rest = reported_rows(catalogue.drop_last(), counts, largest);
    let n = catalogue.len() - 1;
    if is_reported(catalogue.last()) && r == map_stat_of(catalogue.last(), counts, largest) {
        assert(catalogue[n] == catalogue.last());
    } else {
        assert(rest.contains(r)) by {
            let k = choose|k: int| 0 <= k < reported_rows(catalogue, counts, largest).len()
                && reported_rows(catalogue, counts, largest)[k] == r;
            if is_reported(catalogue.last()) {
                assert(reported_rows(catalogue, counts, largest) == rest.push(map_stat_of(catalogue.last(), counts, largest)));
                assert(k < rest.len());
                assert(rest[k] == r);
            } else {
                assert(rest[k] == r);
            }
        }
        lemma_reported_rows_origin(catalogue.drop_last(), counts, largest, r);
        let i = choose|i: int| 0 <= i < catalogue.drop_last().len() && r == map_stat_of(#[trigger] catalogue.drop_last()[i], counts, largest);
        assert(catalogue.drop_last()[i] == catalogue[i]);
    }
}

/// Every percentage of a snapshot is at most 100.00 %: a map against the
/// busiest map, a mode against all selections and against the busiest mode.
pub proof fn lemma_snapshot_percentages(catalogue: Seq<MapModel>, counts: Seq<u32>, captured_at: Seq<char>)
    ensures
        forall|i: int| 0 <= i < snapshot_of(catalogue, counts, captured_at).maps.len()
            ==> #[trigger] snapshot_of(catalogue, counts, captured_at).maps[i].relative_hundredths <= 10000,
        forall|i: int| 0 <= i < snapshot_of(catalogue, counts, captured_at).modes.len()
            ==> #[trigger] snapshot_of(catalogue, counts, captured_at).modes[i].share_hundredths <= 10000,
        forall|i: int| 0 <= i < snapshot_of(catalogue, counts, captured_at).modes.len()
            ==> #[trigger] snapshot_of(catalogue, counts, captured_at).modes[i].relative_hundredths <= 10000,
{
    let s = snapshot_of(catalogue, counts, captured_at);
    let largest = largest_count(catalogue, counts);
    let rows = reported_rows(catalogue, counts, largest);
    lemma_sort_map_rows(rows);
    assert forall|i: int| 0 <= i < s.maps.len() implies #[trigger] s.maps[i].relative_hundredths <= 10000 by {
        let r = s.maps[i];
        assert(rows.contains(r));
        lemma_reported_rows_origin(catalogue, counts, largest, r);
        let k = choose|k: int| 0 <= k < catalogue.len() && r == map_stat_of(#[trigger] catalogue[k], counts, largest);
        lemma_largest_count_bounds(catalogue, counts, k);
        lemma_percent_at_most_whole(count_of(counts, catalogue[k].index) as nat, largest as nat);
    }
    let total = reported_total(catalogue, counts);
    let groups = groups_of(s.maps);
    let top = largest_group(groups);
    let unsorted = mode_rows(groups, total, top);
    lemma_sort_mode_rows(unsorted);
    lemma_rows_total_reported(catalogue, counts, largest);
    lemma_rows_total_sorted(rows);
    lemma_groups_of_totals(s.maps);
    assert forall|i: int| #![trigger s.modes[i]] 0 <= i < s.modes.len() implies s.modes[i].share_hundredths <= 10000
        && s.modes[i].relative_hundredths <= 10000 by {
        let m = s.modes[i];
        assert(unsorted.contains(m));
        let k = choose|k: int| 0 <= k < unsorted.len() && unsorted[k] == m;
        assert(m == mode_row(groups[k], total, top));
        crate::export::lemma_group_within_totals(groups, k);
        lemma_within_largest_group(groups, k);
        lemma_percent_at_most_whole(groups[k].searching, total);
        lemma_percent_at_most_whole(groups[k].searching, top);
    }
}

proof fn lemma_within_largest_group(groups: Seq<GroupModel>, k: int)
    requires
        0 <= k < groups.len(),
    ensures
        groups[k].searching <= largest_group(groups),
    decreases groups.len(),
{
    if k < groups.len() - 1 {
        lemma_within_largest_group(groups.drop_last(), k);
        assert(groups.drop_last()[k] == groups[k]);
    }
}

/// Mode identifiers in strictly increasing key order.
pub open spec fn ids_increasing(groups: Seq<GroupModel>) -> bool {
    forall|i: int, j: int| 0 <= i < j < groups.len() ==> key_less(#[trigger] groups[i].id, #[trigger] groups[j].id)
}

/// No two mode rows share a mode identifier.
pub open spec fn mode_ids_distinct(rows: Seq<ModeStatModel>) -> bool {
    forall|i: int, j: int| 0 <= i < j < rows.len() ==> (#[trigger] rows[i]).game_mode_id != (#[trigger] rows[j]).game_mode_id
}

proof fn lemma_add_to_groups_increasing(groups: Seq<GroupModel>, row: MapStatModel)
    requires
        ids_increasing(groups),
    ensures
        ids_increasing(add_to_groups(groups, row)),
        forall|i: int| 0 <= i < add_to_groups(groups, row).len() ==> {
            ||| (#[trigger] add_to_groups(groups, row)[i]).id == row.game_mode_id
            ||| exists|k: int| 0 <= k < groups.len() && groups[k].id == add_to_groups(groups, row)[i].id
        },
    decreases groups.len(),
{
    let r = add_to_groups(groups, row);
    if groups.len() == 0 {
    } else if groups[0].id == row.game_mode_id {
        assert forall|i: int| 0 < i < r.len() implies #[trigger] r[i] == groups[i] by {}
        assert forall|i: int, j: int| 0 <= i < j < r.len() implies key_less(#[trigger] r[i].id, #[trigger] r[j].id) by {
            assert(key_less(groups[i].id, groups[j].id));
        }
        assert forall|i: int| 0 <= i < r.len() implies exists|k: int| 0 <= k < groups.len() && groups[k].id == (#[trigger] r[i]).id by {
            assert(groups[i].id == r[i].id);
        }
    } else if key_less(row.game_mode_id, groups[0].id) {
        assert forall|i: int| 0 < i < r.len() implies #[trigger] r[i] == groups[i - 1] by {}
        assert forall|i: int, j: int| 0 <= i < j < r.len() implies key_less(#[trigger] r[i].id, #[trigger] r[j].id) by {
            if i == 0 {
                if j > 1 {
                    assert(key_less(groups[0].id, groups[j - 1].id));
                    lemma_key_order(row.game_mode_id, groups[0].id, groups[j - 1].id);
                }
            } else {
                assert(key_less(groups[i - 1].id, groups[j - 1].id));
            }
        }
        assert forall|i: int| 0 < i < r.len() implies exists|k: int| 0 <= k < groups.len() && groups[k].id == (#[trigger] r[i]).id by {
            assert(groups[i - 1].id == r[i].id);
        }
    } else {
        let rest = groups.drop_first();
        assert(ids_increasing(rest)) by {
            assert forall|i: int, j: int| 0 <= i < j < rest.len() implies key_less(#[trigger] rest[i].id, #[trigger] rest[j].id) by {
                assert(key_less(groups[i + 1].id, groups[j + 1].id));
            }
        }
        lemma_add_to_groups_increasing(rest, row);
        let inner = add_to_groups(rest, row);
        lemma_key_order(groups[0].id, row.game_mode_id, row.game_mode_id);
        assert(key_less(groups[0].id, row.game_mode_id));
        assert(r == seq![groups[0]] + inner);
        assert forall|i: int| 0 < i < r.len() implies #[trigger] r[i] == inner[i - 1] by {}
        assert forall|j: int| 0 <= j < inner.len() implies key_less(groups[0].id, #[trigger] inner[j].id) by {
            if inner[j].id != row.game_mode_id {
                let k = choose|k: int| 0 <= k < rest.len() && rest[k].id == inner[j].id;
                assert(key_less(groups[0].id, groups[k + 1].id));
            }
        }
        assert forall|i: int, j: int| 0 <= i < j < r.len() implies key_less(#[trigger] r[i].id, #[trigger] r[j].id) by {
            if i == 0 {
                assert(key_less(groups[0].id, inner[j - 1].id));
            } else {
                assert(key_less(inner[i - 1].id, inner[j - 1].id));
            }
        }
        assert forall|i: int| 0 <= i < r.len() implies {
            ||| (#[trigger] r[i]).id == row.game_mode_id
            ||| exists|k: int| 0 <= k < groups.len() && groups[k].id == r[i].id
        } by {
            if i == 0 {
                assert(groups[0].id == r[0].id);
            } else if inner[i - 1].id != row.game_mode_id {
                let k = choose|k: int| 0 <= k < rest.len() && rest[k].id == inner[i - 1].id;
                assert(groups[k + 1].id == r[i].id);
            }
        }
    }
}

proof fn lemma_groups_of_increasing(rows: Seq<MapStatModel>)
    ensures
        ids_increasing(groups_of(rows)),
    decreases rows.len(),
{
    if rows.len() > 0 {
        lemma_groups_of_increasing(rows.drop_last());
        lemma_add_to_groups_increasing(groups_of(rows.drop_last()), rows.last());
    }
}

proof fn lemma_insert_mode_distinct(sorted: Seq<ModeStatModel>, x: ModeStatModel)
    requires
        mode_rows_ordered(sorted),
        mode_ids_distinct(sorted),
        forall|i: int| 0 <= i < sorted.len() ==> (#[trigger] sorted[i]).game_mode_id != x.game_mode_id,
    ensures
        mode_ids_distinct(insert_mode_row(sorted, x)),
    decreases sorted.len(),
{
    let r = insert_mode_row(sorted, x);
    if sorted.len() > 0 && mode_precedes(x, sorted.last()) {
        let shorter = sorted.drop_last();
        let last = sorted.last();
        assert(mode_rows_ordered(shorter)) by {
            assert forall|i: int, j: int| 0 <= i < j < shorter.len() implies !mode_precedes(#[trigger] shorter[j], #[trigger] shorter[i]) by {
                assert(shorter[i] == sorted[i] && shorter[j] == sorted[j]);
            }
        }
        assert forall|i: int| 0 <= i < shorter.len() implies (#[trigger] shorter[i]).game_mode_id != x.game_mode_id by {
            assert(shorter[i] == sorted[i]);
        }
        assert(mode_ids_distinct(shorter)) by {
            assert forall|i: int, j: int| 0 <= i < j < shorter.len() implies (#[trigger] shorter[i]).game_mode_id != (#[trigger] shorter[j]).game_mode_id by {
                assert(shorter[i] == sorted[i] && shorter[j] == sorted[j]);
            }
        }
        lemma_insert_mode_distinct(shorter, x);
        lemma_insert_mode_row_ordered(shorter, x);
        let inner = insert_mode_row(shorter, x);
        assert(r == inner.push(last));
        assert forall|i: int| 0 <= i < inner.len() implies (#[trigger] inner[i]).game_mode_id != last.game_mode_id by {
            assert(sorted[sorted.len() - 1] == last);
            if inner[i] != x {
                let k = choose|k: int| 0 <= k < shorter.len() && shorter[k] == inner[i];
                assert(sorted[k] == shorter[k]);
            }
        }
        assert forall|i: int, j: int| 0 <= i < j < r.len() implies (#[trigger] r[i]).game_mode_id != (#[trigger] r[j]).game_mode_id by {
            assert(r[i] == inner[i]);
            if j < inner.len() {
                assert(r[j] == inner[j]);
            }
        }
    } else {
        assert(r == sorted.push(x));
        assert forall|i: int, j: int| 0 <= i < j < r.len() implies (#[trigger] r[i]).game_mode_id != (#[trigger] r[j]).game_mode_id by {
            assert(r[i] == sorted[i]);
            if j < sorted.len() {
                assert(r[j] == sorted[j]);
            }
        }
    }
}

proof fn lemma_sort_mode_distinct(rows: Seq<ModeStatModel>)
    requires
        mode_ids_distinct(rows),
    ensures
        mode_ids_distinct(sort_mode_rows(rows)),
    decreases rows.len(),
{
    if rows.len() > 0 {
        let shorter = rows.drop_last();
        let x = rows.last();
        assert(mode_ids_distinct(shorter)) by {
            assert forall|i: int, j: int| 0 <= i < j < shorter.len() implies (#[trigger] shorter[i]).game_mode_id != (#[trigger] shorter[j]).game_mode_id by {
                assert(shorter[i] == rows[i] && shorter[j] == rows[j]);
            }
        }
        lemma_sort_mode_distinct(shorter);
        lemma_sort_mode_rows(shorter);
        let inner = sort_mode_rows(shorter);
        assert forall|i: int| 0 <= i < inner.len() implies (#[trigger] inner[i]).game_mode_id != x.game_mode_id by {
            let k = choose|k: int| 0 <= k < shorter.len() && shorter[k] == inner[i];
            assert(rows[k] == shorter[k]);
            assert(rows[rows.len() - 1] == x);
        }
        lemma_insert_mode_distinct(inner, x);
    }
}

/// A snapshot has one row per game mode: no two of its mode rows share a
/// mode identifier.
pub proof fn lemma_snapshot_mode_ids_distinct(catalogue: Seq<MapModel>, counts: Seq<u32>, captured_at: Seq<char>)
    ensures
        mode_ids_distinct(snapshot_of(catalogue, counts, captured_at).modes),
{
    let maps = snapshot_of(catalogue, counts, captured_at).maps;
    let total = reported_total(catalogue, counts);
    let groups = groups_of(maps);
    let unsorted = mode_rows(groups, total, largest_group(groups));
    lemma_groups_of_increasing(maps);
    assert forall|i: int, j: int| 0 <= i < j < unsorted.len() implies (#[trigger] unsorted[i]).game_mode_id != (#[trigger] unsorted[j]).game_mode_id by {
        assert(key_less(groups[i].id, groups[j].id));
        lemma_key_order(groups[i].id, groups[i].id, groups[i].id);
    }
    lemma_sort_mode_distinct(unsorted);
}

proof fn lemma_insert_map_eligible(sorted: Seq<MapStatModel>, x: MapStatModel)
    ensures
        eligible_count(insert_map_row(sorted, x)) == eligible_count(sorted) + if x.queue_eligible { 1nat } else { 0nat },
    decreases sorted.len(),
{
    if sorted.len() > 0 && map_precedes(x, sorted.last()) {
        lemma_insert_map_eligible(sorted.drop_last(), x);
        assert(insert_map_row(sorted, x).drop_last() == insert_map_row(sorted.drop_last(), x));
    } else {
        assert(sorted.push(x).drop_last() == sorted);
    }
}

proof fn lemma_sort_map_eligible(rows: Seq<MapStatModel>)
    ensures
        eligible_count(sort_map_rows(rows)) == eligible_count(rows),
    decreases rows.len(),
{
    if rows.len() > 0 {
        lemma_sort_map_eligible(rows.drop_last());
        lemma_insert_map_eligible(sort_map_rows(rows.drop_last()), rows.last());
    }
}

/// A catalogue map that the snapshot reports and that can be queued for.
pub open spec fn reported_and_eligible(m: MapModel) -> bool {
    m.index > 0 && m.name != "Missing"@ && m.queue_eligible
}

proof fn lemma_reported_eligible(catalogue: Seq<MapModel>, counts: Seq<u32>, largest: u32)
    ensures
        eligible_count(reported_rows(catalogue, counts, largest))
            == catalogue.filter(|m: MapModel| reported_and_eligible(m)).len(),
    decreases catalogue.len(),
{
    reveal(Seq::filter);
    if catalogue.len() > 0 {
        lemma_reported_eligible(catalogue.drop_last(), counts, largest);
        let rest = reported_rows(catalogue.drop_last(), counts, largest);
        if is_reported(catalogue.last()) {
            assert(rest.push(map_stat_of(catalogue.last(), counts, largest)).drop_last() == rest);
        }
    }
}

/// The summary counts every reported map that can be queued for, whatever
/// its selections: `eligible_maps` is the number of catalogue maps, other
/// than the index-0 and `Missing` placeholders, marked eligible.
pub proof fn lemma_snapshot_eligible_maps(catalogue: Seq<MapModel>, counts: Seq<u32>, captured_at: Seq<char>)
    ensures
        snapshot_of(catalogue, counts, captured_at).summary.eligible_maps
            == catalogue.filter(|m: MapModel| reported_and_eligible(m)).len(),
{
    let rows = reported_rows(catalogue, counts, largest_count(catalogue, counts));
    lemma_sort_map_eligible(rows);
    lemma_reported_eligible(catalogue, counts, largest_count(catalogue, counts));
}

} // verus!
