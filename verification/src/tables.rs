//! The CSV form of a snapshot: the records of the summary, map and mode
//! tables, field by field, and where the three files go.

use vstd::prelude::*;
use crate::catalog::string_views;
use crate::export::{MapStat, MapStatModel, ModeStat, ModeStatModel, Snapshot, SnapshotModel};
use crate::text::{chars_of, string_of};

verus! {

/// The decimal digit `d` (below ten).
pub open spec fn digit_char(d: nat) -> char {
    (48 + d) as char
}

/// `n` written in decimal, without leading zeros.
pub open spec fn decimal_text(n: nat) -> Seq<char>
    decreases n,
{
    if n < 10 {
        seq![digit_char(n)]
    } else {
        decimal_text(n / 10).push(digit_char(n % 10))
    }
}

/// `h` hundredths written with two decimals, as `{:.2}` writes `h / 100`.
pub open spec fn hundredths_text(h: nat) -> Seq<char> {
    decimal_text(h / 100).push('.').push(digit_char((h % 100) / 10)).push(digit_char(h % 10))
}

/// `true` or `false`.
pub open spec fn bool_text(b: bool) -> Seq<char> {
    if b { "true"@ } else { "false"@ }
}

/// The items joined with `sep` between them.
pub open spec fn joined(items: Seq<Seq<char>>, sep: char) -> Seq<char>
    decreases items.len(),
{
    if items.len() == 0 {
        Seq::empty()
    } else if items.len() == 1 {
        items[0]
    } else {
        joined(items.drop_last(), sep).push(sep) + items.last()
    }
}

/// The column names of the summary table.
pub open spec fn summary_header() -> Seq<Seq<char>> {
    seq![
        "captured_at"@,
        "total_map_selections"@,
        "maps_reporting"@,
        "eligible_maps"@,
        "busiest_map"@,
        "busiest_map_searching"@,
    ]
}

/// The column names of the map table.
pub open spec fn map_header() -> Seq<Seq<char>> {
    seq![
        "captured_at"@,
        "map_index"@,
        "map_name"@,
        "display_name"@,
        "game_mode"@,
        "searching"@,
        "relative_percent"@,
        "queue_eligible"@,
        "seasonal"@,
        "tags"@,
    ]
}

/// The column names of the mode table.
pub open spec fn mode_header() -> Seq<Seq<char>> {
    seq![
        "captured_at"@,
        "game_mode_id"@,
        "game_mode"@,
        "map_count"@,
        "searching"@,
        "share_percent"@,
        "relative_percent"@,
    ]
}

/// The summary table: its header and one record.
pub open spec fn summary_table(s: SnapshotModel) -> Seq<Seq<Seq<char>>> {
    seq![
        summary_header(),
        seq![
            s.captured_at,
            decimal_text(s.summary.total_map_selections),
            decimal_text(s.summary.maps_reporting),
            decimal_text(s.summary.eligible_maps),
            match s.summary.busiest_map {
                Some(name) => name,
                None => Seq::empty(),
            },
            decimal_text(s.summary.busiest_map_searching as nat),
        ],
    ]
}

/// The record of one map; the tags joined with `|`.
pub open spec fn map_record(captured_at: Seq<char>, m: MapStatModel) -> Seq<Seq<char>> {
    seq![
        captured_at,
        decimal_text(m.map_index as nat),
        m.map_name,
        m.display_name,
        m.game_mode,
        decimal_text(m.searching as nat),
        hundredths_text(m.relative_hundredths as nat),
        bool_text(m.queue_eligible),
        bool_text(m.seasonal),
        joined(m.tags, '|'),
    ]
}

/// The record of one mode.
pub open spec fn mode_record(captured_at: Seq<char>, m: ModeStatModel) -> Seq<Seq<char>> {
    seq![
        captured_at,
        m.game_mode_id,
        m.game_mode,
        decimal_text(m.map_count),
        decimal_text(m.searching),
        hundredths_text(m.share_hundredths as nat),
        hundredths_text(m.relative_hundredths as nat),
    ]
}

/// The map table: its header, then one record per map in snapshot order.
pub open spec fn map_table(s: SnapshotModel) -> Seq<Seq<Seq<char>>> {
    seq![map_header()] + s.maps.map_values(|m: MapStatModel| map_record(s.captured_at, m))
}

/// The mode table: its header, then one record per mode in snapshot order.
pub open spec fn mode_table(s: SnapshotModel) -> Seq<Seq<Seq<char>>> {
    seq![mode_header()] + s.modes.map_values(|m: ModeStatModel| mode_record(s.captured_at, m))
}

/// Every record of a snapshot's CSV tables has one field per column of its
/// table's header, and a table has one record per row of the snapshot
/// besides its header.
pub proof fn lemma_tables_rectangular(s: SnapshotModel)
    ensures
        summary_table(s).len() == 2,
        forall|i: int| 0 <= i < 2 ==> #[trigger] summary_table(s)[i].len() == summary_header().len(),
        map_table(s).len() == s.maps.len() + 1,
        forall|i: int| 0 <= i < map_table(s).len() ==> #[trigger] map_table(s)[i].len() == map_header().len(),
        mode_table(s).len() == s.modes.len() + 1,
        forall|i: int| 0 <= i < mode_table(s).len() ==> #[trigger] mode_table(s)[i].len() == mode_header().len(),
{
    assert forall|i: int| 0 <= i < map_table(s).len() implies #[trigger] map_table(s)[i].len() == map_header().len() by {
        if i > 0 {
            assert(map_table(s)[i] == map_record(s.captured_at, s.maps[i - 1]));
        }
    }
    assert forall|i: int| 0 <= i < mode_table(s).len() implies #[trigger] mode_table(s)[i].len() == mode_header().len() by {
        if i > 0 {
            assert(mode_table(s)[i] == mode_record(s.captured_at, s.modes[i - 1]));
        }
    }
}

/// Joining puts the separator between items and nowhere else: no items give
/// nothing, one item gives itself, and the join of two non-empty runs of
/// items is the join of the first, the separator, and the join of the second.
pub proof fn lemma_joined_separates(xs: Seq<Seq<char>>, ys: Seq<Seq<char>>, t: Seq<char>, sep: char)
    ensures
        joined(Seq::empty(), sep) == Seq::<char>::empty(),
        joined(seq![t], sep) == t,
        xs.len() > 0 && ys.len() > 0 ==> joined(xs + ys, sep) == joined(xs, sep).push(sep) + joined(ys, sep),
    decreases ys.len(),
{
    if xs.len() > 0 && ys.len() > 0 {
        if ys.len() == 1 {
            assert((xs + ys).drop_last() =~= xs);
            assert((xs + ys).last() == ys[0]);
        } else {
            lemma_joined_separates(xs, ys.drop_last(), t, sep);
            assert((xs + ys).drop_last() =~= xs + ys.drop_last());
            assert((xs + ys).last() == ys.last());
            assert(joined(xs, sep).push(sep) + joined(ys.drop_last(), sep).push(sep) + ys.last()
                =~= joined(xs, sep).push(sep) + (joined(ys.drop_last(), sep).push(sep) + ys.last()));
        }
    }
}

/// The separators in a join: one between each two items, besides those
/// inside the items.
pub open spec fn count_char(s: Seq<char>, c: char) -> nat
    decreases s.len(),
{
    if s.len() == 0 { 0 } else { count_char(s.drop_last(), c) + if s.last() == c { 1nat } else { 0nat } }
}

proof fn lemma_count_char_concat(a: Seq<char>, b: Seq<char>, c: char)
    ensures
        count_char(a + b, c) == count_char(a, c) + count_char(b, c),
    decreases b.len(),
{
    if b.len() > 0 {
        lemma_count_char_concat(a, b.drop_last(), c);
        assert((a + b).drop_last() =~= a + b.drop_last());
    } else {
        assert(a + b =~= a);
    }
}

/// A join of items that do not hold the separator holds exactly one
/// separator fewer than there are items.
pub proof fn lemma_joined_separator_count(items: Seq<Seq<char>>, sep: char)
    requires
        items.len() > 0,
        forall|i: int| 0 <= i < items.len() ==> count_char(#[trigger] items[i], sep) == 0,
    ensures
        count_char(joined(items, sep), sep) == items.len() - 1,
    decreases items.len(),
{
    if items.len() > 1 {
        lemma_joined_separator_count(items.drop_last(), sep);
        let front = joined(items.drop_last(), sep);
        lemma_count_char_concat(front.push(sep), items.last(), sep);
        assert(front.push(sep).drop_last() =~= front);
        assert(items[items.len() - 1] == items.last());
    }
}

/// The records of a table, each as its fields' texts.
pub open spec fn table_view(t: Seq<Vec<String>>) -> Seq<Seq<Seq<char>>> {
    t.map_values(|r: Vec<String>| string_views(r@))
}

fn digit_of(d: u64) -> (c: char)
    requires
        d < 10,
    ensures
        c == digit_char(d as nat),
{
    let b: u8 = 48u8 + (d as u8);
    b as char
}

fn push_decimal(out: &mut Vec<char>, n: u64)
    ensures
        final(out)@ == old(out)@ + decimal_text(n as nat),
    decreases n,
{
    if n >= 10 {
        push_decimal(out, n / 10);
    }
    let ghost before = out@;
    out.push(digit_of(n % 10));
    proof {
        if n >= 10 {
            assert(before == old(out)@ + decimal_text((n / 10) as nat));
            assert(out@ =~= old(out)@ + decimal_text(n as nat));
        } else {
            assert(out@ =~= old(out)@ + decimal_text(n as nat));
        }
    }
}

/// `n` written in decimal, as `to_string` writes it.
pub fn decimal_string(n: u64) -> (s: String)
    ensures
        s@ == decimal_text(n as nat),
{
    let mut chars: Vec<char> = Vec::new();
    push_decimal(&mut chars, n);
    assert(chars@ =~= decimal_text(n as nat));
    string_of(chars.as_slice())
}

/// `h` hundredths with two decimals, as `format!("{:.2}", h as f64 / 100.0)`
/// writes them.
pub fn hundredths_string(h: u32) -> (s: String)
    ensures
        s@ == hundredths_text(h as nat),
{
    let mut chars: Vec<char> = Vec::new();
    push_decimal(&mut chars, (h / 100) as u64);
    chars.push('.');
    chars.push(digit_of(((h % 100) / 10) as u64));
    chars.push(digit_of((h % 10) as u64));
    assert(chars@ =~= hundredths_text(h as nat));
    string_of(chars.as_slice())
}

fn bool_string(b: bool) -> (s: String)
    ensures
        s@ == bool_text(b),
{
    if b {
        "true".to_owned()
    } else {
        "false".to_owned()
    }
}

fn join_with(items: &Vec<String>, sep: char) -> (s: String)
    ensures
        s@ == joined(string_views(items@), sep),
{
    let ghost all = string_views(items@);
    let mut chars: Vec<char> = Vec::new();
    let mut k: usize = 0;
    assert(all.take(0) =~= Seq::<Seq<char>>::empty());
    while k < items.len()
        invariant
            k <= items.len(),
            all == string_views(items@),
            chars@ == joined(all.take(k as int), sep),
        decreases items.len() - k,
    {
        let ghost before = chars@;
        if k > 0 {
            chars.push(sep);
        }
        let piece = chars_of(items[k].as_str());
        let mut j: usize = 0;
        let ghost start = chars@;
        while j < piece.len()
            invariant
                j <= piece.len(),
                chars@ == start + piece@.take(j as int),
            decreases piece.len() - j,
        {
            chars.push(piece[j]);
            assert(piece@.take(j + 1) =~= piece@.take(j as int).push(piece@[j as int]));
            assert(chars@ =~= start + piece@.take(j + 1));
            j += 1;
        }
        assert(piece@.take(piece.len() as int) =~= piece@);
        assert(all.take(k + 1).drop_last() =~= all.take(k as int));
        if k == 0 {
            assert(chars@ =~= joined(all.take(k + 1), sep));
        } else {
            assert(chars@ =~= joined(all.take(k + 1), sep));
        }
        k += 1;
    }
    assert(all.take(items.len() as int) =~= all);
    string_of(chars.as_slice())
}

fn texts(items: Vec<&str>) -> (v: Vec<String>)
    ensures
        v@.len() == items@.len(),
        forall|i: int| 0 <= i < items@.len() ==> #[trigger] v@[i]@ == items@[i]@,
{
    let mut v: Vec<String> = Vec::new();
    let mut k: usize = 0;
    while k < items.len()
        invariant
            k <= items.len(),
            v@.len() == k,
            forall|i: int| 0 <= i < k ==> #[trigger] v@[i]@ == items@[i]@,
        decreases items.len() - k,
    {
        v.push(items[k].to_owned());
        k += 1;
    }
    v
}

/// The summary table of the snapshot's CSV export: the header and one record.
pub fn summary_records(snapshot: &Snapshot) -> (t: Vec<Vec<String>>)
    ensures
        table_view(t@) == summary_table(snapshot@),
{
    let header = texts(vec![
        "captured_at",
        "total_map_selections",
        "maps_reporting",
        "eligible_maps",
        "busiest_map",
        "busiest_map_searching",
    ]);
    assert(string_views(header@) =~= summary_header());
    let s = &snapshot.summary;
    let busiest = match &s.busiest_map {
        Some(name) => name.clone(),
        None => String::new(),
    };
    let record = vec![
        snapshot.captured_at.clone(),
        decimal_string(s.total_map_selections),
        decimal_string(s.maps_reporting as u64),
        decimal_string(s.eligible_maps as u64),
        busiest,
        decimal_string(s.busiest_map_searching as u64),
    ];
    assert(string_views(record@) =~= summary_table(snapshot@)[1]);
    let t = vec![header, record];
    assert(table_view(t@) =~= summary_table(snapshot@));
    t
}

fn map_record_of(captured_at: &String, m: &MapStat) -> (r: Vec<String>)
    ensures
        string_views(r@) == map_record(captured_at@, m@),
{
    let r = vec![
        captured_at.clone(),
        decimal_string(m.map_index as u64),
        m.map_name.clone(),
        m.display_name.clone(),
        m.game_mode.clone(),
        decimal_string(m.searching as u64),
        hundredths_string(m.relative_hundredths),
        bool_string(m.queue_eligible),
        bool_string(m.seasonal),
        join_with(&m.tags, '|'),
    ];
    assert(string_views(r@) =~= map_record(captured_at@, m@));
    r
}

fn mode_record_of(captured_at: &String, m: &ModeStat) -> (r: Vec<String>)
    ensures
        string_views(r@) == mode_record(captured_at@, m@),
{
    let r = vec![
        captured_at.clone(),
        m.game_mode_id.clone(),
        m.game_mode.clone(),
        decimal_string(m.map_count as u64),
        decimal_string(m.searching),
        hundredths_string(m.share_hundredths),
        hundredths_string(m.relative_hundredths),
    ];
    assert(string_views(r@) =~= mode_record(captured_at@, m@));
    r
}

/// The map table of the snapshot's CSV export: the header, then one record
/// per map, in the snapshot's order.
pub fn map_records(snapshot: &Snapshot) -> (t: Vec<Vec<String>>)
    ensures
        table_view(t@) == map_table(snapshot@),
{
    let header = texts(vec![
        "captured_at",
        "map_index",
        "map_name",
        "display_name",
        "game_mode",
        "searching",
        "relative_percent",
        "queue_eligible",
        "seasonal",
        "tags",
    ]);
    assert(string_views(header@) =~= map_header());
    let mut t: Vec<Vec<String>> = Vec::new();
    t.push(header);
    let ghost s = snapshot@;
    let mut k: usize = 0;
    while k < snapshot.maps.len()
        invariant
            k <= snapshot.maps.len(),
            s == snapshot@,
            table_view(t@) == seq![map_header()] + s.maps.take(k as int).map_values(
                |m: MapStatModel| map_record(s.captured_at, m),
            ),
        decreases snapshot.maps.len() - k,
    {
        let r = map_record_of(&snapshot.captured_at, &snapshot.maps[k]);
        let ghost before = table_view(t@);
        t.push(r);
        assert(s.maps[k as int] == snapshot.maps@[k as int]@);
        assert(s.maps.take(k + 1) =~= s.maps.take(k as int).push(s.maps[k as int]));
        assert(table_view(t@) =~= before.push(map_record(s.captured_at, s.maps[k as int])));
        assert(s.maps.take(k + 1).map_values(|m: MapStatModel| map_record(s.captured_at, m))
            =~= s.maps.take(k as int).map_values(|m: MapStatModel| map_record(s.captured_at, m)).push(
            map_record(s.captured_at, s.maps[k as int])));
        assert(table_view(t@) =~= seq![map_header()] + s.maps.take(k + 1).map_values(
            |m: MapStatModel| map_record(s.captured_at, m),
        ));
        k += 1;
    }
    assert(s.maps.take(snapshot.maps.len() as int) =~= s.maps);
    t
}

/// The mode table of the snapshot's CSV export: the header, then one record
/// per mode, in the snapshot's order.
pub fn mode_records(snapshot: &Snapshot) -> (t: Vec<Vec<String>>)
    ensures
        table_view(t@) == mode_table(snapshot@),
{
    let header = texts(vec![
        "captured_at",
        "game_mode_id",
        "game_mode",
        "map_count",
        "searching",
        "share_percent",
        "relative_percent",
    ]);
    assert(string_views(header@) =~= mode_header());
    let mut t: Vec<Vec<String>> = Vec::new();
    t.push(header);
    let ghost s = snapshot@;
    let mut k: usize = 0;
    while k < snapshot.modes.len()
        invariant
            k <= snapshot.modes.len(),
            s == snapshot@,
            table_view(t@) == seq![mode_header()] + s.modes.take(k as int).map_values(
                |m: ModeStatModel| mode_record(s.captured_at, m),
            ),
        decreases snapshot.modes.len() - k,
    {
        let r = mode_record_of(&snapshot.captured_at, &snapshot.modes[k]);
        let ghost before = table_view(t@);
        t.push(r);
        assert(s.modes[k as int] == snapshot.modes@[k as int]@);
        assert(s.modes.take(k + 1) =~= s.modes.take(k as int).push(s.modes[k as int]));
        assert(table_view(t@) =~= before.push(mode_record(s.captured_at, s.modes[k as int])));
        assert(s.modes.take(k + 1).map_values(|m: ModeStatModel| mode_record(s.captured_at, m))
            =~= s.modes.take(k as int).map_values(|m: ModeStatModel| mode_record(s.captured_at, m)).push(
            mode_record(s.captured_at, s.modes[k as int])));
        assert(table_view(t@) =~= seq![mode_header()] + s.modes.take(k + 1).map_values(
            |m: ModeStatModel| mode_record(s.captured_at, m),
        ));
        k += 1;
    }
    assert(s.modes.take(snapshot.modes.len() as int) =~= s.modes);
    t
}

/// What chrono writes for an RFC 3339 time with the pattern
/// `%Y%m%dT%H%M%SZ`; `None` where the text is not RFC 3339.
pub uninterp spec fn compact_stamp_text(captured_at: Seq<char>) -> Option<Seq<char>>;

/// `DateTime::parse_from_rfc3339` followed by `format("%Y%m%dT%H%M%SZ")`.
/// The contract names the stamp and does not describe the calendar.
#[verifier::external_body]
fn compact_stamp(captured_at: &str) -> (r: Option<String>)
    ensures
        match compact_stamp_text(captured_at@) {
            Some(text) => r matches Some(s) && s@ == text,
            None => r is None,
        },
{
    match chrono::DateTime::parse_from_rfc3339(captured_at) {
        Ok(time) => Some(time.format("%Y%m%dT%H%M%SZ").to_string()),
        Err(_) => None,
    }
}

/// The name of one CSV file: the prefix, the table's name, the stamp when
/// the files lie flat, and `.csv`.
pub open spec fn csv_file_name(prefix: Seq<char>, table: Seq<char>, stamp: Seq<char>, flat: bool) -> Seq<char> {
    prefix + "-"@ + table + (if flat { "-"@ + stamp } else { Seq::empty() }) + ".csv"@
}

/// Where the CSV files of one snapshot go, under the output root.
pub struct CsvLayout {
    /// The child directory of the output root that holds the files; `None`
    /// when they lie in the output root itself.
    pub subdirectory: Option<String>,
    /// The summary, map and mode file names, in that order.
    pub files: Vec<String>,
}

pub struct CsvLayoutModel {
    pub subdirectory: Option<Seq<char>>,
    pub files: Seq<Seq<char>>,
}

impl View for CsvLayout {
    type V = CsvLayoutModel;

    open spec fn view(&self) -> CsvLayoutModel {
        CsvLayoutModel {
            subdirectory: match self.subdirectory {
                Some(d) => Some(d@),
                None => None,
            },
            files: string_views(self.files@),
        }
    }
}

/// The layout for a stamp: a child directory named by the stamp, or, flat,
/// the stamp in each file name.
pub open spec fn layout_of(stamp: Seq<char>, prefix: Seq<char>, flat: bool) -> CsvLayoutModel {
    CsvLayoutModel {
        subdirectory: if flat { None } else { Some(stamp) },
        files: seq![
            csv_file_name(prefix, "summary"@, stamp, flat),
            csv_file_name(prefix, "maps"@, stamp, flat),
            csv_file_name(prefix, "modes"@, stamp, flat),
        ],
    }
}

fn file_name(prefix: &Vec<char>, table: &str, stamp: &Vec<char>, flat: bool) -> (name: String)
    ensures
        name@ == csv_file_name(prefix@, table@, stamp@, flat),
{
    let mut chars: Vec<char> = prefix.clone();
    let mut tail = chars_of("-");
    tail.append(&mut chars_of(table));
    if flat {
        tail.append(&mut chars_of("-"));
        tail.append(&mut stamp.clone());
    }
    tail.append(&mut chars_of(".csv"));
    chars.append(&mut tail);
    assert(chars@ =~= csv_file_name(prefix@, table@, stamp@, flat));
    string_of(chars.as_slice())
}

/// The layout of the CSV files for the stamp `stamp`, with the file-name
/// prefix `prefix`.
pub fn layout_for_stamp(stamp: &str, prefix: &str, flat: bool) -> (layout: CsvLayout)
    ensures
        layout@ == layout_of(stamp@, prefix@, flat),
{
    let p = chars_of(prefix);
    let st = chars_of(stamp);
    let files = vec![
        file_name(&p, "summary", &st, flat),
        file_name(&p, "maps", &st, flat),
        file_name(&p, "modes", &st, flat),
    ];
    let subdirectory = if flat { None } else { Some(stamp.to_owned()) };
    let layout = CsvLayout { subdirectory, files };
    assert(layout@.files =~= layout_of(stamp@, prefix@, flat).files);
    layout
}

/// The layout of the CSV files of a snapshot captured at `captured_at`: as
/// `layout_for_stamp` with chrono's compact stamp of that time; `None` when
/// the time is not RFC 3339.
pub fn csv_layout(captured_at: &str, prefix: &str, flat: bool) -> (r: Option<CsvLayout>)
    ensures
        match compact_stamp_text(captured_at@) {
            Some(stamp) => r matches Some(l) && l@ == layout_of(stamp, prefix@, flat),
            None => r is None,
        },
{
    match compact_stamp(captured_at) {
        Some(stamp) => Some(layout_for_stamp(stamp.as_str(), prefix, flat)),
        None => None,
    }
}

} // verus!
