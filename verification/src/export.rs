//! The snapshot of the matchmaking statistics: map names for people, game
//! modes, percentages, the per-map and per-mode tables and their summary.

use vstd::prelude::*;
use crate::catalog::{MapDefinition, MapModel, map_models, is_seasonal, is_seasonal_tag, key_before, key_less, string_views};
use crate::text::{
    all_ascii_digits, chars_of, lower_all, occurs_at, only_ascii_digits, starts_with, string_of,
    to_lower, to_upper, upper_all, views,
};

verus! {

/// What `char::to_uppercase` yields for `c`: its Unicode uppercase mapping.
pub uninterp spec fn char_uppercase(c: char) -> Seq<char>;

/// `char::to_uppercase`, collected. The contract names the result and
/// states nothing of Unicode's case tables.
#[verifier::external_body]
fn uppercase_of(c: char) -> (r: Vec<char>)
    ensures
        r@ == char_uppercase(c),
{
    c.to_uppercase().collect()
}

/// The number of bytes that `c` takes in UTF-8.
pub open spec fn utf8_width(c: char) -> nat {
    if (c as u32) < 0x80 {
        1
    } else if (c as u32) < 0x800 {
        2
    } else if (c as u32) < 0x10000 {
        3
    } else {
        4
    }
}

/// The number of bytes that `s` takes in UTF-8.
pub open spec fn utf8_len(s: Seq<char>) -> nat
    decreases s.len(),
{
    if s.len() == 0 { 0 } else { utf8_len(s.drop_last()) + utf8_width(s.last()) }
}

/// The mode prefixes that a display name drops, in the order they are tried.
pub open spec fn name_prefixes() -> Seq<Seq<char>> {
    seq![
        "arena_"@, "koth_"@, "pass_"@, "ctf_"@, "plr_"@, "mvm_"@, "vsh_"@, "cp_"@, "pd_"@,
        "pl_"@, "rd_"@, "sd_"@, "tc_"@, "zi_"@,
    ]
}

pub open spec fn has_prefix(s: Seq<char>, prefix: Seq<char>) -> bool {
    prefix.len() <= s.len() && s.take(prefix.len() as int) == prefix
}

pub open spec fn has_suffix(s: Seq<char>, suffix: Seq<char>) -> bool {
    suffix.len() <= s.len() && s.skip(s.len() - suffix.len()) == suffix
}

/// The first of `prefixes` that `s` starts with.
pub open spec fn first_prefix(s: Seq<char>, prefixes: Seq<Seq<char>>) -> Option<Seq<char>>
    decreases prefixes.len(),
{
    if prefixes.len() == 0 {
        None
    } else if has_prefix(s, prefixes[0]) {
        Some(prefixes[0])
    } else {
        first_prefix(s, prefixes.drop_first())
    }
}

/// Where `pat` last occurs in `s` at or before `i`.
pub open spec fn rfind_from(s: Seq<char>, pat: Seq<char>, i: int) -> Option<int>
    decreases i + 1,
{
    if i < 0 {
        None
    } else if i + pat.len() <= s.len() && s.subrange(i, i + pat.len()) == pat {
        Some(i)
    } else {
        rfind_from(s, pat, i - 1)
    }
}

/// Where `pat` last occurs in `s`.
pub open spec fn rfind(s: Seq<char>, pat: Seq<char>) -> Option<int> {
    rfind_from(s, pat, s.len() - pat.len())
}

/// `name` without its mode prefix (compared without case).
pub open spec fn strip_mode_prefix(name: Seq<char>) -> Seq<char> {
    match first_prefix(lower_all(name), name_prefixes()) {
        Some(p) => name.skip(p.len() as int),
        None => name,
    }
}

/// `value` without a release suffix (compared without case): `_event`, or
/// the last `_final` when only digits follow it.
pub open spec fn strip_release_suffix(value: Seq<char>) -> Seq<char> {
    let lower = lower_all(value);
    if has_suffix(lower, "_event"@) {
        value.take(value.len() - 6)
    } else {
        match rfind(lower, "_final"@) {
            Some(p) => if all_ascii_digits(lower.skip(p + 6)) { value.take(p) } else { value },
            None => value,
        }
    }
}

/// The non-empty pieces of `s` between underscores, from `i` on, after the
/// piece `current` being read and the pieces `acc` already read.
pub open spec fn words_scan(s: Seq<char>, i: int, current: Seq<char>, acc: Seq<Seq<char>>) -> Seq<Seq<char>>
    decreases s.len() - i,
{
    if i < 0 || i >= s.len() {
        if current.len() > 0 { acc.push(current) } else { acc }
    } else if s[i] == '_' {
        words_scan(s, i + 1, Seq::empty(), if current.len() > 0 { acc.push(current) } else { acc })
    } else {
        words_scan(s, i + 1, current.push(s[i]), acc)
    }
}

/// The non-empty pieces of `s` between underscores.
pub open spec fn words(s: Seq<char>) -> Seq<Seq<char>> {
    words_scan(s, 0, Seq::empty(), Seq::empty())
}

/// The words of a map name that its display name shows: the non-empty pieces
/// between underscores once the mode prefix and a release suffix are dropped.
pub open spec fn display_words(name: Seq<char>) -> Seq<Seq<char>> {
    words(strip_release_suffix(strip_mode_prefix(name)))
}

/// A word as a display name shows it, `capital` standing for the capital
/// form of its first letter: short words (two bytes or less) and numbers in
/// capitals, others with the capital first letter.
pub open spec fn format_word_with(w: Seq<char>, capital: Seq<char>) -> Seq<char> {
    if utf8_len(w) <= 2 || all_ascii_digits(w) {
        upper_all(w)
    } else {
        capital + w.drop_first()
    }
}

/// The formatted words, joined by spaces; `capitals[i]` is the capital form
/// of the first letter of word `i`.
pub open spec fn join_words_with(ws: Seq<Seq<char>>, capitals: Seq<Seq<char>>) -> Seq<char>
    decreases ws.len(),
{
    if ws.len() == 0 {
        Seq::empty()
    } else if ws.len() == 1 {
        format_word_with(ws[0], capitals[0])
    } else {
        join_words_with(ws.drop_last(), capitals.drop_last()) + seq![' ']
            + format_word_with(ws.last(), capitals.last())
    }
}

/// The capital form of each word's first letter, as `char::to_uppercase`
/// gives it.
pub open spec fn first_capitals(ws: Seq<Seq<char>>) -> Seq<Seq<char>> {
    ws.map_values(|w: Seq<char>| if w.len() > 0 { char_uppercase(w[0]) } else { Seq::empty() })
}

/// The display name of a map, given the capital forms of its words' first
/// letters; the map's own name when no word is left.
pub open spec fn display_name_with(name: Seq<char>, capitals: Seq<Seq<char>>) -> Seq<char> {
    let label = join_words_with(display_words(name), capitals);
    if label.len() == 0 { name } else { label }
}

/// The name of a map as people write it, e.g. `Badwater` for `pl_badwater`;
/// the map's own name when nothing is left.
pub open spec fn display_name_of(name: Seq<char>) -> Seq<char> {
    display_name_with(name, first_capitals(display_words(name)))
}

proof fn lemma_utf8_len_prefix(s: Seq<char>, i: int)
    requires
        0 <= i <= s.len(),
    ensures
        utf8_len(s.take(i)) <= utf8_len(s),
    decreases s.len() - i,
{
    if i < s.len() {
        lemma_utf8_len_prefix(s, i + 1);
        assert(s.take(i + 1).drop_last() == s.take(i));
    } else {
        assert(s.take(i) == s);
    }
}

/// Whether `s` takes at most two bytes in UTF-8.
fn at_most_two_bytes(s: &[char]) -> (r: bool)
    ensures
        r == (utf8_len(s@) <= 2),
{
    let mut n: usize = 0;
    let mut i: usize = 0;
    while i < s.len()
        invariant
            i <= s.len(),
            n == utf8_len(s@.take(i as int)),
            n <= 2,
        decreases s.len() - i,
    {
        let c = s[i] as u32;
        assert(s@.take(i + 1).drop_last() == s@.take(i as int));
        let w: usize = if c < 0x80 { 1 } else if c < 0x800 { 2 } else if c < 0x10000 { 3 } else { 4 };
        i += 1;
        if n + w > 2 {
            proof {
                lemma_utf8_len_prefix(s@, i as int);
            }
            return false;
        }
        n = n + w;
    }
    assert(s@.take(s.len() as int) == s@);
    true
}


/// The mode prefixes that a display name drops, as character vectors.
fn name_prefix_list() -> (v: Vec<Vec<char>>)
    ensures
        views(v@) == name_prefixes(),
{
    let v = vec![
        chars_of("arena_"), chars_of("koth_"), chars_of("pass_"), chars_of("ctf_"),
        chars_of("plr_"), chars_of("mvm_"), chars_of("vsh_"), chars_of("cp_"), chars_of("pd_"),
        chars_of("pl_"), chars_of("rd_"), chars_of("sd_"), chars_of("tc_"), chars_of("zi_"),
    ];
    assert(views(v@) =~= name_prefixes());
    v
}

/// `name` without its mode prefix.
fn mode_prefix_length(lower: &[char]) -> (n: usize)
    ensures
        n <= lower@.len(),
        n == match first_prefix(lower@, name_prefixes()) {
            Some(p) => p.len(),
            None => 0,
        },
{
    let prefixes = name_prefix_list();
    let mut k: usize = 0;
    assert(views(prefixes@).skip(0) == views(prefixes@));
    while k < prefixes.len()
        invariant
            k <= prefixes.len(),
            views(prefixes@) == name_prefixes(),
            first_prefix(lower@, name_prefixes()) == first_prefix(lower@, views(prefixes@).skip(k as int)),
        decreases prefixes.len() - k,
    {
        let ghost rest = views(prefixes@).skip(k as int);
        assert(rest[0] == prefixes@[k as int]@);
        assert(rest.drop_first() == views(prefixes@).skip(k + 1));
        if starts_with(lower, prefixes[k].as_slice()) {
            return prefixes[k].len();
        }
        k += 1;
    }
    0
}

/// The length that `value` keeps once its release suffix is dropped.
fn release_suffix_cut(value: &[char]) -> (n: usize)
    ensures
        n <= value@.len(),
        value@.take(n as int) == strip_release_suffix(value@),
{
    let lower = to_lower(value);
    let ghost l = lower@;
    let event = chars_of("_event");
    let fin = chars_of("_final");
    proof {
        reveal_strlit("_event");
        reveal_strlit("_final");
    }
    assert(event@.len() == 6 && fin@.len() == 6);
    if lower.len() >= 6 && occurs_at(lower.as_slice(), event.as_slice(), lower.len() - 6) {
        assert(l.subrange(l.len() - 6, l.len() as int) == l.skip(l.len() - 6));
        return value.len() - 6;
    }
    assert(!has_suffix(l, "_event"@)) by {
        if has_suffix(l, "_event"@) {
            assert(l.subrange(l.len() - 6, l.len() as int) == l.skip(l.len() - 6));
        }
    }
    if lower.len() < 6 {
        assert(rfind(l, "_final"@) == None::<int>);
        assert(value@.take(value.len() as int) == value@);
        return value.len();
    }
    let mut i: usize = lower.len() - 6;
    loop
        invariant
            l == lower@,
            l == lower_all(value@),
            l.len() == value@.len(),
            fin@ == "_final"@,
            fin@.len() == 6,
            i + 6 <= l.len(),
            rfind(l, "_final"@) == rfind_from(l, "_final"@, i as int),
            !has_suffix(l, "_event"@),
        decreases i,
    {
        if occurs_at(lower.as_slice(), fin.as_slice(), i) {
            assert(rfind_from(l, "_final"@, i as int) == Some(i as int));
            assert(i + 6 <= lower.len());
            let suffix = vstd::slice::slice_subrange(lower.as_slice(), i + 6, lower.len());
            assert(suffix@ == l.skip(i + 6));
            if only_ascii_digits(suffix) {
                return i;
            }
            assert(value@.take(value.len() as int) == value@);
            return value.len();
        }
        if i == 0 {
            assert(rfind_from(l, "_final"@, -1) == None::<int>);
            assert(value@.take(value.len() as int) == value@);
            return value.len();
        }
        i -= 1;
    }
}

/// The non-empty pieces of `s` between underscores.
fn split_words(s: &[char]) -> (ws: Vec<Vec<char>>)
    ensures
        views(ws@) == words(s@),
{
    let mut ws: Vec<Vec<char>> = Vec::new();
    let mut current: Vec<char> = Vec::new();
    let mut i: usize = 0;
    assert(views(ws@) =~= Seq::<Seq<char>>::empty());
    while i < s.len()
        invariant
            i <= s.len(),
            words(s@) == words_scan(s@, i as int, current@, views(ws@)),
        decreases s.len() - i,
    {
        if s[i] == '_' {
            if current.len() > 0 {
                let ghost before = views(ws@);
                ws.push(current);
                assert(views(ws@) =~= before.push(current@));
            }
            current = Vec::new();
        } else {
            current.push(s[i]);
        }
        i += 1;
    }
    if current.len() > 0 {
        let ghost before = views(ws@);
        ws.push(current);
        assert(views(ws@) =~= before.push(current@));
    }
    ws
}

/// `w` as a display name shows it, with `capital` for its first letter.
fn format_display_word(w: &[char], capital: &Vec<char>) -> (r: Vec<char>)
    ensures
        r@ == format_word_with(w@, capital@),
{
    if at_most_two_bytes(w) || only_ascii_digits(w) {
        to_upper(w)
    } else {
        let mut r = capital.clone();
        let mut i: usize = 1;
        assert(r@ == capital@ + w@.subrange(1, 1));
        while i < w.len()
            invariant
                1 <= i <= w.len(),
                r@ == capital@ + w@.subrange(1, i as int),
            decreases w.len() - i,
        {
            r.push(w[i]);
            i += 1;
            assert(w@.subrange(1, i as int) == w@.subrange(1, i - 1).push(w@[i - 1]));
        }
        assert(w@.subrange(1, w.len() as int) == w@.drop_first());
        r
    }
}

/// The words of a map name that its display name shows.
fn display_word_list(map_name: &str) -> (ws: Vec<Vec<char>>)
    ensures
        views(ws@) == display_words(map_name@),
{
    let name = chars_of(map_name);
    let lower = to_lower(name.as_slice());
    let start = mode_prefix_length(lower.as_slice());
    let value = vstd::slice::slice_subrange(name.as_slice(), start, name.len());
    assert(value@ == strip_mode_prefix(name@));
    let cut = release_suffix_cut(value);
    let kept = vstd::slice::slice_subrange(value, 0, cut);
    assert(kept@ == value@.take(cut as int));
    split_words(kept)
}

/// The display name of a map with `capitals[i]` taken as the capital form of
/// the first letter of its `i`-th word (see `display_name`): the mode prefix
/// and a release suffix dropped, the words between underscores capitalised
/// and joined by spaces; the map's own name when nothing is left.
pub fn display_name_with_capitals(map_name: &str, capitals: &[Vec<char>]) -> (r: String)
    requires
        capitals@.len() == display_words(map_name@).len(),
    ensures
        r@ == display_name_with(map_name@, views(capitals@)),
{
    let ws = display_word_list(map_name);
    let ghost caps = views(capitals@);
    let mut label: Vec<char> = Vec::new();
    let mut i: usize = 0;
    assert(views(ws@).take(0) =~= Seq::<Seq<char>>::empty());
    while i < ws.len()
        invariant
            i <= ws.len(),
            ws.len() == capitals.len(),
            caps == views(capitals@),
            label@ == join_words_with(views(ws@).take(i as int), caps.take(i as int)),
        decreases ws.len() - i,
    {
        let ghost taken = views(ws@).take(i + 1);
        assert(taken.drop_last() == views(ws@).take(i as int));
        assert(taken.last() == ws@[i as int]@);
        assert(caps.take(i + 1).drop_last() == caps.take(i as int));
        assert(caps.take(i + 1).last() == capitals@[i as int]@);
        if i > 0 {
            label.push(' ');
        }
        let word = format_display_word(ws[i].as_slice(), &capitals[i]);
        let mut k: usize = 0;
        let ghost before = label@;
        while k < word.len()
            invariant
                k <= word.len(),
                label@ == before + word@.take(k as int),
            decreases word.len() - k,
        {
            label.push(word[k]);
            k += 1;
            assert(word@.take(k as int) == word@.take(k - 1).push(word@[k - 1]));
        }
        assert(word@.take(word.len() as int) == word@);
        i += 1;
    }
    assert(views(ws@).take(ws.len() as int) == views(ws@));
    assert(caps.take(ws.len() as int) == caps);
    if label.len() == 0 {
        map_name.to_owned()
    } else {
        string_of(label.as_slice())
    }
}

/// The name of a map as people write it: the mode prefix and a release
/// suffix dropped, the words between underscores capitalised (the first
/// letter of a longer word by `char::to_uppercase`) and joined by spaces;
/// the map's own name when nothing is left.
pub fn display_name(map_name: &str) -> (r: String)
    ensures
        r@ == display_name_of(map_name@),
{
    let ws = display_word_list(map_name);
    let mut capitals: Vec<Vec<char>> = Vec::new();
    let mut i: usize = 0;
    while i < ws.len()
        invariant
            i <= ws.len(),
            views(capitals@) == first_capitals(views(ws@).take(i as int)),
        decreases ws.len() - i,
    {
        let capital = if ws[i].len() > 0 { uppercase_of(ws[i][0]) } else { Vec::new() };
        let ghost before = views(capitals@);
        let ghost w = ws@[i as int]@;
        assert(capital@ == if w.len() > 0 { char_uppercase(w[0]) } else { Seq::<char>::empty() });
        capitals.push(capital);
        assert(views(capitals@) =~= before.push(capital@));
        assert(views(ws@).take(i + 1) =~= views(ws@).take(i as int).push(w));
        assert(views(capitals@) =~= first_capitals(views(ws@).take(i + 1)));
        i += 1;
    }
    assert(views(ws@).take(ws.len() as int) == views(ws@));
    display_name_with_capitals(map_name, capitals.as_slice())
}


/// The game modes that the snapshot groups maps by.
#[derive(Debug, Clone, Copy, PartialEq, Eq, Structural)]
pub enum ModeKind {
    PayloadRace,
    AttackDefend,
    KingOfTheHill,
    CaptureTheFlag,
    PlayerDestruction,
    RobotDestruction,
    SpecialDelivery,
    TerritorialControl,
    PassTime,
    VersusSaxtonHale,
    ZombieInfection,
    MannVsMachine,
    Payload,
    Arena,
    ControlPoint,
    Other,
}

/// A game mode's identifier and the name that people read.
#[derive(Debug, Clone, Copy)]
pub struct GameMode {
    pub id: &'static str,
    pub label: &'static str,
}

pub open spec fn mode_id(k: ModeKind) -> Seq<char> {
    match k {
        ModeKind::PayloadRace => "payload-race"@,
        ModeKind::AttackDefend => "attack-defend"@,
        ModeKind::KingOfTheHill => "king-of-the-hill"@,
        ModeKind::CaptureTheFlag => "capture-the-flag"@,
        ModeKind::PlayerDestruction => "player-destruction"@,
        ModeKind::RobotDestruction => "robot-destruction"@,
        ModeKind::SpecialDelivery => "special-delivery"@,
        ModeKind::TerritorialControl => "territorial-control"@,
        ModeKind::PassTime => "passtime"@,
        ModeKind::VersusSaxtonHale => "versus-saxton-hale"@,
        ModeKind::ZombieInfection => "zombie-infection"@,
        ModeKind::MannVsMachine => "mann-vs-machine"@,
        ModeKind::Payload => "payload"@,
        ModeKind::Arena => "arena"@,
        ModeKind::ControlPoint => "control-point"@,
        ModeKind::Other => "other"@,
    }
}

pub open spec fn mode_label(k: ModeKind) -> Seq<char> {
    match k {
        ModeKind::PayloadRace => "Payload Race"@,
        ModeKind::AttackDefend => "Attack / Defend"@,
        ModeKind::KingOfTheHill => "King of the Hill"@,
        ModeKind::CaptureTheFlag => "Capture the Flag"@,
        ModeKind::PlayerDestruction => "Player Destruction"@,
        ModeKind::RobotDestruction => "Robot Destruction"@,
        ModeKind::SpecialDelivery => "Special Delivery"@,
        ModeKind::TerritorialControl => "Territorial Control"@,
        ModeKind::PassTime => "PASS Time"@,
        ModeKind::VersusSaxtonHale => "Versus Saxton Hale"@,
        ModeKind::ZombieInfection => "Zombie Infection"@,
        ModeKind::MannVsMachine => "Mann vs. Machine"@,
        ModeKind::Payload => "Payload"@,
        ModeKind::Arena => "Arena"@,
        ModeKind::ControlPoint => "Control Point"@,
        ModeKind::Other => "Other"@,
    }
}

/// The matchmaking tags that mark a mode.
pub open spec fn mode_tags(k: ModeKind) -> Seq<Seq<char>> {
    match k {
        ModeKind::PayloadRace => seq!["payload_race"@, "plr"@],
        ModeKind::AttackDefend => seq!["attack_defend"@, "attack-defend"@, "a/d"@],
        ModeKind::KingOfTheHill => seq!["king_of_the_hill"@, "king-of-the-hill"@, "koth"@],
        ModeKind::CaptureTheFlag => seq!["capture_the_flag"@, "capture-the-flag"@, "ctf"@],
        ModeKind::PlayerDestruction => seq!["player_destruction"@, "player-destruction"@, "pd"@],
        ModeKind::RobotDestruction => seq!["robot_destruction"@, "robot-destruction"@, "rd"@],
        ModeKind::SpecialDelivery => seq!["special_delivery"@, "special-delivery"@, "sd"@],
        ModeKind::TerritorialControl => seq!["territorial_control"@, "territorial-control"@, "tc"@],
        ModeKind::PassTime => seq!["passtime"@, "pass_time"@, "pass"@],
        ModeKind::VersusSaxtonHale => seq!["versus_saxton_hale"@, "vsh"@],
        ModeKind::ZombieInfection => seq!["zombie_infection"@, "zi"@],
        ModeKind::MannVsMachine => seq!["mann_vs_machine"@, "mvm"@],
        ModeKind::Payload => seq!["payload"@, "pl"@],
        ModeKind::Arena => seq!["arena"@],
        ModeKind::ControlPoint => seq!["control_point"@, "control-point"@, "cp"@],
        ModeKind::Other => Seq::empty(),
    }
}

/// The modes in the order their tags are tried.
pub open spec fn tag_order() -> Seq<ModeKind> {
    seq![
        ModeKind::PayloadRace, ModeKind::AttackDefend, ModeKind::KingOfTheHill,
        ModeKind::CaptureTheFlag, ModeKind::PlayerDestruction, ModeKind::RobotDestruction,
        ModeKind::SpecialDelivery, ModeKind::TerritorialControl, ModeKind::PassTime,
        ModeKind::VersusSaxtonHale, ModeKind::ZombieInfection, ModeKind::MannVsMachine,
        ModeKind::Payload, ModeKind::Arena, ModeKind::ControlPoint,
    ]
}

/// The map-name prefixes that mark a mode, in the order they are tried.
pub open spec fn prefix_order() -> Seq<(Seq<char>, ModeKind)> {
    seq![
        ("plr_"@, ModeKind::PayloadRace), ("pl_"@, ModeKind::Payload),
        ("koth_"@, ModeKind::KingOfTheHill), ("ctf_"@, ModeKind::CaptureTheFlag),
        ("arena_"@, ModeKind::Arena), ("pd_"@, ModeKind::PlayerDestruction),
        ("rd_"@, ModeKind::RobotDestruction), ("sd_"@, ModeKind::SpecialDelivery),
        ("tc_"@, ModeKind::TerritorialControl), ("pass_"@, ModeKind::PassTime),
        ("vsh_"@, ModeKind::VersusSaxtonHale), ("zi_"@, ModeKind::ZombieInfection),
        ("mvm_"@, ModeKind::MannVsMachine), ("cp_"@, ModeKind::ControlPoint),
    ]
}

/// Whether one of the map's tags is one of `candidates`.
pub open spec fn has_any_tag(tags: Seq<Seq<char>>, candidates: Seq<Seq<char>>) -> bool {
    exists|i: int, j: int| 0 <= i < candidates.len() && 0 <= j < tags.len() && #[trigger] candidates[i] == #[trigger] tags[j]
}

/// The first mode in `order` that one of the tags marks.
pub open spec fn mode_by_tags(tags: Seq<Seq<char>>, order: Seq<ModeKind>) -> Option<ModeKind>
    decreases order.len(),
{
    if order.len() == 0 {
        None
    } else if has_any_tag(tags, mode_tags(order[0])) {
        Some(order[0])
    } else {
        mode_by_tags(tags, order.drop_first())
    }
}

/// The mode of the first prefix in `order` that the (small-letter) name starts with.
pub open spec fn mode_by_prefix(lower_name: Seq<char>, order: Seq<(Seq<char>, ModeKind)>) -> Option<ModeKind>
    decreases order.len(),
{
    if order.len() == 0 {
        None
    } else if has_prefix(lower_name, order[0].0) {
        Some(order[0].1)
    } else {
        mode_by_prefix(lower_name, order.drop_first())
    }
}

/// A map's mode: the first mode its tags mark, else the mode its name's
/// prefix marks, else `Other`.
pub open spec fn mode_of(tags: Seq<Seq<char>>, name: Seq<char>) -> ModeKind {
    match mode_by_tags(tags, tag_order()) {
        Some(k) => k,
        None => match mode_by_prefix(lower_all(name), prefix_order()) {
            Some(k) => k,
            None => ModeKind::Other,
        },
    }
}

impl GameMode {
    /// The identifier and name of a mode.
    pub fn of(kind: ModeKind) -> (mode: GameMode)
        ensures
            mode.id@ == mode_id(kind),
            mode.label@ == mode_label(kind),
    {
        match kind {
            ModeKind::PayloadRace => GameMode { id: "payload-race", label: "Payload Race" },
            ModeKind::AttackDefend => GameMode { id: "attack-defend", label: "Attack / Defend" },
            ModeKind::KingOfTheHill => GameMode { id: "king-of-the-hill", label: "King of the Hill" },
            ModeKind::CaptureTheFlag => GameMode { id: "capture-the-flag", label: "Capture the Flag" },
            ModeKind::PlayerDestruction => GameMode { id: "player-destruction", label: "Player Destruction" },
            ModeKind::RobotDestruction => GameMode { id: "robot-destruction", label: "Robot Destruction" },
            ModeKind::SpecialDelivery => GameMode { id: "special-delivery", label: "Special Delivery" },
            ModeKind::TerritorialControl => GameMode { id: "territorial-control", label: "Territorial Control" },
            ModeKind::PassTime => GameMode { id: "passtime", label: "PASS Time" },
            ModeKind::VersusSaxtonHale => GameMode { id: "versus-saxton-hale", label: "Versus Saxton Hale" },
            ModeKind::ZombieInfection => GameMode { id: "zombie-infection", label: "Zombie Infection" },
            ModeKind::MannVsMachine => GameMode { id: "mann-vs-machine", label: "Mann vs. Machine" },
            ModeKind::Payload => GameMode { id: "payload", label: "Payload" },
            ModeKind::Arena => GameMode { id: "arena", label: "Arena" },
            ModeKind::ControlPoint => GameMode { id: "control-point", label: "Control Point" },
            ModeKind::Other => GameMode { id: "other", label: "Other" },
        }
    }
}

/// The modes in the order their tags are tried.
fn tag_order_list() -> (v: Vec<ModeKind>)
    ensures
        v@ == tag_order(),
{
    let v = vec![
        ModeKind::PayloadRace, ModeKind::AttackDefend, ModeKind::KingOfTheHill,
        ModeKind::CaptureTheFlag, ModeKind::PlayerDestruction, ModeKind::RobotDestruction,
        ModeKind::SpecialDelivery, ModeKind::TerritorialControl, ModeKind::PassTime,
        ModeKind::VersusSaxtonHale, ModeKind::ZombieInfection, ModeKind::MannVsMachine,
        ModeKind::Payload, ModeKind::Arena, ModeKind::ControlPoint,
    ];
    assert(v@ =~= tag_order());
    v
}

/// The matchmaking tags that mark a mode.
fn mode_tag_list(k: ModeKind) -> (v: Vec<Vec<char>>)
    ensures
        views(v@) == mode_tags(k),
{
    let v = match k {
        ModeKind::PayloadRace => vec![chars_of("payload_race"), chars_of("plr")],
        ModeKind::AttackDefend => vec![chars_of("attack_defend"), chars_of("attack-defend"), chars_of("a/d")],
        ModeKind::KingOfTheHill => vec![chars_of("king_of_the_hill"), chars_of("king-of-the-hill"), chars_of("koth")],
        ModeKind::CaptureTheFlag => vec![chars_of("capture_the_flag"), chars_of("capture-the-flag"), chars_of("ctf")],
        ModeKind::PlayerDestruction => vec![chars_of("player_destruction"), chars_of("player-destruction"), chars_of("pd")],
        ModeKind::RobotDestruction => vec![chars_of("robot_destruction"), chars_of("robot-destruction"), chars_of("rd")],
        ModeKind::SpecialDelivery => vec![chars_of("special_delivery"), chars_of("special-delivery"), chars_of("sd")],
        ModeKind::TerritorialControl => vec![chars_of("territorial_control"), chars_of("territorial-control"), chars_of("tc")],
        ModeKind::PassTime => vec![chars_of("passtime"), chars_of("pass_time"), chars_of("pass")],
        ModeKind::VersusSaxtonHale => vec![chars_of("versus_saxton_hale"), chars_of("vsh")],
        ModeKind::ZombieInfection => vec![chars_of("zombie_infection"), chars_of("zi")],
        ModeKind::MannVsMachine => vec![chars_of("mann_vs_machine"), chars_of("mvm")],
        ModeKind::Payload => vec![chars_of("payload"), chars_of("pl")],
        ModeKind::Arena => vec![chars_of("arena")],
        ModeKind::ControlPoint => vec![chars_of("control_point"), chars_of("control-point"), chars_of("cp")],
        ModeKind::Other => Vec::new(),
    };
    assert(views(v@) =~= mode_tags(k));
    v
}

/// The map-name prefixes that mark a mode, in the order they are tried.
fn prefix_order_list() -> (v: Vec<(Vec<char>, ModeKind)>)
    ensures
        v@.len() == prefix_order().len(),
        forall|i: int| 0 <= i < v@.len() ==> (#[trigger] v@[i]).0@ == prefix_order()[i].0 && v@[i].1 == prefix_order()[i].1,
{
    let v = vec![
        (chars_of("plr_"), ModeKind::PayloadRace), (chars_of("pl_"), ModeKind::Payload),
        (chars_of("koth_"), ModeKind::KingOfTheHill), (chars_of("ctf_"), ModeKind::CaptureTheFlag),
        (chars_of("arena_"), ModeKind::Arena), (chars_of("pd_"), ModeKind::PlayerDestruction),
        (chars_of("rd_"), ModeKind::RobotDestruction), (chars_of("sd_"), ModeKind::SpecialDelivery),
        (chars_of("tc_"), ModeKind::TerritorialControl), (chars_of("pass_"), ModeKind::PassTime),
        (chars_of("vsh_"), ModeKind::VersusSaxtonHale), (chars_of("zi_"), ModeKind::ZombieInfection),
        (chars_of("mvm_"), ModeKind::MannVsMachine), (chars_of("cp_"), ModeKind::ControlPoint),
    ];
    v
}

/// Whether one of `tags` is one of `candidates`.
fn any_tag_matches(tags: &Vec<String>, candidates: &Vec<Vec<char>>) -> (r: bool)
    ensures
        r == has_any_tag(string_views(tags@), views(candidates@)),
{
    let ghost ts = string_views(tags@);
    let ghost cs = views(candidates@);
    let mut i: usize = 0;
    while i < candidates.len()
        invariant
            i <= candidates.len(),
            ts == string_views(tags@),
            cs == views(candidates@),
            forall|a: int, b: int| 0 <= a < i && 0 <= b < ts.len() ==> #[trigger] cs[a] != #[trigger] ts[b],
        decreases candidates.len() - i,
    {
        let mut j: usize = 0;
        while j < tags.len()
            invariant
                i < candidates.len(),
                j <= tags.len(),
                ts == string_views(tags@),
                cs == views(candidates@),
                forall|a: int, b: int| 0 <= a < i && 0 <= b < ts.len() ==> #[trigger] cs[a] != #[trigger] ts[b],
                forall|b: int| 0 <= b < j ==> cs[i as int] != #[trigger] ts[b],
            decreases tags.len() - j,
        {
            let tag = chars_of(tags[j].as_str());
            assert(ts[j as int] == tag@);
            if crate::text::same_chars(tag.as_slice(), candidates[i].as_slice()) {
                assert(cs[i as int] == ts[j as int]);
                return true;
            }
            j += 1;
        }
        i += 1;
    }
    false
}

/// The game mode of a map: the first mode its tags mark, else the mode that
/// the prefix of its name marks, else `Other`.
pub fn game_mode(map: &MapDefinition) -> (mode: GameMode)
    ensures
        mode.id@ == mode_id(mode_of(map@.tags, map@.name)),
        mode.label@ == mode_label(mode_of(map@.tags, map@.name)),
{
    let order = tag_order_list();
    let mut k: usize = 0;
    assert(order@.skip(0) == order@);
    while k < order.len()
        invariant
            k <= order.len(),
            order@ == tag_order(),
            mode_by_tags(map@.tags, tag_order()) == mode_by_tags(map@.tags, order@.skip(k as int)),
        decreases order.len() - k,
    {
        let candidates = mode_tag_list(order[k]);
        assert(order@.skip(k as int).drop_first() == order@.skip(k + 1));
        if any_tag_matches(&map.tags, &candidates) {
            return GameMode::of(order[k]);
        }
        k += 1;
    }
    let name = chars_of(map.name.as_str());
    let lower = to_lower(name.as_slice());
    let prefixes = prefix_order_list();
    let mut p: usize = 0;
    assert(prefix_order().skip(0) == prefix_order());
    while p < prefixes.len()
        invariant
            p <= prefixes.len(),
            prefixes@.len() == prefix_order().len(),
            forall|i: int| 0 <= i < prefixes@.len() ==> (#[trigger] prefixes@[i]).0@ == prefix_order()[i].0 && prefixes@[i].1 == prefix_order()[i].1,
            mode_by_tags(map@.tags, tag_order()) == None::<ModeKind>,
            lower@ == lower_all(map@.name),
            mode_by_prefix(lower@, prefix_order()) == mode_by_prefix(lower@, prefix_order().skip(p as int)),
        decreases prefixes.len() - p,
    {
        assert(prefix_order().skip(p as int).drop_first() == prefix_order().skip(p + 1));
        assert(prefixes@[p as int].0@ == prefix_order()[p as int].0);
        if starts_with(lower.as_slice(), prefixes[p].0.as_slice()) {
            return GameMode::of(prefixes[p].1);
        }
        p += 1;
    }
    GameMode::of(ModeKind::Other)
}


/// `numerator / denominator` in hundredths of a percent, rounded half up, as
/// the snapshot reports it: 0 for a zero denominator, the intermediate
/// values held at `u64::MAX` and the result at `u32::MAX`.
pub open spec fn percent_hundredths(numerator: nat, denominator: nat) -> nat {
    if denominator == 0 {
        0
    } else {
        let scaled = if numerator * 10000 > u64::MAX { u64::MAX as nat } else { numerator * 10000 };
        let rounded = if scaled + denominator / 2 > u64::MAX { u64::MAX as nat } else { (scaled + denominator / 2) as nat };
        let h = rounded / denominator;
        if h > u32::MAX { u32::MAX as nat } else { h }
    }
}

/// `numerator / denominator` in hundredths of a percent (see `percent_hundredths`).
pub fn rounded_percent(numerator: u64, denominator: u64) -> (r: u32)
    ensures
        r == percent_hundredths(numerator as nat, denominator as nat),
{
    if denominator == 0 {
        return 0;
    }
    let scaled = match numerator.checked_mul(10_000) {
        Some(v) => v,
        None => u64::MAX,
    };
    let rounded = match scaled.checked_add(denominator / 2) {
        Some(v) => v,
        None => u64::MAX,
    };
    let hundredths = rounded / denominator;
    if hundredths > u32::MAX as u64 {
        u32::MAX
    } else {
        hundredths as u32
    }
}

/// The chrono text of an instant given in milliseconds since the Unix epoch:
/// RFC 3339, in UTC written `Z`, with milliseconds; `None` where chrono
/// cannot represent the instant.
pub uninterp spec fn rfc3339_millis_text(millis: i64) -> Option<Seq<char>>;

/// `DateTime::<Utc>::from_timestamp_millis` followed by
/// `to_rfc3339_opts(SecondsFormat::Millis, true)`. The contract names the
/// text and does not describe the calendar arithmetic.
#[verifier::external_body]
fn format_capture_time(millis: i64) -> (r: Option<String>)
    ensures
        match rfc3339_millis_text(millis) {
            Some(text) => r matches Some(s) && s@ == text,
            None => r is None,
        },
{
    match chrono::DateTime::from_timestamp_millis(millis) {
        Some(t) => Some(t.to_rfc3339_opts(chrono::SecondsFormat::Millis, true)),
        None => None,
    }
}

/// One row of the per-map table.
pub struct MapStat {
    pub map_index: usize,
    pub map_name: String,
    pub display_name: String,
    pub game_mode_id: String,
    pub game_mode: String,
    pub searching: u32,
    /// `searching` against the busiest map, in hundredths of a percent.
    pub relative_hundredths: u32,
    pub queue_eligible: bool,
    pub seasonal: bool,
    pub tags: Vec<String>,
}

/// One row of the per-mode table.
pub struct ModeStat {
    pub game_mode_id: String,
    pub game_mode: String,
    pub map_count: usize,
    pub searching: u64,
    /// `searching` against all selections, in hundredths of a percent.
    pub share_hundredths: u32,
    /// `searching` against the busiest mode, in hundredths of a percent.
    pub relative_hundredths: u32,
}

/// The totals of a snapshot.
pub struct Summary {
    pub total_map_selections: u64,
    pub maps_reporting: usize,
    pub eligible_maps: usize,
    pub busiest_map: Option<String>,
    pub busiest_map_searching: u32,
}

/// One snapshot of the matchmaking statistics.
pub struct Snapshot {
    pub captured_at: String,
    pub summary: Summary,
    pub maps: Vec<MapStat>,
    pub modes: Vec<ModeStat>,
}

pub struct MapStatModel {
    pub map_index: usize,
    pub map_name: Seq<char>,
    pub display_name: Seq<char>,
    pub game_mode_id: Seq<char>,
    pub game_mode: Seq<char>,
    pub searching: u32,
    pub relative_hundredths: u32,
    pub queue_eligible: bool,
    pub seasonal: bool,
    pub tags: Seq<Seq<char>>,
}

pub struct ModeStatModel {
    pub game_mode_id: Seq<char>,
    pub game_mode: Seq<char>,
    pub map_count: nat,
    pub searching: nat,
    pub share_hundredths: u32,
    pub relative_hundredths: u32,
}

pub struct SummaryModel {
    pub total_map_selections: nat,
    pub maps_reporting: nat,
    pub eligible_maps: nat,
    pub busiest_map: Option<Seq<char>>,
    pub busiest_map_searching: u32,
}

pub struct SnapshotModel {
    pub captured_at: Seq<char>,
    pub summary: SummaryModel,
    pub maps: Seq<MapStatModel>,
    pub modes: Seq<ModeStatModel>,
}

impl View for MapStat {
    type V = MapStatModel;

    open spec fn view(&self) -> MapStatModel {
        MapStatModel {
            map_index: self.map_index,
            map_name: self.map_name@,
            display_name: self.display_name@,
            game_mode_id: self.game_mode_id@,
            game_mode: self.game_mode@,
            searching: self.searching,
            relative_hundredths: self.relative_hundredths,
            queue_eligible: self.queue_eligible,
            seasonal: self.seasonal,
            tags: string_views(self.tags@),
        }
    }
}

impl View for ModeStat {
    type V = ModeStatModel;

    open spec fn view(&self) -> ModeStatModel {
        ModeStatModel {
            game_mode_id: self.game_mode_id@,
            game_mode: self.game_mode@,
            map_count: self.map_count as nat,
            searching: self.searching as nat,
            share_hundredths: self.share_hundredths,
            relative_hundredths: self.relative_hundredths,
        }
    }
}

impl View for Summary {
    type V = SummaryModel;

    open spec fn view(&self) -> SummaryModel {
        SummaryModel {
            total_map_selections: self.total_map_selections as nat,
            maps_reporting: self.maps_reporting as nat,
            eligible_maps: self.eligible_maps as nat,
            busiest_map: match self.busiest_map {
                Some(s) => Some(s@),
                None => None,
            },
            busiest_map_searching: self.busiest_map_searching,
        }
    }
}

pub open spec fn map_stat_views(v: Seq<MapStat>) -> Seq<MapStatModel> {
    v.map_values(|m: MapStat| m@)
}

pub open spec fn mode_stat_views(v: Seq<ModeStat>) -> Seq<ModeStatModel> {
    v.map_values(|m: ModeStat| m@)
}

impl View for Snapshot {
    type V = SnapshotModel;

    open spec fn view(&self) -> SnapshotModel {
        SnapshotModel {
            captured_at: self.captured_at@,
            summary: self.summary@,
            maps: map_stat_views(self.maps@),
            modes: mode_stat_views(self.modes@),
        }
    }
}

/// The selections of the map with the given index: 0 when the response has no count for it.
pub open spec fn count_of(counts: Seq<u32>, index: usize) -> u32 {
    if index < counts.len() { counts[index as int] } else { 0 }
}

/// The largest count of any catalogue map.
pub open spec fn largest_count(catalogue: Seq<MapModel>, counts: Seq<u32>) -> u32
    decreases catalogue.len(),
{
    if catalogue.len() == 0 {
        0
    } else {
        let rest = largest_count(catalogue.drop_last(), counts);
        let c = count_of(counts, catalogue.last().index);
        if c > rest { c } else { rest }
    }
}

/// Whether a map is reported: index 0 and `Missing` are placeholders.
pub open spec fn is_reported(m: MapModel) -> bool {
    m.index > 0 && m.name != "Missing"@
}

pub open spec fn has_seasonal_tag(tags: Seq<Seq<char>>) -> bool {
    exists|i: int| 0 <= i < tags.len() && is_seasonal_tag(#[trigger] tags[i])
}

/// The row of a reported map.
pub open spec fn map_stat_of(m: MapModel, counts: Seq<u32>, largest: u32) -> MapStatModel {
    let searching = count_of(counts, m.index);
    let mode = mode_of(m.tags, m.name);
    MapStatModel {
        map_index: m.index,
        map_name: m.name,
        display_name: display_name_of(m.name),
        game_mode_id: mode_id(mode),
        game_mode: mode_label(mode),
        searching: searching,
        relative_hundredths: percent_hundredths(searching as nat, largest as nat) as u32,
        queue_eligible: m.queue_eligible,
        seasonal: has_seasonal_tag(m.tags),
        tags: m.tags,
    }
}

/// The rows of the reported maps, in catalogue order.
pub open spec fn reported_rows(catalogue: Seq<MapModel>, counts: Seq<u32>, largest: u32) -> Seq<MapStatModel>
    decreases catalogue.len(),
{
    if catalogue.len() == 0 {
        Seq::empty()
    } else {
        let rest = reported_rows(catalogue.drop_last(), counts, largest);
        if is_reported(catalogue.last()) { rest.push(map_stat_of(catalogue.last(), counts, largest)) } else { rest }
    }
}

/// The selections of the reported maps, summed.
pub open spec fn reported_total(catalogue: Seq<MapModel>, counts: Seq<u32>) -> nat
    decreases catalogue.len(),
{
    if catalogue.len() == 0 {
        0
    } else {
        let rest = reported_total(catalogue.drop_last(), counts);
        if is_reported(catalogue.last()) { rest + count_of(counts, catalogue.last().index) as nat } else { rest }
    }
}

/// Row `a` comes before row `b`: more selections first, then by display name.
pub open spec fn map_precedes(a: MapStatModel, b: MapStatModel) -> bool {
    b.searching < a.searching || (a.searching == b.searching && key_less(a.display_name, b.display_name))
}

/// Inserts a row after every row that it does not precede.
pub open spec fn insert_map_row(sorted: Seq<MapStatModel>, x: MapStatModel) -> Seq<MapStatModel>
    decreases sorted.len(),
{
    if sorted.len() == 0 || !map_precedes(x, sorted.last()) {
        sorted.push(x)
    } else {
        insert_map_row(sorted.drop_last(), x).push(sorted.last())
    }
}

/// The rows stably sorted: more selections first, then by display name.
pub open spec fn sort_map_rows(rows: Seq<MapStatModel>) -> Seq<MapStatModel>
    decreases rows.len(),
{
    if rows.len() == 0 {
        Seq::empty()
    } else {
        insert_map_row(sort_map_rows(rows.drop_last()), rows.last())
    }
}


/// The selections of the rows, summed.
pub open spec fn rows_total(rows: Seq<MapStatModel>) -> nat
    decreases rows.len(),
{
    if rows.len() == 0 { 0 } else { rows_total(rows.drop_last()) + rows.last().searching as nat }
}

/// A game mode's running totals while the rows are grouped.
pub struct GroupModel {
    pub id: Seq<char>,
    pub label: Seq<char>,
    pub map_count: nat,
    pub searching: nat,
}

/// Adds a row to the group of its mode, kept in order of mode identifier:
/// an existing group counts it, otherwise a new group starts with it.
pub open spec fn add_to_groups(groups: Seq<GroupModel>, row: MapStatModel) -> Seq<GroupModel>
    decreases groups.len(),
{
    let fresh = GroupModel { id: row.game_mode_id, label: row.game_mode, map_count: 1, searching: row.searching as nat };
    if groups.len() == 0 {
        seq![fresh]
    } else if groups[0].id == row.game_mode_id {
        seq![GroupModel {
            id: groups[0].id,
            label: groups[0].label,
            map_count: groups[0].map_count + 1,
            searching: groups[0].searching + row.searching as nat,
        }] + groups.drop_first()
    } else if key_less(row.game_mode_id, groups[0].id) {
        seq![fresh] + groups
    } else {
        seq![groups[0]] + add_to_groups(groups.drop_first(), row)
    }
}

/// The groups of the rows, in order of mode identifier.
pub open spec fn groups_of(rows: Seq<MapStatModel>) -> Seq<GroupModel>
    decreases rows.len(),
{
    if rows.len() == 0 { Seq::empty() } else { add_to_groups(groups_of(rows.drop_last()), rows.last()) }
}

/// The selections of the busiest group.
pub open spec fn largest_group(groups: Seq<GroupModel>) -> nat
    decreases groups.len(),
{
    if groups.len() == 0 {
        0
    } else {
        let rest = largest_group(groups.drop_last());
        if groups.last().searching > rest { groups.last().searching } else { rest }
    }
}

/// The row of a mode.
pub open spec fn mode_row(g: GroupModel, total: nat, largest: nat) -> ModeStatModel {
    ModeStatModel {
        game_mode_id: g.id,
        game_mode: g.label,
        map_count: g.map_count,
        searching: g.searching,
        share_hundredths: percent_hundredths(g.searching, total) as u32,
        relative_hundredths: percent_hundredths(g.searching, largest) as u32,
    }
}

pub open spec fn mode_rows(groups: Seq<GroupModel>, total: nat, largest: nat) -> Seq<ModeStatModel> {
    groups.map_values(|g: GroupModel| mode_row(g, total, largest))
}

/// Mode row `a` comes before mode row `b`: more selections first, then by name.
pub open spec fn mode_precedes(a: ModeStatModel, b: ModeStatModel) -> bool {
    b.searching < a.searching || (a.searching == b.searching && key_less(a.game_mode, b.game_mode))
}

pub open spec fn insert_mode_row(sorted: Seq<ModeStatModel>, x: ModeStatModel) -> Seq<ModeStatModel>
    decreases sorted.len(),
{
    if sorted.len() == 0 || !mode_precedes(x, sorted.last()) {
        sorted.push(x)
    } else {
        insert_mode_row(sorted.drop_last(), x).push(sorted.last())
    }
}

/// The mode rows stably sorted: more selections first, then by name.
pub open spec fn sort_mode_rows(rows: Seq<ModeStatModel>) -> Seq<ModeStatModel>
    decreases rows.len(),
{
    if rows.len() == 0 { Seq::empty() } else { insert_mode_row(sort_mode_rows(rows.drop_last()), rows.last()) }
}

/// The number of rows of maps that can be queued for.
pub open spec fn eligible_count(rows: Seq<MapStatModel>) -> nat
    decreases rows.len(),
{
    if rows.len() == 0 {
        0
    } else {
        eligible_count(rows.drop_last()) + if rows.last().queue_eligible { 1nat } else { 0nat }
    }
}

/// The busiest map: the first row, when it has a selection.
pub open spec fn busiest_row(rows: Seq<MapStatModel>) -> Option<MapStatModel> {
    if rows.len() > 0 && rows[0].searching > 0 { Some(rows[0]) } else { None }
}

/// The snapshot of the catalogue and the counts, captured at the time written `captured_at`.
pub open spec fn snapshot_of(catalogue: Seq<MapModel>, counts: Seq<u32>, captured_at: Seq<char>) -> SnapshotModel {
    let maps = sort_map_rows(reported_rows(catalogue, counts, largest_count(catalogue, counts)));
    let total = reported_total(catalogue, counts);
    let groups = groups_of(maps);
    SnapshotModel {
        captured_at: captured_at,
        summary: SummaryModel {
            total_map_selections: total,
            maps_reporting: maps.len(),
            eligible_maps: eligible_count(maps),
            busiest_map: match busiest_row(maps) {
                Some(row) => Some(row.display_name),
                None => None,
            },
            busiest_map_searching: match busiest_row(maps) {
                Some(row) => row.searching,
                None => 0,
            },
        },
        maps: maps,
        modes: sort_mode_rows(mode_rows(groups, total, largest_group(groups))),
    }
}


/// The selections of the map with the given index.
fn count_for(counts: &[u32], index: usize) -> (c: u32)
    ensures
        c == count_of(counts@, index),
{
    if index < counts.len() { counts[index] } else { 0 }
}

/// The largest count of any catalogue map.
fn largest_catalogue_count(catalogue: &[MapDefinition], counts: &[u32]) -> (r: u32)
    ensures
        r == largest_count(map_models(catalogue@), counts@),
{
    let ghost all = map_models(catalogue@);
    let mut largest: u32 = 0;
    let mut i: usize = 0;
    assert(all.take(0) =~= Seq::<MapModel>::empty());
    while i < catalogue.len()
        invariant
            i <= catalogue.len(),
            all == map_models(catalogue@),
            largest == largest_count(all.take(i as int), counts@),
        decreases catalogue.len() - i,
    {
        assert(all.take(i + 1).drop_last() == all.take(i as int));
        assert(all.take(i + 1).last() == catalogue@[i as int]@);
        let c = count_for(counts, catalogue[i].index);
        if c > largest {
            largest = c;
        }
        i += 1;
    }
    assert(all.take(catalogue.len() as int) == all);
    largest
}

/// A copy of a list of strings.
fn copy_strings(v: &Vec<String>) -> (r: Vec<String>)
    ensures
        string_views(r@) == string_views(v@),
{
    let mut r: Vec<String> = Vec::new();
    let mut i: usize = 0;
    while i < v.len()
        invariant
            i <= v.len(),
            string_views(r@) == string_views(v@).take(i as int),
        decreases v.len() - i,
    {
        let ghost before = string_views(r@);
        r.push(v[i].clone());
        assert(string_views(r@) =~= before.push(v@[i as int]@));
        assert(string_views(v@).take(i + 1) =~= string_views(v@).take(i as int).push(v@[i as int]@));
        i += 1;
    }
    assert(string_views(v@).take(v.len() as int) == string_views(v@));
    r
}

/// The row of a reported map.
fn make_row(m: &MapDefinition, counts: &[u32], largest: u32) -> (row: MapStat)
    ensures
        row@ == map_stat_of(m@, counts@, largest),
{
    let searching = count_for(counts, m.index);
    let mode = game_mode(m);
    MapStat {
        map_index: m.index,
        map_name: m.name.clone(),
        display_name: display_name(m.name.as_str()),
        game_mode_id: mode.id.to_owned(),
        game_mode: mode.label.to_owned(),
        searching,
        relative_hundredths: rounded_percent(searching as u64, largest as u64),
        queue_eligible: m.queue_eligible,
        seasonal: is_seasonal(m),
        tags: copy_strings(&m.tags),
    }
}

/// Whether row `a` comes before row `b`.
fn row_precedes(a: &MapStat, b: &MapStat) -> (r: bool)
    ensures
        r == map_precedes(a@, b@),
{
    if b.searching < a.searching {
        return true;
    }
    if a.searching != b.searching {
        return false;
    }
    let x = chars_of(a.display_name.as_str());
    let y = chars_of(b.display_name.as_str());
    key_before(x.as_slice(), y.as_slice())
}

proof fn lemma_insert_map_row_at(sorted: Seq<MapStatModel>, x: MapStatModel, j: int)
    requires
        0 <= j <= sorted.len(),
        forall|i: int| j <= i < sorted.len() ==> map_precedes(x, #[trigger] sorted[i]),
        j > 0 ==> !map_precedes(x, sorted[j - 1]),
    ensures
        insert_map_row(sorted, x) == sorted.take(j) + seq![x] + sorted.skip(j),
    decreases sorted.len() - j,
{
    if j < sorted.len() {
        let shorter = sorted.drop_last();
        lemma_insert_map_row_at(shorter, x, j);
        assert(sorted.take(j) + seq![x] + sorted.skip(j) == (shorter.take(j) + seq![x] + shorter.skip(j)).push(sorted.last()));
    } else {
        assert(sorted.take(j) == sorted);
        assert(sorted.skip(j) == Seq::<MapStatModel>::empty());
    }
}

/// Inserts a row after every row that it does not precede.
fn insert_row(rows: &mut Vec<MapStat>, x: MapStat)
    ensures
        map_stat_views(final(rows)@) == insert_map_row(map_stat_views(old(rows)@), x@),
{
    let ghost m = map_stat_views(rows@);
    let mut j: usize = rows.len();
    while j > 0 && row_precedes(&x, &rows[j - 1])
        invariant
            j <= rows.len(),
            m == map_stat_views(rows@),
            rows@ == old(rows)@,
            forall|i: int| j <= i < rows.len() ==> map_precedes(x@, #[trigger] m[i]),
        decreases j,
    {
        j -= 1;
    }
    proof {
        lemma_insert_map_row_at(m, x@, j as int);
    }
    let ghost xm = x@;
    rows.insert(j, x);
    assert(map_stat_views(rows@) =~= m.take(j as int) + seq![xm] + m.skip(j as int));
}

proof fn lemma_reported_total_prefix(catalogue: Seq<MapModel>, counts: Seq<u32>, i: int)
    requires
        0 <= i <= catalogue.len(),
    ensures
        reported_total(catalogue.take(i), counts) <= reported_total(catalogue, counts),
    decreases catalogue.len() - i,
{
    if i < catalogue.len() {
        lemma_reported_total_prefix(catalogue, counts, i + 1);
        assert(catalogue.take(i + 1).drop_last() == catalogue.take(i));
    } else {
        assert(catalogue.take(i) == catalogue);
    }
}

/// The rows of the reported maps, sorted, and the sum of their selections.
fn map_rows(catalogue: &[MapDefinition], counts: &[u32], largest: u32) -> (r: (Vec<MapStat>, u64))
    requires
        reported_total(map_models(catalogue@), counts@) <= u64::MAX,
    ensures
        map_stat_views(r.0@) == sort_map_rows(reported_rows(map_models(catalogue@), counts@, largest)),
        r.1 == reported_total(map_models(catalogue@), counts@),
{
    let ghost all = map_models(catalogue@);
    let mut rows: Vec<MapStat> = Vec::new();
    let mut total: u64 = 0;
    let mut i: usize = 0;
    assert(all.take(0) =~= Seq::<MapModel>::empty());
    assert(map_stat_views(rows@) =~= Seq::<MapStatModel>::empty());
    while i < catalogue.len()
        invariant
            i <= catalogue.len(),
            all == map_models(catalogue@),
            reported_total(all, counts@) <= u64::MAX,
            map_stat_views(rows@) == sort_map_rows(reported_rows(all.take(i as int), counts@, largest)),
            total == reported_total(all.take(i as int), counts@),
        decreases catalogue.len() - i,
    {
        let ghost prefix = all.take(i + 1);
        assert(prefix.drop_last() == all.take(i as int));
        assert(prefix.last() == catalogue@[i as int]@);
        proof {
            lemma_reported_total_prefix(all, counts@, i + 1);
        }
        let m = &catalogue[i];
        let missing = chars_of("Missing");
        let name = chars_of(m.name.as_str());
        if m.index > 0 && !crate::text::same_chars(name.as_slice(), missing.as_slice()) {
            let row = make_row(m, counts, largest);
            total = total + row.searching as u64;
            let ghost xm = row@;
            insert_row(&mut rows, row);
            assert(reported_rows(prefix, counts@, largest) == reported_rows(all.take(i as int), counts@, largest).push(xm));
            assert(reported_rows(prefix, counts@, largest).drop_last() == reported_rows(all.take(i as int), counts@, largest));
        }
        i += 1;
    }
    assert(all.take(catalogue.len() as int) == all);
    (rows, total)
}


/// The running totals held by a mode row while the rows are grouped.
pub open spec fn group_view(m: ModeStat) -> GroupModel {
    GroupModel { id: m.game_mode_id@, label: m.game_mode@, map_count: m.map_count as nat, searching: m.searching as nat }
}

pub open spec fn group_views(v: Seq<ModeStat>) -> Seq<GroupModel> {
    v.map_values(|m: ModeStat| group_view(m))
}

/// The selections of the groups, summed.
pub open spec fn groups_total(groups: Seq<GroupModel>) -> nat
    decreases groups.len(),
{
    if groups.len() == 0 { 0 } else { groups[0].searching + groups_total(groups.drop_first()) }
}

/// The maps of the groups, counted.
pub open spec fn groups_count(groups: Seq<GroupModel>) -> nat
    decreases groups.len(),
{
    if groups.len() == 0 { 0 } else { groups[0].map_count + groups_count(groups.drop_first()) }
}

pub(crate) proof fn lemma_add_to_groups_totals(groups: Seq<GroupModel>, row: MapStatModel)
    ensures
        groups_total(add_to_groups(groups, row)) == groups_total(groups) + row.searching,
        groups_count(add_to_groups(groups, row)) == groups_count(groups) + 1,
    decreases groups.len(),
{
    let r = add_to_groups(groups, row);
    if groups.len() == 0 {
        assert(r.drop_first() =~= Seq::<GroupModel>::empty());
        assert(groups_total(r.drop_first()) == 0);
        assert(groups_count(r.drop_first()) == 0);
    } else {
        if groups[0].id == row.game_mode_id {
            let r = add_to_groups(groups, row);
            assert(r.drop_first() == groups.drop_first());
        } else if key_less(row.game_mode_id, groups[0].id) {
            let r = add_to_groups(groups, row);
            assert(r.drop_first() == groups);
        } else {
            lemma_add_to_groups_totals(groups.drop_first(), row);
            let r = add_to_groups(groups, row);
            assert(r.drop_first() == add_to_groups(groups.drop_first(), row));
        }
    }
}

pub(crate) proof fn lemma_group_within_totals(groups: Seq<GroupModel>, i: int)
    requires
        0 <= i < groups.len(),
    ensures
        groups[i].searching <= groups_total(groups),
        groups[i].map_count <= groups_count(groups),
    decreases groups.len(),
{
    if i > 0 {
        lemma_group_within_totals(groups.drop_first(), i - 1);
    }
}

proof fn lemma_rows_total_prefix(rows: Seq<MapStatModel>, i: int)
    requires
        0 <= i <= rows.len(),
    ensures
        rows_total(rows.take(i)) <= rows_total(rows),
    decreases rows.len() - i,
{
    if i < rows.len() {
        lemma_rows_total_prefix(rows, i + 1);
        assert(rows.take(i + 1).drop_last() == rows.take(i));
    } else {
        assert(rows.take(i) == rows);
    }
}

proof fn lemma_add_to_groups_at(groups: Seq<GroupModel>, row: MapStatModel, j: int)
    requires
        0 <= j <= groups.len(),
        forall|i: int| 0 <= i < j ==> (#[trigger] groups[i]).id != row.game_mode_id && !key_less(row.game_mode_id, groups[i].id),
        j < groups.len() ==> groups[j].id == row.game_mode_id || key_less(row.game_mode_id, groups[j].id),
    ensures
        add_to_groups(groups, row) == if j < groups.len() && groups[j].id == row.game_mode_id {
            groups.take(j) + seq![GroupModel {
                id: groups[j].id,
                label: groups[j].label,
                map_count: groups[j].map_count + 1,
                searching: groups[j].searching + row.searching as nat,
            }] + groups.skip(j + 1)
        } else {
            groups.take(j) + seq![GroupModel { id: row.game_mode_id, label: row.game_mode, map_count: 1, searching: row.searching as nat }] + groups.skip(j)
        },
    decreases j,
{
    if j > 0 {
        let rest = groups.drop_first();
        assert forall|i: int| 0 <= i < j - 1 implies (#[trigger] rest[i]).id != row.game_mode_id && !key_less(row.game_mode_id, rest[i].id) by {
            assert(rest[i] == groups[i + 1]);
        }
        lemma_add_to_groups_at(rest, row, j - 1);
        assert(groups[0].id != row.game_mode_id && !key_less(row.game_mode_id, groups[0].id));
        if j < groups.len() && groups[j].id == row.game_mode_id {
            let g = GroupModel {
                id: groups[j].id,
                label: groups[j].label,
                map_count: groups[j].map_count + 1,
                searching: groups[j].searching + row.searching as nat,
            };
            assert(groups.take(j) + seq![g] + groups.skip(j + 1) == seq![groups[0]] + (rest.take(j - 1) + seq![g] + rest.skip(j)));
        } else {
            let g = GroupModel { id: row.game_mode_id, label: row.game_mode, map_count: 1, searching: row.searching as nat };
            assert(groups.take(j) + seq![g] + groups.skip(j) == seq![groups[0]] + (rest.take(j - 1) + seq![g] + rest.skip(j - 1)));
        }
    } else {
        if groups.len() > 0 && groups[0].id == row.game_mode_id {
            assert(groups.skip(1) == groups.drop_first());
        }
        assert(groups.skip(0) == groups);
    }
}

/// Adds a row to the group of its mode.
fn add_row_to_groups(groups: &mut Vec<ModeStat>, row: &MapStat)
    requires
        groups_total(group_views(old(groups)@)) + row.searching <= u64::MAX,
        groups_count(group_views(old(groups)@)) + 1 <= usize::MAX,
    ensures
        group_views(final(groups)@) == add_to_groups(group_views(old(groups)@), row@),
{
    let ghost g = group_views(groups@);
    let id = chars_of(row.game_mode_id.as_str());
    let mut j: usize = 0;
    let mut equal = false;
    while j < groups.len()
        invariant_except_break
            !equal,
        invariant
            j <= groups.len(),
            g == group_views(groups@),
            groups@ == old(groups)@,
            id@ == row@.game_mode_id,
            forall|i: int| 0 <= i < j ==> (#[trigger] g[i]).id != row@.game_mode_id && !key_less(row@.game_mode_id, g[i].id),
        ensures
            j <= groups.len(),
            forall|i: int| 0 <= i < j ==> (#[trigger] g[i]).id != row@.game_mode_id && !key_less(row@.game_mode_id, g[i].id),
            j < groups.len() ==> g[j as int].id == row@.game_mode_id || key_less(row@.game_mode_id, g[j as int].id),
            equal == (j < groups.len() && g[j as int].id == row@.game_mode_id),
        decreases groups.len() - j,
    {
        let other = chars_of(groups[j].game_mode_id.as_str());
        assert(g[j as int].id == other@);
        if crate::text::same_chars(other.as_slice(), id.as_slice()) {
            equal = true;
            break;
        }
        if key_before(id.as_slice(), other.as_slice()) {
            break;
        }
        j += 1;
    }
    proof {
        lemma_add_to_groups_at(g, row@, j as int);
    }
    if equal {
        let old_group = groups.remove(j);
        proof {
            lemma_group_within_totals(g, j as int);
        }
        let updated = ModeStat {
            game_mode_id: old_group.game_mode_id,
            game_mode: old_group.game_mode,
            map_count: old_group.map_count + 1,
            searching: old_group.searching + row.searching as u64,
            share_hundredths: 0,
            relative_hundredths: 0,
        };
        let ghost um = group_view(updated);
        groups.insert(j, updated);
        assert(group_views(groups@) =~= g.take(j as int) + seq![um] + g.skip(j + 1));
    } else {
        let fresh = ModeStat {
            game_mode_id: row.game_mode_id.clone(),
            game_mode: row.game_mode.clone(),
            map_count: 1,
            searching: row.searching as u64,
            share_hundredths: 0,
            relative_hundredths: 0,
        };
        let ghost fm = group_view(fresh);
        groups.insert(j, fresh);
        assert(group_views(groups@) =~= g.take(j as int) + seq![fm] + g.skip(j as int));
    }
}

/// The groups of the rows, in order of mode identifier.
fn group_rows(rows: &Vec<MapStat>) -> (groups: Vec<ModeStat>)
    requires
        rows_total(map_stat_views(rows@)) <= u64::MAX,
    ensures
        group_views(groups@) == groups_of(map_stat_views(rows@)),
{
    let ghost all = map_stat_views(rows@);
    let mut groups: Vec<ModeStat> = Vec::new();
    let mut i: usize = 0;
    assert(all.take(0) =~= Seq::<MapStatModel>::empty());
    assert(group_views(groups@) =~= Seq::<GroupModel>::empty());
    while i < rows.len()
        invariant
            i <= rows.len(),
            all == map_stat_views(rows@),
            rows_total(all) <= u64::MAX,
            group_views(groups@) == groups_of(all.take(i as int)),
            groups_total(group_views(groups@)) == rows_total(all.take(i as int)),
            groups_count(group_views(groups@)) == i,
        decreases rows.len() - i,
    {
        let ghost prefix = all.take(i + 1);
        assert(prefix.drop_last() == all.take(i as int));
        assert(prefix.last() == rows@[i as int]@);
        proof {
            lemma_rows_total_prefix(all, i + 1);
            lemma_add_to_groups_totals(group_views(groups@), rows@[i as int]@);
        }
        add_row_to_groups(&mut groups, &rows[i]);
        i += 1;
    }
    assert(all.take(rows.len() as int) == all);
    groups
}


proof fn lemma_rows_total_insert(sorted: Seq<MapStatModel>, x: MapStatModel)
    ensures
        rows_total(insert_map_row(sorted, x)) == rows_total(sorted) + x.searching,
    decreases sorted.len(),
{
    if sorted.len() > 0 && map_precedes(x, sorted.last()) {
        lemma_rows_total_insert(sorted.drop_last(), x);
        let r = insert_map_row(sorted, x);
        assert(r.drop_last() == insert_map_row(sorted.drop_last(), x));
    } else {
        assert(sorted.push(x).drop_last() == sorted);
    }
}

pub(crate) proof fn lemma_rows_total_sorted(rows: Seq<MapStatModel>)
    ensures
        rows_total(sort_map_rows(rows)) == rows_total(rows),
    decreases rows.len(),
{
    if rows.len() > 0 {
        lemma_rows_total_sorted(rows.drop_last());
        lemma_rows_total_insert(sort_map_rows(rows.drop_last()), rows.last());
    }
}

pub(crate) proof fn lemma_rows_total_reported(catalogue: Seq<MapModel>, counts: Seq<u32>, largest: u32)
    ensures
        rows_total(reported_rows(catalogue, counts, largest)) == reported_total(catalogue, counts),
    decreases catalogue.len(),
{
    if catalogue.len() > 0 {
        lemma_rows_total_reported(catalogue.drop_last(), counts, largest);
        let rest = reported_rows(catalogue.drop_last(), counts, largest);
        if is_reported(catalogue.last()) {
            assert(rest.push(map_stat_of(catalogue.last(), counts, largest)).drop_last() == rest);
        }
    }
}

/// The selections of the busiest group.
fn largest_group_searching(groups: &Vec<ModeStat>) -> (r: u64)
    ensures
        r == largest_group(group_views(groups@)),
{
    let ghost all = group_views(groups@);
    let mut largest: u64 = 0;
    let mut i: usize = 0;
    assert(all.take(0) =~= Seq::<GroupModel>::empty());
    while i < groups.len()
        invariant
            i <= groups.len(),
            all == group_views(groups@),
            largest == largest_group(all.take(i as int)),
        decreases groups.len() - i,
    {
        assert(all.take(i + 1).drop_last() == all.take(i as int));
        assert(all.take(i + 1).last() == group_view(groups@[i as int]));
        if groups[i].searching > largest {
            largest = groups[i].searching;
        }
        i += 1;
    }
    assert(all.take(groups.len() as int) == all);
    largest
}

/// Whether mode row `a` comes before mode row `b`.
fn mode_row_precedes(a: &ModeStat, b: &ModeStat) -> (r: bool)
    ensures
        r == mode_precedes(a@, b@),
{
    if b.searching < a.searching {
        return true;
    }
    if a.searching != b.searching {
        return false;
    }
    let x = chars_of(a.game_mode.as_str());
    let y = chars_of(b.game_mode.as_str());
    key_before(x.as_slice(), y.as_slice())
}

proof fn lemma_insert_mode_row_at(sorted: Seq<ModeStatModel>, x: ModeStatModel, j: int)
    requires
        0 <= j <= sorted.len(),
        forall|i: int| j <= i < sorted.len() ==> mode_precedes(x, #[trigger] sorted[i]),
        j > 0 ==> !mode_precedes(x, sorted[j - 1]),
    ensures
        insert_mode_row(sorted, x) == sorted.take(j) + seq![x] + sorted.skip(j),
    decreases sorted.len() - j,
{
    if j < sorted.len() {
        let shorter = sorted.drop_last();
        lemma_insert_mode_row_at(shorter, x, j);
        assert(sorted.take(j) + seq![x] + sorted.skip(j) == (shorter.take(j) + seq![x] + shorter.skip(j)).push(sorted.last()));
    } else {
        assert(sorted.take(j) == sorted);
        assert(sorted.skip(j) == Seq::<ModeStatModel>::empty());
    }
}

/// Inserts a mode row after every mode row that it does not precede.
fn insert_mode(rows: &mut Vec<ModeStat>, x: ModeStat)
    ensures
        mode_stat_views(final(rows)@) == insert_mode_row(mode_stat_views(old(rows)@), x@),
{
    let ghost m = mode_stat_views(rows@);
    let mut j: usize = rows.len();
    while j > 0 && mode_row_precedes(&x, &rows[j - 1])
        invariant
            j <= rows.len(),
            m == mode_stat_views(rows@),
            rows@ == old(rows)@,
            forall|i: int| j <= i < rows.len() ==> mode_precedes(x@, #[trigger] m[i]),
        decreases j,
    {
        j -= 1;
    }
    proof {
        lemma_insert_mode_row_at(m, x@, j as int);
    }
    let ghost xm = x@;
    rows.insert(j, x);
    assert(mode_stat_views(rows@) =~= m.take(j as int) + seq![xm] + m.skip(j as int));
}

/// The mode rows of the groups, with their shares, sorted.
fn mode_table(groups: Vec<ModeStat>, total: u64, largest: u64) -> (modes: Vec<ModeStat>)
    ensures
        mode_stat_views(modes@) == sort_mode_rows(mode_rows(group_views(groups@), total as nat, largest as nat)),
{
    let ghost all = mode_rows(group_views(groups@), total as nat, largest as nat);
    let mut modes: Vec<ModeStat> = Vec::new();
    let mut i: usize = 0;
    assert(all.take(0) =~= Seq::<ModeStatModel>::empty());
    assert(mode_stat_views(modes@) =~= Seq::<ModeStatModel>::empty());
    while i < groups.len()
        invariant
            i <= groups.len(),
            all == mode_rows(group_views(groups@), total as nat, largest as nat),
            mode_stat_views(modes@) == sort_mode_rows(all.take(i as int)),
        decreases groups.len() - i,
    {
        let g = &groups[i];
        let row = ModeStat {
            game_mode_id: g.game_mode_id.clone(),
            game_mode: g.game_mode.clone(),
            map_count: g.map_count,
            searching: g.searching,
            share_hundredths: rounded_percent(g.searching, total),
            relative_hundredths: rounded_percent(g.searching, largest),
        };
        assert(row@ == all[i as int]);
        assert(all.take(i + 1).drop_last() == all.take(i as int));
        assert(all.take(i + 1).last() == all[i as int]);
        insert_mode(&mut modes, row);
        i += 1;
    }
    assert(all.take(groups.len() as int) == all);
    modes
}

/// The number of rows of maps that can be queued for.
fn count_eligible(rows: &Vec<MapStat>) -> (n: usize)
    ensures
        n == eligible_count(map_stat_views(rows@)),
{
    let ghost all = map_stat_views(rows@);
    let mut n: usize = 0;
    let mut i: usize = 0;
    assert(all.take(0) =~= Seq::<MapStatModel>::empty());
    while i < rows.len()
        invariant
            i <= rows.len(),
            all == map_stat_views(rows@),
            n == eligible_count(all.take(i as int)),
            n <= i,
        decreases rows.len() - i,
    {
        assert(all.take(i + 1).drop_last() == all.take(i as int));
        assert(all.take(i + 1).last() == rows@[i as int]@);
        if rows[i].queue_eligible {
            n += 1;
        }
        i += 1;
    }
    assert(all.take(rows.len() as int) == all);
    n
}

/// The snapshot of the catalogue and the Game Coordinator's counts (indexed
/// by map index), stamped with the capture time `captured_at`: the reported
/// maps, busiest first; the modes, busiest first; and their summary.
pub fn snapshot_from(catalogue: &[MapDefinition], counts: &[u32], captured_at: String) -> (s: Snapshot)
    requires
        reported_total(map_models(catalogue@), counts@) <= u64::MAX,
    ensures
        s@ == snapshot_of(map_models(catalogue@), counts@, captured_at@),
{
    let ghost cat = map_models(catalogue@);
    let largest = largest_catalogue_count(catalogue, counts);
    let (maps, total) = map_rows(catalogue, counts, largest);
    proof {
        lemma_rows_total_reported(cat, counts@, largest);
        lemma_rows_total_sorted(reported_rows(cat, counts@, largest));
    }
    let groups = group_rows(&maps);
    let largest_mode = largest_group_searching(&groups);
    let modes = mode_table(groups, total, largest_mode);
    let eligible_maps = count_eligible(&maps);
    let maps_reporting = maps.len();
    let (busiest_map, busiest_map_searching) = if maps.len() > 0 && maps[0].searching > 0 {
        (Some(maps[0].display_name.clone()), maps[0].searching)
    } else {
        (None, 0)
    };
    let summary = Summary {
        total_map_selections: total,
        maps_reporting,
        eligible_maps,
        busiest_map,
        busiest_map_searching,
    };
    let snapshot = Snapshot { captured_at, summary, maps, modes };
    assert(snapshot@.summary == snapshot_of(cat, counts@, snapshot.captured_at@).summary);
    snapshot
}

/// The snapshot of the catalogue and the Game Coordinator's counts, captured
/// at the given instant (milliseconds since the Unix epoch), which chrono
/// writes in RFC 3339 with milliseconds: as `snapshot_from` with that text.
/// `None` when chrono cannot represent the instant.
pub fn build_snapshot(catalogue: &[MapDefinition], counts: &[u32], captured_at_millis: i64) -> (r: Option<Snapshot>)
    requires
        reported_total(map_models(catalogue@), counts@) <= u64::MAX,
    ensures
        match rfc3339_millis_text(captured_at_millis) {
            Some(text) => r matches Some(s) && s@ == snapshot_of(map_models(catalogue@), counts@, text),
            None => r is None,
        },
{
    match format_capture_time(captured_at_millis) {
        Some(captured_at) => Some(snapshot_from(catalogue, counts, captured_at)),
        None => None,
    }
}

} // verus!
