//! What names and tags say about a map: which mode prefixes a display name
//! drops, and which game mode each matchmaking tag and each name prefix marks.

use vstd::prelude::*;
use crate::export::{
    first_prefix, has_any_tag, has_prefix, mode_by_prefix, mode_by_tags, mode_id, mode_label,
    mode_of, mode_tags, name_prefixes, prefix_order, strip_mode_prefix, tag_order, ModeKind,
};
use crate::text::lower_all;

verus! {

/// `a` is a prefix of `b`.
pub open spec fn is_prefix_of(a: Seq<char>, b: Seq<char>) -> bool {
    a.len() <= b.len() && b.take(a.len() as int) == a
}

proof fn lemma_lower_prefix(p: Seq<char>, w: Seq<char>)
    requires
        lower_all(p) == p,
    ensures
        has_prefix(lower_all(p + w), p),
        forall|q: Seq<char>| !is_prefix_of(q, p) && !is_prefix_of(p, q) ==> !#[trigger] has_prefix(lower_all(p + w), q),
{
    let s = lower_all(p + w);
    assert(s.take(p.len() as int) =~= lower_all(p));
    assert forall|q: Seq<char>| !is_prefix_of(q, p) && !is_prefix_of(p, q) implies !#[trigger] has_prefix(s, q) by {
        if has_prefix(s, q) {
            if q.len() <= p.len() {
                assert(p.take(q.len() as int) =~= s.take(q.len() as int));
            } else {
                assert(q.take(p.len() as int) =~= s.take(p.len() as int));
            }
        }
    }
}

proof fn lemma_differ_at(a: Seq<char>, b: Seq<char>, k: int)
    requires
        0 <= k < a.len(),
        k < b.len(),
        a[k] != b[k],
    ensures
        !is_prefix_of(a, b),
        !is_prefix_of(b, a),
{
    if is_prefix_of(a, b) {
        assert(b.take(a.len() as int)[k] == b[k]);
    }
    if is_prefix_of(b, a) {
        assert(a.take(b.len() as int)[k] == a[k]);
    }
}

/// Two entries of at least three characters that differ in one of their
/// first three characters: neither is a prefix of the other.
pub open spec fn differ_early(a: Seq<char>, b: Seq<char>) -> bool {
    a.len() >= 3 && b.len() >= 3 && (a[0] != b[0] || a[1] != b[1] || a[2] != b[2])
}

proof fn lemma_match_at(table: Seq<Seq<char>>, p: Seq<char>, idx: int)
    requires
        0 <= idx < table.len(),
        table[idx] == p,
        lower_all(p) == p,
        forall|j: int| 0 <= j < idx ==> differ_early(#[trigger] table[j], p),
    ensures
        first_match_at(table, p, idx),
{
    assert forall|j: int| 0 <= j < idx implies !is_prefix_of(#[trigger] table[j], p) && !is_prefix_of(p, table[j]) by {
        let a = table[j];
        if a[0] != p[0] {
            lemma_differ_at(a, p, 0);
        } else if a[1] != p[1] {
            lemma_differ_at(a, p, 1);
        } else {
            lemma_differ_at(a, p, 2);
        }
    }
}

proof fn lemma_first_prefix_at(s: Seq<char>, table: Seq<Seq<char>>, idx: int)
    requires
        0 <= idx < table.len(),
        has_prefix(s, table[idx]),
        forall|j: int| 0 <= j < idx ==> !has_prefix(s, #[trigger] table[j]),
    ensures
        first_prefix(s, table) == Some(table[idx]),
    decreases idx,
{
    if idx > 0 {
        assert(!has_prefix(s, table[0]));
        lemma_first_prefix_at(s, table.drop_first(), idx - 1);
    }
}

/// `p` stands at `idx` of `table`, is in small letters, and no entry before
/// it is a prefix of it or has it as a prefix.
pub open spec fn first_match_at(table: Seq<Seq<char>>, p: Seq<char>, idx: int) -> bool {
    &&& 0 <= idx < table.len()
    &&& table[idx] == p
    &&& lower_all(p) == p
    &&& forall|j: int| 0 <= j < idx ==> !is_prefix_of(#[trigger] table[j], p) && !is_prefix_of(p, table[j])
}

proof fn lemma_strip_at(p: Seq<char>, w: Seq<char>, idx: int)
    requires
        first_match_at(name_prefixes(), p, idx),
    ensures
        strip_mode_prefix(p + w) == w,
{
    lemma_lower_prefix(p, w);
    let table = name_prefixes();
    assert forall|j: int| 0 <= j < idx implies !has_prefix(lower_all(p + w), #[trigger] table[j]) by {
        assert(!is_prefix_of(table[j], p) && !is_prefix_of(p, table[j]));
    }
    lemma_first_prefix_at(lower_all(p + w), table, idx);
    assert((p + w).skip(p.len() as int) =~= w);
}

/// A display name drops every mode prefix of the map-name table: a name made
/// of one of those prefixes and any rest shows the rest alone.
pub proof fn lemma_display_drops_mode_prefixes(w: Seq<char>)
    ensures
        strip_mode_prefix("arena_"@ + w) == w,
        strip_mode_prefix("koth_"@ + w) == w,
        strip_mode_prefix("pass_"@ + w) == w,
        strip_mode_prefix("ctf_"@ + w) == w,
        strip_mode_prefix("plr_"@ + w) == w,
        strip_mode_prefix("mvm_"@ + w) == w,
        strip_mode_prefix("vsh_"@ + w) == w,
        strip_mode_prefix("cp_"@ + w) == w,
        strip_mode_prefix("pd_"@ + w) == w,
        strip_mode_prefix("pl_"@ + w) == w,
        strip_mode_prefix("rd_"@ + w) == w,
        strip_mode_prefix("sd_"@ + w) == w,
        strip_mode_prefix("tc_"@ + w) == w,
        strip_mode_prefix("zi_"@ + w) == w,
{
    reveal_strlit("arena_");
    reveal_strlit("koth_");
    reveal_strlit("pass_");
    reveal_strlit("ctf_");
    reveal_strlit("plr_");
    reveal_strlit("mvm_");
    reveal_strlit("vsh_");
    reveal_strlit("cp_");
    reveal_strlit("pd_");
    reveal_strlit("pl_");
    reveal_strlit("rd_");
    reveal_strlit("sd_");
    reveal_strlit("tc_");
    reveal_strlit("zi_");
    let t = name_prefixes();
    assert(lower_all("arena_"@) =~= "arena_"@);
    assert(lower_all("koth_"@) =~= "koth_"@);
    assert(lower_all("pass_"@) =~= "pass_"@);
    assert(lower_all("ctf_"@) =~= "ctf_"@);
    assert(lower_all("plr_"@) =~= "plr_"@);
    assert(lower_all("mvm_"@) =~= "mvm_"@);
    assert(lower_all("vsh_"@) =~= "vsh_"@);
    assert(lower_all("cp_"@) =~= "cp_"@);
    assert(lower_all("pd_"@) =~= "pd_"@);
    assert(lower_all("pl_"@) =~= "pl_"@);
    assert(lower_all("rd_"@) =~= "rd_"@);
    assert(lower_all("sd_"@) =~= "sd_"@);
    assert(lower_all("tc_"@) =~= "tc_"@);
    assert(lower_all("zi_"@) =~= "zi_"@);
    lemma_match_at(t, "arena_"@, 0);
    lemma_strip_at("arena_"@, w, 0);
    lemma_match_at(t, "koth_"@, 1);
    lemma_strip_at("koth_"@, w, 1);
    lemma_match_at(t, "pass_"@, 2);
    lemma_strip_at("pass_"@, w, 2);
    lemma_match_at(t, "ctf_"@, 3);
    lemma_strip_at("ctf_"@, w, 3);
    lemma_match_at(t, "plr_"@, 4);
    lemma_strip_at("plr_"@, w, 4);
    lemma_match_at(t, "mvm_"@, 5);
    lemma_strip_at("mvm_"@, w, 5);
    lemma_match_at(t, "vsh_"@, 6);
    lemma_strip_at("vsh_"@, w, 6);
    lemma_match_at(t, "cp_"@, 7);
    lemma_strip_at("cp_"@, w, 7);
    lemma_match_at(t, "pd_"@, 8);
    lemma_strip_at("pd_"@, w, 8);
    lemma_match_at(t, "pl_"@, 9);
    lemma_strip_at("pl_"@, w, 9);
    lemma_match_at(t, "rd_"@, 10);
    lemma_strip_at("rd_"@, w, 10);
    lemma_match_at(t, "sd_"@, 11);
    lemma_strip_at("sd_"@, w, 11);
    lemma_match_at(t, "tc_"@, 12);
    lemma_strip_at("tc_"@, w, 12);
    lemma_match_at(t, "zi_"@, 13);
    lemma_strip_at("zi_"@, w, 13);
}

/// The map's mode, with its identifier and name as given, when `tag` is its
/// only tag.
pub open spec fn tag_marks(tag: Seq<char>, name: Seq<char>, id: Seq<char>, label: Seq<char>) -> bool {
    mode_id(mode_of(seq![tag], name)) == id && mode_label(mode_of(seq![tag], name)) == label
}

/// The mode, with its identifier and name as given, of a map without tags
/// whose name is `prefix` followed by `rest`.
pub open spec fn prefix_marks(prefix: Seq<char>, rest: Seq<char>, id: Seq<char>, label: Seq<char>) -> bool {
    mode_id(mode_of(Seq::empty(), prefix + rest)) == id && mode_label(mode_of(Seq::empty(), prefix + rest)) == label
}

proof fn lemma_text_ne(a: Seq<char>, b: Seq<char>, k: int)
    requires
        0 <= k < a.len(),
        k < b.len(),
        a[k] != b[k],
    ensures
        a != b,
{
}

proof fn lemma_len_ne(a: Seq<char>, b: Seq<char>)
    requires
        a.len() != b.len(),
    ensures
        a != b,
{
}

proof fn lemma_single_tag(t: Seq<char>, candidates: Seq<Seq<char>>)
    ensures
        has_any_tag(seq![t], candidates) <==> candidates.contains(t),
{
    if candidates.contains(t) {
        let i = choose|i: int| 0 <= i < candidates.len() && candidates[i] == t;
        assert(seq![t][0] == t);
        assert(candidates[i] == seq![t][0]);
    }
}

proof fn lemma_tag_at(t: Seq<char>, order: Seq<ModeKind>, idx: int)
    requires
        0 <= idx < order.len(),
        mode_tags(order[idx]).contains(t),
        forall|j: int| 0 <= j < idx ==> !mode_tags(#[trigger] order[j]).contains(t),
    ensures
        mode_by_tags(seq![t], order) == Some(order[idx]),
    decreases idx,
{
    lemma_single_tag(t, mode_tags(order[0]));
    if idx > 0 {
        assert(!mode_tags(order[0]).contains(t));
        assert forall|j: int| 0 <= j < idx - 1 implies !mode_tags(#[trigger] order.drop_first()[j]).contains(t) by {
            assert(order.drop_first()[j] == order[j + 1]);
        }
        lemma_tag_at(t, order.drop_first(), idx - 1);
    }
}

proof fn lemma_untagged(order: Seq<ModeKind>)
    ensures
        mode_by_tags(Seq::empty(), order) == None::<ModeKind>,
    decreases order.len(),
{
    if order.len() > 0 {
        lemma_untagged(order.drop_first());
    }
}

proof fn lemma_mode_prefix_at(s: Seq<char>, order: Seq<(Seq<char>, ModeKind)>, idx: int)
    requires
        0 <= idx < order.len(),
        has_prefix(s, order[idx].0),
        forall|j: int| 0 <= j < idx ==> !has_prefix(s, (#[trigger] order[j]).0),
    ensures
        mode_by_prefix(s, order) == Some(order[idx].1),
    decreases idx,
{
    if idx > 0 {
        assert(!has_prefix(s, order[0].0));
        assert forall|j: int| 0 <= j < idx - 1 implies !has_prefix(s, (#[trigger] order.drop_first()[j]).0) by {
            assert(order.drop_first()[j] == order[j + 1]);
        }
        lemma_mode_prefix_at(s, order.drop_first(), idx - 1);
    }
}

proof fn lemma_prefix_mode(p: Seq<char>, w: Seq<char>, idx: int)
    requires
        0 <= idx < prefix_order().len(),
        prefix_order()[idx].0 == p,
        lower_all(p) == p,
        forall|j: int| 0 <= j < idx ==> differ_early((#[trigger] prefix_order()[j]).0, p),
    ensures
        mode_of(Seq::empty(), p + w) == prefix_order()[idx].1,
{
    lemma_untagged(tag_order());
    lemma_lower_prefix(p, w);
    let order = prefix_order();
    assert forall|j: int| 0 <= j < idx implies !has_prefix(lower_all(p + w), (#[trigger] order[j]).0) by {
        let a = order[j].0;
        if a[0] != p[0] {
            lemma_differ_at(a, p, 0);
        } else if a[1] != p[1] {
            lemma_differ_at(a, p, 1);
        } else {
            lemma_differ_at(a, p, 2);
        }
    }
    lemma_mode_prefix_at(lower_all(p + w), order, idx);
}

proof fn lemma_tag_0()
    ensures
        mode_by_tags(seq!["payload_race"@], tag_order()) == Some(ModeKind::PayloadRace),
{
    reveal_strlit("payload_race");
    assert(mode_tags(ModeKind::PayloadRace)[0] == "payload_race"@);
    lemma_tag_at("payload_race"@, tag_order(), 0);
}

proof fn lemma_tag_1()
    ensures
        mode_by_tags(seq!["plr"@], tag_order()) == Some(ModeKind::PayloadRace),
{
    reveal_strlit("plr");
    assert(mode_tags(ModeKind::PayloadRace)[1] == "plr"@);
    lemma_tag_at("plr"@, tag_order(), 0);
}

proof fn lemma_tag_2()
    ensures
        mode_by_tags(seq!["attack_defend"@], tag_order()) == Some(ModeKind::AttackDefend),
{
    reveal_strlit("attack_defend");
    reveal_strlit("payload_race");
    reveal_strlit("plr");
    lemma_len_ne("payload_race"@, "attack_defend"@);
    assert(mode_tags(ModeKind::PayloadRace)[0] != "attack_defend"@);
    lemma_len_ne("plr"@, "attack_defend"@);
    assert(mode_tags(ModeKind::PayloadRace)[1] != "attack_defend"@);
    assert(mode_tags(ModeKind::PayloadRace).len() == 2);
    assert(!mode_tags(ModeKind::PayloadRace).contains("attack_defend"@));
    assert(mode_tags(ModeKind::AttackDefend)[0] == "attack_defend"@);
    lemma_tag_at("attack_defend"@, tag_order(), 1);
}

proof fn lemma_tag_3()
    ensures
        mode_by_tags(seq!["attack-defend"@], tag_order()) == Some(ModeKind::AttackDefend),
{
    reveal_strlit("attack-defend");
    reveal_strlit("payload_race");
    reveal_strlit("plr");
    lemma_len_ne("payload_race"@, "attack-defend"@);
    assert(mode_tags(ModeKind::PayloadRace)[0] != "attack-defend"@);
    lemma_len_ne("plr"@, "attack-defend"@);
    assert(mode_tags(ModeKind::PayloadRace)[1] != "attack-defend"@);
    assert(mode_tags(ModeKind::PayloadRace).len() == 2);
    assert(!mode_tags(ModeKind::PayloadRace).contains("attack-defend"@));
    assert(mode_tags(ModeKind::AttackDefend)[1] == "attack-defend"@);
    lemma_tag_at("attack-defend"@, tag_order(), 1);
}

proof fn lemma_tag_4()
    ensures
        mode_by_tags(seq!["a/d"@], tag_order()) == Some(ModeKind::AttackDefend),
{
    reveal_strlit("a/d");
    reveal_strlit("payload_race");
    reveal_strlit("plr");
    lemma_len_ne("payload_race"@, "a/d"@);
    assert(mode_tags(ModeKind::PayloadRace)[0] != "a/d"@);
    lemma_text_ne("plr"@, "a/d"@, 0);
    assert(mode_tags(ModeKind::PayloadRace)[1] != "a/d"@);
    assert(mode_tags(ModeKind::PayloadRace).len() == 2);
    assert(!mode_tags(ModeKind::PayloadRace).contains("a/d"@));
    assert(mode_tags(ModeKind::AttackDefend)[2] == "a/d"@);
    lemma_tag_at("a/d"@, tag_order(), 1);
}

proof fn lemma_tag_5()
    ensures
        mode_by_tags(seq!["king_of_the_hill"@], tag_order()) == Some(ModeKind::KingOfTheHill),
{
    reveal_strlit("a/d");
    reveal_strlit("attack-defend");
    reveal_strlit("attack_defend");
    reveal_strlit("king_of_the_hill");
    reveal_strlit("payload_race");
    reveal_strlit("plr");
    lemma_len_ne("payload_race"@, "king_of_the_hill"@);
    assert(mode_tags(ModeKind::PayloadRace)[0] != "king_of_the_hill"@);
    lemma_len_ne("plr"@, "king_of_the_hill"@);
    assert(mode_tags(ModeKind::PayloadRace)[1] != "king_of_the_hill"@);
    assert(mode_tags(ModeKind::PayloadRace).len() == 2);
    assert(!mode_tags(ModeKind::PayloadRace).contains("king_of_the_hill"@));
    lemma_len_ne("attack_defend"@, "king_of_the_hill"@);
    assert(mode_tags(ModeKind::AttackDefend)[0] != "king_of_the_hill"@);
    lemma_len_ne("attack-defend"@, "king_of_the_hill"@);
    assert(mode_tags(ModeKind::AttackDefend)[1] != "king_of_the_hill"@);
    lemma_len_ne("a/d"@, "king_of_the_hill"@);
    assert(mode_tags(ModeKind::AttackDefend)[2] != "king_of_the_hill"@);
    assert(mode_tags(ModeKind::AttackDefend).len() == 3);
    assert(!mode_tags(ModeKind::AttackDefend).contains("king_of_the_hill"@));
    assert(mode_tags(ModeKind::KingOfTheHill)[0] == "king_of_the_hill"@);
    lemma_tag_at("king_of_the_hill"@, tag_order(), 2);
}

proof fn lemma_tag_6()
    ensures
        mode_by_tags(seq!["king-of-the-hill"@], tag_order()) == Some(ModeKind::KingOfTheHill),
{
    reveal_strlit("a/d");
    reveal_strlit("attack-defend");
    reveal_strlit("attack_defend");
    reveal_strlit("king-of-the-hill");
    reveal_strlit("payload_race");
    reveal_strlit("plr");
    lemma_len_ne("payload_race"@, "king-of-the-hill"@);
    assert(mode_tags(ModeKind::PayloadRace)[0] != "king-of-the-hill"@);
    lemma_len_ne("plr"@, "king-of-the-hill"@);
    assert(mode_tags(ModeKind::PayloadRace)[1] != "king-of-the-hill"@);
    assert(mode_tags(ModeKind::PayloadRace).len() == 2);
    assert(!mode_tags(ModeKind::PayloadRace).contains("king-of-the-hill"@));
    lemma_len_ne("attack_defend"@, "king-of-the-hill"@);
    assert(mode_tags(ModeKind::AttackDefend)[0] != "king-of-the-hill"@);
    lemma_len_ne("attack-defend"@, "king-of-the-hill"@);
    assert(mode_tags(ModeKind::AttackDefend)[1] != "king-of-the-hill"@);
    lemma_len_ne("a/d"@, "king-of-the-hill"@);
    assert(mode_tags(ModeKind::AttackDefend)[2] != "king-of-the-hill"@);
    assert(mode_tags(ModeKind::AttackDefend).len() == 3);
    assert(!mode_tags(ModeKind::AttackDefend).contains("king-of-the-hill"@));
    assert(mode_tags(ModeKind::KingOfTheHill)[1] == "king-of-the-hill"@);
    lemma_tag_at("king-of-the-hill"@, tag_order(), 2);
}

proof fn lemma_tag_7()
    ensures
        mode_by_tags(seq!["koth"@], tag_order()) == Some(ModeKind::KingOfTheHill),
{
    reveal_strlit("a/d");
    reveal_strlit("attack-defend");
    reveal_strlit("attack_defend");
    reveal_strlit("koth");
    reveal_strlit("payload_race");
    reveal_strlit("plr");
    lemma_len_ne("payload_race"@, "koth"@);
    assert(mode_tags(ModeKind::PayloadRace)[0] != "koth"@);
    lemma_len_ne("plr"@, "koth"@);
    assert(mode_tags(ModeKind::PayloadRace)[1] != "koth"@);
    assert(mode_tags(ModeKind::PayloadRace).len() == 2);
    assert(!mode_tags(ModeKind::PayloadRace).contains("koth"@));
    lemma_len_ne("attack_defend"@, "koth"@);
    assert(mode_tags(ModeKind::AttackDefend)[0] != "koth"@);
    lemma_len_ne("attack-defend"@, "koth"@);
    assert(mode_tags(ModeKind::AttackDefend)[1] != "koth"@);
    lemma_len_ne("a/d"@, "koth"@);
    assert(mode_tags(ModeKind::AttackDefend)[2] != "koth"@);
    assert(mode_tags(ModeKind::AttackDefend).len() == 3);
    assert(!mode_tags(ModeKind::AttackDefend).contains("koth"@));
    assert(mode_tags(ModeKind::KingOfTheHill)[2] == "koth"@);
    lemma_tag_at("koth"@, tag_order(), 2);
}

proof fn lemma_tag_8()
    ensures
        mode_by_tags(seq!["capture_the_flag"@], tag_order()) == Some(ModeKind::CaptureTheFlag),
{
    reveal_strlit("a/d");
    reveal_strlit("attack-defend");
    reveal_strlit("attack_defend");
    reveal_strlit("capture_the_flag");
    reveal_strlit("king-of-the-hill");
    reveal_strlit("king_of_the_hill");
    reveal_strlit("koth");
    reveal_strlit("payload_race");
    reveal_strlit("plr");
    lemma_len_ne("payload_race"@, "capture_the_flag"@);
    assert(mode_tags(ModeKind::PayloadRace)[0] != "capture_the_flag"@);
    lemma_len_ne("plr"@, "capture_the_flag"@);
    assert(mode_tags(ModeKind::PayloadRace)[1] != "capture_the_flag"@);
    assert(mode_tags(ModeKind::PayloadRace).len() == 2);
    assert(!mode_tags(ModeKind::PayloadRace).contains("capture_the_flag"@));
    lemma_len_ne("attack_defend"@, "capture_the_flag"@);
    assert(mode_tags(ModeKind::AttackDefend)[0] != "capture_the_flag"@);
    lemma_len_ne("attack-defend"@, "capture_the_flag"@);
    assert(mode_tags(ModeKind::AttackDefend)[1] != "capture_the_flag"@);
    lemma_len_ne("a/d"@, "capture_the_flag"@);
    assert(mode_tags(ModeKind::AttackDefend)[2] != "capture_the_flag"@);
    assert(mode_tags(ModeKind::AttackDefend).len() == 3);
    assert(!mode_tags(ModeKind::AttackDefend).contains("capture_the_flag"@));
    lemma_text_ne("king_of_the_hill"@, "capture_the_flag"@, 0);
    assert(mode_tags(ModeKind::KingOfTheHill)[0] != "capture_the_flag"@);
    lemma_text_ne("king-of-the-hill"@, "capture_the_flag"@, 0);
    assert(mode_tags(ModeKind::KingOfTheHill)[1] != "capture_the_flag"@);
    lemma_len_ne("koth"@, "capture_the_flag"@);
    assert(mode_tags(ModeKind::KingOfTheHill)[2] != "capture_the_flag"@);
    assert(mode_tags(ModeKind::KingOfTheHill).len() == 3);
    assert(!mode_tags(ModeKind::KingOfTheHill).contains("capture_the_flag"@));
    assert(mode_tags(ModeKind::CaptureTheFlag)[0] == "capture_the_flag"@);
    lemma_tag_at("capture_the_flag"@, tag_order(), 3);
}

proof fn lemma_tag_9()
    ensures
        mode_by_tags(seq!["capture-the-flag"@], tag_order()) == Some(ModeKind::CaptureTheFlag),
{
    reveal_strlit("a/d");
    reveal_strlit("attack-defend");
    reveal_strlit("attack_defend");
    reveal_strlit("capture-the-flag");
    reveal_strlit("king-of-the-hill");
    reveal_strlit("king_of_the_hill");
    reveal_strlit("koth");
    reveal_strlit("payload_race");
    reveal_strlit("plr");
    lemma_len_ne("payload_race"@, "capture-the-flag"@);
    assert(mode_tags(ModeKind::PayloadRace)[0] != "capture-the-flag"@);
    lemma_len_ne("plr"@, "capture-the-flag"@);
    assert(mode_tags(ModeKind::PayloadRace)[1] != "capture-the-flag"@);
    assert(mode_tags(ModeKind::PayloadRace).len() == 2);
    assert(!mode_tags(ModeKind::PayloadRace).contains("capture-the-flag"@));
    lemma_len_ne("attack_defend"@, "capture-the-flag"@);
    assert(mode_tags(ModeKind::AttackDefend)[0] != "capture-the-flag"@);
    lemma_len_ne("attack-defend"@, "capture-the-flag"@);
    assert(mode_tags(ModeKind::AttackDefend)[1] != "capture-the-flag"@);
    lemma_len_ne("a/d"@, "capture-the-flag"@);
    assert(mode_tags(ModeKind::AttackDefend)[2] != "capture-the-flag"@);
    assert(mode_tags(ModeKind::AttackDefend).len() == 3);
    assert(!mode_tags(ModeKind::AttackDefend).contains("capture-the-flag"@));
    lemma_text_ne("king_of_the_hill"@, "capture-the-flag"@, 0);
    assert(mode_tags(ModeKind::KingOfTheHill)[0] != "capture-the-flag"@);
    lemma_text_ne("king-of-the-hill"@, "capture-the-flag"@, 0);
    assert(mode_tags(ModeKind::KingOfTheHill)[1] != "capture-the-flag"@);
    lemma_len_ne("koth"@, "capture-the-flag"@);
    assert(mode_tags(ModeKind::KingOfTheHill)[2] != "capture-the-flag"@);
    assert(mode_tags(ModeKind::KingOfTheHill).len() == 3);
    assert(!mode_tags(ModeKind::KingOfTheHill).contains("capture-the-flag"@));
    assert(mode_tags(ModeKind::CaptureTheFlag)[1] == "capture-the-flag"@);
    lemma_tag_at("capture-the-flag"@, tag_order(), 3);
}

proof fn lemma_tag_10()
    ensures
        mode_by_tags(seq!["ctf"@], tag_order()) == Some(ModeKind::CaptureTheFlag),
{
    reveal_strlit("a/d");
    reveal_strlit("attack-defend");
    reveal_strlit("attack_defend");
    reveal_strlit("ctf");
    reveal_strlit("king-of-the-hill");
    reveal_strlit("king_of_the_hill");
    reveal_strlit("koth");
    reveal_strlit("payload_race");
    reveal_strlit("plr");
    lemma_len_ne("payload_race"@, "ctf"@);
    assert(mode_tags(ModeKind::PayloadRace)[0] != "ctf"@);
    lemma_text_ne("plr"@, "ctf"@, 0);
    assert(mode_tags(ModeKind::PayloadRace)[1] != "ctf"@);
    assert(mode_tags(ModeKind::PayloadRace).len() == 2);
    assert(!mode_tags(ModeKind::PayloadRace).contains("ctf"@));
    lemma_len_ne("attack_defend"@, "ctf"@);
    assert(mode_tags(ModeKind::AttackDefend)[0] != "ctf"@);
    lemma_len_ne("attack-defend"@, "ctf"@);
    assert(mode_tags(ModeKind::AttackDefend)[1] != "ctf"@);
    lemma_text_ne("a/d"@, "ctf"@, 0);
    assert(mode_tags(ModeKind::AttackDefend)[2] != "ctf"@);
    assert(mode_tags(ModeKind::AttackDefend).len() == 3);
    assert(!mode_tags(ModeKind::AttackDefend).contains("ctf"@));
    lemma_len_ne("king_of_the_hill"@, "ctf"@);
    assert(mode_tags(ModeKind::KingOfTheHill)[0] != "ctf"@);
    lemma_len_ne("king-of-the-hill"@, "ctf"@);
    assert(mode_tags(ModeKind::KingOfTheHill)[1] != "ctf"@);
    lemma_len_ne("koth"@, "ctf"@);
    assert(mode_tags(ModeKind::KingOfTheHill)[2] != "ctf"@);
    assert(mode_tags(ModeKind::KingOfTheHill).len() == 3);
    assert(!mode_tags(ModeKind::KingOfTheHill).contains("ctf"@));
    assert(mode_tags(ModeKind::CaptureTheFlag)[2] == "ctf"@);
    lemma_tag_at("ctf"@, tag_order(), 3);
}

proof fn lemma_tag_11()
    ensures
        mode_by_tags(seq!["player_destruction"@], tag_order()) == Some(ModeKind::PlayerDestruction),
{
    reveal_strlit("a/d");
    reveal_strlit("attack-defend");
    reveal_strlit("attack_defend");
    reveal_strlit("capture-the-flag");
    reveal_strlit("capture_the_flag");
    reveal_strlit("ctf");
    reveal_strlit("king-of-the-hill");
    reveal_strlit("king_of_the_hill");
    reveal_strlit("koth");
    reveal_strlit("payload_race");
    reveal_strlit("player_destruction");
    reveal_strlit("plr");
    lemma_len_ne("payload_race"@, "player_destruction"@);
    assert(mode_tags(ModeKind::PayloadRace)[0] != "player_destruction"@);
    lemma_len_ne("plr"@, "player_destruction"@);
    assert(mode_tags(ModeKind::PayloadRace)[1] != "player_destruction"@);
    assert(mode_tags(ModeKind::PayloadRace).len() == 2);
    assert(!mode_tags(ModeKind::PayloadRace).contains("player_destruction"@));
    lemma_len_ne("attack_defend"@, "player_destruction"@);
    assert(mode_tags(ModeKind::AttackDefend)[0] != "player_destruction"@);
    lemma_len_ne("attack-defend"@, "player_destruction"@);
    assert(mode_tags(ModeKind::AttackDefend)[1] != "player_destruction"@);
    lemma_len_ne("a/d"@, "player_destruction"@);
    assert(mode_tags(ModeKind::AttackDefend)[2] != "player_destruction"@);
    assert(mode_tags(ModeKind::AttackDefend).len() == 3);
    assert(!mode_tags(ModeKind::AttackDefend).contains("player_destruction"@));
    lemma_len_ne("king_of_the_hill"@, "player_destruction"@);
    assert(mode_tags(ModeKind::KingOfTheHill)[0] != "player_destruction"@);
    lemma_len_ne("king-of-the-hill"@, "player_destruction"@);
    assert(mode_tags(ModeKind::KingOfTheHill)[1] != "player_destruction"@);
    lemma_len_ne("koth"@, "player_destruction"@);
    assert(mode_tags(ModeKind::KingOfTheHill)[2] != "player_destruction"@);
    assert(mode_tags(ModeKind::KingOfTheHill).len() == 3);
    assert(!mode_tags(ModeKind::KingOfTheHill).contains("player_destruction"@));
    lemma_len_ne("capture_the_flag"@, "player_destruction"@);
    assert(mode_tags(ModeKind::CaptureTheFlag)[0] != "player_destruction"@);
    lemma_len_ne("capture-the-flag"@, "player_destruction"@);
    assert(mode_tags(ModeKind::CaptureTheFlag)[1] != "player_destruction"@);
    lemma_len_ne("ctf"@, "player_destruction"@);
    assert(mode_tags(ModeKind::CaptureTheFlag)[2] != "player_destruction"@);
    assert(mode_tags(ModeKind::CaptureTheFlag).len() == 3);
    assert(!mode_tags(ModeKind::CaptureTheFlag).contains("player_destruction"@));
    assert(mode_tags(ModeKind::PlayerDestruction)[0] == "player_destruction"@);
    lemma_tag_at("player_destruction"@, tag_order(), 4);
}

proof fn lemma_tag_12()
    ensures
        mode_by_tags(seq!["player-destruction"@], tag_order()) == Some(ModeKind::PlayerDestruction),
{
    reveal_strlit("a/d");
    reveal_strlit("attack-defend");
    reveal_strlit("attack_defend");
    reveal_strlit("capture-the-flag");
    reveal_strlit("capture_the_flag");
    reveal_strlit("ctf");
    reveal_strlit("king-of-the-hill");
    reveal_strlit("king_of_the_hill");
    reveal_strlit("koth");
    reveal_strlit("payload_race");
    reveal_strlit("player-destruction");
    reveal_strlit("plr");
    lemma_len_ne("payload_race"@, "player-destruction"@);
    assert(mode_tags(ModeKind::PayloadRace)[0] != "player-destruction"@);
    lemma_len_ne("plr"@, "player-destruction"@);
    assert(mode_tags(ModeKind::PayloadRace)[1] != "player-destruction"@);
    assert(mode_tags(ModeKind::PayloadRace).len() == 2);
    assert(!mode_tags(ModeKind::PayloadRace).contains("player-destruction"@));
    lemma_len_ne("attack_defend"@, "player-destruction"@);
    assert(mode_tags(ModeKind::AttackDefend)[0] != "player-destruction"@);
    lemma_len_ne("attack-defend"@, "player-destruction"@);
    assert(mode_tags(ModeKind::AttackDefend)[1] != "player-destruction"@);
    lemma_len_ne("a/d"@, "player-destruction"@);
    assert(mode_tags(ModeKind::AttackDefend)[2] != "player-destruction"@);
    assert(mode_tags(ModeKind::AttackDefend).len() == 3);
    assert(!mode_tags(ModeKind::AttackDefend).contains("player-destruction"@));
    lemma_len_ne("king_of_the_hill"@, "player-destruction"@);
    assert(mode_tags(ModeKind::KingOfTheHill)[0] != "player-destruction"@);
    lemma_len_ne("king-of-the-hill"@, "player-destruction"@);
    assert(mode_tags(ModeKind::KingOfTheHill)[1] != "player-destruction"@);
    lemma_len_ne("koth"@, "player-destruction"@);
    assert(mode_tags(ModeKind::KingOfTheHill)[2] != "player-destruction"@);
    assert(mode_tags(ModeKind::KingOfTheHill).len() == 3);
    assert(!mode_tags(ModeKind::KingOfTheHill).contains("player-destruction"@));
    lemma_len_ne("capture_the_flag"@, "player-destruction"@);
    assert(mode_tags(ModeKind::CaptureTheFlag)[0] != "player-destruction"@);
    lemma_len_ne("capture-the-flag"@, "player-destruction"@);
    assert(mode_tags(ModeKind::CaptureTheFlag)[1] != "player-destruction"@);
    lemma_len_ne("ctf"@, "player-destruction"@);
    assert(mode_tags(ModeKind::CaptureTheFlag)[2] != "player-destruction"@);
    assert(mode_tags(ModeKind::CaptureTheFlag).len() == 3);
    assert(!mode_tags(ModeKind::CaptureTheFlag).contains("player-destruction"@));
    assert(mode_tags(ModeKind::PlayerDestruction)[1] == "player-destruction"@);
    lemma_tag_at("player-destruction"@, tag_order(), 4);
}

proof fn lemma_tag_13()
    ensures
        mode_by_tags(seq!["pd"@], tag_order()) == Some(ModeKind::PlayerDestruction),
{
    reveal_strlit("a/d");
    reveal_strlit("attack-defend");
    reveal_strlit("attack_defend");
    reveal_strlit("capture-the-flag");
    reveal_strlit("capture_the_flag");
    reveal_strlit("ctf");
    reveal_strlit("king-of-the-hill");
    reveal_strlit("king_of_the_hill");
    reveal_strlit("koth");
    reveal_strlit("payload_race");
    reveal_strlit("pd");
    reveal_strlit("plr");
    lemma_len_ne("payload_race"@, "pd"@);
    assert(mode_tags(ModeKind::PayloadRace)[0] != "pd"@);
    lemma_len_ne("plr"@, "pd"@);
    assert(mode_tags(ModeKind::PayloadRace)[1] != "pd"@);
    assert(mode_tags(ModeKind::PayloadRace).len() == 2);
    assert(!mode_tags(ModeKind::PayloadRace).contains("pd"@));
    lemma_len_ne("attack_defend"@, "pd"@);
    assert(mode_tags(ModeKind::AttackDefend)[0] != "pd"@);
    lemma_len_ne("attack-defend"@, "pd"@);
    assert(mode_tags(ModeKind::AttackDefend)[1] != "pd"@);
    lemma_len_ne("a/d"@, "pd"@);
    assert(mode_tags(ModeKind::AttackDefend)[2] != "pd"@);
    assert(mode_tags(ModeKind::AttackDefend).len() == 3);
    assert(!mode_tags(ModeKind::AttackDefend).contains("pd"@));
    lemma_len_ne("king_of_the_hill"@, "pd"@);
    assert(mode_tags(ModeKind::KingOfTheHill)[0] != "pd"@);
    lemma_len_ne("king-of-the-hill"@, "pd"@);
    assert(mode_tags(ModeKind::KingOfTheHill)[1] != "pd"@);
    lemma_len_ne("koth"@, "pd"@);
    assert(mode_tags(ModeKind::KingOfTheHill)[2] != "pd"@);
    assert(mode_tags(ModeKind::KingOfTheHill).len() == 3);
    assert(!mode_tags(ModeKind::KingOfTheHill).contains("pd"@));
    lemma_len_ne("capture_the_flag"@, "pd"@);
    assert(mode_tags(ModeKind::CaptureTheFlag)[0] != "pd"@);
    lemma_len_ne("capture-the-flag"@, "pd"@);
    assert(mode_tags(ModeKind::CaptureTheFlag)[1] != "pd"@);
    lemma_len_ne("ctf"@, "pd"@);
    assert(mode_tags(ModeKind::CaptureTheFlag)[2] != "pd"@);
    assert(mode_tags(ModeKind::CaptureTheFlag).len() == 3);
    assert(!mode_tags(ModeKind::CaptureTheFlag).contains("pd"@));
    assert(mode_tags(ModeKind::PlayerDestruction)[2] == "pd"@);
    lemma_tag_at("pd"@, tag_order(), 4);
}

proof fn lemma_tag_14()
    ensures
        mode_by_tags(seq!["robot_destruction"@], tag_order()) == Some(ModeKind::RobotDestruction),
{
    reveal_strlit("a/d");
    reveal_strlit("attack-defend");
    reveal_strlit("attack_defend");
    reveal_strlit("capture-the-flag");
    reveal_strlit("capture_the_flag");
    reveal_strlit("ctf");
    reveal_strlit("king-of-the-hill");
    reveal_strlit("king_of_the_hill");
    reveal_strlit("koth");
    reveal_strlit("payload_race");
    reveal_strlit("pd");
    reveal_strlit("player-destruction");
    reveal_strlit("player_destruction");
    reveal_strlit("plr");
    reveal_strlit("robot_destruction");
    lemma_len_ne("payload_race"@, "robot_destruction"@);
    assert(mode_tags(ModeKind::PayloadRace)[0] != "robot_destruction"@);
    lemma_len_ne("plr"@, "robot_destruction"@);
    assert(mode_tags(ModeKind::PayloadRace)[1] != "robot_destruction"@);
    assert(mode_tags(ModeKind::PayloadRace).len() == 2);
    assert(!mode_tags(ModeKind::PayloadRace).contains("robot_destruction"@));
    lemma_len_ne("attack_defend"@, "robot_destruction"@);
    assert(mode_tags(ModeKind::AttackDefend)[0] != "robot_destruction"@);
    lemma_len_ne("attack-defend"@, "robot_destruction"@);
    assert(mode_tags(ModeKind::AttackDefend)[1] != "robot_destruction"@);
    lemma_len_ne("a/d"@, "robot_destruction"@);
    assert(mode_tags(ModeKind::AttackDefend)[2] != "robot_destruction"@);
    assert(mode_tags(ModeKind::AttackDefend).len() == 3);
    assert(!mode_tags(ModeKind::AttackDefend).contains("robot_destruction"@));
    lemma_len_ne("king_of_the_hill"@, "robot_destruction"@);
    assert(mode_tags(ModeKind::KingOfTheHill)[0] != "robot_destruction"@);
    lemma_len_ne("king-of-the-hill"@, "robot_destruction"@);
    assert(mode_tags(ModeKind::KingOfTheHill)[1] != "robot_destruction"@);
    lemma_len_ne("koth"@, "robot_destruction"@);
    assert(mode_tags(ModeKind::KingOfTheHill)[2] != "robot_destruction"@);
    assert(mode_tags(ModeKind::KingOfTheHill).len() == 3);
    assert(!mode_tags(ModeKind::KingOfTheHill).contains("robot_destruction"@));
    lemma_len_ne("capture_the_flag"@, "robot_destruction"@);
    assert(mode_tags(ModeKind::CaptureTheFlag)[0] != "robot_destruction"@);
    lemma_len_ne("capture-the-flag"@, "robot_destruction"@);
    assert(mode_tags(ModeKind::CaptureTheFlag)[1] != "robot_destruction"@);
    lemma_len_ne("ctf"@, "robot_destruction"@);
    assert(mode_tags(ModeKind::CaptureTheFlag)[2] != "robot_destruction"@);
    assert(mode_tags(ModeKind::CaptureTheFlag).len() == 3);
    assert(!mode_tags(ModeKind::CaptureTheFlag).contains("robot_destruction"@));
    lemma_len_ne("player_destruction"@, "robot_destruction"@);
    assert(mode_tags(ModeKind::PlayerDestruction)[0] != "robot_destruction"@);
    lemma_len_ne("player-destruction"@, "robot_destruction"@);
    assert(mode_tags(ModeKind::PlayerDestruction)[1] != "robot_destruction"@);
    lemma_len_ne("pd"@, "robot_destruction"@);
    assert(mode_tags(ModeKind::PlayerDestruction)[2] != "robot_destruction"@);
    assert(mode_tags(ModeKind::PlayerDestruction).len() == 3);
    assert(!mode_tags(ModeKind::PlayerDestruction).contains("robot_destruction"@));
    assert(mode_tags(ModeKind::RobotDestruction)[0] == "robot_destruction"@);
    lemma_tag_at("robot_destruction"@, tag_order(), 5);
}

proof fn lemma_tag_15()
    ensures
        mode_by_tags(seq!["robot-destruction"@], tag_order()) == Some(ModeKind::RobotDestruction),
{
    reveal_strlit("a/d");
    reveal_strlit("attack-defend");
    reveal_strlit("attack_defend");
    reveal_strlit("capture-the-flag");
    reveal_strlit("capture_the_flag");
    reveal_strlit("ctf");
    reveal_strlit("king-of-the-hill");
    reveal_strlit("king_of_the_hill");
    reveal_strlit("koth");
    reveal_strlit("payload_race");
    reveal_strlit("pd");
    reveal_strlit("player-destruction");
    reveal_strlit("player_destruction");
    reveal_strlit("plr");
    reveal_strlit("robot-destruction");
    lemma_len_ne("payload_race"@, "robot-destruction"@);
    assert(mode_tags(ModeKind::PayloadRace)[0] != "robot-destruction"@);
    lemma_len_ne("plr"@, "robot-destruction"@);
    assert(mode_tags(ModeKind::PayloadRace)[1] != "robot-destruction"@);
    assert(mode_tags(ModeKind::PayloadRace).len() == 2);
    assert(!mode_tags(ModeKind::PayloadRace).contains("robot-destruction"@));
    lemma_len_ne("attack_defend"@, "robot-destruction"@);
    assert(mode_tags(ModeKind::AttackDefend)[0] != "robot-destruction"@);
    lemma_len_ne("attack-defend"@, "robot-destruction"@);
    assert(mode_tags(ModeKind::AttackDefend)[1] != "robot-destruction"@);
    lemma_len_ne("a/d"@, "robot-destruction"@);
    assert(mode_tags(ModeKind::AttackDefend)[2] != "robot-destruction"@);
    assert(mode_tags(ModeKind::AttackDefend).len() == 3);
    assert(!mode_tags(ModeKind::AttackDefend).contains("robot-destruction"@));
    lemma_len_ne("king_of_the_hill"@, "robot-destruction"@);
    assert(mode_tags(ModeKind::KingOfTheHill)[0] != "robot-destruction"@);
    lemma_len_ne("king-of-the-hill"@, "robot-destruction"@);
    assert(mode_tags(ModeKind::KingOfTheHill)[1] != "robot-destruction"@);
    lemma_len_ne("koth"@, "robot-destruction"@);
    assert(mode_tags(ModeKind::KingOfTheHill)[2] != "robot-destruction"@);
    assert(mode_tags(ModeKind::KingOfTheHill).len() == 3);
    assert(!mode_tags(ModeKind::KingOfTheHill).contains("robot-destruction"@));
    lemma_len_ne("capture_the_flag"@, "robot-destruction"@);
    assert(mode_tags(ModeKind::CaptureTheFlag)[0] != "robot-destruction"@);
    lemma_len_ne("capture-the-flag"@, "robot-destruction"@);
    assert(mode_tags(ModeKind::CaptureTheFlag)[1] != "robot-destruction"@);
    lemma_len_ne("ctf"@, "robot-destruction"@);
    assert(mode_tags(ModeKind::CaptureTheFlag)[2] != "robot-destruction"@);
    assert(mode_tags(ModeKind::CaptureTheFlag).len() == 3);
    assert(!mode_tags(ModeKind::CaptureTheFlag).contains("robot-destruction"@));
    lemma_len_ne("player_destruction"@, "robot-destruction"@);
    assert(mode_tags(ModeKind::PlayerDestruction)[0] != "robot-destruction"@);
    lemma_len_ne("player-destruction"@, "robot-destruction"@);
    assert(mode_tags(ModeKind::PlayerDestruction)[1] != "robot-destruction"@);
    lemma_len_ne("pd"@, "robot-destruction"@);
    assert(mode_tags(ModeKind::PlayerDestruction)[2] != "robot-destruction"@);
    assert(mode_tags(ModeKind::PlayerDestruction).len() == 3);
    assert(!mode_tags(ModeKind::PlayerDestruction).contains("robot-destruction"@));
    assert(mode_tags(ModeKind::RobotDestruction)[1] == "robot-destruction"@);
    lemma_tag_at("robot-destruction"@, tag_order(), 5);
}

proof fn lemma_tag_16()
    ensures
        mode_by_tags(seq!["rd"@], tag_order()) == Some(ModeKind::RobotDestruction),
{
    reveal_strlit("a/d");
    reveal_strlit("attack-defend");
    reveal_strlit("attack_defend");
    reveal_strlit("capture-the-flag");
    reveal_strlit("capture_the_flag");
    reveal_strlit("ctf");
    reveal_strlit("king-of-the-hill");
    reveal_strlit("king_of_the_hill");
    reveal_strlit("koth");
    reveal_strlit("payload_race");
    reveal_strlit("pd");
    reveal_strlit("player-destruction");
    reveal_strlit("player_destruction");
    reveal_strlit("plr");
    reveal_strlit("rd");
    lemma_len_ne("payload_race"@, "rd"@);
    assert(mode_tags(ModeKind::PayloadRace)[0] != "rd"@);
    lemma_len_ne("plr"@, "rd"@);
    assert(mode_tags(ModeKind::PayloadRace)[1] != "rd"@);
    assert(mode_tags(ModeKind::PayloadRace).len() == 2);
    assert(!mode_tags(ModeKind::PayloadRace).contains("rd"@));
    lemma_len_ne("attack_defend"@, "rd"@);
    assert(mode_tags(ModeKind::AttackDefend)[0] != "rd"@);
    lemma_len_ne("attack-defend"@, "rd"@);
    assert(mode_tags(ModeKind::AttackDefend)[1] != "rd"@);
    lemma_len_ne("a/d"@, "rd"@);
    assert(mode_tags(ModeKind::AttackDefend)[2] != "rd"@);
    assert(mode_tags(ModeKind::AttackDefend).len() == 3);
    assert(!mode_tags(ModeKind::AttackDefend).contains("rd"@));
    lemma_len_ne("king_of_the_hill"@, "rd"@);
    assert(mode_tags(ModeKind::KingOfTheHill)[0] != "rd"@);
    lemma_len_ne("king-of-the-hill"@, "rd"@);
    assert(mode_tags(ModeKind::KingOfTheHill)[1] != "rd"@);
    lemma_len_ne("koth"@, "rd"@);
    assert(mode_tags(ModeKind::KingOfTheHill)[2] != "rd"@);
    assert(mode_tags(ModeKind::KingOfTheHill).len() == 3);
    assert(!mode_tags(ModeKind::KingOfTheHill).contains("rd"@));
    lemma_len_ne("capture_the_flag"@, "rd"@);
    assert(mode_tags(ModeKind::CaptureTheFlag)[0] != "rd"@);
    lemma_len_ne("capture-the-flag"@, "rd"@);
    assert(mode_tags(ModeKind::CaptureTheFlag)[1] != "rd"@);
    lemma_len_ne("ctf"@, "rd"@);
    assert(mode_tags(ModeKind::CaptureTheFlag)[2] != "rd"@);
    assert(mode_tags(ModeKind::CaptureTheFlag).len() == 3);
    assert(!mode_tags(ModeKind::CaptureTheFlag).contains("rd"@));
    lemma_len_ne("player_destruction"@, "rd"@);
    assert(mode_tags(ModeKind::PlayerDestruction)[0] != "rd"@);
    lemma_len_ne("player-destruction"@, "rd"@);
    assert(mode_tags(ModeKind::PlayerDestruction)[1] != "rd"@);
    lemma_text_ne("pd"@, "rd"@, 0);
    assert(mode_tags(ModeKind::PlayerDestruction)[2] != "rd"@);
    assert(mode_tags(ModeKind::PlayerDestruction).len() == 3);
    assert(!mode_tags(ModeKind::PlayerDestruction).contains("rd"@));
    assert(mode_tags(ModeKind::RobotDestruction)[2] == "rd"@);
    lemma_tag_at("rd"@, tag_order(), 5);
}

proof fn lemma_tag_17()
    ensures
        mode_by_tags(seq!["special_delivery"@], tag_order()) == Some(ModeKind::SpecialDelivery),
{
    reveal_strlit("a/d");
    reveal_strlit("attack-defend");
    reveal_strlit("attack_defend");
    reveal_strlit("capture-the-flag");
    reveal_strlit("capture_the_flag");
    reveal_strlit("ctf");
    reveal_strlit("king-of-the-hill");
    reveal_strlit("king_of_the_hill");
    reveal_strlit("koth");
    reveal_strlit("payload_race");
    reveal_strlit("pd");
    reveal_strlit("player-destruction");
    reveal_strlit("player_destruction");
    reveal_strlit("plr");
    reveal_strlit("rd");
    reveal_strlit("robot-destruction");
    reveal_strlit("robot_destruction");
    reveal_strlit("special_delivery");
    lemma_len_ne("payload_race"@, "special_delivery"@);
    assert(mode_tags(ModeKind::PayloadRace)[0] != "special_delivery"@);
    lemma_len_ne("plr"@, "special_delivery"@);
    assert(mode_tags(ModeKind::PayloadRace)[1] != "special_delivery"@);
    assert(mode_tags(ModeKind::PayloadRace).len() == 2);
    assert(!mode_tags(ModeKind::PayloadRace).contains("special_delivery"@));
    lemma_len_ne("attack_defend"@, "special_delivery"@);
    assert(mode_tags(ModeKind::AttackDefend)[0] != "special_delivery"@);
    lemma_len_ne("attack-defend"@, "special_delivery"@);
    assert(mode_tags(ModeKind::AttackDefend)[1] != "special_delivery"@);
    lemma_len_ne("a/d"@, "special_delivery"@);
    assert(mode_tags(ModeKind::AttackDefend)[2] != "special_delivery"@);
    assert(mode_tags(ModeKind::AttackDefend).len() == 3);
    assert(!mode_tags(ModeKind::AttackDefend).contains("special_delivery"@));
    lemma_text_ne("king_of_the_hill"@, "special_delivery"@, 0);
    assert(mode_tags(ModeKind::KingOfTheHill)[0] != "special_delivery"@);
    lemma_text_ne("king-of-the-hill"@, "special_delivery"@, 0);
    assert(mode_tags(ModeKind::KingOfTheHill)[1] != "special_delivery"@);
    lemma_len_ne("koth"@, "special_delivery"@);
    assert(mode_tags(ModeKind::KingOfTheHill)[2] != "special_delivery"@);
    assert(mode_tags(ModeKind::KingOfTheHill).len() == 3);
    assert(!mode_tags(ModeKind::KingOfTheHill).contains("special_delivery"@));
    lemma_text_ne("capture_the_flag"@, "special_delivery"@, 0);
    assert(mode_tags(ModeKind::CaptureTheFlag)[0] != "special_delivery"@);
    lemma_text_ne("capture-the-flag"@, "special_delivery"@, 0);
    assert(mode_tags(ModeKind::CaptureTheFlag)[1] != "special_delivery"@);
    lemma_len_ne("ctf"@, "special_delivery"@);
    assert(mode_tags(ModeKind::CaptureTheFlag)[2] != "special_delivery"@);
    assert(mode_tags(ModeKind::CaptureTheFlag).len() == 3);
    assert(!mode_tags(ModeKind::CaptureTheFlag).contains("special_delivery"@));
    lemma_len_ne("player_destruction"@, "special_delivery"@);
    assert(mode_tags(ModeKind::PlayerDestruction)[0] != "special_delivery"@);
    lemma_len_ne("player-destruction"@, "special_delivery"@);
    assert(mode_tags(ModeKind::PlayerDestruction)[1] != "special_delivery"@);
    lemma_len_ne("pd"@, "special_delivery"@);
    assert(mode_tags(ModeKind::PlayerDestruction)[2] != "special_delivery"@);
    assert(mode_tags(ModeKind::PlayerDestruction).len() == 3);
    assert(!mode_tags(ModeKind::PlayerDestruction).contains("special_delivery"@));
    lemma_len_ne("robot_destruction"@, "special_delivery"@);
    assert(mode_tags(ModeKind::RobotDestruction)[0] != "special_delivery"@);
    lemma_len_ne("robot-destruction"@, "special_delivery"@);
    assert(mode_tags(ModeKind::RobotDestruction)[1] != "special_delivery"@);
    lemma_len_ne("rd"@, "special_delivery"@);
    assert(mode_tags(ModeKind::RobotDestruction)[2] != "special_delivery"@);
    assert(mode_tags(ModeKind::RobotDestruction).len() == 3);
    assert(!mode_tags(ModeKind::RobotDestruction).contains("special_delivery"@));
    assert(mode_tags(ModeKind::SpecialDelivery)[0] == "special_delivery"@);
    lemma_tag_at("special_delivery"@, tag_order(), 6);
}

proof fn lemma_tag_18()
    ensures
        mode_by_tags(seq!["special-delivery"@], tag_order()) == Some(ModeKind::SpecialDelivery),
{
    reveal_strlit("a/d");
    reveal_strlit("attack-defend");
    reveal_strlit("attack_defend");
    reveal_strlit("capture-the-flag");
    reveal_strlit("capture_the_flag");
    reveal_strlit("ctf");
    reveal_strlit("king-of-the-hill");
    reveal_strlit("king_of_the_hill");
    reveal_strlit("koth");
    reveal_strlit("payload_race");
    reveal_strlit("pd");
    reveal_strlit("player-destruction");
    reveal_strlit("player_destruction");
    reveal_strlit("plr");
    reveal_strlit("rd");
    reveal_strlit("robot-destruction");
    reveal_strlit("robot_destruction");
    reveal_strlit("special-delivery");
    lemma_len_ne("payload_race"@, "special-delivery"@);
    assert(mode_tags(ModeKind::PayloadRace)[0] != "special-delivery"@);
    lemma_len_ne("plr"@, "special-delivery"@);
    assert(mode_tags(ModeKind::PayloadRace)[1] != "special-delivery"@);
    assert(mode_tags(ModeKind::PayloadRace).len() == 2);
    assert(!mode_tags(ModeKind::PayloadRace).contains("special-delivery"@));
    lemma_len_ne("attack_defend"@, "special-delivery"@);
    assert(mode_tags(ModeKind::AttackDefend)[0] != "special-delivery"@);
    lemma_len_ne("attack-defend"@, "special-delivery"@);
    assert(mode_tags(ModeKind::AttackDefend)[1] != "special-delivery"@);
    lemma_len_ne("a/d"@, "special-delivery"@);
    assert(mode_tags(ModeKind::AttackDefend)[2] != "special-delivery"@);
    assert(mode_tags(ModeKind::AttackDefend).len() == 3);
    assert(!mode_tags(ModeKind::AttackDefend).contains("special-delivery"@));
    lemma_text_ne("king_of_the_hill"@, "special-delivery"@, 0);
    assert(mode_tags(ModeKind::KingOfTheHill)[0] != "special-delivery"@);
    lemma_text_ne("king-of-the-hill"@, "special-delivery"@, 0);
    assert(mode_tags(ModeKind::KingOfTheHill)[1] != "special-delivery"@);
    lemma_len_ne("koth"@, "special-delivery"@);
    assert(mode_tags(ModeKind::KingOfTheHill)[2] != "special-delivery"@);
    assert(mode_tags(ModeKind::KingOfTheHill).len() == 3);
    assert(!mode_tags(ModeKind::KingOfTheHill).contains("special-delivery"@));
    lemma_text_ne("capture_the_flag"@, "special-delivery"@, 0);
    assert(mode_tags(ModeKind::CaptureTheFlag)[0] != "special-delivery"@);
    lemma_text_ne("capture-the-flag"@, "special-delivery"@, 0);
    assert(mode_tags(ModeKind::CaptureTheFlag)[1] != "special-delivery"@);
    lemma_len_ne("ctf"@, "special-delivery"@);
    assert(mode_tags(ModeKind::CaptureTheFlag)[2] != "special-delivery"@);
    assert(mode_tags(ModeKind::CaptureTheFlag).len() == 3);
    assert(!mode_tags(ModeKind::CaptureTheFlag).contains("special-delivery"@));
    lemma_len_ne("player_destruction"@, "special-delivery"@);
    assert(mode_tags(ModeKind::PlayerDestruction)[0] != "special-delivery"@);
    lemma_len_ne("player-destruction"@, "special-delivery"@);
    assert(mode_tags(ModeKind::PlayerDestruction)[1] != "special-delivery"@);
    lemma_len_ne("pd"@, "special-delivery"@);
    assert(mode_tags(ModeKind::PlayerDestruction)[2] != "special-delivery"@);
    assert(mode_tags(ModeKind::PlayerDestruction).len() == 3);
    assert(!mode_tags(ModeKind::PlayerDestruction).contains("special-delivery"@));
    lemma_len_ne("robot_destruction"@, "special-delivery"@);
    assert(mode_tags(ModeKind::RobotDestruction)[0] != "special-delivery"@);
    lemma_len_ne("robot-destruction"@, "special-delivery"@);
    assert(mode_tags(ModeKind::RobotDestruction)[1] != "special-delivery"@);
    lemma_len_ne("rd"@, "special-delivery"@);
    assert(mode_tags(ModeKind::RobotDestruction)[2] != "special-delivery"@);
    assert(mode_tags(ModeKind::RobotDestruction).len() == 3);
    assert(!mode_tags(ModeKind::RobotDestruction).contains("special-delivery"@));
    assert(mode_tags(ModeKind::SpecialDelivery)[1] == "special-delivery"@);
    lemma_tag_at("special-delivery"@, tag_order(), 6);
}

proof fn lemma_tag_19()
    ensures
        mode_by_tags(seq!["sd"@], tag_order()) == Some(ModeKind::SpecialDelivery),
{
    reveal_strlit("a/d");
    reveal_strlit("attack-defend");
    reveal_strlit("attack_defend");
    reveal_strlit("capture-the-flag");
    reveal_strlit("capture_the_flag");
    reveal_strlit("ctf");
    reveal_strlit("king-of-the-hill");
    reveal_strlit("king_of_the_hill");
    reveal_strlit("koth");
    reveal_strlit("payload_race");
    reveal_strlit("pd");
    reveal_strlit("player-destruction");
    reveal_strlit("player_destruction");
    reveal_strlit("plr");
    reveal_strlit("rd");
    reveal_strlit("robot-destruction");
    reveal_strlit("robot_destruction");
    reveal_strlit("sd");
    lemma_len_ne("payload_race"@, "sd"@);
    assert(mode_tags(ModeKind::PayloadRace)[0] != "sd"@);
    lemma_len_ne("plr"@, "sd"@);
    assert(mode_tags(ModeKind::PayloadRace)[1] != "sd"@);
    assert(mode_tags(ModeKind::PayloadRace).len() == 2);
    assert(!mode_tags(ModeKind::PayloadRace).contains("sd"@));
    lemma_len_ne("attack_defend"@, "sd"@);
    assert(mode_tags(ModeKind::AttackDefend)[0] != "sd"@);
    lemma_len_ne("attack-defend"@, "sd"@);
    assert(mode_tags(ModeKind::AttackDefend)[1] != "sd"@);
    lemma_len_ne("a/d"@, "sd"@);
    assert(mode_tags(ModeKind::AttackDefend)[2] != "sd"@);
    assert(mode_tags(ModeKind::AttackDefend).len() == 3);
    assert(!mode_tags(ModeKind::AttackDefend).contains("sd"@));
    lemma_len_ne("king_of_the_hill"@, "sd"@);
    assert(mode_tags(ModeKind::KingOfTheHill)[0] != "sd"@);
    lemma_len_ne("king-of-the-hill"@, "sd"@);
    assert(mode_tags(ModeKind::KingOfTheHill)[1] != "sd"@);
    lemma_len_ne("koth"@, "sd"@);
    assert(mode_tags(ModeKind::KingOfTheHill)[2] != "sd"@);
    assert(mode_tags(ModeKind::KingOfTheHill).len() == 3);
    assert(!mode_tags(ModeKind::KingOfTheHill).contains("sd"@));
    lemma_len_ne("capture_the_flag"@, "sd"@);
    assert(mode_tags(ModeKind::CaptureTheFlag)[0] != "sd"@);
    lemma_len_ne("capture-the-flag"@, "sd"@);
    assert(mode_tags(ModeKind::CaptureTheFlag)[1] != "sd"@);
    lemma_len_ne("ctf"@, "sd"@);
    assert(mode_tags(ModeKind::CaptureTheFlag)[2] != "sd"@);
    assert(mode_tags(ModeKind::CaptureTheFlag).len() == 3);
    assert(!mode_tags(ModeKind::CaptureTheFlag).contains("sd"@));
    lemma_len_ne("player_destruction"@, "sd"@);
    assert(mode_tags(ModeKind::PlayerDestruction)[0] != "sd"@);
    lemma_len_ne("player-destruction"@, "sd"@);
    assert(mode_tags(ModeKind::PlayerDestruction)[1] != "sd"@);
    lemma_text_ne("pd"@, "sd"@, 0);
    assert(mode_tags(ModeKind::PlayerDestruction)[2] != "sd"@);
    assert(mode_tags(ModeKind::PlayerDestruction).len() == 3);
    assert(!mode_tags(ModeKind::PlayerDestruction).contains("sd"@));
    lemma_len_ne("robot_destruction"@, "sd"@);
    assert(mode_tags(ModeKind::RobotDestruction)[0] != "sd"@);
    lemma_len_ne("robot-destruction"@, "sd"@);
    assert(mode_tags(ModeKind::RobotDestruction)[1] != "sd"@);
    lemma_text_ne("rd"@, "sd"@, 0);
    assert(mode_tags(ModeKind::RobotDestruction)[2] != "sd"@);
    assert(mode_tags(ModeKind::RobotDestruction).len() == 3);
    assert(!mode_tags(ModeKind::RobotDestruction).contains("sd"@));
    assert(mode_tags(ModeKind::SpecialDelivery)[2] == "sd"@);
    lemma_tag_at("sd"@, tag_order(), 6);
}

proof fn lemma_tag_20()
    ensures
        mode_by_tags(seq!["territorial_control"@], tag_order()) == Some(ModeKind::TerritorialControl),
{
    reveal_strlit("a/d");
    reveal_strlit("attack-defend");
    reveal_strlit("attack_defend");
    reveal_strlit("capture-the-flag");
    reveal_strlit("capture_the_flag");
    reveal_strlit("ctf");
    reveal_strlit("king-of-the-hill");
    reveal_strlit("king_of_the_hill");
    reveal_strlit("koth");
    reveal_strlit("payload_race");
    reveal_strlit("pd");
    reveal_strlit("player-destruction");
    reveal_strlit("player_destruction");
    reveal_strlit("plr");
    reveal_strlit("rd");
    reveal_strlit("robot-destruction");
    reveal_strlit("robot_destruction");
    reveal_strlit("sd");
    reveal_strlit("special-delivery");
    reveal_strlit("special_delivery");
    reveal_strlit("territorial_control");
    lemma_len_ne("payload_race"@, "territorial_control"@);
    assert(mode_tags(ModeKind::PayloadRace)[0] != "territorial_control"@);
    lemma_len_ne("plr"@, "territorial_control"@);
    assert(mode_tags(ModeKind::PayloadRace)[1] != "territorial_control"@);
    assert(mode_tags(ModeKind::PayloadRace).len() == 2);
    assert(!mode_tags(ModeKind::PayloadRace).contains("territorial_control"@));
    lemma_len_ne("attack_defend"@, "territorial_control"@);
    assert(mode_tags(ModeKind::AttackDefend)[0] != "territorial_control"@);
    lemma_len_ne("attack-defend"@, "territorial_control"@);
    assert(mode_tags(ModeKind::AttackDefend)[1] != "territorial_control"@);
    lemma_len_ne("a/d"@, "territorial_control"@);
    assert(mode_tags(ModeKind::AttackDefend)[2] != "territorial_control"@);
    assert(mode_tags(ModeKind::AttackDefend).len() == 3);
    assert(!mode_tags(ModeKind::AttackDefend).contains("territorial_control"@));
    lemma_len_ne("king_of_the_hill"@, "territorial_control"@);
    assert(mode_tags(ModeKind::KingOfTheHill)[0] != "territorial_control"@);
    lemma_len_ne("king-of-the-hill"@, "territorial_control"@);
    assert(mode_tags(ModeKind::KingOfTheHill)[1] != "territorial_control"@);
    lemma_len_ne("koth"@, "territorial_control"@);
    assert(mode_tags(ModeKind::KingOfTheHill)[2] != "territorial_control"@);
    assert(mode_tags(ModeKind::KingOfTheHill).len() == 3);
    assert(!mode_tags(ModeKind::KingOfTheHill).contains("territorial_control"@));
    lemma_len_ne("capture_the_flag"@, "territorial_control"@);
    assert(mode_tags(ModeKind::CaptureTheFlag)[0] != "territorial_control"@);
    lemma_len_ne("capture-the-flag"@, "territorial_control"@);
    assert(mode_tags(ModeKind::CaptureTheFlag)[1] != "territorial_control"@);
    lemma_len_ne("ctf"@, "territorial_control"@);
    assert(mode_tags(ModeKind::CaptureTheFlag)[2] != "territorial_control"@);
    assert(mode_tags(ModeKind::CaptureTheFlag).len() == 3);
    assert(!mode_tags(ModeKind::CaptureTheFlag).contains("territorial_control"@));
    lemma_len_ne("player_destruction"@, "territorial_control"@);
    assert(mode_tags(ModeKind::PlayerDestruction)[0] != "territorial_control"@);
    lemma_len_ne("player-destruction"@, "territorial_control"@);
    assert(mode_tags(ModeKind::PlayerDestruction)[1] != "territorial_control"@);
    lemma_len_ne("pd"@, "territorial_control"@);
    assert(mode_tags(ModeKind::PlayerDestruction)[2] != "territorial_control"@);
    assert(mode_tags(ModeKind::PlayerDestruction).len() == 3);
    assert(!mode_tags(ModeKind::PlayerDestruction).contains("territorial_control"@));
    lemma_len_ne("robot_destruction"@, "territorial_control"@);
    assert(mode_tags(ModeKind::RobotDestruction)[0] != "territorial_control"@);
    lemma_len_ne("robot-destruction"@, "territorial_control"@);
    assert(mode_tags(ModeKind::RobotDestruction)[1] != "territorial_control"@);
    lemma_len_ne("rd"@, "territorial_control"@);
    assert(mode_tags(ModeKind::RobotDestruction)[2] != "territorial_control"@);
    assert(mode_tags(ModeKind::RobotDestruction).len() == 3);
    assert(!mode_tags(ModeKind::RobotDestruction).contains("territorial_control"@));
    lemma_len_ne("special_delivery"@, "territorial_control"@);
    assert(mode_tags(ModeKind::SpecialDelivery)[0] != "territorial_control"@);
    lemma_len_ne("special-delivery"@, "territorial_control"@);
    assert(mode_tags(ModeKind::SpecialDelivery)[1] != "territorial_control"@);
    lemma_len_ne("sd"@, "territorial_control"@);
    assert(mode_tags(ModeKind::SpecialDelivery)[2] != "territorial_control"@);
    assert(mode_tags(ModeKind::SpecialDelivery).len() == 3);
    assert(!mode_tags(ModeKind::SpecialDelivery).contains("territorial_control"@));
    assert(mode_tags(ModeKind::TerritorialControl)[0] == "territorial_control"@);
    lemma_tag_at("territorial_control"@, tag_order(), 7);
}

proof fn lemma_tag_21()
    ensures
        mode_by_tags(seq!["territorial-control"@], tag_order()) == Some(ModeKind::TerritorialControl),
{
    reveal_strlit("a/d");
    reveal_strlit("attack-defend");
    reveal_strlit("attack_defend");
    reveal_strlit("capture-the-flag");
    reveal_strlit("capture_the_flag");
    reveal_strlit("ctf");
    reveal_strlit("king-of-the-hill");
    reveal_strlit("king_of_the_hill");
    reveal_strlit("koth");
    reveal_strlit("payload_race");
    reveal_strlit("pd");
    reveal_strlit("player-destruction");
    reveal_strlit("player_destruction");
    reveal_strlit("plr");
    reveal_strlit("rd");
    reveal_strlit("robot-destruction");
    reveal_strlit("robot_destruction");
    reveal_strlit("sd");
    reveal_strlit("special-delivery");
    reveal_strlit("special_delivery");
    reveal_strlit("territorial-control");
    lemma_len_ne("payload_race"@, "territorial-control"@);
    assert(mode_tags(ModeKind::PayloadRace)[0] != "territorial-control"@);
    lemma_len_ne("plr"@, "territorial-control"@);
    assert(mode_tags(ModeKind::PayloadRace)[1] != "territorial-control"@);
    assert(mode_tags(ModeKind::PayloadRace).len() == 2);
    assert(!mode_tags(ModeKind::PayloadRace).contains("territorial-control"@));
    lemma_len_ne("attack_defend"@, "territorial-control"@);
    assert(mode_tags(ModeKind::AttackDefend)[0] != "territorial-control"@);
    lemma_len_ne("attack-defend"@, "territorial-control"@);
    assert(mode_tags(ModeKind::AttackDefend)[1] != "territorial-control"@);
    lemma_len_ne("a/d"@, "territorial-control"@);
    assert(mode_tags(ModeKind::AttackDefend)[2] != "territorial-control"@);
    assert(mode_tags(ModeKind::AttackDefend).len() == 3);
    assert(!mode_tags(ModeKind::AttackDefend).contains("territorial-control"@));
    lemma_len_ne("king_of_the_hill"@, "territorial-control"@);
    assert(mode_tags(ModeKind::KingOfTheHill)[0] != "territorial-control"@);
    lemma_len_ne("king-of-the-hill"@, "territorial-control"@);
    assert(mode_tags(ModeKind::KingOfTheHill)[1] != "territorial-control"@);
    lemma_len_ne("koth"@, "territorial-control"@);
    assert(mode_tags(ModeKind::KingOfTheHill)[2] != "territorial-control"@);
    assert(mode_tags(ModeKind::KingOfTheHill).len() == 3);
    assert(!mode_tags(ModeKind::KingOfTheHill).contains("territorial-control"@));
    lemma_len_ne("capture_the_flag"@, "territorial-control"@);
    assert(mode_tags(ModeKind::CaptureTheFlag)[0] != "territorial-control"@);
    lemma_len_ne("capture-the-flag"@, "territorial-control"@);
    assert(mode_tags(ModeKind::CaptureTheFlag)[1] != "territorial-control"@);
    lemma_len_ne("ctf"@, "territorial-control"@);
    assert(mode_tags(ModeKind::CaptureTheFlag)[2] != "territorial-control"@);
    assert(mode_tags(ModeKind::CaptureTheFlag).len() == 3);
    assert(!mode_tags(ModeKind::CaptureTheFlag).contains("territorial-control"@));
    lemma_len_ne("player_destruction"@, "territorial-control"@);
    assert(mode_tags(ModeKind::PlayerDestruction)[0] != "territorial-control"@);
    lemma_len_ne("player-destruction"@, "territorial-control"@);
    assert(mode_tags(ModeKind::PlayerDestruction)[1] != "territorial-control"@);
    lemma_len_ne("pd"@, "territorial-control"@);
    assert(mode_tags(ModeKind::PlayerDestruction)[2] != "territorial-control"@);
    assert(mode_tags(ModeKind::PlayerDestruction).len() == 3);
    assert(!mode_tags(ModeKind::PlayerDestruction).contains("territorial-control"@));
    lemma_len_ne("robot_destruction"@, "territorial-control"@);
    assert(mode_tags(ModeKind::RobotDestruction)[0] != "territorial-control"@);
    lemma_len_ne("robot-destruction"@, "territorial-control"@);
    assert(mode_tags(ModeKind::RobotDestruction)[1] != "territorial-control"@);
    lemma_len_ne("rd"@, "territorial-control"@);
    assert(mode_tags(ModeKind::RobotDestruction)[2] != "territorial-control"@);
    assert(mode_tags(ModeKind::RobotDestruction).len() == 3);
    assert(!mode_tags(ModeKind::RobotDestruction).contains("territorial-control"@));
    lemma_len_ne("special_delivery"@, "territorial-control"@);
    assert(mode_tags(ModeKind::SpecialDelivery)[0] != "territorial-control"@);
    lemma_len_ne("special-delivery"@, "territorial-control"@);
    assert(mode_tags(ModeKind::SpecialDelivery)[1] != "territorial-control"@);
    lemma_len_ne("sd"@, "territorial-control"@);
    assert(mode_tags(ModeKind::SpecialDelivery)[2] != "territorial-control"@);
    assert(mode_tags(ModeKind::SpecialDelivery).len() == 3);
    assert(!mode_tags(ModeKind::SpecialDelivery).contains("territorial-control"@));
    assert(mode_tags(ModeKind::TerritorialControl)[1] == "territorial-control"@);
    lemma_tag_at("territorial-control"@, tag_order(), 7);
}

proof fn lemma_tag_22()
    ensures
        mode_by_tags(seq!["tc"@], tag_order()) == Some(ModeKind::TerritorialControl),
{
    reveal_strlit("a/d");
    reveal_strlit("attack-defend");
    reveal_strlit("attack_defend");
    reveal_strlit("capture-the-flag");
    reveal_strlit("capture_the_flag");
    reveal_strlit("ctf");
    reveal_strlit("king-of-the-hill");
    reveal_strlit("king_of_the_hill");
    reveal_strlit("koth");
    reveal_strlit("payload_race");
    reveal_strlit("pd");
    reveal_strlit("player-destruction");
    reveal_strlit("player_destruction");
    reveal_strlit("plr");
    reveal_strlit("rd");
    reveal_strlit("robot-destruction");
    reveal_strlit("robot_destruction");
    reveal_strlit("sd");
    reveal_strlit("special-delivery");
    reveal_strlit("special_delivery");
    reveal_strlit("tc");
    lemma_len_ne("payload_race"@, "tc"@);
    assert(mode_tags(ModeKind::PayloadRace)[0] != "tc"@);
    lemma_len_ne("plr"@, "tc"@);
    assert(mode_tags(ModeKind::PayloadRace)[1] != "tc"@);
    assert(mode_tags(ModeKind::PayloadRace).len() == 2);
    assert(!mode_tags(ModeKind::PayloadRace).contains("tc"@));
    lemma_len_ne("attack_defend"@, "tc"@);
    assert(mode_tags(ModeKind::AttackDefend)[0] != "tc"@);
    lemma_len_ne("attack-defend"@, "tc"@);
    assert(mode_tags(ModeKind::AttackDefend)[1] != "tc"@);
    lemma_len_ne("a/d"@, "tc"@);
    assert(mode_tags(ModeKind::AttackDefend)[2] != "tc"@);
    assert(mode_tags(ModeKind::AttackDefend).len() == 3);
    assert(!mode_tags(ModeKind::AttackDefend).contains("tc"@));
    lemma_len_ne("king_of_the_hill"@, "tc"@);
    assert(mode_tags(ModeKind::KingOfTheHill)[0] != "tc"@);
    lemma_len_ne("king-of-the-hill"@, "tc"@);
    assert(mode_tags(ModeKind::KingOfTheHill)[1] != "tc"@);
    lemma_len_ne("koth"@, "tc"@);
    assert(mode_tags(ModeKind::KingOfTheHill)[2] != "tc"@);
    assert(mode_tags(ModeKind::KingOfTheHill).len() == 3);
    assert(!mode_tags(ModeKind::KingOfTheHill).contains("tc"@));
    lemma_len_ne("capture_the_flag"@, "tc"@);
    assert(mode_tags(ModeKind::CaptureTheFlag)[0] != "tc"@);
    lemma_len_ne("capture-the-flag"@, "tc"@);
    assert(mode_tags(ModeKind::CaptureTheFlag)[1] != "tc"@);
    lemma_len_ne("ctf"@, "tc"@);
    assert(mode_tags(ModeKind::CaptureTheFlag)[2] != "tc"@);
    assert(mode_tags(ModeKind::CaptureTheFlag).len() == 3);
    assert(!mode_tags(ModeKind::CaptureTheFlag).contains("tc"@));
    lemma_len_ne("player_destruction"@, "tc"@);
    assert(mode_tags(ModeKind::PlayerDestruction)[0] != "tc"@);
    lemma_len_ne("player-destruction"@, "tc"@);
    assert(mode_tags(ModeKind::PlayerDestruction)[1] != "tc"@);
    lemma_text_ne("pd"@, "tc"@, 0);
    assert(mode_tags(ModeKind::PlayerDestruction)[2] != "tc"@);
    assert(mode_tags(ModeKind::PlayerDestruction).len() == 3);
    assert(!mode_tags(ModeKind::PlayerDestruction).contains("tc"@));
    lemma_len_ne("robot_destruction"@, "tc"@);
    assert(mode_tags(ModeKind::RobotDestruction)[0] != "tc"@);
    lemma_len_ne("robot-destruction"@, "tc"@);
    assert(mode_tags(ModeKind::RobotDestruction)[1] != "tc"@);
    lemma_text_ne("rd"@, "tc"@, 0);
    assert(mode_tags(ModeKind::RobotDestruction)[2] != "tc"@);
    assert(mode_tags(ModeKind::RobotDestruction).len() == 3);
    assert(!mode_tags(ModeKind::RobotDestruction).contains("tc"@));
    lemma_len_ne("special_delivery"@, "tc"@);
    assert(mode_tags(ModeKind::SpecialDelivery)[0] != "tc"@);
    lemma_len_ne("special-delivery"@, "tc"@);
    assert(mode_tags(ModeKind::SpecialDelivery)[1] != "tc"@);
    lemma_text_ne("sd"@, "tc"@, 0);
    assert(mode_tags(ModeKind::SpecialDelivery)[2] != "tc"@);
    assert(mode_tags(ModeKind::SpecialDelivery).len() == 3);
    assert(!mode_tags(ModeKind::SpecialDelivery).contains("tc"@));
    assert(mode_tags(ModeKind::TerritorialControl)[2] == "tc"@);
    lemma_tag_at("tc"@, tag_order(), 7);
}

proof fn lemma_tag_23()
    ensures
        mode_by_tags(seq!["passtime"@], tag_order()) == Some(ModeKind::PassTime),
{
    reveal_strlit("a/d");
    reveal_strlit("attack-defend");
    reveal_strlit("attack_defend");
    reveal_strlit("capture-the-flag");
    reveal_strlit("capture_the_flag");
    reveal_strlit("ctf");
    reveal_strlit("king-of-the-hill");
    reveal_strlit("king_of_the_hill");
    reveal_strlit("koth");
    reveal_strlit("passtime");
    reveal_strlit("payload_race");
    reveal_strlit("pd");
    reveal_strlit("player-destruction");
    reveal_strlit("player_destruction");
    reveal_strlit("plr");
    reveal_strlit("rd");
    reveal_strlit("robot-destruction");
    reveal_strlit("robot_destruction");
    reveal_strlit("sd");
    reveal_strlit("special-delivery");
    reveal_strlit("special_delivery");
    reveal_strlit("tc");
    reveal_strlit("territorial-control");
    reveal_strlit("territorial_control");
    lemma_len_ne("payload_race"@, "passtime"@);
    assert(mode_tags(ModeKind::PayloadRace)[0] != "passtime"@);
    lemma_len_ne("plr"@, "passtime"@);
    assert(mode_tags(ModeKind::PayloadRace)[1] != "passtime"@);
    assert(mode_tags(ModeKind::PayloadRace).len() == 2);
    assert(!mode_tags(ModeKind::PayloadRace).contains("passtime"@));
    lemma_len_ne("attack_defend"@, "passtime"@);
    assert(mode_tags(ModeKind::AttackDefend)[0] != "passtime"@);
    lemma_len_ne("attack-defend"@, "passtime"@);
    assert(mode_tags(ModeKind::AttackDefend)[1] != "passtime"@);
    lemma_len_ne("a/d"@, "passtime"@);
    assert(mode_tags(ModeKind::AttackDefend)[2] != "passtime"@);
    assert(mode_tags(ModeKind::AttackDefend).len() == 3);
    assert(!mode_tags(ModeKind::AttackDefend).contains("passtime"@));
    lemma_len_ne("king_of_the_hill"@, "passtime"@);
    assert(mode_tags(ModeKind::KingOfTheHill)[0] != "passtime"@);
    lemma_len_ne("king-of-the-hill"@, "passtime"@);
    assert(mode_tags(ModeKind::KingOfTheHill)[1] != "passtime"@);
    lemma_len_ne("koth"@, "passtime"@);
    assert(mode_tags(ModeKind::KingOfTheHill)[2] != "passtime"@);
    assert(mode_tags(ModeKind::KingOfTheHill).len() == 3);
    assert(!mode_tags(ModeKind::KingOfTheHill).contains("passtime"@));
    lemma_len_ne("capture_the_flag"@, "passtime"@);
    assert(mode_tags(ModeKind::CaptureTheFlag)[0] != "passtime"@);
    lemma_len_ne("capture-the-flag"@, "passtime"@);
    assert(mode_tags(ModeKind::CaptureTheFlag)[1] != "passtime"@);
    lemma_len_ne("ctf"@, "passtime"@);
    assert(mode_tags(ModeKind::CaptureTheFlag)[2] != "passtime"@);
    assert(mode_tags(ModeKind::CaptureTheFlag).len() == 3);
    assert(!mode_tags(ModeKind::CaptureTheFlag).contains("passtime"@));
    lemma_len_ne("player_destruction"@, "passtime"@);
    assert(mode_tags(ModeKind::PlayerDestruction)[0] != "passtime"@);
    lemma_len_ne("player-destruction"@, "passtime"@);
    assert(mode_tags(ModeKind::PlayerDestruction)[1] != "passtime"@);
    lemma_len_ne("pd"@, "passtime"@);
    assert(mode_tags(ModeKind::PlayerDestruction)[2] != "passtime"@);
    assert(mode_tags(ModeKind::PlayerDestruction).len() == 3);
    assert(!mode_tags(ModeKind::PlayerDestruction).contains("passtime"@));
    lemma_len_ne("robot_destruction"@, "passtime"@);
    assert(mode_tags(ModeKind::RobotDestruction)[0] != "passtime"@);
    lemma_len_ne("robot-destruction"@, "passtime"@);
    assert(mode_tags(ModeKind::RobotDestruction)[1] != "passtime"@);
    lemma_len_ne("rd"@, "passtime"@);
    assert(mode_tags(ModeKind::RobotDestruction)[2] != "passtime"@);
    assert(mode_tags(ModeKind::RobotDestruction).len() == 3);
    assert(!mode_tags(ModeKind::RobotDestruction).contains("passtime"@));
    lemma_len_ne("special_delivery"@, "passtime"@);
    assert(mode_tags(ModeKind::SpecialDelivery)[0] != "passtime"@);
    lemma_len_ne("special-delivery"@, "passtime"@);
    assert(mode_tags(ModeKind::SpecialDelivery)[1] != "passtime"@);
    lemma_len_ne("sd"@, "passtime"@);
    assert(mode_tags(ModeKind::SpecialDelivery)[2] != "passtime"@);
    assert(mode_tags(ModeKind::SpecialDelivery).len() == 3);
    assert(!mode_tags(ModeKind::SpecialDelivery).contains("passtime"@));
    lemma_len_ne("territorial_control"@, "passtime"@);
    assert(mode_tags(ModeKind::TerritorialControl)[0] != "passtime"@);
    lemma_len_ne("territorial-control"@, "passtime"@);
    assert(mode_tags(ModeKind::TerritorialControl)[1] != "passtime"@);
    lemma_len_ne("tc"@, "passtime"@);
    assert(mode_tags(ModeKind::TerritorialControl)[2] != "passtime"@);
    assert(mode_tags(ModeKind::TerritorialControl).len() == 3);
    assert(!mode_tags(ModeKind::TerritorialControl).contains("passtime"@));
    assert(mode_tags(ModeKind::PassTime)[0] == "passtime"@);
    lemma_tag_at("passtime"@, tag_order(), 8);
}

proof fn lemma_tag_24()
    ensures
        mode_by_tags(seq!["pass_time"@], tag_order()) == Some(ModeKind::PassTime),
{
    reveal_strlit("a/d");
    reveal_strlit("attack-defend");
    reveal_strlit("attack_defend");
    reveal_strlit("capture-the-flag");
    reveal_strlit("capture_the_flag");
    reveal_strlit("ctf");
    reveal_strlit("king-of-the-hill");
    reveal_strlit("king_of_the_hill");
    reveal_strlit("koth");
    reveal_strlit("pass_time");
    reveal_strlit("payload_race");
    reveal_strlit("pd");
    reveal_strlit("player-destruction");
    reveal_strlit("player_destruction");
    reveal_strlit("plr");
    reveal_strlit("rd");
    reveal_strlit("robot-destruction");
    reveal_strlit("robot_destruction");
    reveal_strlit("sd");
    reveal_strlit("special-delivery");
    reveal_strlit("special_delivery");
    reveal_strlit("tc");
    reveal_strlit("territorial-control");
    reveal_strlit("territorial_control");
    lemma_len_ne("payload_race"@, "pass_time"@);
    assert(mode_tags(ModeKind::PayloadRace)[0] != "pass_time"@);
    lemma_len_ne("plr"@, "pass_time"@);
    assert(mode_tags(ModeKind::PayloadRace)[1] != "pass_time"@);
    assert(mode_tags(ModeKind::PayloadRace).len() == 2);
    assert(!mode_tags(ModeKind::PayloadRace).contains("pass_time"@));
    lemma_len_ne("attack_defend"@, "pass_time"@);
    assert(mode_tags(ModeKind::AttackDefend)[0] != "pass_time"@);
    lemma_len_ne("attack-defend"@, "pass_time"@);
    assert(mode_tags(ModeKind::AttackDefend)[1] != "pass_time"@);
    lemma_len_ne("a/d"@, "pass_time"@);
    assert(mode_tags(ModeKind::AttackDefend)[2] != "pass_time"@);
    assert(mode_tags(ModeKind::AttackDefend).len() == 3);
    assert(!mode_tags(ModeKind::AttackDefend).contains("pass_time"@));
    lemma_len_ne("king_of_the_hill"@, "pass_time"@);
    assert(mode_tags(ModeKind::KingOfTheHill)[0] != "pass_time"@);
    lemma_len_ne("king-of-the-hill"@, "pass_time"@);
    assert(mode_tags(ModeKind::KingOfTheHill)[1] != "pass_time"@);
    lemma_len_ne("koth"@, "pass_time"@);
    assert(mode_tags(ModeKind::KingOfTheHill)[2] != "pass_time"@);
    assert(mode_tags(ModeKind::KingOfTheHill).len() == 3);
    assert(!mode_tags(ModeKind::KingOfTheHill).contains("pass_time"@));
    lemma_len_ne("capture_the_flag"@, "pass_time"@);
    assert(mode_tags(ModeKind::CaptureTheFlag)[0] != "pass_time"@);
    lemma_len_ne("capture-the-flag"@, "pass_time"@);
    assert(mode_tags(ModeKind::CaptureTheFlag)[1] != "pass_time"@);
    lemma_len_ne("ctf"@, "pass_time"@);
    assert(mode_tags(ModeKind::CaptureTheFlag)[2] != "pass_time"@);
    assert(mode_tags(ModeKind::CaptureTheFlag).len() == 3);
    assert(!mode_tags(ModeKind::CaptureTheFlag).contains("pass_time"@));
    lemma_len_ne("player_destruction"@, "pass_time"@);
    assert(mode_tags(ModeKind::PlayerDestruction)[0] != "pass_time"@);
    lemma_len_ne("player-destruction"@, "pass_time"@);
    assert(mode_tags(ModeKind::PlayerDestruction)[1] != "pass_time"@);
    lemma_len_ne("pd"@, "pass_time"@);
    assert(mode_tags(ModeKind::PlayerDestruction)[2] != "pass_time"@);
    assert(mode_tags(ModeKind::PlayerDestruction).len() == 3);
    assert(!mode_tags(ModeKind::PlayerDestruction).contains("pass_time"@));
    lemma_len_ne("robot_destruction"@, "pass_time"@);
    assert(mode_tags(ModeKind::RobotDestruction)[0] != "pass_time"@);
    lemma_len_ne("robot-destruction"@, "pass_time"@);
    assert(mode_tags(ModeKind::RobotDestruction)[1] != "pass_time"@);
    lemma_len_ne("rd"@, "pass_time"@);
    assert(mode_tags(ModeKind::RobotDestruction)[2] != "pass_time"@);
    assert(mode_tags(ModeKind::RobotDestruction).len() == 3);
    assert(!mode_tags(ModeKind::RobotDestruction).contains("pass_time"@));
    lemma_len_ne("special_delivery"@, "pass_time"@);
    assert(mode_tags(ModeKind::SpecialDelivery)[0] != "pass_time"@);
    lemma_len_ne("special-delivery"@, "pass_time"@);
    assert(mode_tags(ModeKind::SpecialDelivery)[1] != "pass_time"@);
    lemma_len_ne("sd"@, "pass_time"@);
    assert(mode_tags(ModeKind::SpecialDelivery)[2] != "pass_time"@);
    assert(mode_tags(ModeKind::SpecialDelivery).len() == 3);
    assert(!mode_tags(ModeKind::SpecialDelivery).contains("pass_time"@));
    lemma_len_ne("territorial_control"@, "pass_time"@);
    assert(mode_tags(ModeKind::TerritorialControl)[0] != "pass_time"@);
    lemma_len_ne("territorial-control"@, "pass_time"@);
    assert(mode_tags(ModeKind::TerritorialControl)[1] != "pass_time"@);
    lemma_len_ne("tc"@, "pass_time"@);
    assert(mode_tags(ModeKind::TerritorialControl)[2] != "pass_time"@);
    assert(mode_tags(ModeKind::TerritorialControl).len() == 3);
    assert(!mode_tags(ModeKind::TerritorialControl).contains("pass_time"@));
    assert(mode_tags(ModeKind::PassTime)[1] == "pass_time"@);
    lemma_tag_at("pass_time"@, tag_order(), 8);
}

proof fn lemma_tag_25()
    ensures
        mode_by_tags(seq!["pass"@], tag_order()) == Some(ModeKind::PassTime),
{
    reveal_strlit("a/d");
    reveal_strlit("attack-defend");
    reveal_strlit("attack_defend");
    reveal_strlit("capture-the-flag");
    reveal_strlit("capture_the_flag");
    reveal_strlit("ctf");
    reveal_strlit("king-of-the-hill");
    reveal_strlit("king_of_the_hill");
    reveal_strlit("koth");
    reveal_strlit("pass");
    reveal_strlit("payload_race");
    reveal_strlit("pd");
    reveal_strlit("player-destruction");
    reveal_strlit("player_destruction");
    reveal_strlit("plr");
    reveal_strlit("rd");
    reveal_strlit("robot-destruction");
    reveal_strlit("robot_destruction");
    reveal_strlit("sd");
    reveal_strlit("special-delivery");
    reveal_strlit("special_delivery");
    reveal_strlit("tc");
    reveal_strlit("territorial-control");
    reveal_strlit("territorial_control");
    lemma_len_ne("payload_race"@, "pass"@);
    assert(mode_tags(ModeKind::PayloadRace)[0] != "pass"@);
    lemma_len_ne("plr"@, "pass"@);
    assert(mode_tags(ModeKind::PayloadRace)[1] != "pass"@);
    assert(mode_tags(ModeKind::PayloadRace).len() == 2);
    assert(!mode_tags(ModeKind::PayloadRace).contains("pass"@));
    lemma_len_ne("attack_defend"@, "pass"@);
    assert(mode_tags(ModeKind::AttackDefend)[0] != "pass"@);
    lemma_len_ne("attack-defend"@, "pass"@);
    assert(mode_tags(ModeKind::AttackDefend)[1] != "pass"@);
    lemma_len_ne("a/d"@, "pass"@);
    assert(mode_tags(ModeKind::AttackDefend)[2] != "pass"@);
    assert(mode_tags(ModeKind::AttackDefend).len() == 3);
    assert(!mode_tags(ModeKind::AttackDefend).contains("pass"@));
    lemma_len_ne("king_of_the_hill"@, "pass"@);
    assert(mode_tags(ModeKind::KingOfTheHill)[0] != "pass"@);
    lemma_len_ne("king-of-the-hill"@, "pass"@);
    assert(mode_tags(ModeKind::KingOfTheHill)[1] != "pass"@);
    lemma_text_ne("koth"@, "pass"@, 0);
    assert(mode_tags(ModeKind::KingOfTheHill)[2] != "pass"@);
    assert(mode_tags(ModeKind::KingOfTheHill).len() == 3);
    assert(!mode_tags(ModeKind::KingOfTheHill).contains("pass"@));
    lemma_len_ne("capture_the_flag"@, "pass"@);
    assert(mode_tags(ModeKind::CaptureTheFlag)[0] != "pass"@);
    lemma_len_ne("capture-the-flag"@, "pass"@);
    assert(mode_tags(ModeKind::CaptureTheFlag)[1] != "pass"@);
    lemma_len_ne("ctf"@, "pass"@);
    assert(mode_tags(ModeKind::CaptureTheFlag)[2] != "pass"@);
    assert(mode_tags(ModeKind::CaptureTheFlag).len() == 3);
    assert(!mode_tags(ModeKind::CaptureTheFlag).contains("pass"@));
    lemma_len_ne("player_destruction"@, "pass"@);
    assert(mode_tags(ModeKind::PlayerDestruction)[0] != "pass"@);
    lemma_len_ne("player-destruction"@, "pass"@);
    assert(mode_tags(ModeKind::PlayerDestruction)[1] != "pass"@);
    lemma_len_ne("pd"@, "pass"@);
    assert(mode_tags(ModeKind::PlayerDestruction)[2] != "pass"@);
    assert(mode_tags(ModeKind::PlayerDestruction).len() == 3);
    assert(!mode_tags(ModeKind::PlayerDestruction).contains("pass"@));
    lemma_len_ne("robot_destruction"@, "pass"@);
    assert(mode_tags(ModeKind::RobotDestruction)[0] != "pass"@);
    lemma_len_ne("robot-destruction"@, "pass"@);
    assert(mode_tags(ModeKind::RobotDestruction)[1] != "pass"@);
    lemma_len_ne("rd"@, "pass"@);
    assert(mode_tags(ModeKind::RobotDestruction)[2] != "pass"@);
    assert(mode_tags(ModeKind::RobotDestruction).len() == 3);
    assert(!mode_tags(ModeKind::RobotDestruction).contains("pass"@));
    lemma_len_ne("special_delivery"@, "pass"@);
    assert(mode_tags(ModeKind::SpecialDelivery)[0] != "pass"@);
    lemma_len_ne("special-delivery"@, "pass"@);
    assert(mode_tags(ModeKind::SpecialDelivery)[1] != "pass"@);
    lemma_len_ne("sd"@, "pass"@);
    assert(mode_tags(ModeKind::SpecialDelivery)[2] != "pass"@);
    assert(mode_tags(ModeKind::SpecialDelivery).len() == 3);
    assert(!mode_tags(ModeKind::SpecialDelivery).contains("pass"@));
    lemma_len_ne("territorial_control"@, "pass"@);
    assert(mode_tags(ModeKind::TerritorialControl)[0] != "pass"@);
    lemma_len_ne("territorial-control"@, "pass"@);
    assert(mode_tags(ModeKind::TerritorialControl)[1] != "pass"@);
    lemma_len_ne("tc"@, "pass"@);
    assert(mode_tags(ModeKind::TerritorialControl)[2] != "pass"@);
    assert(mode_tags(ModeKind::TerritorialControl).len() == 3);
    assert(!mode_tags(ModeKind::TerritorialControl).contains("pass"@));
    assert(mode_tags(ModeKind::PassTime)[2] == "pass"@);
    lemma_tag_at("pass"@, tag_order(), 8);
}

proof fn lemma_tag_26()
    ensures
        mode_by_tags(seq!["versus_saxton_hale"@], tag_order()) == Some(ModeKind::VersusSaxtonHale),
{
    reveal_strlit("a/d");
    reveal_strlit("attack-defend");
    reveal_strlit("attack_defend");
    reveal_strlit("capture-the-flag");
    reveal_strlit("capture_the_flag");
    reveal_strlit("ctf");
    reveal_strlit("king-of-the-hill");
    reveal_strlit("king_of_the_hill");
    reveal_strlit("koth");
    reveal_strlit("pass");
    reveal_strlit("pass_time");
    reveal_strlit("passtime");
    reveal_strlit("payload_race");
    reveal_strlit("pd");
    reveal_strlit("player-destruction");
    reveal_strlit("player_destruction");
    reveal_strlit("plr");
    reveal_strlit("rd");
    reveal_strlit("robot-destruction");
    reveal_strlit("robot_destruction");
    reveal_strlit("sd");
    reveal_strlit("special-delivery");
    reveal_strlit("special_delivery");
    reveal_strlit("tc");
    reveal_strlit("territorial-control");
    reveal_strlit("territorial_control");
    reveal_strlit("versus_saxton_hale");
    lemma_len_ne("payload_race"@, "versus_saxton_hale"@);
    assert(mode_tags(ModeKind::PayloadRace)[0] != "versus_saxton_hale"@);
    lemma_len_ne("plr"@, "versus_saxton_hale"@);
    assert(mode_tags(ModeKind::PayloadRace)[1] != "versus_saxton_hale"@);
    assert(mode_tags(ModeKind::PayloadRace).len() == 2);
    assert(!mode_tags(ModeKind::PayloadRace).contains("versus_saxton_hale"@));
    lemma_len_ne("attack_defend"@, "versus_saxton_hale"@);
    assert(mode_tags(ModeKind::AttackDefend)[0] != "versus_saxton_hale"@);
    lemma_len_ne("attack-defend"@, "versus_saxton_hale"@);
    assert(mode_tags(ModeKind::AttackDefend)[1] != "versus_saxton_hale"@);
    lemma_len_ne("a/d"@, "versus_saxton_hale"@);
    assert(mode_tags(ModeKind::AttackDefend)[2] != "versus_saxton_hale"@);
    assert(mode_tags(ModeKind::AttackDefend).len() == 3);
    assert(!mode_tags(ModeKind::AttackDefend).contains("versus_saxton_hale"@));
    lemma_len_ne("king_of_the_hill"@, "versus_saxton_hale"@);
    assert(mode_tags(ModeKind::KingOfTheHill)[0] != "versus_saxton_hale"@);
    lemma_len_ne("king-of-the-hill"@, "versus_saxton_hale"@);
    assert(mode_tags(ModeKind::KingOfTheHill)[1] != "versus_saxton_hale"@);
    lemma_len_ne("koth"@, "versus_saxton_hale"@);
    assert(mode_tags(ModeKind::KingOfTheHill)[2] != "versus_saxton_hale"@);
    assert(mode_tags(ModeKind::KingOfTheHill).len() == 3);
    assert(!mode_tags(ModeKind::KingOfTheHill).contains("versus_saxton_hale"@));
    lemma_len_ne("capture_the_flag"@, "versus_saxton_hale"@);
    assert(mode_tags(ModeKind::CaptureTheFlag)[0] != "versus_saxton_hale"@);
    lemma_len_ne("capture-the-flag"@, "versus_saxton_hale"@);
    assert(mode_tags(ModeKind::CaptureTheFlag)[1] != "versus_saxton_hale"@);
    lemma_len_ne("ctf"@, "versus_saxton_hale"@);
    assert(mode_tags(ModeKind::CaptureTheFlag)[2] != "versus_saxton_hale"@);
    assert(mode_tags(ModeKind::CaptureTheFlag).len() == 3);
    assert(!mode_tags(ModeKind::CaptureTheFlag).contains("versus_saxton_hale"@));
    lemma_text_ne("player_destruction"@, "versus_saxton_hale"@, 0);
    assert(mode_tags(ModeKind::PlayerDestruction)[0] != "versus_saxton_hale"@);
    lemma_text_ne("player-destruction"@, "versus_saxton_hale"@, 0);
    assert(mode_tags(ModeKind::PlayerDestruction)[1] != "versus_saxton_hale"@);
    lemma_len_ne("pd"@, "versus_saxton_hale"@);
    assert(mode_tags(ModeKind::PlayerDestruction)[2] != "versus_saxton_hale"@);
    assert(mode_tags(ModeKind::PlayerDestruction).len() == 3);
    assert(!mode_tags(ModeKind::PlayerDestruction).contains("versus_saxton_hale"@));
    lemma_len_ne("robot_destruction"@, "versus_saxton_hale"@);
    assert(mode_tags(ModeKind::RobotDestruction)[0] != "versus_saxton_hale"@);
    lemma_len_ne("robot-destruction"@, "versus_saxton_hale"@);
    assert(mode_tags(ModeKind::RobotDestruction)[1] != "versus_saxton_hale"@);
    lemma_len_ne("rd"@, "versus_saxton_hale"@);
    assert(mode_tags(ModeKind::RobotDestruction)[2] != "versus_saxton_hale"@);
    assert(mode_tags(ModeKind::RobotDestruction).len() == 3);
    assert(!mode_tags(ModeKind::RobotDestruction).contains("versus_saxton_hale"@));
    lemma_len_ne("special_delivery"@, "versus_saxton_hale"@);
    assert(mode_tags(ModeKind::SpecialDelivery)[0] != "versus_saxton_hale"@);
    lemma_len_ne("special-delivery"@, "versus_saxton_hale"@);
    assert(mode_tags(ModeKind::SpecialDelivery)[1] != "versus_saxton_hale"@);
    lemma_len_ne("sd"@, "versus_saxton_hale"@);
    assert(mode_tags(ModeKind::SpecialDelivery)[2] != "versus_saxton_hale"@);
    assert(mode_tags(ModeKind::SpecialDelivery).len() == 3);
    assert(!mode_tags(ModeKind::SpecialDelivery).contains("versus_saxton_hale"@));
    lemma_len_ne("territorial_control"@, "versus_saxton_hale"@);
    assert(mode_tags(ModeKind::TerritorialControl)[0] != "versus_saxton_hale"@);
    lemma_len_ne("territorial-control"@, "versus_saxton_hale"@);
    assert(mode_tags(ModeKind::TerritorialControl)[1] != "versus_saxton_hale"@);
    lemma_len_ne("tc"@, "versus_saxton_hale"@);
    assert(mode_tags(ModeKind::TerritorialControl)[2] != "versus_saxton_hale"@);
    assert(mode_tags(ModeKind::TerritorialControl).len() == 3);
    assert(!mode_tags(ModeKind::TerritorialControl).contains("versus_saxton_hale"@));
    lemma_len_ne("passtime"@, "versus_saxton_hale"@);
    assert(mode_tags(ModeKind::PassTime)[0] != "versus_saxton_hale"@);
    lemma_len_ne("pass_time"@, "versus_saxton_hale"@);
    assert(mode_tags(ModeKind::PassTime)[1] != "versus_saxton_hale"@);
    lemma_len_ne("pass"@, "versus_saxton_hale"@);
    assert(mode_tags(ModeKind::PassTime)[2] != "versus_saxton_hale"@);
    assert(mode_tags(ModeKind::PassTime).len() == 3);
    assert(!mode_tags(ModeKind::PassTime).contains("versus_saxton_hale"@));
    assert(mode_tags(ModeKind::VersusSaxtonHale)[0] == "versus_saxton_hale"@);
    lemma_tag_at("versus_saxton_hale"@, tag_order(), 9);
}

proof fn lemma_tag_27()
    ensures
        mode_by_tags(seq!["vsh"@], tag_order()) == Some(ModeKind::VersusSaxtonHale),
{
    reveal_strlit("a/d");
    reveal_strlit("attack-defend");
    reveal_strlit("attack_defend");
    reveal_strlit("capture-the-flag");
    reveal_strlit("capture_the_flag");
    reveal_strlit("ctf");
    reveal_strlit("king-of-the-hill");
    reveal_strlit("king_of_the_hill");
    reveal_strlit("koth");
    reveal_strlit("pass");
    reveal_strlit("pass_time");
    reveal_strlit("passtime");
    reveal_strlit("payload_race");
    reveal_strlit("pd");
    reveal_strlit("player-destruction");
    reveal_strlit("player_destruction");
    reveal_strlit("plr");
    reveal_strlit("rd");
    reveal_strlit("robot-destruction");
    reveal_strlit("robot_destruction");
    reveal_strlit("sd");
    reveal_strlit("special-delivery");
    reveal_strlit("special_delivery");
    reveal_strlit("tc");
    reveal_strlit("territorial-control");
    reveal_strlit("territorial_control");
    reveal_strlit("vsh");
    lemma_len_ne("payload_race"@, "vsh"@);
    assert(mode_tags(ModeKind::PayloadRace)[0] != "vsh"@);
    lemma_text_ne("plr"@, "vsh"@, 0);
    assert(mode_tags(ModeKind::PayloadRace)[1] != "vsh"@);
    assert(mode_tags(ModeKind::PayloadRace).len() == 2);
    assert(!mode_tags(ModeKind::PayloadRace).contains("vsh"@));
    lemma_len_ne("attack_defend"@, "vsh"@);
    assert(mode_tags(ModeKind::AttackDefend)[0] != "vsh"@);
    lemma_len_ne("attack-defend"@, "vsh"@);
    assert(mode_tags(ModeKind::AttackDefend)[1] != "vsh"@);
    lemma_text_ne("a/d"@, "vsh"@, 0);
    assert(mode_tags(ModeKind::AttackDefend)[2] != "vsh"@);
    assert(mode_tags(ModeKind::AttackDefend).len() == 3);
    assert(!mode_tags(ModeKind::AttackDefend).contains("vsh"@));
    lemma_len_ne("king_of_the_hill"@, "vsh"@);
    assert(mode_tags(ModeKind::KingOfTheHill)[0] != "vsh"@);
    lemma_len_ne("king-of-the-hill"@, "vsh"@);
    assert(mode_tags(ModeKind::KingOfTheHill)[1] != "vsh"@);
    lemma_len_ne("koth"@, "vsh"@);
    assert(mode_tags(ModeKind::KingOfTheHill)[2] != "vsh"@);
    assert(mode_tags(ModeKind::KingOfTheHill).len() == 3);
    assert(!mode_tags(ModeKind::KingOfTheHill).contains("vsh"@));
    lemma_len_ne("capture_the_flag"@, "vsh"@);
    assert(mode_tags(ModeKind::CaptureTheFlag)[0] != "vsh"@);
    lemma_len_ne("capture-the-flag"@, "vsh"@);
    assert(mode_tags(ModeKind::CaptureTheFlag)[1] != "vsh"@);
    lemma_text_ne("ctf"@, "vsh"@, 0);
    assert(mode_tags(ModeKind::CaptureTheFlag)[2] != "vsh"@);
    assert(mode_tags(ModeKind::CaptureTheFlag).len() == 3);
    assert(!mode_tags(ModeKind::CaptureTheFlag).contains("vsh"@));
    lemma_len_ne("player_destruction"@, "vsh"@);
    assert(mode_tags(ModeKind::PlayerDestruction)[0] != "vsh"@);
    lemma_len_ne("player-destruction"@, "vsh"@);
    assert(mode_tags(ModeKind::PlayerDestruction)[1] != "vsh"@);
    lemma_len_ne("pd"@, "vsh"@);
    assert(mode_tags(ModeKind::PlayerDestruction)[2] != "vsh"@);
    assert(mode_tags(ModeKind::PlayerDestruction).len() == 3);
    assert(!mode_tags(ModeKind::PlayerDestruction).contains("vsh"@));
    lemma_len_ne("robot_destruction"@, "vsh"@);
    assert(mode_tags(ModeKind::RobotDestruction)[0] != "vsh"@);
    lemma_len_ne("robot-destruction"@, "vsh"@);
    assert(mode_tags(ModeKind::RobotDestruction)[1] != "vsh"@);
    lemma_len_ne("rd"@, "vsh"@);
    assert(mode_tags(ModeKind::RobotDestruction)[2] != "vsh"@);
    assert(mode_tags(ModeKind::RobotDestruction).len() == 3);
    assert(!mode_tags(ModeKind::RobotDestruction).contains("vsh"@));
    lemma_len_ne("special_delivery"@, "vsh"@);
    assert(mode_tags(ModeKind::SpecialDelivery)[0] != "vsh"@);
    lemma_len_ne("special-delivery"@, "vsh"@);
    assert(mode_tags(ModeKind::SpecialDelivery)[1] != "vsh"@);
    lemma_len_ne("sd"@, "vsh"@);
    assert(mode_tags(ModeKind::SpecialDelivery)[2] != "vsh"@);
    assert(mode_tags(ModeKind::SpecialDelivery).len() == 3);
    assert(!mode_tags(ModeKind::SpecialDelivery).contains("vsh"@));
    lemma_len_ne("territorial_control"@, "vsh"@);
    assert(mode_tags(ModeKind::TerritorialControl)[0] != "vsh"@);
    lemma_len_ne("territorial-control"@, "vsh"@);
    assert(mode_tags(ModeKind::TerritorialControl)[1] != "vsh"@);
    lemma_len_ne("tc"@, "vsh"@);
    assert(mode_tags(ModeKind::TerritorialControl)[2] != "vsh"@);
    assert(mode_tags(ModeKind::TerritorialControl).len() == 3);
    assert(!mode_tags(ModeKind::TerritorialControl).contains("vsh"@));
    lemma_len_ne("passtime"@, "vsh"@);
    assert(mode_tags(ModeKind::PassTime)[0] != "vsh"@);
    lemma_len_ne("pass_time"@, "vsh"@);
    assert(mode_tags(ModeKind::PassTime)[1] != "vsh"@);
    lemma_len_ne("pass"@, "vsh"@);
    assert(mode_tags(ModeKind::PassTime)[2] != "vsh"@);
    assert(mode_tags(ModeKind::PassTime).len() == 3);
    assert(!mode_tags(ModeKind::PassTime).contains("vsh"@));
    assert(mode_tags(ModeKind::VersusSaxtonHale)[1] == "vsh"@);
    lemma_tag_at("vsh"@, tag_order(), 9);
}

proof fn lemma_tag_28()
    ensures
        mode_by_tags(seq!["zombie_infection"@], tag_order()) == Some(ModeKind::ZombieInfection),
{
    reveal_strlit("a/d");
    reveal_strlit("attack-defend");
    reveal_strlit("attack_defend");
    reveal_strlit("capture-the-flag");
    reveal_strlit("capture_the_flag");
    reveal_strlit("ctf");
    reveal_strlit("king-of-the-hill");
    reveal_strlit("king_of_the_hill");
    reveal_strlit("koth");
    reveal_strlit("pass");
    reveal_strlit("pass_time");
    reveal_strlit("passtime");
    reveal_strlit("payload_race");
    reveal_strlit("pd");
    reveal_strlit("player-destruction");
    reveal_strlit("player_destruction");
    reveal_strlit("plr");
    reveal_strlit("rd");
    reveal_strlit("robot-destruction");
    reveal_strlit("robot_destruction");
    reveal_strlit("sd");
    reveal_strlit("special-delivery");
    reveal_strlit("special_delivery");
    reveal_strlit("tc");
    reveal_strlit("territorial-control");
    reveal_strlit("territorial_control");
    reveal_strlit("versus_saxton_hale");
    reveal_strlit("vsh");
    reveal_strlit("zombie_infection");
    lemma_len_ne("payload_race"@, "zombie_infection"@);
    assert(mode_tags(ModeKind::PayloadRace)[0] != "zombie_infection"@);
    lemma_len_ne("plr"@, "zombie_infection"@);
    assert(mode_tags(ModeKind::PayloadRace)[1] != "zombie_infection"@);
    assert(mode_tags(ModeKind::PayloadRace).len() == 2);
    assert(!mode_tags(ModeKind::PayloadRace).contains("zombie_infection"@));
    lemma_len_ne("attack_defend"@, "zombie_infection"@);
    assert(mode_tags(ModeKind::AttackDefend)[0] != "zombie_infection"@);
    lemma_len_ne("attack-defend"@, "zombie_infection"@);
    assert(mode_tags(ModeKind::AttackDefend)[1] != "zombie_infection"@);
    lemma_len_ne("a/d"@, "zombie_infection"@);
    assert(mode_tags(ModeKind::AttackDefend)[2] != "zombie_infection"@);
    assert(mode_tags(ModeKind::AttackDefend).len() == 3);
    assert(!mode_tags(ModeKind::AttackDefend).contains("zombie_infection"@));
    lemma_text_ne("king_of_the_hill"@, "zombie_infection"@, 0);
    assert(mode_tags(ModeKind::KingOfTheHill)[0] != "zombie_infection"@);
    lemma_text_ne("king-of-the-hill"@, "zombie_infection"@, 0);
    assert(mode_tags(ModeKind::KingOfTheHill)[1] != "zombie_infection"@);
    lemma_len_ne("koth"@, "zombie_infection"@);
    assert(mode_tags(ModeKind::KingOfTheHill)[2] != "zombie_infection"@);
    assert(mode_tags(ModeKind::KingOfTheHill).len() == 3);
    assert(!mode_tags(ModeKind::KingOfTheHill).contains("zombie_infection"@));
    lemma_text_ne("capture_the_flag"@, "zombie_infection"@, 0);
    assert(mode_tags(ModeKind::CaptureTheFlag)[0] != "zombie_infection"@);
    lemma_text_ne("capture-the-flag"@, "zombie_infection"@, 0);
    assert(mode_tags(ModeKind::CaptureTheFlag)[1] != "zombie_infection"@);
    lemma_len_ne("ctf"@, "zombie_infection"@);
    assert(mode_tags(ModeKind::CaptureTheFlag)[2] != "zombie_infection"@);
    assert(mode_tags(ModeKind::CaptureTheFlag).len() == 3);
    assert(!mode_tags(ModeKind::CaptureTheFlag).contains("zombie_infection"@));
    lemma_len_ne("player_destruction"@, "zombie_infection"@);
    assert(mode_tags(ModeKind::PlayerDestruction)[0] != "zombie_infection"@);
    lemma_len_ne("player-destruction"@, "zombie_infection"@);
    assert(mode_tags(ModeKind::PlayerDestruction)[1] != "zombie_infection"@);
    lemma_len_ne("pd"@, "zombie_infection"@);
    assert(mode_tags(ModeKind::PlayerDestruction)[2] != "zombie_infection"@);
    assert(mode_tags(ModeKind::PlayerDestruction).len() == 3);
    assert(!mode_tags(ModeKind::PlayerDestruction).contains("zombie_infection"@));
    lemma_len_ne("robot_destruction"@, "zombie_infection"@);
    assert(mode_tags(ModeKind::RobotDestruction)[0] != "zombie_infection"@);
    lemma_len_ne("robot-destruction"@, "zombie_infection"@);
    assert(mode_tags(ModeKind::RobotDestruction)[1] != "zombie_infection"@);
    lemma_len_ne("rd"@, "zombie_infection"@);
    assert(mode_tags(ModeKind::RobotDestruction)[2] != "zombie_infection"@);
    assert(mode_tags(ModeKind::RobotDestruction).len() == 3);
    assert(!mode_tags(ModeKind::RobotDestruction).contains("zombie_infection"@));
    lemma_text_ne("special_delivery"@, "zombie_infection"@, 0);
    assert(mode_tags(ModeKind::SpecialDelivery)[0] != "zombie_infection"@);
    lemma_text_ne("special-delivery"@, "zombie_infection"@, 0);
    assert(mode_tags(ModeKind::SpecialDelivery)[1] != "zombie_infection"@);
    lemma_len_ne("sd"@, "zombie_infection"@);
    assert(mode_tags(ModeKind::SpecialDelivery)[2] != "zombie_infection"@);
    assert(mode_tags(ModeKind::SpecialDelivery).len() == 3);
    assert(!mode_tags(ModeKind::SpecialDelivery).contains("zombie_infection"@));
    lemma_len_ne("territorial_control"@, "zombie_infection"@);
    assert(mode_tags(ModeKind::TerritorialControl)[0] != "zombie_infection"@);
    lemma_len_ne("territorial-control"@, "zombie_infection"@);
    assert(mode_tags(ModeKind::TerritorialControl)[1] != "zombie_infection"@);
    lemma_len_ne("tc"@, "zombie_infection"@);
    assert(mode_tags(ModeKind::TerritorialControl)[2] != "zombie_infection"@);
    assert(mode_tags(ModeKind::TerritorialControl).len() == 3);
    assert(!mode_tags(ModeKind::TerritorialControl).contains("zombie_infection"@));
    lemma_len_ne("passtime"@, "zombie_infection"@);
    assert(mode_tags(ModeKind::PassTime)[0] != "zombie_infection"@);
    lemma_len_ne("pass_time"@, "zombie_infection"@);
    assert(mode_tags(ModeKind::PassTime)[1] != "zombie_infection"@);
    lemma_len_ne("pass"@, "zombie_infection"@);
    assert(mode_tags(ModeKind::PassTime)[2] != "zombie_infection"@);
    assert(mode_tags(ModeKind::PassTime).len() == 3);
    assert(!mode_tags(ModeKind::PassTime).contains("zombie_infection"@));
    lemma_len_ne("versus_saxton_hale"@, "zombie_infection"@);
    assert(mode_tags(ModeKind::VersusSaxtonHale)[0] != "zombie_infection"@);
    lemma_len_ne("vsh"@, "zombie_infection"@);
    assert(mode_tags(ModeKind::VersusSaxtonHale)[1] != "zombie_infection"@);
    assert(mode_tags(ModeKind::VersusSaxtonHale).len() == 2);
    assert(!mode_tags(ModeKind::VersusSaxtonHale).contains("zombie_infection"@));
    assert(mode_tags(ModeKind::ZombieInfection)[0] == "zombie_infection"@);
    lemma_tag_at("zombie_infection"@, tag_order(), 10);
}

proof fn lemma_tag_29()
    ensures
        mode_by_tags(seq!["zi"@], tag_order()) == Some(ModeKind::ZombieInfection),
{
    reveal_strlit("a/d");
    reveal_strlit("attack-defend");
    reveal_strlit("attack_defend");
    reveal_strlit("capture-the-flag");
    reveal_strlit("capture_the_flag");
    reveal_strlit("ctf");
    reveal_strlit("king-of-the-hill");
    reveal_strlit("king_of_the_hill");
    reveal_strlit("koth");
    reveal_strlit("pass");
    reveal_strlit("pass_time");
    reveal_strlit("passtime");
    reveal_strlit("payload_race");
    reveal_strlit("pd");
    reveal_strlit("player-destruction");
    reveal_strlit("player_destruction");
    reveal_strlit("plr");
    reveal_strlit("rd");
    reveal_strlit("robot-destruction");
    reveal_strlit("robot_destruction");
    reveal_strlit("sd");
    reveal_strlit("special-delivery");
    reveal_strlit("special_delivery");
    reveal_strlit("tc");
    reveal_strlit("territorial-control");
    reveal_strlit("territorial_control");
    reveal_strlit("versus_saxton_hale");
    reveal_strlit("vsh");
    reveal_strlit("zi");
    lemma_len_ne("payload_race"@, "zi"@);
    assert(mode_tags(ModeKind::PayloadRace)[0] != "zi"@);
    lemma_len_ne("plr"@, "zi"@);
    assert(mode_tags(ModeKind::PayloadRace)[1] != "zi"@);
    assert(mode_tags(ModeKind::PayloadRace).len() == 2);
    assert(!mode_tags(ModeKind::PayloadRace).contains("zi"@));
    lemma_len_ne("attack_defend"@, "zi"@);
    assert(mode_tags(ModeKind::AttackDefend)[0] != "zi"@);
    lemma_len_ne("attack-defend"@, "zi"@);
    assert(mode_tags(ModeKind::AttackDefend)[1] != "zi"@);
    lemma_len_ne("a/d"@, "zi"@);
    assert(mode_tags(ModeKind::AttackDefend)[2] != "zi"@);
    assert(mode_tags(ModeKind::AttackDefend).len() == 3);
    assert(!mode_tags(ModeKind::AttackDefend).contains("zi"@));
    lemma_len_ne("king_of_the_hill"@, "zi"@);
    assert(mode_tags(ModeKind::KingOfTheHill)[0] != "zi"@);
    lemma_len_ne("king-of-the-hill"@, "zi"@);
    assert(mode_tags(ModeKind::KingOfTheHill)[1] != "zi"@);
    lemma_len_ne("koth"@, "zi"@);
    assert(mode_tags(ModeKind::KingOfTheHill)[2] != "zi"@);
    assert(mode_tags(ModeKind::KingOfTheHill).len() == 3);
    assert(!mode_tags(ModeKind::KingOfTheHill).contains("zi"@));
    lemma_len_ne("capture_the_flag"@, "zi"@);
    assert(mode_tags(ModeKind::CaptureTheFlag)[0] != "zi"@);
    lemma_len_ne("capture-the-flag"@, "zi"@);
    assert(mode_tags(ModeKind::CaptureTheFlag)[1] != "zi"@);
    lemma_len_ne("ctf"@, "zi"@);
    assert(mode_tags(ModeKind::CaptureTheFlag)[2] != "zi"@);
    assert(mode_tags(ModeKind::CaptureTheFlag).len() == 3);
    assert(!mode_tags(ModeKind::CaptureTheFlag).contains("zi"@));
    lemma_len_ne("player_destruction"@, "zi"@);
    assert(mode_tags(ModeKind::PlayerDestruction)[0] != "zi"@);
    lemma_len_ne("player-destruction"@, "zi"@);
    assert(mode_tags(ModeKind::PlayerDestruction)[1] != "zi"@);
    lemma_text_ne("pd"@, "zi"@, 0);
    assert(mode_tags(ModeKind::PlayerDestruction)[2] != "zi"@);
    assert(mode_tags(ModeKind::PlayerDestruction).len() == 3);
    assert(!mode_tags(ModeKind::PlayerDestruction).contains("zi"@));
    lemma_len_ne("robot_destruction"@, "zi"@);
    assert(mode_tags(ModeKind::RobotDestruction)[0] != "zi"@);
    lemma_len_ne("robot-destruction"@, "zi"@);
    assert(mode_tags(ModeKind::RobotDestruction)[1] != "zi"@);
    lemma_text_ne("rd"@, "zi"@, 0);
    assert(mode_tags(ModeKind::RobotDestruction)[2] != "zi"@);
    assert(mode_tags(ModeKind::RobotDestruction).len() == 3);
    assert(!mode_tags(ModeKind::RobotDestruction).contains("zi"@));
    lemma_len_ne("special_delivery"@, "zi"@);
    assert(mode_tags(ModeKind::SpecialDelivery)[0] != "zi"@);
    lemma_len_ne("special-delivery"@, "zi"@);
    assert(mode_tags(ModeKind::SpecialDelivery)[1] != "zi"@);
    lemma_text_ne("sd"@, "zi"@, 0);
    assert(mode_tags(ModeKind::SpecialDelivery)[2] != "zi"@);
    assert(mode_tags(ModeKind::SpecialDelivery).len() == 3);
    assert(!mode_tags(ModeKind::SpecialDelivery).contains("zi"@));
    lemma_len_ne("territorial_control"@, "zi"@);
    assert(mode_tags(ModeKind::TerritorialControl)[0] != "zi"@);
    lemma_len_ne("territorial-control"@, "zi"@);
    assert(mode_tags(ModeKind::TerritorialControl)[1] != "zi"@);
    lemma_text_ne("tc"@, "zi"@, 0);
    assert(mode_tags(ModeKind::TerritorialControl)[2] != "zi"@);
    assert(mode_tags(ModeKind::TerritorialControl).len() == 3);
    assert(!mode_tags(ModeKind::TerritorialControl).contains("zi"@));
    lemma_len_ne("passtime"@, "zi"@);
    assert(mode_tags(ModeKind::PassTime)[0] != "zi"@);
    lemma_len_ne("pass_time"@, "zi"@);
    assert(mode_tags(ModeKind::PassTime)[1] != "zi"@);
    lemma_len_ne("pass"@, "zi"@);
    assert(mode_tags(ModeKind::PassTime)[2] != "zi"@);
    assert(mode_tags(ModeKind::PassTime).len() == 3);
    assert(!mode_tags(ModeKind::PassTime).contains("zi"@));
    lemma_len_ne("versus_saxton_hale"@, "zi"@);
    assert(mode_tags(ModeKind::VersusSaxtonHale)[0] != "zi"@);
    lemma_len_ne("vsh"@, "zi"@);
    assert(mode_tags(ModeKind::VersusSaxtonHale)[1] != "zi"@);
    assert(mode_tags(ModeKind::VersusSaxtonHale).len() == 2);
    assert(!mode_tags(ModeKind::VersusSaxtonHale).contains("zi"@));
    assert(mode_tags(ModeKind::ZombieInfection)[1] == "zi"@);
    lemma_tag_at("zi"@, tag_order(), 10);
}

proof fn lemma_tag_30()
    ensures
        mode_by_tags(seq!["mann_vs_machine"@], tag_order()) == Some(ModeKind::MannVsMachine),
{
    reveal_strlit("a/d");
    reveal_strlit("attack-defend");
    reveal_strlit("attack_defend");
    reveal_strlit("capture-the-flag");
    reveal_strlit("capture_the_flag");
    reveal_strlit("ctf");
    reveal_strlit("king-of-the-hill");
    reveal_strlit("king_of_the_hill");
    reveal_strlit("koth");
    reveal_strlit("mann_vs_machine");
    reveal_strlit("pass");
    reveal_strlit("pass_time");
    reveal_strlit("passtime");
    reveal_strlit("payload_race");
    reveal_strlit("pd");
    reveal_strlit("player-destruction");
    reveal_strlit("player_destruction");
    reveal_strlit("plr");
    reveal_strlit("rd");
    reveal_strlit("robot-destruction");
    reveal_strlit("robot_destruction");
    reveal_strlit("sd");
    reveal_strlit("special-delivery");
    reveal_strlit("special_delivery");
    reveal_strlit("tc");
    reveal_strlit("territorial-control");
    reveal_strlit("territorial_control");
    reveal_strlit("versus_saxton_hale");
    reveal_strlit("vsh");
    reveal_strlit("zi");
    reveal_strlit("zombie_infection");
    lemma_len_ne("payload_race"@, "mann_vs_machine"@);
    assert(mode_tags(ModeKind::PayloadRace)[0] != "mann_vs_machine"@);
    lemma_len_ne("plr"@, "mann_vs_machine"@);
    assert(mode_tags(ModeKind::PayloadRace)[1] != "mann_vs_machine"@);
    assert(mode_tags(ModeKind::PayloadRace).len() == 2);
    assert(!mode_tags(ModeKind::PayloadRace).contains("mann_vs_machine"@));
    lemma_len_ne("attack_defend"@, "mann_vs_machine"@);
    assert(mode_tags(ModeKind::AttackDefend)[0] != "mann_vs_machine"@);
    lemma_len_ne("attack-defend"@, "mann_vs_machine"@);
    assert(mode_tags(ModeKind::AttackDefend)[1] != "mann_vs_machine"@);
    lemma_len_ne("a/d"@, "mann_vs_machine"@);
    assert(mode_tags(ModeKind::AttackDefend)[2] != "mann_vs_machine"@);
    assert(mode_tags(ModeKind::AttackDefend).len() == 3);
    assert(!mode_tags(ModeKind::AttackDefend).contains("mann_vs_machine"@));
    lemma_len_ne("king_of_the_hill"@, "mann_vs_machine"@);
    assert(mode_tags(ModeKind::KingOfTheHill)[0] != "mann_vs_machine"@);
    lemma_len_ne("king-of-the-hill"@, "mann_vs_machine"@);
    assert(mode_tags(ModeKind::KingOfTheHill)[1] != "mann_vs_machine"@);
    lemma_len_ne("koth"@, "mann_vs_machine"@);
    assert(mode_tags(ModeKind::KingOfTheHill)[2] != "mann_vs_machine"@);
    assert(mode_tags(ModeKind::KingOfTheHill).len() == 3);
    assert(!mode_tags(ModeKind::KingOfTheHill).contains("mann_vs_machine"@));
    lemma_len_ne("capture_the_flag"@, "mann_vs_machine"@);
    assert(mode_tags(ModeKind::CaptureTheFlag)[0] != "mann_vs_machine"@);
    lemma_len_ne("capture-the-flag"@, "mann_vs_machine"@);
    assert(mode_tags(ModeKind::CaptureTheFlag)[1] != "mann_vs_machine"@);
    lemma_len_ne("ctf"@, "mann_vs_machine"@);
    assert(mode_tags(ModeKind::CaptureTheFlag)[2] != "mann_vs_machine"@);
    assert(mode_tags(ModeKind::CaptureTheFlag).len() == 3);
    assert(!mode_tags(ModeKind::CaptureTheFlag).contains("mann_vs_machine"@));
    lemma_len_ne("player_destruction"@, "mann_vs_machine"@);
    assert(mode_tags(ModeKind::PlayerDestruction)[0] != "mann_vs_machine"@);
    lemma_len_ne("player-destruction"@, "mann_vs_machine"@);
    assert(mode_tags(ModeKind::PlayerDestruction)[1] != "mann_vs_machine"@);
    lemma_len_ne("pd"@, "mann_vs_machine"@);
    assert(mode_tags(ModeKind::PlayerDestruction)[2] != "mann_vs_machine"@);
    assert(mode_tags(ModeKind::PlayerDestruction).len() == 3);
    assert(!mode_tags(ModeKind::PlayerDestruction).contains("mann_vs_machine"@));
    lemma_len_ne("robot_destruction"@, "mann_vs_machine"@);
    assert(mode_tags(ModeKind::RobotDestruction)[0] != "mann_vs_machine"@);
    lemma_len_ne("robot-destruction"@, "mann_vs_machine"@);
    assert(mode_tags(ModeKind::RobotDestruction)[1] != "mann_vs_machine"@);
    lemma_len_ne("rd"@, "mann_vs_machine"@);
    assert(mode_tags(ModeKind::RobotDestruction)[2] != "mann_vs_machine"@);
    assert(mode_tags(ModeKind::RobotDestruction).len() == 3);
    assert(!mode_tags(ModeKind::RobotDestruction).contains("mann_vs_machine"@));
    lemma_len_ne("special_delivery"@, "mann_vs_machine"@);
    assert(mode_tags(ModeKind::SpecialDelivery)[0] != "mann_vs_machine"@);
    lemma_len_ne("special-delivery"@, "mann_vs_machine"@);
    assert(mode_tags(ModeKind::SpecialDelivery)[1] != "mann_vs_machine"@);
    lemma_len_ne("sd"@, "mann_vs_machine"@);
    assert(mode_tags(ModeKind::SpecialDelivery)[2] != "mann_vs_machine"@);
    assert(mode_tags(ModeKind::SpecialDelivery).len() == 3);
    assert(!mode_tags(ModeKind::SpecialDelivery).contains("mann_vs_machine"@));
    lemma_len_ne("territorial_control"@, "mann_vs_machine"@);
    assert(mode_tags(ModeKind::TerritorialControl)[0] != "mann_vs_machine"@);
    lemma_len_ne("territorial-control"@, "mann_vs_machine"@);
    assert(mode_tags(ModeKind::TerritorialControl)[1] != "mann_vs_machine"@);
    lemma_len_ne("tc"@, "mann_vs_machine"@);
    assert(mode_tags(ModeKind::TerritorialControl)[2] != "mann_vs_machine"@);
    assert(mode_tags(ModeKind::TerritorialControl).len() == 3);
    assert(!mode_tags(ModeKind::TerritorialControl).contains("mann_vs_machine"@));
    lemma_len_ne("passtime"@, "mann_vs_machine"@);
    assert(mode_tags(ModeKind::PassTime)[0] != "mann_vs_machine"@);
    lemma_len_ne("pass_time"@, "mann_vs_machine"@);
    assert(mode_tags(ModeKind::PassTime)[1] != "mann_vs_machine"@);
    lemma_len_ne("pass"@, "mann_vs_machine"@);
    assert(mode_tags(ModeKind::PassTime)[2] != "mann_vs_machine"@);
    assert(mode_tags(ModeKind::PassTime).len() == 3);
    assert(!mode_tags(ModeKind::PassTime).contains("mann_vs_machine"@));
    lemma_len_ne("versus_saxton_hale"@, "mann_vs_machine"@);
    assert(mode_tags(ModeKind::VersusSaxtonHale)[0] != "mann_vs_machine"@);
    lemma_len_ne("vsh"@, "mann_vs_machine"@);
    assert(mode_tags(ModeKind::VersusSaxtonHale)[1] != "mann_vs_machine"@);
    assert(mode_tags(ModeKind::VersusSaxtonHale).len() == 2);
    assert(!mode_tags(ModeKind::VersusSaxtonHale).contains("mann_vs_machine"@));
    lemma_len_ne("zombie_infection"@, "mann_vs_machine"@);
    assert(mode_tags(ModeKind::ZombieInfection)[0] != "mann_vs_machine"@);
    lemma_len_ne("zi"@, "mann_vs_machine"@);
    assert(mode_tags(ModeKind::ZombieInfection)[1] != "mann_vs_machine"@);
    assert(mode_tags(ModeKind::ZombieInfection).len() == 2);
    assert(!mode_tags(ModeKind::ZombieInfection).contains("mann_vs_machine"@));
    assert(mode_tags(ModeKind::MannVsMachine)[0] == "mann_vs_machine"@);
    lemma_tag_at("mann_vs_machine"@, tag_order(), 11);
}

proof fn lemma_tag_31()
    ensures
        mode_by_tags(seq!["mvm"@], tag_order()) == Some(ModeKind::MannVsMachine),
{
    reveal_strlit("a/d");
    reveal_strlit("attack-defend");
    reveal_strlit("attack_defend");
    reveal_strlit("capture-the-flag");
    reveal_strlit("capture_the_flag");
    reveal_strlit("ctf");
    reveal_strlit("king-of-the-hill");
    reveal_strlit("king_of_the_hill");
    reveal_strlit("koth");
    reveal_strlit("mvm");
    reveal_strlit("pass");
    reveal_strlit("pass_time");
    reveal_strlit("passtime");
    reveal_strlit("payload_race");
    reveal_strlit("pd");
    reveal_strlit("player-destruction");
    reveal_strlit("player_destruction");
    reveal_strlit("plr");
    reveal_strlit("rd");
    reveal_strlit("robot-destruction");
    reveal_strlit("robot_destruction");
    reveal_strlit("sd");
    reveal_strlit("special-delivery");
    reveal_strlit("special_delivery");
    reveal_strlit("tc");
    reveal_strlit("territorial-control");
    reveal_strlit("territorial_control");
    reveal_strlit("versus_saxton_hale");
    reveal_strlit("vsh");
    reveal_strlit("zi");
    reveal_strlit("zombie_infection");
    lemma_len_ne("payload_race"@, "mvm"@);
    assert(mode_tags(ModeKind::PayloadRace)[0] != "mvm"@);
    lemma_text_ne("plr"@, "mvm"@, 0);
    assert(mode_tags(ModeKind::PayloadRace)[1] != "mvm"@);
    assert(mode_tags(ModeKind::PayloadRace).len() == 2);
    assert(!mode_tags(ModeKind::PayloadRace).contains("mvm"@));
    lemma_len_ne("attack_defend"@, "mvm"@);
    assert(mode_tags(ModeKind::AttackDefend)[0] != "mvm"@);
    lemma_len_ne("attack-defend"@, "mvm"@);
    assert(mode_tags(ModeKind::AttackDefend)[1] != "mvm"@);
    lemma_text_ne("a/d"@, "mvm"@, 0);
    assert(mode_tags(ModeKind::AttackDefend)[2] != "mvm"@);
    assert(mode_tags(ModeKind::AttackDefend).len() == 3);
    assert(!mode_tags(ModeKind::AttackDefend).contains("mvm"@));
    lemma_len_ne("king_of_the_hill"@, "mvm"@);
    assert(mode_tags(ModeKind::KingOfTheHill)[0] != "mvm"@);
    lemma_len_ne("king-of-the-hill"@, "mvm"@);
    assert(mode_tags(ModeKind::KingOfTheHill)[1] != "mvm"@);
    lemma_len_ne("koth"@, "mvm"@);
    assert(mode_tags(ModeKind::KingOfTheHill)[2] != "mvm"@);
    assert(mode_tags(ModeKind::KingOfTheHill).len() == 3);
    assert(!mode_tags(ModeKind::KingOfTheHill).contains("mvm"@));
    lemma_len_ne("capture_the_flag"@, "mvm"@);
    assert(mode_tags(ModeKind::CaptureTheFlag)[0] != "mvm"@);
    lemma_len_ne("capture-the-flag"@, "mvm"@);
    assert(mode_tags(ModeKind::CaptureTheFlag)[1] != "mvm"@);
    lemma_text_ne("ctf"@, "mvm"@, 0);
    assert(mode_tags(ModeKind::CaptureTheFlag)[2] != "mvm"@);
    assert(mode_tags(ModeKind::CaptureTheFlag).len() == 3);
    assert(!mode_tags(ModeKind::CaptureTheFlag).contains("mvm"@));
    lemma_len_ne("player_destruction"@, "mvm"@);
    assert(mode_tags(ModeKind::PlayerDestruction)[0] != "mvm"@);
    lemma_len_ne("player-destruction"@, "mvm"@);
    assert(mode_tags(ModeKind::PlayerDestruction)[1] != "mvm"@);
    lemma_len_ne("pd"@, "mvm"@);
    assert(mode_tags(ModeKind::PlayerDestruction)[2] != "mvm"@);
    assert(mode_tags(ModeKind::PlayerDestruction).len() == 3);
    assert(!mode_tags(ModeKind::PlayerDestruction).contains("mvm"@));
    lemma_len_ne("robot_destruction"@, "mvm"@);
    assert(mode_tags(ModeKind::RobotDestruction)[0] != "mvm"@);
    lemma_len_ne("robot-destruction"@, "mvm"@);
    assert(mode_tags(ModeKind::RobotDestruction)[1] != "mvm"@);
    lemma_len_ne("rd"@, "mvm"@);
    assert(mode_tags(ModeKind::RobotDestruction)[2] != "mvm"@);
    assert(mode_tags(ModeKind::RobotDestruction).len() == 3);
    assert(!mode_tags(ModeKind::RobotDestruction).contains("mvm"@));
    lemma_len_ne("special_delivery"@, "mvm"@);
    assert(mode_tags(ModeKind::SpecialDelivery)[0] != "mvm"@);
    lemma_len_ne("special-delivery"@, "mvm"@);
    assert(mode_tags(ModeKind::SpecialDelivery)[1] != "mvm"@);
    lemma_len_ne("sd"@, "mvm"@);
    assert(mode_tags(ModeKind::SpecialDelivery)[2] != "mvm"@);
    assert(mode_tags(ModeKind::SpecialDelivery).len() == 3);
    assert(!mode_tags(ModeKind::SpecialDelivery).contains("mvm"@));
    lemma_len_ne("territorial_control"@, "mvm"@);
    assert(mode_tags(ModeKind::TerritorialControl)[0] != "mvm"@);
    lemma_len_ne("territorial-control"@, "mvm"@);
    assert(mode_tags(ModeKind::TerritorialControl)[1] != "mvm"@);
    lemma_len_ne("tc"@, "mvm"@);
    assert(mode_tags(ModeKind::TerritorialControl)[2] != "mvm"@);
    assert(mode_tags(ModeKind::TerritorialControl).len() == 3);
    assert(!mode_tags(ModeKind::TerritorialControl).contains("mvm"@));
    lemma_len_ne("passtime"@, "mvm"@);
    assert(mode_tags(ModeKind::PassTime)[0] != "mvm"@);
    lemma_len_ne("pass_time"@, "mvm"@);
    assert(mode_tags(ModeKind::PassTime)[1] != "mvm"@);
    lemma_len_ne("pass"@, "mvm"@);
    assert(mode_tags(ModeKind::PassTime)[2] != "mvm"@);
    assert(mode_tags(ModeKind::PassTime).len() == 3);
    assert(!mode_tags(ModeKind::PassTime).contains("mvm"@));
    lemma_len_ne("versus_saxton_hale"@, "mvm"@);
    assert(mode_tags(ModeKind::VersusSaxtonHale)[0] != "mvm"@);
    lemma_text_ne("vsh"@, "mvm"@, 0);
    assert(mode_tags(ModeKind::VersusSaxtonHale)[1] != "mvm"@);
    assert(mode_tags(ModeKind::VersusSaxtonHale).len() == 2);
    assert(!mode_tags(ModeKind::VersusSaxtonHale).contains("mvm"@));
    lemma_len_ne("zombie_infection"@, "mvm"@);
    assert(mode_tags(ModeKind::ZombieInfection)[0] != "mvm"@);
    lemma_len_ne("zi"@, "mvm"@);
    assert(mode_tags(ModeKind::ZombieInfection)[1] != "mvm"@);
    assert(mode_tags(ModeKind::ZombieInfection).len() == 2);
    assert(!mode_tags(ModeKind::ZombieInfection).contains("mvm"@));
    assert(mode_tags(ModeKind::MannVsMachine)[1] == "mvm"@);
    lemma_tag_at("mvm"@, tag_order(), 11);
}

proof fn lemma_tag_32()
    ensures
        mode_by_tags(seq!["payload"@], tag_order()) == Some(ModeKind::Payload),
{
    reveal_strlit("a/d");
    reveal_strlit("attack-defend");
    reveal_strlit("attack_defend");
    reveal_strlit("capture-the-flag");
    reveal_strlit("capture_the_flag");
    reveal_strlit("ctf");
    reveal_strlit("king-of-the-hill");
    reveal_strlit("king_of_the_hill");
    reveal_strlit("koth");
    reveal_strlit("mann_vs_machine");
    reveal_strlit("mvm");
    reveal_strlit("pass");
    reveal_strlit("pass_time");
    reveal_strlit("passtime");
    reveal_strlit("payload");
    reveal_strlit("payload_race");
    reveal_strlit("pd");
    reveal_strlit("player-destruction");
    reveal_strlit("player_destruction");
    reveal_strlit("plr");
    reveal_strlit("rd");
    reveal_strlit("robot-destruction");
    reveal_strlit("robot_destruction");
    reveal_strlit("sd");
    reveal_strlit("special-delivery");
    reveal_strlit("special_delivery");
    reveal_strlit("tc");
    reveal_strlit("territorial-control");
    reveal_strlit("territorial_control");
    reveal_strlit("versus_saxton_hale");
    reveal_strlit("vsh");
    reveal_strlit("zi");
    reveal_strlit("zombie_infection");
    lemma_len_ne("payload_race"@, "payload"@);
    assert(mode_tags(ModeKind::PayloadRace)[0] != "payload"@);
    lemma_len_ne("plr"@, "payload"@);
    assert(mode_tags(ModeKind::PayloadRace)[1] != "payload"@);
    assert(mode_tags(ModeKind::PayloadRace).len() == 2);
    assert(!mode_tags(ModeKind::PayloadRace).contains("payload"@));
    lemma_len_ne("attack_defend"@, "payload"@);
    assert(mode_tags(ModeKind::AttackDefend)[0] != "payload"@);
    lemma_len_ne("attack-defend"@, "payload"@);
    assert(mode_tags(ModeKind::AttackDefend)[1] != "payload"@);
    lemma_len_ne("a/d"@, "payload"@);
    assert(mode_tags(ModeKind::AttackDefend)[2] != "payload"@);
    assert(mode_tags(ModeKind::AttackDefend).len() == 3);
    assert(!mode_tags(ModeKind::AttackDefend).contains("payload"@));
    lemma_len_ne("king_of_the_hill"@, "payload"@);
    assert(mode_tags(ModeKind::KingOfTheHill)[0] != "payload"@);
    lemma_len_ne("king-of-the-hill"@, "payload"@);
    assert(mode_tags(ModeKind::KingOfTheHill)[1] != "payload"@);
    lemma_len_ne("koth"@, "payload"@);
    assert(mode_tags(ModeKind::KingOfTheHill)[2] != "payload"@);
    assert(mode_tags(ModeKind::KingOfTheHill).len() == 3);
    assert(!mode_tags(ModeKind::KingOfTheHill).contains("payload"@));
    lemma_len_ne("capture_the_flag"@, "payload"@);
    assert(mode_tags(ModeKind::CaptureTheFlag)[0] != "payload"@);
    lemma_len_ne("capture-the-flag"@, "payload"@);
    assert(mode_tags(ModeKind::CaptureTheFlag)[1] != "payload"@);
    lemma_len_ne("ctf"@, "payload"@);
    assert(mode_tags(ModeKind::CaptureTheFlag)[2] != "payload"@);
    assert(mode_tags(ModeKind::CaptureTheFlag).len() == 3);
    assert(!mode_tags(ModeKind::CaptureTheFlag).contains("payload"@));
    lemma_len_ne("player_destruction"@, "payload"@);
    assert(mode_tags(ModeKind::PlayerDestruction)[0] != "payload"@);
    lemma_len_ne("player-destruction"@, "payload"@);
    assert(mode_tags(ModeKind::PlayerDestruction)[1] != "payload"@);
    lemma_len_ne("pd"@, "payload"@);
    assert(mode_tags(ModeKind::PlayerDestruction)[2] != "payload"@);
    assert(mode_tags(ModeKind::PlayerDestruction).len() == 3);
    assert(!mode_tags(ModeKind::PlayerDestruction).contains("payload"@));
    lemma_len_ne("robot_destruction"@, "payload"@);
    assert(mode_tags(ModeKind::RobotDestruction)[0] != "payload"@);
    lemma_len_ne("robot-destruction"@, "payload"@);
    assert(mode_tags(ModeKind::RobotDestruction)[1] != "payload"@);
    lemma_len_ne("rd"@, "payload"@);
    assert(mode_tags(ModeKind::RobotDestruction)[2] != "payload"@);
    assert(mode_tags(ModeKind::RobotDestruction).len() == 3);
    assert(!mode_tags(ModeKind::RobotDestruction).contains("payload"@));
    lemma_len_ne("special_delivery"@, "payload"@);
    assert(mode_tags(ModeKind::SpecialDelivery)[0] != "payload"@);
    lemma_len_ne("special-delivery"@, "payload"@);
    assert(mode_tags(ModeKind::SpecialDelivery)[1] != "payload"@);
    lemma_len_ne("sd"@, "payload"@);
    assert(mode_tags(ModeKind::SpecialDelivery)[2] != "payload"@);
    assert(mode_tags(ModeKind::SpecialDelivery).len() == 3);
    assert(!mode_tags(ModeKind::SpecialDelivery).contains("payload"@));
    lemma_len_ne("territorial_control"@, "payload"@);
    assert(mode_tags(ModeKind::TerritorialControl)[0] != "payload"@);
    lemma_len_ne("territorial-control"@, "payload"@);
    assert(mode_tags(ModeKind::TerritorialControl)[1] != "payload"@);
    lemma_len_ne("tc"@, "payload"@);
    assert(mode_tags(ModeKind::TerritorialControl)[2] != "payload"@);
    assert(mode_tags(ModeKind::TerritorialControl).len() == 3);
    assert(!mode_tags(ModeKind::TerritorialControl).contains("payload"@));
    lemma_len_ne("passtime"@, "payload"@);
    assert(mode_tags(ModeKind::PassTime)[0] != "payload"@);
    lemma_len_ne("pass_time"@, "payload"@);
    assert(mode_tags(ModeKind::PassTime)[1] != "payload"@);
    lemma_len_ne("pass"@, "payload"@);
    assert(mode_tags(ModeKind::PassTime)[2] != "payload"@);
    assert(mode_tags(ModeKind::PassTime).len() == 3);
    assert(!mode_tags(ModeKind::PassTime).contains("payload"@));
    lemma_len_ne("versus_saxton_hale"@, "payload"@);
    assert(mode_tags(ModeKind::VersusSaxtonHale)[0] != "payload"@);
    lemma_len_ne("vsh"@, "payload"@);
    assert(mode_tags(ModeKind::VersusSaxtonHale)[1] != "payload"@);
    assert(mode_tags(ModeKind::VersusSaxtonHale).len() == 2);
    assert(!mode_tags(ModeKind::VersusSaxtonHale).contains("payload"@));
    lemma_len_ne("zombie_infection"@, "payload"@);
    assert(mode_tags(ModeKind::ZombieInfection)[0] != "payload"@);
    lemma_len_ne("zi"@, "payload"@);
    assert(mode_tags(ModeKind::ZombieInfection)[1] != "payload"@);
    assert(mode_tags(ModeKind::ZombieInfection).len() == 2);
    assert(!mode_tags(ModeKind::ZombieInfection).contains("payload"@));
    lemma_len_ne("mann_vs_machine"@, "payload"@);
    assert(mode_tags(ModeKind::MannVsMachine)[0] != "payload"@);
    lemma_len_ne("mvm"@, "payload"@);
    assert(mode_tags(ModeKind::MannVsMachine)[1] != "payload"@);
    assert(mode_tags(ModeKind::MannVsMachine).len() == 2);
    assert(!mode_tags(ModeKind::MannVsMachine).contains("payload"@));
    assert(mode_tags(ModeKind::Payload)[0] == "payload"@);
    lemma_tag_at("payload"@, tag_order(), 12);
}

proof fn lemma_tag_33()
    ensures
        mode_by_tags(seq!["pl"@], tag_order()) == Some(ModeKind::Payload),
{
    reveal_strlit("a/d");
    reveal_strlit("attack-defend");
    reveal_strlit("attack_defend");
    reveal_strlit("capture-the-flag");
    reveal_strlit("capture_the_flag");
    reveal_strlit("ctf");
    reveal_strlit("king-of-the-hill");
    reveal_strlit("king_of_the_hill");
    reveal_strlit("koth");
    reveal_strlit("mann_vs_machine");
    reveal_strlit("mvm");
    reveal_strlit("pass");
    reveal_strlit("pass_time");
    reveal_strlit("passtime");
    reveal_strlit("payload_race");
    reveal_strlit("pd");
    reveal_strlit("pl");
    reveal_strlit("player-destruction");
    reveal_strlit("player_destruction");
    reveal_strlit("plr");
    reveal_strlit("rd");
    reveal_strlit("robot-destruction");
    reveal_strlit("robot_destruction");
    reveal_strlit("sd");
    reveal_strlit("special-delivery");
    reveal_strlit("special_delivery");
    reveal_strlit("tc");
    reveal_strlit("territorial-control");
    reveal_strlit("territorial_control");
    reveal_strlit("versus_saxton_hale");
    reveal_strlit("vsh");
    reveal_strlit("zi");
    reveal_strlit("zombie_infection");
    lemma_len_ne("payload_race"@, "pl"@);
    assert(mode_tags(ModeKind::PayloadRace)[0] != "pl"@);
    lemma_len_ne("plr"@, "pl"@);
    assert(mode_tags(ModeKind::PayloadRace)[1] != "pl"@);
    assert(mode_tags(ModeKind::PayloadRace).len() == 2);
    assert(!mode_tags(ModeKind::PayloadRace).contains("pl"@));
    lemma_len_ne("attack_defend"@, "pl"@);
    assert(mode_tags(ModeKind::AttackDefend)[0] != "pl"@);
    lemma_len_ne("attack-defend"@, "pl"@);
    assert(mode_tags(ModeKind::AttackDefend)[1] != "pl"@);
    lemma_len_ne("a/d"@, "pl"@);
    assert(mode_tags(ModeKind::AttackDefend)[2] != "pl"@);
    assert(mode_tags(ModeKind::AttackDefend).len() == 3);
    assert(!mode_tags(ModeKind::AttackDefend).contains("pl"@));
    lemma_len_ne("king_of_the_hill"@, "pl"@);
    assert(mode_tags(ModeKind::KingOfTheHill)[0] != "pl"@);
    lemma_len_ne("king-of-the-hill"@, "pl"@);
    assert(mode_tags(ModeKind::KingOfTheHill)[1] != "pl"@);
    lemma_len_ne("koth"@, "pl"@);
    assert(mode_tags(ModeKind::KingOfTheHill)[2] != "pl"@);
    assert(mode_tags(ModeKind::KingOfTheHill).len() == 3);
    assert(!mode_tags(ModeKind::KingOfTheHill).contains("pl"@));
    lemma_len_ne("capture_the_flag"@, "pl"@);
    assert(mode_tags(ModeKind::CaptureTheFlag)[0] != "pl"@);
    lemma_len_ne("capture-the-flag"@, "pl"@);
    assert(mode_tags(ModeKind::CaptureTheFlag)[1] != "pl"@);
    lemma_len_ne("ctf"@, "pl"@);
    assert(mode_tags(ModeKind::CaptureTheFlag)[2] != "pl"@);
    assert(mode_tags(ModeKind::CaptureTheFlag).len() == 3);
    assert(!mode_tags(ModeKind::CaptureTheFlag).contains("pl"@));
    lemma_len_ne("player_destruction"@, "pl"@);
    assert(mode_tags(ModeKind::PlayerDestruction)[0] != "pl"@);
    lemma_len_ne("player-destruction"@, "pl"@);
    assert(mode_tags(ModeKind::PlayerDestruction)[1] != "pl"@);
    lemma_text_ne("pd"@, "pl"@, 1);
    assert(mode_tags(ModeKind::PlayerDestruction)[2] != "pl"@);
    assert(mode_tags(ModeKind::PlayerDestruction).len() == 3);
    assert(!mode_tags(ModeKind::PlayerDestruction).contains("pl"@));
    lemma_len_ne("robot_destruction"@, "pl"@);
    assert(mode_tags(ModeKind::RobotDestruction)[0] != "pl"@);
    lemma_len_ne("robot-destruction"@, "pl"@);
    assert(mode_tags(ModeKind::RobotDestruction)[1] != "pl"@);
    lemma_text_ne("rd"@, "pl"@, 0);
    assert(mode_tags(ModeKind::RobotDestruction)[2] != "pl"@);
    assert(mode_tags(ModeKind::RobotDestruction).len() == 3);
    assert(!mode_tags(ModeKind::RobotDestruction).contains("pl"@));
    lemma_len_ne("special_delivery"@, "pl"@);
    assert(mode_tags(ModeKind::SpecialDelivery)[0] != "pl"@);
    lemma_len_ne("special-delivery"@, "pl"@);
    assert(mode_tags(ModeKind::SpecialDelivery)[1] != "pl"@);
    lemma_text_ne("sd"@, "pl"@, 0);
    assert(mode_tags(ModeKind::SpecialDelivery)[2] != "pl"@);
    assert(mode_tags(ModeKind::SpecialDelivery).len() == 3);
    assert(!mode_tags(ModeKind::SpecialDelivery).contains("pl"@));
    lemma_len_ne("territorial_control"@, "pl"@);
    assert(mode_tags(ModeKind::TerritorialControl)[0] != "pl"@);
    lemma_len_ne("territorial-control"@, "pl"@);
    assert(mode_tags(ModeKind::TerritorialControl)[1] != "pl"@);
    lemma_text_ne("tc"@, "pl"@, 0);
    assert(mode_tags(ModeKind::TerritorialControl)[2] != "pl"@);
    assert(mode_tags(ModeKind::TerritorialControl).len() == 3);
    assert(!mode_tags(ModeKind::TerritorialControl).contains("pl"@));
    lemma_len_ne("passtime"@, "pl"@);
    assert(mode_tags(ModeKind::PassTime)[0] != "pl"@);
    lemma_len_ne("pass_time"@, "pl"@);
    assert(mode_tags(ModeKind::PassTime)[1] != "pl"@);
    lemma_len_ne("pass"@, "pl"@);
    assert(mode_tags(ModeKind::PassTime)[2] != "pl"@);
    assert(mode_tags(ModeKind::PassTime).len() == 3);
    assert(!mode_tags(ModeKind::PassTime).contains("pl"@));
    lemma_len_ne("versus_saxton_hale"@, "pl"@);
    assert(mode_tags(ModeKind::VersusSaxtonHale)[0] != "pl"@);
    lemma_len_ne("vsh"@, "pl"@);
    assert(mode_tags(ModeKind::VersusSaxtonHale)[1] != "pl"@);
    assert(mode_tags(ModeKind::VersusSaxtonHale).len() == 2);
    assert(!mode_tags(ModeKind::VersusSaxtonHale).contains("pl"@));
    lemma_len_ne("zombie_infection"@, "pl"@);
    assert(mode_tags(ModeKind::ZombieInfection)[0] != "pl"@);
    lemma_text_ne("zi"@, "pl"@, 0);
    assert(mode_tags(ModeKind::ZombieInfection)[1] != "pl"@);
    assert(mode_tags(ModeKind::ZombieInfection).len() == 2);
    assert(!mode_tags(ModeKind::ZombieInfection).contains("pl"@));
    lemma_len_ne("mann_vs_machine"@, "pl"@);
    assert(mode_tags(ModeKind::MannVsMachine)[0] != "pl"@);
    lemma_len_ne("mvm"@, "pl"@);
    assert(mode_tags(ModeKind::MannVsMachine)[1] != "pl"@);
    assert(mode_tags(ModeKind::MannVsMachine).len() == 2);
    assert(!mode_tags(ModeKind::MannVsMachine).contains("pl"@));
    assert(mode_tags(ModeKind::Payload)[1] == "pl"@);
    lemma_tag_at("pl"@, tag_order(), 12);
}

proof fn lemma_tag_34()
    ensures
        mode_by_tags(seq!["arena"@], tag_order()) == Some(ModeKind::Arena),
{
    reveal_strlit("a/d");
    reveal_strlit("arena");
    reveal_strlit("attack-defend");
    reveal_strlit("attack_defend");
    reveal_strlit("capture-the-flag");
    reveal_strlit("capture_the_flag");
    reveal_strlit("ctf");
    reveal_strlit("king-of-the-hill");
    reveal_strlit("king_of_the_hill");
    reveal_strlit("koth");
    reveal_strlit("mann_vs_machine");
    reveal_strlit("mvm");
    reveal_strlit("pass");
    reveal_strlit("pass_time");
    reveal_strlit("passtime");
    reveal_strlit("payload");
    reveal_strlit("payload_race");
    reveal_strlit("pd");
    reveal_strlit("pl");
    reveal_strlit("player-destruction");
    reveal_strlit("player_destruction");
    reveal_strlit("plr");
    reveal_strlit("rd");
    reveal_strlit("robot-destruction");
    reveal_strlit("robot_destruction");
    reveal_strlit("sd");
    reveal_strlit("special-delivery");
    reveal_strlit("special_delivery");
    reveal_strlit("tc");
    reveal_strlit("territorial-control");
    reveal_strlit("territorial_control");
    reveal_strlit("versus_saxton_hale");
    reveal_strlit("vsh");
    reveal_strlit("zi");
    reveal_strlit("zombie_infection");
    lemma_len_ne("payload_race"@, "arena"@);
    assert(mode_tags(ModeKind::PayloadRace)[0] != "arena"@);
    lemma_len_ne("plr"@, "arena"@);
    assert(mode_tags(ModeKind::PayloadRace)[1] != "arena"@);
    assert(mode_tags(ModeKind::PayloadRace).len() == 2);
    assert(!mode_tags(ModeKind::PayloadRace).contains("arena"@));
    lemma_len_ne("attack_defend"@, "arena"@);
    assert(mode_tags(ModeKind::AttackDefend)[0] != "arena"@);
    lemma_len_ne("attack-defend"@, "arena"@);
    assert(mode_tags(ModeKind::AttackDefend)[1] != "arena"@);
    lemma_len_ne("a/d"@, "arena"@);
    assert(mode_tags(ModeKind::AttackDefend)[2] != "arena"@);
    assert(mode_tags(ModeKind::AttackDefend).len() == 3);
    assert(!mode_tags(ModeKind::AttackDefend).contains("arena"@));
    lemma_len_ne("king_of_the_hill"@, "arena"@);
    assert(mode_tags(ModeKind::KingOfTheHill)[0] != "arena"@);
    lemma_len_ne("king-of-the-hill"@, "arena"@);
    assert(mode_tags(ModeKind::KingOfTheHill)[1] != "arena"@);
    lemma_len_ne("koth"@, "arena"@);
    assert(mode_tags(ModeKind::KingOfTheHill)[2] != "arena"@);
    assert(mode_tags(ModeKind::KingOfTheHill).len() == 3);
    assert(!mode_tags(ModeKind::KingOfTheHill).contains("arena"@));
    lemma_len_ne("capture_the_flag"@, "arena"@);
    assert(mode_tags(ModeKind::CaptureTheFlag)[0] != "arena"@);
    lemma_len_ne("capture-the-flag"@, "arena"@);
    assert(mode_tags(ModeKind::CaptureTheFlag)[1] != "arena"@);
    lemma_len_ne("ctf"@, "arena"@);
    assert(mode_tags(ModeKind::CaptureTheFlag)[2] != "arena"@);
    assert(mode_tags(ModeKind::CaptureTheFlag).len() == 3);
    assert(!mode_tags(ModeKind::CaptureTheFlag).contains("arena"@));
    lemma_len_ne("player_destruction"@, "arena"@);
    assert(mode_tags(ModeKind::PlayerDestruction)[0] != "arena"@);
    lemma_len_ne("player-destruction"@, "arena"@);
    assert(mode_tags(ModeKind::PlayerDestruction)[1] != "arena"@);
    lemma_len_ne("pd"@, "arena"@);
    assert(mode_tags(ModeKind::PlayerDestruction)[2] != "arena"@);
    assert(mode_tags(ModeKind::PlayerDestruction).len() == 3);
    assert(!mode_tags(ModeKind::PlayerDestruction).contains("arena"@));
    lemma_len_ne("robot_destruction"@, "arena"@);
    assert(mode_tags(ModeKind::RobotDestruction)[0] != "arena"@);
    lemma_len_ne("robot-destruction"@, "arena"@);
    assert(mode_tags(ModeKind::RobotDestruction)[1] != "arena"@);
    lemma_len_ne("rd"@, "arena"@);
    assert(mode_tags(ModeKind::RobotDestruction)[2] != "arena"@);
    assert(mode_tags(ModeKind::RobotDestruction).len() == 3);
    assert(!mode_tags(ModeKind::RobotDestruction).contains("arena"@));
    lemma_len_ne("special_delivery"@, "arena"@);
    assert(mode_tags(ModeKind::SpecialDelivery)[0] != "arena"@);
    lemma_len_ne("special-delivery"@, "arena"@);
    assert(mode_tags(ModeKind::SpecialDelivery)[1] != "arena"@);
    lemma_len_ne("sd"@, "arena"@);
    assert(mode_tags(ModeKind::SpecialDelivery)[2] != "arena"@);
    assert(mode_tags(ModeKind::SpecialDelivery).len() == 3);
    assert(!mode_tags(ModeKind::SpecialDelivery).contains("arena"@));
    lemma_len_ne("territorial_control"@, "arena"@);
    assert(mode_tags(ModeKind::TerritorialControl)[0] != "arena"@);
    lemma_len_ne("territorial-control"@, "arena"@);
    assert(mode_tags(ModeKind::TerritorialControl)[1] != "arena"@);
    lemma_len_ne("tc"@, "arena"@);
    assert(mode_tags(ModeKind::TerritorialControl)[2] != "arena"@);
    assert(mode_tags(ModeKind::TerritorialControl).len() == 3);
    assert(!mode_tags(ModeKind::TerritorialControl).contains("arena"@));
    lemma_len_ne("passtime"@, "arena"@);
    assert(mode_tags(ModeKind::PassTime)[0] != "arena"@);
    lemma_len_ne("pass_time"@, "arena"@);
    assert(mode_tags(ModeKind::PassTime)[1] != "arena"@);
    lemma_len_ne("pass"@, "arena"@);
    assert(mode_tags(ModeKind::PassTime)[2] != "arena"@);
    assert(mode_tags(ModeKind::PassTime).len() == 3);
    assert(!mode_tags(ModeKind::PassTime).contains("arena"@));
    lemma_len_ne("versus_saxton_hale"@, "arena"@);
    assert(mode_tags(ModeKind::VersusSaxtonHale)[0] != "arena"@);
    lemma_len_ne("vsh"@, "arena"@);
    assert(mode_tags(ModeKind::VersusSaxtonHale)[1] != "arena"@);
    assert(mode_tags(ModeKind::VersusSaxtonHale).len() == 2);
    assert(!mode_tags(ModeKind::VersusSaxtonHale).contains("arena"@));
    lemma_len_ne("zombie_infection"@, "arena"@);
    assert(mode_tags(ModeKind::ZombieInfection)[0] != "arena"@);
    lemma_len_ne("zi"@, "arena"@);
    assert(mode_tags(ModeKind::ZombieInfection)[1] != "arena"@);
    assert(mode_tags(ModeKind::ZombieInfection).len() == 2);
    assert(!mode_tags(ModeKind::ZombieInfection).contains("arena"@));
    lemma_len_ne("mann_vs_machine"@, "arena"@);
    assert(mode_tags(ModeKind::MannVsMachine)[0] != "arena"@);
    lemma_len_ne("mvm"@, "arena"@);
    assert(mode_tags(ModeKind::MannVsMachine)[1] != "arena"@);
    assert(mode_tags(ModeKind::MannVsMachine).len() == 2);
    assert(!mode_tags(ModeKind::MannVsMachine).contains("arena"@));
    lemma_len_ne("payload"@, "arena"@);
    assert(mode_tags(ModeKind::Payload)[0] != "arena"@);
    lemma_len_ne("pl"@, "arena"@);
    assert(mode_tags(ModeKind::Payload)[1] != "arena"@);
    assert(mode_tags(ModeKind::Payload).len() == 2);
    assert(!mode_tags(ModeKind::Payload).contains("arena"@));
    assert(mode_tags(ModeKind::Arena)[0] == "arena"@);
    lemma_tag_at("arena"@, tag_order(), 13);
}

proof fn lemma_tag_35()
    ensures
        mode_by_tags(seq!["control_point"@], tag_order()) == Some(ModeKind::ControlPoint),
{
    reveal_strlit("a/d");
    reveal_strlit("arena");
    reveal_strlit("attack-defend");
    reveal_strlit("attack_defend");
    reveal_strlit("capture-the-flag");
    reveal_strlit("capture_the_flag");
    reveal_strlit("control_point");
    reveal_strlit("ctf");
    reveal_strlit("king-of-the-hill");
    reveal_strlit("king_of_the_hill");
    reveal_strlit("koth");
    reveal_strlit("mann_vs_machine");
    reveal_strlit("mvm");
    reveal_strlit("pass");
    reveal_strlit("pass_time");
    reveal_strlit("passtime");
    reveal_strlit("payload");
    reveal_strlit("payload_race");
    reveal_strlit("pd");
    reveal_strlit("pl");
    reveal_strlit("player-destruction");
    reveal_strlit("player_destruction");
    reveal_strlit("plr");
    reveal_strlit("rd");
    reveal_strlit("robot-destruction");
    reveal_strlit("robot_destruction");
    reveal_strlit("sd");
    reveal_strlit("special-delivery");
    reveal_strlit("special_delivery");
    reveal_strlit("tc");
    reveal_strlit("territorial-control");
    reveal_strlit("territorial_control");
    reveal_strlit("versus_saxton_hale");
    reveal_strlit("vsh");
    reveal_strlit("zi");
    reveal_strlit("zombie_infection");
    lemma_len_ne("payload_race"@, "control_point"@);
    assert(mode_tags(ModeKind::PayloadRace)[0] != "control_point"@);
    lemma_len_ne("plr"@, "control_point"@);
    assert(mode_tags(ModeKind::PayloadRace)[1] != "control_point"@);
    assert(mode_tags(ModeKind::PayloadRace).len() == 2);
    assert(!mode_tags(ModeKind::PayloadRace).contains("control_point"@));
    lemma_text_ne("attack_defend"@, "control_point"@, 0);
    assert(mode_tags(ModeKind::AttackDefend)[0] != "control_point"@);
    lemma_text_ne("attack-defend"@, "control_point"@, 0);
    assert(mode_tags(ModeKind::AttackDefend)[1] != "control_point"@);
    lemma_len_ne("a/d"@, "control_point"@);
    assert(mode_tags(ModeKind::AttackDefend)[2] != "control_point"@);
    assert(mode_tags(ModeKind::AttackDefend).len() == 3);
    assert(!mode_tags(ModeKind::AttackDefend).contains("control_point"@));
    lemma_len_ne("king_of_the_hill"@, "control_point"@);
    assert(mode_tags(ModeKind::KingOfTheHill)[0] != "control_point"@);
    lemma_len_ne("king-of-the-hill"@, "control_point"@);
    assert(mode_tags(ModeKind::KingOfTheHill)[1] != "control_point"@);
    lemma_len_ne("koth"@, "control_point"@);
    assert(mode_tags(ModeKind::KingOfTheHill)[2] != "control_point"@);
    assert(mode_tags(ModeKind::KingOfTheHill).len() == 3);
    assert(!mode_tags(ModeKind::KingOfTheHill).contains("control_point"@));
    lemma_len_ne("capture_the_flag"@, "control_point"@);
    assert(mode_tags(ModeKind::CaptureTheFlag)[0] != "control_point"@);
    lemma_len_ne("capture-the-flag"@, "control_point"@);
    assert(mode_tags(ModeKind::CaptureTheFlag)[1] != "control_point"@);
    lemma_len_ne("ctf"@, "control_point"@);
    assert(mode_tags(ModeKind::CaptureTheFlag)[2] != "control_point"@);
    assert(mode_tags(ModeKind::CaptureTheFlag).len() == 3);
    assert(!mode_tags(ModeKind::CaptureTheFlag).contains("control_point"@));
    lemma_len_ne("player_destruction"@, "control_point"@);
    assert(mode_tags(ModeKind::PlayerDestruction)[0] != "control_point"@);
    lemma_len_ne("player-destruction"@, "control_point"@);
    assert(mode_tags(ModeKind::PlayerDestruction)[1] != "control_point"@);
    lemma_len_ne("pd"@, "control_point"@);
    assert(mode_tags(ModeKind::PlayerDestruction)[2] != "control_point"@);
    assert(mode_tags(ModeKind::PlayerDestruction).len() == 3);
    assert(!mode_tags(ModeKind::PlayerDestruction).contains("control_point"@));
    lemma_len_ne("robot_destruction"@, "control_point"@);
    assert(mode_tags(ModeKind::RobotDestruction)[0] != "control_point"@);
    lemma_len_ne("robot-destruction"@, "control_point"@);
    assert(mode_tags(ModeKind::RobotDestruction)[1] != "control_point"@);
    lemma_len_ne("rd"@, "control_point"@);
    assert(mode_tags(ModeKind::RobotDestruction)[2] != "control_point"@);
    assert(mode_tags(ModeKind::RobotDestruction).len() == 3);
    assert(!mode_tags(ModeKind::RobotDestruction).contains("control_point"@));
    lemma_len_ne("special_delivery"@, "control_point"@);
    assert(mode_tags(ModeKind::SpecialDelivery)[0] != "control_point"@);
    lemma_len_ne("special-delivery"@, "control_point"@);
    assert(mode_tags(ModeKind::SpecialDelivery)[1] != "control_point"@);
    lemma_len_ne("sd"@, "control_point"@);
    assert(mode_tags(ModeKind::SpecialDelivery)[2] != "control_point"@);
    assert(mode_tags(ModeKind::SpecialDelivery).len() == 3);
    assert(!mode_tags(ModeKind::SpecialDelivery).contains("control_point"@));
    lemma_len_ne("territorial_control"@, "control_point"@);
    assert(mode_tags(ModeKind::TerritorialControl)[0] != "control_point"@);
    lemma_len_ne("territorial-control"@, "control_point"@);
    assert(mode_tags(ModeKind::TerritorialControl)[1] != "control_point"@);
    lemma_len_ne("tc"@, "control_point"@);
    assert(mode_tags(ModeKind::TerritorialControl)[2] != "control_point"@);
    assert(mode_tags(ModeKind::TerritorialControl).len() == 3);
    assert(!mode_tags(ModeKind::TerritorialControl).contains("control_point"@));
    lemma_len_ne("passtime"@, "control_point"@);
    assert(mode_tags(ModeKind::PassTime)[0] != "control_point"@);
    lemma_len_ne("pass_time"@, "control_point"@);
    assert(mode_tags(ModeKind::PassTime)[1] != "control_point"@);
    lemma_len_ne("pass"@, "control_point"@);
    assert(mode_tags(ModeKind::PassTime)[2] != "control_point"@);
    assert(mode_tags(ModeKind::PassTime).len() == 3);
    assert(!mode_tags(ModeKind::PassTime).contains("control_point"@));
    lemma_len_ne("versus_saxton_hale"@, "control_point"@);
    assert(mode_tags(ModeKind::VersusSaxtonHale)[0] != "control_point"@);
    lemma_len_ne("vsh"@, "control_point"@);
    assert(mode_tags(ModeKind::VersusSaxtonHale)[1] != "control_point"@);
    assert(mode_tags(ModeKind::VersusSaxtonHale).len() == 2);
    assert(!mode_tags(ModeKind::VersusSaxtonHale).contains("control_point"@));
    lemma_len_ne("zombie_infection"@, "control_point"@);
    assert(mode_tags(ModeKind::ZombieInfection)[0] != "control_point"@);
    lemma_len_ne("zi"@, "control_point"@);
    assert(mode_tags(ModeKind::ZombieInfection)[1] != "control_point"@);
    assert(mode_tags(ModeKind::ZombieInfection).len() == 2);
    assert(!mode_tags(ModeKind::ZombieInfection).contains("control_point"@));
    lemma_len_ne("mann_vs_machine"@, "control_point"@);
    assert(mode_tags(ModeKind::MannVsMachine)[0] != "control_point"@);
    lemma_len_ne("mvm"@, "control_point"@);
    assert(mode_tags(ModeKind::MannVsMachine)[1] != "control_point"@);
    assert(mode_tags(ModeKind::MannVsMachine).len() == 2);
    assert(!mode_tags(ModeKind::MannVsMachine).contains("control_point"@));
    lemma_len_ne("payload"@, "control_point"@);
    assert(mode_tags(ModeKind::Payload)[0] != "control_point"@);
    lemma_len_ne("pl"@, "control_point"@);
    assert(mode_tags(ModeKind::Payload)[1] != "control_point"@);
    assert(mode_tags(ModeKind::Payload).len() == 2);
    assert(!mode_tags(ModeKind::Payload).contains("control_point"@));
    lemma_len_ne("arena"@, "control_point"@);
    assert(mode_tags(ModeKind::Arena)[0] != "control_point"@);
    assert(mode_tags(ModeKind::Arena).len() == 1);
    assert(!mode_tags(ModeKind::Arena).contains("control_point"@));
    assert(mode_tags(ModeKind::ControlPoint)[0] == "control_point"@);
    lemma_tag_at("control_point"@, tag_order(), 14);
}

proof fn lemma_tag_36()
    ensures
        mode_by_tags(seq!["control-point"@], tag_order()) == Some(ModeKind::ControlPoint),
{
    reveal_strlit("a/d");
    reveal_strlit("arena");
    reveal_strlit("attack-defend");
    reveal_strlit("attack_defend");
    reveal_strlit("capture-the-flag");
    reveal_strlit("capture_the_flag");
    reveal_strlit("control-point");
    reveal_strlit("ctf");
    reveal_strlit("king-of-the-hill");
    reveal_strlit("king_of_the_hill");
    reveal_strlit("koth");
    reveal_strlit("mann_vs_machine");
    reveal_strlit("mvm");
    reveal_strlit("pass");
    reveal_strlit("pass_time");
    reveal_strlit("passtime");
    reveal_strlit("payload");
    reveal_strlit("payload_race");
    reveal_strlit("pd");
    reveal_strlit("pl");
    reveal_strlit("player-destruction");
    reveal_strlit("player_destruction");
    reveal_strlit("plr");
    reveal_strlit("rd");
    reveal_strlit("robot-destruction");
    reveal_strlit("robot_destruction");
    reveal_strlit("sd");
    reveal_strlit("special-delivery");
    reveal_strlit("special_delivery");
    reveal_strlit("tc");
    reveal_strlit("territorial-control");
    reveal_strlit("territorial_control");
    reveal_strlit("versus_saxton_hale");
    reveal_strlit("vsh");
    reveal_strlit("zi");
    reveal_strlit("zombie_infection");
    lemma_len_ne("payload_race"@, "control-point"@);
    assert(mode_tags(ModeKind::PayloadRace)[0] != "control-point"@);
    lemma_len_ne("plr"@, "control-point"@);
    assert(mode_tags(ModeKind::PayloadRace)[1] != "control-point"@);
    assert(mode_tags(ModeKind::PayloadRace).len() == 2);
    assert(!mode_tags(ModeKind::PayloadRace).contains("control-point"@));
    lemma_text_ne("attack_defend"@, "control-point"@, 0);
    assert(mode_tags(ModeKind::AttackDefend)[0] != "control-point"@);
    lemma_text_ne("attack-defend"@, "control-point"@, 0);
    assert(mode_tags(ModeKind::AttackDefend)[1] != "control-point"@);
    lemma_len_ne("a/d"@, "control-point"@);
    assert(mode_tags(ModeKind::AttackDefend)[2] != "control-point"@);
    assert(mode_tags(ModeKind::AttackDefend).len() == 3);
    assert(!mode_tags(ModeKind::AttackDefend).contains("control-point"@));
    lemma_len_ne("king_of_the_hill"@, "control-point"@);
    assert(mode_tags(ModeKind::KingOfTheHill)[0] != "control-point"@);
    lemma_len_ne("king-of-the-hill"@, "control-point"@);
    assert(mode_tags(ModeKind::KingOfTheHill)[1] != "control-point"@);
    lemma_len_ne("koth"@, "control-point"@);
    assert(mode_tags(ModeKind::KingOfTheHill)[2] != "control-point"@);
    assert(mode_tags(ModeKind::KingOfTheHill).len() == 3);
    assert(!mode_tags(ModeKind::KingOfTheHill).contains("control-point"@));
    lemma_len_ne("capture_the_flag"@, "control-point"@);
    assert(mode_tags(ModeKind::CaptureTheFlag)[0] != "control-point"@);
    lemma_len_ne("capture-the-flag"@, "control-point"@);
    assert(mode_tags(ModeKind::CaptureTheFlag)[1] != "control-point"@);
    lemma_len_ne("ctf"@, "control-point"@);
    assert(mode_tags(ModeKind::CaptureTheFlag)[2] != "control-point"@);
    assert(mode_tags(ModeKind::CaptureTheFlag).len() == 3);
    assert(!mode_tags(ModeKind::CaptureTheFlag).contains("control-point"@));
    lemma_len_ne("player_destruction"@, "control-point"@);
    assert(mode_tags(ModeKind::PlayerDestruction)[0] != "control-point"@);
    lemma_len_ne("player-destruction"@, "control-point"@);
    assert(mode_tags(ModeKind::PlayerDestruction)[1] != "control-point"@);
    lemma_len_ne("pd"@, "control-point"@);
    assert(mode_tags(ModeKind::PlayerDestruction)[2] != "control-point"@);
    assert(mode_tags(ModeKind::PlayerDestruction).len() == 3);
    assert(!mode_tags(ModeKind::PlayerDestruction).contains("control-point"@));
    lemma_len_ne("robot_destruction"@, "control-point"@);
    assert(mode_tags(ModeKind::RobotDestruction)[0] != "control-point"@);
    lemma_len_ne("robot-destruction"@, "control-point"@);
    assert(mode_tags(ModeKind::RobotDestruction)[1] != "control-point"@);
    lemma_len_ne("rd"@, "control-point"@);
    assert(mode_tags(ModeKind::RobotDestruction)[2] != "control-point"@);
    assert(mode_tags(ModeKind::RobotDestruction).len() == 3);
    assert(!mode_tags(ModeKind::RobotDestruction).contains("control-point"@));
    lemma_len_ne("special_delivery"@, "control-point"@);
    assert(mode_tags(ModeKind::SpecialDelivery)[0] != "control-point"@);
    lemma_len_ne("special-delivery"@, "control-point"@);
    assert(mode_tags(ModeKind::SpecialDelivery)[1] != "control-point"@);
    lemma_len_ne("sd"@, "control-point"@);
    assert(mode_tags(ModeKind::SpecialDelivery)[2] != "control-point"@);
    assert(mode_tags(ModeKind::SpecialDelivery).len() == 3);
    assert(!mode_tags(ModeKind::SpecialDelivery).contains("control-point"@));
    lemma_len_ne("territorial_control"@, "control-point"@);
    assert(mode_tags(ModeKind::TerritorialControl)[0] != "control-point"@);
    lemma_len_ne("territorial-control"@, "control-point"@);
    assert(mode_tags(ModeKind::TerritorialControl)[1] != "control-point"@);
    lemma_len_ne("tc"@, "control-point"@);
    assert(mode_tags(ModeKind::TerritorialControl)[2] != "control-point"@);
    assert(mode_tags(ModeKind::TerritorialControl).len() == 3);
    assert(!mode_tags(ModeKind::TerritorialControl).contains("control-point"@));
    lemma_len_ne("passtime"@, "control-point"@);
    assert(mode_tags(ModeKind::PassTime)[0] != "control-point"@);
    lemma_len_ne("pass_time"@, "control-point"@);
    assert(mode_tags(ModeKind::PassTime)[1] != "control-point"@);
    lemma_len_ne("pass"@, "control-point"@);
    assert(mode_tags(ModeKind::PassTime)[2] != "control-point"@);
    assert(mode_tags(ModeKind::PassTime).len() == 3);
    assert(!mode_tags(ModeKind::PassTime).contains("control-point"@));
    lemma_len_ne("versus_saxton_hale"@, "control-point"@);
    assert(mode_tags(ModeKind::VersusSaxtonHale)[0] != "control-point"@);
    lemma_len_ne("vsh"@, "control-point"@);
    assert(mode_tags(ModeKind::VersusSaxtonHale)[1] != "control-point"@);
    assert(mode_tags(ModeKind::VersusSaxtonHale).len() == 2);
    assert(!mode_tags(ModeKind::VersusSaxtonHale).contains("control-point"@));
    lemma_len_ne("zombie_infection"@, "control-point"@);
    assert(mode_tags(ModeKind::ZombieInfection)[0] != "control-point"@);
    lemma_len_ne("zi"@, "control-point"@);
    assert(mode_tags(ModeKind::ZombieInfection)[1] != "control-point"@);
    assert(mode_tags(ModeKind::ZombieInfection).len() == 2);
    assert(!mode_tags(ModeKind::ZombieInfection).contains("control-point"@));
    lemma_len_ne("mann_vs_machine"@, "control-point"@);
    assert(mode_tags(ModeKind::MannVsMachine)[0] != "control-point"@);
    lemma_len_ne("mvm"@, "control-point"@);
    assert(mode_tags(ModeKind::MannVsMachine)[1] != "control-point"@);
    assert(mode_tags(ModeKind::MannVsMachine).len() == 2);
    assert(!mode_tags(ModeKind::MannVsMachine).contains("control-point"@));
    lemma_len_ne("payload"@, "control-point"@);
    assert(mode_tags(ModeKind::Payload)[0] != "control-point"@);
    lemma_len_ne("pl"@, "control-point"@);
    assert(mode_tags(ModeKind::Payload)[1] != "control-point"@);
    assert(mode_tags(ModeKind::Payload).len() == 2);
    assert(!mode_tags(ModeKind::Payload).contains("control-point"@));
    lemma_len_ne("arena"@, "control-point"@);
    assert(mode_tags(ModeKind::Arena)[0] != "control-point"@);
    assert(mode_tags(ModeKind::Arena).len() == 1);
    assert(!mode_tags(ModeKind::Arena).contains("control-point"@));
    assert(mode_tags(ModeKind::ControlPoint)[1] == "control-point"@);
    lemma_tag_at("control-point"@, tag_order(), 14);
}

proof fn lemma_tag_37()
    ensures
        mode_by_tags(seq!["cp"@], tag_order()) == Some(ModeKind::ControlPoint),
{
    reveal_strlit("a/d");
    reveal_strlit("arena");
    reveal_strlit("attack-defend");
    reveal_strlit("attack_defend");
    reveal_strlit("capture-the-flag");
    reveal_strlit("capture_the_flag");
    reveal_strlit("cp");
    reveal_strlit("ctf");
    reveal_strlit("king-of-the-hill");
    reveal_strlit("king_of_the_hill");
    reveal_strlit("koth");
    reveal_strlit("mann_vs_machine");
    reveal_strlit("mvm");
    reveal_strlit("pass");
    reveal_strlit("pass_time");
    reveal_strlit("passtime");
    reveal_strlit("payload");
    reveal_strlit("payload_race");
    reveal_strlit("pd");
    reveal_strlit("pl");
    reveal_strlit("player-destruction");
    reveal_strlit("player_destruction");
    reveal_strlit("plr");
    reveal_strlit("rd");
    reveal_strlit("robot-destruction");
    reveal_strlit("robot_destruction");
    reveal_strlit("sd");
    reveal_strlit("special-delivery");
    reveal_strlit("special_delivery");
    reveal_strlit("tc");
    reveal_strlit("territorial-control");
    reveal_strlit("territorial_control");
    reveal_strlit("versus_saxton_hale");
    reveal_strlit("vsh");
    reveal_strlit("zi");
    reveal_strlit("zombie_infection");
    lemma_len_ne("payload_race"@, "cp"@);
    assert(mode_tags(ModeKind::PayloadRace)[0] != "cp"@);
    lemma_len_ne("plr"@, "cp"@);
    assert(mode_tags(ModeKind::PayloadRace)[1] != "cp"@);
    assert(mode_tags(ModeKind::PayloadRace).len() == 2);
    assert(!mode_tags(ModeKind::PayloadRace).contains("cp"@));
    lemma_len_ne("attack_defend"@, "cp"@);
    assert(mode_tags(ModeKind::AttackDefend)[0] != "cp"@);
    lemma_len_ne("attack-defend"@, "cp"@);
    assert(mode_tags(ModeKind::AttackDefend)[1] != "cp"@);
    lemma_len_ne("a/d"@, "cp"@);
    assert(mode_tags(ModeKind::AttackDefend)[2] != "cp"@);
    assert(mode_tags(ModeKind::AttackDefend).len() == 3);
    assert(!mode_tags(ModeKind::AttackDefend).contains("cp"@));
    lemma_len_ne("king_of_the_hill"@, "cp"@);
    assert(mode_tags(ModeKind::KingOfTheHill)[0] != "cp"@);
    lemma_len_ne("king-of-the-hill"@, "cp"@);
    assert(mode_tags(ModeKind::KingOfTheHill)[1] != "cp"@);
    lemma_len_ne("koth"@, "cp"@);
    assert(mode_tags(ModeKind::KingOfTheHill)[2] != "cp"@);
    assert(mode_tags(ModeKind::KingOfTheHill).len() == 3);
    assert(!mode_tags(ModeKind::KingOfTheHill).contains("cp"@));
    lemma_len_ne("capture_the_flag"@, "cp"@);
    assert(mode_tags(ModeKind::CaptureTheFlag)[0] != "cp"@);
    lemma_len_ne("capture-the-flag"@, "cp"@);
    assert(mode_tags(ModeKind::CaptureTheFlag)[1] != "cp"@);
    lemma_len_ne("ctf"@, "cp"@);
    assert(mode_tags(ModeKind::CaptureTheFlag)[2] != "cp"@);
    assert(mode_tags(ModeKind::CaptureTheFlag).len() == 3);
    assert(!mode_tags(ModeKind::CaptureTheFlag).contains("cp"@));
    lemma_len_ne("player_destruction"@, "cp"@);
    assert(mode_tags(ModeKind::PlayerDestruction)[0] != "cp"@);
    lemma_len_ne("player-destruction"@, "cp"@);
    assert(mode_tags(ModeKind::PlayerDestruction)[1] != "cp"@);
    lemma_text_ne("pd"@, "cp"@, 0);
    assert(mode_tags(ModeKind::PlayerDestruction)[2] != "cp"@);
    assert(mode_tags(ModeKind::PlayerDestruction).len() == 3);
    assert(!mode_tags(ModeKind::PlayerDestruction).contains("cp"@));
    lemma_len_ne("robot_destruction"@, "cp"@);
    assert(mode_tags(ModeKind::RobotDestruction)[0] != "cp"@);
    lemma_len_ne("robot-destruction"@, "cp"@);
    assert(mode_tags(ModeKind::RobotDestruction)[1] != "cp"@);
    lemma_text_ne("rd"@, "cp"@, 0);
    assert(mode_tags(ModeKind::RobotDestruction)[2] != "cp"@);
    assert(mode_tags(ModeKind::RobotDestruction).len() == 3);
    assert(!mode_tags(ModeKind::RobotDestruction).contains("cp"@));
    lemma_len_ne("special_delivery"@, "cp"@);
    assert(mode_tags(ModeKind::SpecialDelivery)[0] != "cp"@);
    lemma_len_ne("special-delivery"@, "cp"@);
    assert(mode_tags(ModeKind::SpecialDelivery)[1] != "cp"@);
    lemma_text_ne("sd"@, "cp"@, 0);
    assert(mode_tags(ModeKind::SpecialDelivery)[2] != "cp"@);
    assert(mode_tags(ModeKind::SpecialDelivery).len() == 3);
    assert(!mode_tags(ModeKind::SpecialDelivery).contains("cp"@));
    lemma_len_ne("territorial_control"@, "cp"@);
    assert(mode_tags(ModeKind::TerritorialControl)[0] != "cp"@);
    lemma_len_ne("territorial-control"@, "cp"@);
    assert(mode_tags(ModeKind::TerritorialControl)[1] != "cp"@);
    lemma_text_ne("tc"@, "cp"@, 0);
    assert(mode_tags(ModeKind::TerritorialControl)[2] != "cp"@);
    assert(mode_tags(ModeKind::TerritorialControl).len() == 3);
    assert(!mode_tags(ModeKind::TerritorialControl).contains("cp"@));
    lemma_len_ne("passtime"@, "cp"@);
    assert(mode_tags(ModeKind::PassTime)[0] != "cp"@);
    lemma_len_ne("pass_time"@, "cp"@);
    assert(mode_tags(ModeKind::PassTime)[1] != "cp"@);
    lemma_len_ne("pass"@, "cp"@);
    assert(mode_tags(ModeKind::PassTime)[2] != "cp"@);
    assert(mode_tags(ModeKind::PassTime).len() == 3);
    assert(!mode_tags(ModeKind::PassTime).contains("cp"@));
    lemma_len_ne("versus_saxton_hale"@, "cp"@);
    assert(mode_tags(ModeKind::VersusSaxtonHale)[0] != "cp"@);
    lemma_len_ne("vsh"@, "cp"@);
    assert(mode_tags(ModeKind::VersusSaxtonHale)[1] != "cp"@);
    assert(mode_tags(ModeKind::VersusSaxtonHale).len() == 2);
    assert(!mode_tags(ModeKind::VersusSaxtonHale).contains("cp"@));
    lemma_len_ne("zombie_infection"@, "cp"@);
    assert(mode_tags(ModeKind::ZombieInfection)[0] != "cp"@);
    lemma_text_ne("zi"@, "cp"@, 0);
    assert(mode_tags(ModeKind::ZombieInfection)[1] != "cp"@);
    assert(mode_tags(ModeKind::ZombieInfection).len() == 2);
    assert(!mode_tags(ModeKind::ZombieInfection).contains("cp"@));
    lemma_len_ne("mann_vs_machine"@, "cp"@);
    assert(mode_tags(ModeKind::MannVsMachine)[0] != "cp"@);
    lemma_len_ne("mvm"@, "cp"@);
    assert(mode_tags(ModeKind::MannVsMachine)[1] != "cp"@);
    assert(mode_tags(ModeKind::MannVsMachine).len() == 2);
    assert(!mode_tags(ModeKind::MannVsMachine).contains("cp"@));
    lemma_len_ne("payload"@, "cp"@);
    assert(mode_tags(ModeKind::Payload)[0] != "cp"@);
    lemma_text_ne("pl"@, "cp"@, 0);
    assert(mode_tags(ModeKind::Payload)[1] != "cp"@);
    assert(mode_tags(ModeKind::Payload).len() == 2);
    assert(!mode_tags(ModeKind::Payload).contains("cp"@));
    lemma_len_ne("arena"@, "cp"@);
    assert(mode_tags(ModeKind::Arena)[0] != "cp"@);
    assert(mode_tags(ModeKind::Arena).len() == 1);
    assert(!mode_tags(ModeKind::Arena).contains("cp"@));
    assert(mode_tags(ModeKind::ControlPoint)[2] == "cp"@);
    lemma_tag_at("cp"@, tag_order(), 14);
}

/// Each matchmaking tag of the mode table marks its mode, whatever the
/// map's name: a map whose only tag is one of these has that mode's
/// identifier and name.
pub proof fn lemma_tags_mark_modes(name: Seq<char>)
    ensures
        tag_marks("payload_race"@, name, "payload-race"@, "Payload Race"@),
        tag_marks("plr"@, name, "payload-race"@, "Payload Race"@),
        tag_marks("attack_defend"@, name, "attack-defend"@, "Attack / Defend"@),
        tag_marks("attack-defend"@, name, "attack-defend"@, "Attack / Defend"@),
        tag_marks("a/d"@, name, "attack-defend"@, "Attack / Defend"@),
        tag_marks("king_of_the_hill"@, name, "king-of-the-hill"@, "King of the Hill"@),
        tag_marks("king-of-the-hill"@, name, "king-of-the-hill"@, "King of the Hill"@),
        tag_marks("koth"@, name, "king-of-the-hill"@, "King of the Hill"@),
        tag_marks("capture_the_flag"@, name, "capture-the-flag"@, "Capture the Flag"@),
        tag_marks("capture-the-flag"@, name, "capture-the-flag"@, "Capture the Flag"@),
        tag_marks("ctf"@, name, "capture-the-flag"@, "Capture the Flag"@),
        tag_marks("player_destruction"@, name, "player-destruction"@, "Player Destruction"@),
        tag_marks("player-destruction"@, name, "player-destruction"@, "Player Destruction"@),
        tag_marks("pd"@, name, "player-destruction"@, "Player Destruction"@),
        tag_marks("robot_destruction"@, name, "robot-destruction"@, "Robot Destruction"@),
        tag_marks("robot-destruction"@, name, "robot-destruction"@, "Robot Destruction"@),
        tag_marks("rd"@, name, "robot-destruction"@, "Robot Destruction"@),
        tag_marks("special_delivery"@, name, "special-delivery"@, "Special Delivery"@),
        tag_marks("special-delivery"@, name, "special-delivery"@, "Special Delivery"@),
        tag_marks("sd"@, name, "special-delivery"@, "Special Delivery"@),
        tag_marks("territorial_control"@, name, "territorial-control"@, "Territorial Control"@),
        tag_marks("territorial-control"@, name, "territorial-control"@, "Territorial Control"@),
        tag_marks("tc"@, name, "territorial-control"@, "Territorial Control"@),
        tag_marks("passtime"@, name, "passtime"@, "PASS Time"@),
        tag_marks("pass_time"@, name, "passtime"@, "PASS Time"@),
        tag_marks("pass"@, name, "passtime"@, "PASS Time"@),
        tag_marks("versus_saxton_hale"@, name, "versus-saxton-hale"@, "Versus Saxton Hale"@),
        tag_marks("vsh"@, name, "versus-saxton-hale"@, "Versus Saxton Hale"@),
        tag_marks("zombie_infection"@, name, "zombie-infection"@, "Zombie Infection"@),
        tag_marks("zi"@, name, "zombie-infection"@, "Zombie Infection"@),
        tag_marks("mann_vs_machine"@, name, "mann-vs-machine"@, "Mann vs. Machine"@),
        tag_marks("mvm"@, name, "mann-vs-machine"@, "Mann vs. Machine"@),
        tag_marks("payload"@, name, "payload"@, "Payload"@),
        tag_marks("pl"@, name, "payload"@, "Payload"@),
        tag_marks("arena"@, name, "arena"@, "Arena"@),
        tag_marks("control_point"@, name, "control-point"@, "Control Point"@),
        tag_marks("control-point"@, name, "control-point"@, "Control Point"@),
        tag_marks("cp"@, name, "control-point"@, "Control Point"@),
{
    lemma_tag_0();
    lemma_tag_1();
    lemma_tag_2();
    lemma_tag_3();
    lemma_tag_4();
    lemma_tag_5();
    lemma_tag_6();
    lemma_tag_7();
    lemma_tag_8();
    lemma_tag_9();
    lemma_tag_10();
    lemma_tag_11();
    lemma_tag_12();
    lemma_tag_13();
    lemma_tag_14();
    lemma_tag_15();
    lemma_tag_16();
    lemma_tag_17();
    lemma_tag_18();
    lemma_tag_19();
    lemma_tag_20();
    lemma_tag_21();
    lemma_tag_22();
    lemma_tag_23();
    lemma_tag_24();
    lemma_tag_25();
    lemma_tag_26();
    lemma_tag_27();
    lemma_tag_28();
    lemma_tag_29();
    lemma_tag_30();
    lemma_tag_31();
    lemma_tag_32();
    lemma_tag_33();
    lemma_tag_34();
    lemma_tag_35();
    lemma_tag_36();
    lemma_tag_37();
}

/// Each name prefix of the mode table marks its mode when no tag decides: a
/// map without tags whose name is one of these prefixes followed by any rest
/// has that mode's identifier and name.
pub proof fn lemma_prefixes_mark_modes(w: Seq<char>)
    ensures
        prefix_marks("plr_"@, w, "payload-race"@, "Payload Race"@),
        prefix_marks("pl_"@, w, "payload"@, "Payload"@),
        prefix_marks("koth_"@, w, "king-of-the-hill"@, "King of the Hill"@),
        prefix_marks("ctf_"@, w, "capture-the-flag"@, "Capture the Flag"@),
        prefix_marks("arena_"@, w, "arena"@, "Arena"@),
        prefix_marks("pd_"@, w, "player-destruction"@, "Player Destruction"@),
        prefix_marks("rd_"@, w, "robot-destruction"@, "Robot Destruction"@),
        prefix_marks("sd_"@, w, "special-delivery"@, "Special Delivery"@),
        prefix_marks("tc_"@, w, "territorial-control"@, "Territorial Control"@),
        prefix_marks("pass_"@, w, "passtime"@, "PASS Time"@),
        prefix_marks("vsh_"@, w, "versus-saxton-hale"@, "Versus Saxton Hale"@),
        prefix_marks("zi_"@, w, "zombie-infection"@, "Zombie Infection"@),
        prefix_marks("mvm_"@, w, "mann-vs-machine"@, "Mann vs. Machine"@),
        prefix_marks("cp_"@, w, "control-point"@, "Control Point"@),
{
    reveal_strlit("plr_");
    reveal_strlit("pl_");
    reveal_strlit("koth_");
    reveal_strlit("ctf_");
    reveal_strlit("arena_");
    reveal_strlit("pd_");
    reveal_strlit("rd_");
    reveal_strlit("sd_");
    reveal_strlit("tc_");
    reveal_strlit("pass_");
    reveal_strlit("vsh_");
    reveal_strlit("zi_");
    reveal_strlit("mvm_");
    reveal_strlit("cp_");
    assert(lower_all("plr_"@) =~= "plr_"@);
    lemma_prefix_mode("plr_"@, w, 0);
    assert(lower_all("pl_"@) =~= "pl_"@);
    lemma_prefix_mode("pl_"@, w, 1);
    assert(lower_all("koth_"@) =~= "koth_"@);
    lemma_prefix_mode("koth_"@, w, 2);
    assert(lower_all("ctf_"@) =~= "ctf_"@);
    lemma_prefix_mode("ctf_"@, w, 3);
    assert(lower_all("arena_"@) =~= "arena_"@);
    lemma_prefix_mode("arena_"@, w, 4);
    assert(lower_all("pd_"@) =~= "pd_"@);
    lemma_prefix_mode("pd_"@, w, 5);
    assert(lower_all("rd_"@) =~= "rd_"@);
    lemma_prefix_mode("rd_"@, w, 6);
    assert(lower_all("sd_"@) =~= "sd_"@);
    lemma_prefix_mode("sd_"@, w, 7);
    assert(lower_all("tc_"@) =~= "tc_"@);
    lemma_prefix_mode("tc_"@, w, 8);
    assert(lower_all("pass_"@) =~= "pass_"@);
    lemma_prefix_mode("pass_"@, w, 9);
    assert(lower_all("vsh_"@) =~= "vsh_"@);
    lemma_prefix_mode("vsh_"@, w, 10);
    assert(lower_all("zi_"@) =~= "zi_"@);
    lemma_prefix_mode("zi_"@, w, 11);
    assert(lower_all("mvm_"@) =~= "mvm_"@);
    lemma_prefix_mode("mvm_"@, w, 12);
    assert(lower_all("cp_"@) =~= "cp_"@);
    lemma_prefix_mode("cp_"@, w, 13);
}

} // verus!
