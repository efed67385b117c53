//! Reading Steam's `libraryfolders.vdf`: the quoted strings of the file and
//! the library folders that its `path` keys name.

use vstd::prelude::*;
use crate::text::{chars_of, eq_ignore_ascii_case, lower_all, same_ignoring_ascii_case, string_of};
use crate::catalog::string_views;

verus! {

/// The quoted string whose text starts at `i`, after the characters `value`
/// already read, and the index after it; a backslash keeps the character
/// after it; an unterminated string runs to the end.
pub open spec fn quoted_text(s: Seq<char>, i: int, value: Seq<char>) -> (Seq<char>, int)
    decreases s.len() - i,
{
    if i < 0 || i >= s.len() {
        (value, s.len() as int)
    } else if s[i] == '"' {
        (value, i + 1)
    } else if s[i] == '\\' {
        if i + 1 < s.len() {
            quoted_text(s, i + 2, value.push(s[i + 1]))
        } else {
            (value, s.len() as int)
        }
    } else {
        quoted_text(s, i + 1, value.push(s[i]))
    }
}

proof fn lemma_quoted_text_ends(s: Seq<char>, i: int, value: Seq<char>)
    requires
        0 <= i,
    ensures
        i < quoted_text(s, i, value).1 || (i >= s.len() && quoted_text(s, i, value).1 == s.len()),
        quoted_text(s, i, value).1 <= s.len() || i > s.len(),
    decreases s.len() - i,
{
    if 0 <= i < s.len() {
        if s[i] == '\\' && i + 1 < s.len() {
            lemma_quoted_text_ends(s, i + 2, value.push(s[i + 1]));
        } else if s[i] != '"' && s[i] != '\\' {
            lemma_quoted_text_ends(s, i + 1, value.push(s[i]));
        }
    }
}

/// The quoted strings of `s` from `i` on, after the strings `acc` already read.
pub open spec fn quoted_scan(s: Seq<char>, i: int, acc: Seq<Seq<char>>) -> Seq<Seq<char>>
    decreases s.len() - i,
    via quoted_scan_decreases
{
    if i < 0 || i >= s.len() {
        acc
    } else if s[i] != '"' {
        quoted_scan(s, i + 1, acc)
    } else {
        let (value, next) = quoted_text(s, i + 1, Seq::empty());
        quoted_scan(s, next, acc.push(value))
    }
}

#[via_fn]
proof fn quoted_scan_decreases(s: Seq<char>, i: int, acc: Seq<Seq<char>>) {
    if 0 <= i < s.len() {
        lemma_quoted_text_ends(s, i + 1, Seq::empty());
    }
}

/// The quoted strings of `s`, in order.
pub open spec fn quoted_strings(s: Seq<char>) -> Seq<Seq<char>> {
    quoted_scan(s, 0, Seq::empty())
}

/// The strings that follow a `path` string (compared without case).
pub open spec fn paths_after_keys(values: Seq<Seq<char>>) -> Seq<Seq<char>>
    decreases values.len(),
{
    if values.len() < 2 {
        Seq::empty()
    } else {
        let rest = paths_after_keys(values.drop_last());
        if eq_ignore_ascii_case(values[values.len() - 2], "path"@) { rest.push(values.last()) } else { rest }
    }
}

/// The quoted strings of a VDF text, escapes resolved.
pub fn quoted_values(text: &str) -> (values: Vec<String>)
    ensures
        string_views(values@) == quoted_strings(text@),
{
    let s = chars_of(text);
    let mut values: Vec<String> = Vec::new();
    let mut i: usize = 0;
    assert(string_views(values@) =~= Seq::<Seq<char>>::empty());
    while i < s.len()
        invariant
            i <= s.len(),
            s@ == text@,
            quoted_strings(text@) == quoted_scan(s@, i as int, string_views(values@)),
        decreases s.len() - i,
    {
        if s[i] != '"' {
            i += 1;
        } else {
            i += 1;
            let ghost entry = i as int;
            let mut value: Vec<char> = Vec::new();
            loop
                invariant_except_break
                    quoted_text(s@, entry, Seq::empty()) == quoted_text(s@, i as int, value@),
                invariant
                    entry <= i <= s.len(),
                    s@ == text@,
                ensures
                    quoted_text(s@, entry, Seq::empty()) == (value@, i as int),
                    entry <= i <= s.len(),
                decreases s.len() - i,
            {
                if i >= s.len() {
                    break;
                }
                let c = s[i];
                i += 1;
                if c == '"' {
                    break;
                }
                if c == '\\' {
                    if i < s.len() {
                        value.push(s[i]);
                        i += 1;
                    }
                } else {
                    value.push(c);
                }
            }
            let ghost before = string_views(values@);
            let owned = string_of(value.as_slice());
            values.push(owned);
            assert(string_views(values@) =~= before.push(value@));
        }
    }
    values
}

/// The library folders that a `libraryfolders.vdf` text names: each string
/// that follows a `path` string (compared without case), in order.
pub fn library_folder_paths(text: &str) -> (paths: Vec<String>)
    ensures
        string_views(paths@) == paths_after_keys(quoted_strings(text@)),
{
    let values = quoted_values(text);
    let key = chars_of("path");
    let ghost vs = string_views(values@);
    let mut paths: Vec<String> = Vec::new();
    if values.len() < 2 {
        assert(string_views(paths@) =~= Seq::<Seq<char>>::empty());
        return paths;
    }
    let mut k: usize = 1;
    assert(vs.take(1).len() < 2);
    assert(string_views(paths@) =~= Seq::<Seq<char>>::empty());
    while k < values.len()
        invariant
            1 <= k <= values.len(),
            vs == string_views(values@),
            key@ == "path"@,
            string_views(paths@) == paths_after_keys(vs.take(k as int)),
        decreases values.len() - k,
    {
        let ghost prefix = vs.take(k + 1);
        assert(prefix.drop_last() == vs.take(k as int));
        assert(prefix[prefix.len() - 2] == values@[k - 1]@);
        assert(prefix.last() == values@[k as int]@);
        let previous = chars_of(values[k - 1].as_str());
        if same_ignoring_ascii_case(previous.as_slice(), key.as_slice()) {
            let ghost before = string_views(paths@);
            paths.push(values[k].clone());
            assert(string_views(paths@) =~= before.push(values@[k as int]@));
        }
        k += 1;
    }
    assert(vs.take(values.len() as int) == vs);
    paths
}

/// The items of `items` whose flag in `keep` is set, in order.
pub open spec fn kept(items: Seq<Seq<char>>, keep: Seq<bool>) -> Seq<Seq<char>>
    decreases items.len(),
{
    if items.len() == 0 {
        Seq::empty()
    } else {
        let rest = kept(items.drop_last(), keep.drop_last());
        if keep.last() { rest.push(items.last()) } else { rest }
    }
}

/// Whether the listed paths are kept, for the first `n` of them: path `k` is
/// kept when it is not the same path as the Steam root (`answers[k][0]`) nor
/// as any kept path `j` before it (`answers[k][j + 1]`).
pub open spec fn kept_flags(n: nat, answers: Seq<Seq<bool>>) -> Seq<bool>
    decreases n,
{
    if n == 0 {
        Seq::empty()
    } else {
        let prev = kept_flags((n - 1) as nat, answers);
        let k = n - 1;
        prev.push(!answers[k][0] && forall|j: int| 0 <= j < k && #[trigger] prev[j] ==> !answers[k][j + 1])
    }
}

/// The library roots: the Steam root, then the listed paths that are kept.
pub open spec fn select_roots(steam_root: Seq<char>, paths: Seq<Seq<char>>, answers: Seq<Seq<bool>>) -> Seq<Seq<char>> {
    seq![steam_root] + kept(paths, kept_flags(paths.len(), answers))
}

/// One row of answers per listed path: row `k` answers for the Steam root
/// and the `k` paths listed before path `k`.
pub open spec fn answers_shaped(answers: Seq<Seq<bool>>, n: nat) -> bool {
    answers.len() == n && forall|k: int| 0 <= k < n ==> #[trigger] answers[k].len() == k + 1
}

/// What two texts naming the same path always share: their characters
/// other than separators (`/` and `\`) and dots, ASCII letters made small.
/// Path equality compares the paths' components (prefix, root, names), with
/// repeated separators, `.` components and a trailing separator ignored, and
/// a drive letter in either case; none of that changes this key.
pub open spec fn path_key(s: Seq<char>) -> Seq<char> {
    lower_all(s.filter(|c: char| c != '/' && c != '\\' && c != '.'))
}

/// Row `k` of the answers says "same path" wherever the texts compared are
/// identical, and only where their path keys agree.
pub open spec fn row_sound(steam_root: Seq<char>, paths: Seq<Seq<char>>, row: Seq<bool>, k: int) -> bool {
    &&& (paths[k] == steam_root ==> row[0])
    &&& (row[0] ==> path_key(paths[k]) == path_key(steam_root))
    &&& forall|j: int| 0 <= j < k && paths[k] == paths[j] ==> #[trigger] row[j + 1]
    &&& forall|j: int| 0 <= j < k && #[trigger] row[j + 1] ==> path_key(paths[k]) == path_key(paths[j])
}

/// The first `n` rows of the answers say "same path" wherever the two texts
/// are identical.
pub open spec fn answers_sound(steam_root: Seq<char>, paths: Seq<Seq<char>>, answers: Seq<Seq<bool>>, n: nat) -> bool {
    forall|k: int| 0 <= k < n ==> row_sound(steam_root, paths, #[trigger] answers[k], k)
}

/// The answers as sequences.
pub open spec fn answer_views(answers: Seq<Vec<bool>>) -> Seq<Seq<bool>> {
    answers.map_values(|row: Vec<bool>| row@)
}

proof fn lemma_kept_flags_len(n: nat, answers: Seq<Seq<bool>>)
    ensures
        kept_flags(n, answers).len() == n,
    decreases n,
{
    if n > 0 {
        lemma_kept_flags_len((n - 1) as nat, answers);
    }
}

/// `x` is a listed item whose flag is set.
pub open spec fn kept_from(items: Seq<Seq<char>>, keep: Seq<bool>, x: Seq<char>) -> bool {
    exists|j: int| 0 <= j < items.len() && #[trigger] keep[j] && items[j] == x
}

proof fn lemma_kept_members(items: Seq<Seq<char>>, keep: Seq<bool>)
    requires
        keep.len() == items.len(),
    ensures
        forall|i: int| 0 <= i < kept(items, keep).len() ==> kept_from(items, keep, #[trigger] kept(items, keep)[i]),
    decreases items.len(),
{
    if items.len() > 0 {
        let rest = kept(items.drop_last(), keep.drop_last());
        lemma_kept_members(items.drop_last(), keep.drop_last());
        assert forall|i: int| 0 <= i < kept(items, keep).len() implies kept_from(items, keep, #[trigger] kept(items, keep)[i]) by {
            if i < rest.len() {
                assert(kept(items, keep)[i] == rest[i]);
                assert(kept_from(items.drop_last(), keep.drop_last(), rest[i]));
                let j = choose|j: int| 0 <= j < items.drop_last().len() && #[trigger] keep.drop_last()[j]
                    && items.drop_last()[j] == rest[i];
                assert(keep.drop_last()[j] == keep[j]);
                assert(keep[j] && items[j] == rest[i]);
            } else {
                let j = items.len() - 1;
                assert(keep[j] && items[j] == kept(items, keep)[i]);
            }
        }
    } else {
        assert(kept(items, keep).len() == 0);
    }
}

proof fn lemma_select_distinct(steam_root: Seq<char>, paths: Seq<Seq<char>>, answers: Seq<Seq<bool>>, n: nat)
    requires
        n <= paths.len(),
        answers_shaped(answers, paths.len()),
        answers_sound(steam_root, paths, answers, paths.len()),
    ensures
        forall|i: int, j: int| 0 <= i < j < (seq![steam_root] + kept(paths.take(n as int), kept_flags(n, answers))).len()
            ==> (seq![steam_root] + kept(paths.take(n as int), kept_flags(n, answers)))[i]
                != (seq![steam_root] + kept(paths.take(n as int), kept_flags(n, answers)))[j],
    decreases n,
{
    let flags = kept_flags(n, answers);
    let s = seq![steam_root] + kept(paths.take(n as int), flags);
    if n == 0 {
        assert(kept(paths.take(0), flags) =~= Seq::<Seq<char>>::empty());
        assert(s.len() == 1);
    } else {
        let m = (n - 1) as nat;
        let prev = kept_flags(m, answers);
        lemma_select_distinct(steam_root, paths, answers, m);
        lemma_kept_flags_len(m, answers);
        lemma_kept_members(paths.take(m as int), prev);
        let t = seq![steam_root] + kept(paths.take(m as int), prev);
        assert(paths.take(n as int).drop_last() =~= paths.take(m as int));
        assert(flags.drop_last() =~= prev);
        let b = flags.last();
        let inner = kept(paths.take(m as int), prev);
        if b {
            let x = paths[m as int];
            assert(paths.take(n as int).last() == x);
            assert(kept(paths.take(n as int), flags) == inner.push(x));
            assert(s =~= t.push(x));
            assert(row_sound(steam_root, paths, answers[m as int], m as int));
            assert(x != steam_root);
            assert forall|i: int| 0 <= i < inner.len() implies #[trigger] inner[i] != x by {
                assert(kept_from(paths.take(m as int), prev, inner[i]));
                let j = choose|j: int| 0 <= j < paths.take(m as int).len() && #[trigger] prev[j]
                    && paths.take(m as int)[j] == inner[i];
                assert(!answers[m as int][j + 1]);
                assert(paths.take(m as int)[j] == paths[j]);
            }
            assert forall|i: int, j: int| 0 <= i < j < s.len() implies s[i] != s[j] by {
                if j < t.len() {
                    assert(s[i] == t[i] && s[j] == t[j]);
                } else if i > 0 {
                    assert(s[i] == inner[i - 1]);
                }
            }
        } else {
            assert(kept(paths.take(n as int), flags) == inner);
            assert(s =~= t);
        }
    }
}

/// Listed path `k` has a path key that neither the Steam root nor any path
/// listed before it has.
pub open spec fn fresh_key(steam_root: Seq<char>, paths: Seq<Seq<char>>, k: int) -> bool {
    &&& path_key(paths[k]) != path_key(steam_root)
    &&& forall|j: int| 0 <= j < k ==> path_key(paths[k]) != path_key(#[trigger] paths[j])
}

proof fn lemma_kept_flags_prefix(n: nat, answers: Seq<Seq<bool>>, k: int)
    requires
        0 <= k < n,
    ensures
        kept_flags(n, answers)[k] == kept_flags((k + 1) as nat, answers)[k],
    decreases n,
{
    lemma_kept_flags_len((n - 1) as nat, answers);
    if k < n - 1 {
        lemma_kept_flags_prefix((n - 1) as nat, answers, k);
    }
}

proof fn lemma_kept_contains(items: Seq<Seq<char>>, keep: Seq<bool>, k: int)
    requires
        keep.len() == items.len(),
        0 <= k < items.len(),
        keep[k],
    ensures
        kept(items, keep).contains(items[k]),
    decreases items.len(),
{
    let rest = kept(items.drop_last(), keep.drop_last());
    if k == items.len() - 1 {
        assert(kept(items, keep) == rest.push(items[k]));
        assert(kept(items, keep)[rest.len() as int] == items[k]);
    } else {
        lemma_kept_contains(items.drop_last(), keep.drop_last(), k);
        assert(items.drop_last()[k] == items[k]);
        let i = choose|i: int| 0 <= i < rest.len() && rest[i] == items[k];
        if keep.last() {
            assert(kept(items, keep)[i] == rest[i]);
        } else {
            assert(kept(items, keep) == rest);
        }
    }
}

/// With sound answers, a listed path whose key is fresh is always kept.
proof fn lemma_fresh_kept(steam_root: Seq<char>, paths: Seq<Seq<char>>, answers: Seq<Seq<bool>>, k: int)
    requires
        0 <= k < paths.len(),
        answers_shaped(answers, paths.len()),
        answers_sound(steam_root, paths, answers, paths.len()),
        fresh_key(steam_root, paths, k),
    ensures
        select_roots(steam_root, paths, answers).contains(paths[k]),
{
    let n = paths.len();
    assert(row_sound(steam_root, paths, answers[k], k));
    assert(!answers[k][0]);
    assert forall|j: int| 0 <= j < k implies !(#[trigger] answers[k][j + 1]) by {
        assert(path_key(paths[k]) != path_key(paths[j]));
    }
    lemma_kept_flags_len(k as nat, answers);
    assert(kept_flags((k + 1) as nat, answers)[k]);
    lemma_kept_flags_prefix(n, answers, k);
    lemma_kept_flags_len(n, answers);
    lemma_kept_contains(paths, kept_flags(n, answers), k);
    let kp = kept(paths, kept_flags(n, answers));
    let i = choose|i: int| 0 <= i < kp.len() && kp[i] == paths[k];
    assert(select_roots(steam_root, paths, answers)[i + 1] == paths[k]);
}

/// The library roots for the given answers on which paths are the same
/// (see `select_roots`): the Steam root, then each listed path that is not
/// the same path as a root kept before it, in order.
pub fn roots_from_answers(steam_root: &str, paths: &Vec<String>, answers: &Vec<Vec<bool>>) -> (roots: Vec<String>)
    requires
        answers_shaped(answer_views(answers@), paths.len() as nat),
    ensures
        string_views(roots@) == select_roots(steam_root@, string_views(paths@), answer_views(answers@)),
{
    let ghost pv = string_views(paths@);
    let ghost av = answer_views(answers@);
    let mut roots: Vec<String> = Vec::new();
    roots.push(steam_root.to_owned());
    let mut flags: Vec<bool> = Vec::new();
    assert(pv.take(0) =~= Seq::<Seq<char>>::empty());
    assert(string_views(roots@) =~= seq![steam_root@] + kept(pv.take(0), flags@));
    let mut k: usize = 0;
    while k < paths.len()
        invariant
            k <= paths.len(),
            pv == string_views(paths@),
            av == answer_views(answers@),
            answers_shaped(av, paths.len() as nat),
            flags@ == kept_flags(k as nat, av),
            string_views(roots@) == seq![steam_root@] + kept(pv.take(k as int), flags@),
        decreases paths.len() - k,
    {
        proof {
            lemma_kept_flags_len(k as nat, av);
        }
        let row = &answers[k];
        assert(row@ == av[k as int]);
        assert(row.len() == k + 1);
        let mut keep = !row[0];
        let mut j: usize = 0;
        while j < k && keep
            invariant
                j <= k,
                k < paths.len(),
                flags.len() == k,
                row@ == av[k as int],
                row.len() == k + 1,
                keep <==> (!av[k as int][0] && forall|i: int| 0 <= i < j && #[trigger] flags@[i] ==> !av[k as int][i + 1]),
            decreases k - j,
        {
            if flags[j] && row[j + 1] {
                keep = false;
            }
            j += 1;
        }
        assert(keep <==> (!av[k as int][0] && forall|i: int| 0 <= i < k && #[trigger] flags@[i] ==> !av[k as int][i + 1]));
        let ghost before = string_views(roots@);
        assert(kept_flags((k + 1) as nat, av) == flags@.push(keep));
        assert(pv.take(k + 1).drop_last() =~= pv.take(k as int));
        assert(flags@.push(keep).drop_last() =~= flags@);
        assert(pv.take(k + 1).last() == paths@[k as int]@);
        if keep {
            roots.push(paths[k].clone());
            assert(string_views(roots@) =~= before.push(paths@[k as int]@));
        } else {
            assert(string_views(roots@) =~= before);
        }
        flags.push(keep);
        k += 1;
    }
    assert(pv.take(paths.len() as int) =~= pv);
    roots
}

/// Whether `a` and `b` name the same path, by `std::path::Path`'s equality,
/// which compares the paths component by component. Identical texts name the
/// same path, and texts that name the same path have the same path key;
/// between those bounds the answer depends on the platform's path syntax
/// (which separators, which prefixes), and nothing more is stated of it.
#[verifier::external_body]
fn same_path(a: &str, b: &str) -> (same: bool)
    ensures
        a@ == b@ ==> same,
        same ==> path_key(a@) == path_key(b@),
{
    std::path::Path::new(a) == std::path::Path::new(b)
}

/// The Steam library roots to search: the Steam root itself, then each
/// library folder that the text of `steamapps/libraryfolders.vdf` names, in
/// order, leaving out a folder that is the same path as a root already
/// listed. Without that file (`None`) the Steam root alone. Which texts name
/// the same path is asked of `std::path::Path`; the selection over its
/// answers is `roots_from_answers`.
pub fn library_roots(steam_root: &str, library_file: Option<&str>) -> (roots: Vec<String>)
    ensures
        roots.len() >= 1,
        roots@[0]@ == steam_root@,
        library_file is None ==> roots.len() == 1,
        library_file matches Some(text) ==> exists|answers: Seq<Seq<bool>>|
            #![trigger select_roots(steam_root@, paths_after_keys(quoted_strings(text@)), answers)]
            answers_shaped(answers, paths_after_keys(quoted_strings(text@)).len())
            && answers_sound(steam_root@, paths_after_keys(quoted_strings(text@)), answers,
                paths_after_keys(quoted_strings(text@)).len())
            && string_views(roots@) == select_roots(steam_root@, paths_after_keys(quoted_strings(text@)), answers),
        library_file matches Some(text) ==> forall|k: int|
            0 <= k < paths_after_keys(quoted_strings(text@)).len()
            && #[trigger] fresh_key(steam_root@, paths_after_keys(quoted_strings(text@)), k)
            ==> string_views(roots@).contains(paths_after_keys(quoted_strings(text@))[k]),
        forall|j: int, k: int| 0 <= j < k < roots.len() ==> roots@[j]@ != roots@[k]@,
{
    let text = match library_file {
        None => {
            let mut roots: Vec<String> = Vec::new();
            roots.push(steam_root.to_owned());
            return roots;
        },
        Some(text) => text,
    };
    let paths = library_folder_paths(text);
    let ghost pv = string_views(paths@);
    let mut answers: Vec<Vec<bool>> = Vec::new();
    let mut k: usize = 0;
    while k < paths.len()
        invariant
            k <= paths.len(),
            pv == string_views(paths@),
            answer_views(answers@).len() == k,
            forall|i: int| 0 <= i < k ==> #[trigger] answer_views(answers@)[i].len() == i + 1,
            answers_sound(steam_root@, pv, answer_views(answers@), k as nat),
        decreases paths.len() - k,
    {
        let mut row: Vec<bool> = Vec::new();
        row.push(same_path(steam_root, paths[k].as_str()));
        let mut j: usize = 0;
        while j < k
            invariant
                j <= k,
                k < paths.len(),
                pv == string_views(paths@),
                row.len() == j + 1,
                pv[k as int] == steam_root@ ==> row@[0],
                row@[0] ==> path_key(pv[k as int]) == path_key(steam_root@),
                forall|i: int| 0 <= i < j && pv[k as int] == pv[i] ==> #[trigger] row@[i + 1],
                forall|i: int| 0 <= i < j && #[trigger] row@[i + 1] ==> path_key(pv[k as int]) == path_key(pv[i]),
            decreases k - j,
        {
            row.push(same_path(paths[j].as_str(), paths[k].as_str()));
            j += 1;
        }
        let ghost before = answer_views(answers@);
        let ghost r = row@;
        answers.push(row);
        assert(answer_views(answers@) =~= before.push(r));
        let ghost after = answer_views(answers@);
        assert(row_sound(steam_root@, pv, r, k as int));
        assert forall|m: int| 0 <= m < k + 1 implies row_sound(steam_root@, pv, #[trigger] after[m], m) by {
            if m < k {
                assert(after[m] == before[m]);
            } else {
                assert(after[m] == r);
            }
        }
        assert(answers_sound(steam_root@, pv, after, (k + 1) as nat));
        k += 1;
    }
    let ghost av = answer_views(answers@);
    assert(answers_shaped(av, paths.len() as nat));
    let roots = roots_from_answers(steam_root, &paths, &answers);
    proof {
        lemma_select_distinct(steam_root@, pv, av, pv.len());
        assert forall|k: int| 0 <= k < pv.len() && #[trigger] fresh_key(steam_root@, pv, k)
            implies string_views(roots@).contains(pv[k]) by {
            lemma_fresh_kept(steam_root@, pv, av, k);
        }
        lemma_kept_flags_len(pv.len(), av);
        assert(pv.take(pv.len() as int) =~= pv);
        let sv = string_views(roots@);
        assert(sv.len() == roots@.len());
        assert(sv.len() >= 1);
        assert(sv[0] == steam_root@);
        assert(sv[0] == roots@[0]@);
        assert forall|j: int, m: int| 0 <= j < m < roots.len() implies roots@[j]@ != roots@[m]@ by {
            assert(string_views(roots@)[j] == roots@[j]@);
            assert(string_views(roots@)[m] == roots@[m]@);
        }
    }
    roots
}

} // verus!
