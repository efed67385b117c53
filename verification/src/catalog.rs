//! The map catalogue: the `master_maps_list` block of TF2's `items_game.txt`,
//! a text in Valve's KeyValues format.

use vstd::prelude::*;
use crate::text::{
    ascii_lower, chars_of, eq_ignore_ascii_case, occurs_at, lower_all, parse_u64, parse_unsigned, same_chars,
    same_ignoring_ascii_case, string_of, to_lower, views,
};

verus! {

/// Why a text was refused as a map catalogue.
#[derive(Debug, Clone, Copy, PartialEq, Eq, Structural)]
pub enum CatalogError {
    /// The text never mentions `master_maps_list`.
    NoMasterBlock,
    /// No `{` follows the name `master_maps_list`.
    NoOpeningBrace,
    /// A `}` closes a block that was never opened.
    UnexpectedBlockEnd,
    /// The `master_maps_list` block is never closed.
    UnterminatedMasterBlock,
    /// A quoted string is never closed.
    UnterminatedString,
    /// A block was expected where another token stands.
    ExpectedBlock,
    /// The tokens end inside a block.
    UnterminatedBlock,
    /// A key has no value after it.
    MissingValue,
}

/// The white space that separates KeyValues tokens (ASCII white space).
pub open spec fn is_kv_space(c: char) -> bool {
    c == ' ' || c == '\t' || c == '\n' || c == '\x0C' || c == '\r'
}

pub open spec fn is_brace(c: char) -> bool {
    c == '{' || c == '}'
}

/// The end of the line comment whose text starts at `i`: the next line feed, or the end.
pub open spec fn line_end(s: Seq<char>, i: int) -> int
    decreases s.len() - i,
{
    if i < 0 || i >= s.len() || s[i] == '\n' { i } else { line_end(s, i + 1) }
}

/// The end of the bare token that starts at `i`: the next white space or brace, or the end.
pub open spec fn bare_end(s: Seq<char>, i: int) -> int
    decreases s.len() - i,
{
    if i < 0 || i >= s.len() || is_kv_space(s[i]) || is_brace(s[i]) { i } else { bare_end(s, i + 1) }
}

/// The value of the quoted string whose text starts at `i`, after the
/// characters `acc` already read, and the index of its closing quote; a
/// backslash keeps the character after it, whatever it is.
pub open spec fn quoted_scan(s: Seq<char>, i: int, acc: Seq<char>) -> Option<(Seq<char>, int)>
    decreases s.len() - i,
{
    if i < 0 || i >= s.len() {
        None
    } else if s[i] == '"' {
        Some((acc, i))
    } else if s[i] == '\\' && i + 1 < s.len() {
        quoted_scan(s, i + 2, acc.push(s[i + 1]))
    } else {
        quoted_scan(s, i + 1, acc.push(s[i]))
    }
}

/// The tokens of `s` from `i` on, after the tokens `acc` already read:
/// braces, quoted strings and bare words; white space and `//` comments
/// separate them.
pub open spec fn token_scan(s: Seq<char>, i: int, acc: Seq<Seq<char>>) -> Result<Seq<Seq<char>>, CatalogError>
    decreases s.len() - i,
    via token_scan_decreases
{
    if i < 0 || i >= s.len() {
        Ok(acc)
    } else if is_kv_space(s[i]) {
        token_scan(s, i + 1, acc)
    } else if s[i] == '/' && i + 1 < s.len() && s[i + 1] == '/' {
        token_scan(s, line_end(s, i + 2), acc)
    } else if is_brace(s[i]) {
        token_scan(s, i + 1, acc.push(seq![s[i]]))
    } else if s[i] == '"' {
        match quoted_scan(s, i + 1, Seq::empty()) {
            None => Err(CatalogError::UnterminatedString),
            Some((value, close)) => token_scan(s, close + 1, acc.push(value)),
        }
    } else {
        token_scan(s, bare_end(s, i), acc.push(s.subrange(i, bare_end(s, i))))
    }
}

proof fn lemma_line_end(s: Seq<char>, i: int)
    requires
        0 <= i <= s.len(),
    ensures
        i <= line_end(s, i) <= s.len(),
        forall|j: int| i <= j < line_end(s, i) ==> s[j] != '\n',
        line_end(s, i) < s.len() ==> s[line_end(s, i)] == '\n',
    decreases s.len() - i,
{
    if i < s.len() && s[i] != '\n' {
        lemma_line_end(s, i + 1);
    }
}

proof fn lemma_bare_end(s: Seq<char>, i: int)
    requires
        0 <= i <= s.len(),
    ensures
        i <= bare_end(s, i) <= s.len(),
        forall|j: int| i <= j < bare_end(s, i) ==> !is_kv_space(#[trigger] s[j]) && !is_brace(s[j]),
        bare_end(s, i) < s.len() ==> is_kv_space(s[bare_end(s, i)]) || is_brace(s[bare_end(s, i)]),
    decreases s.len() - i,
{
    if i < s.len() && !is_kv_space(s[i]) && !is_brace(s[i]) {
        lemma_bare_end(s, i + 1);
    }
}

proof fn lemma_quoted_scan(s: Seq<char>, i: int, acc: Seq<char>)
    requires
        0 <= i,
    ensures
        quoted_scan(s, i, acc) matches Some((_, close)) ==> i <= close < s.len(),
    decreases s.len() - i,
{
    if 0 <= i < s.len() && s[i] != '"' {
        if s[i] == '\\' && i + 1 < s.len() {
            lemma_quoted_scan(s, i + 2, acc.push(s[i + 1]));
        } else {
            lemma_quoted_scan(s, i + 1, acc.push(s[i]));
        }
    }
}

#[via_fn]
proof fn token_scan_decreases(s: Seq<char>, i: int, acc: Seq<Seq<char>>) {
    if 0 <= i < s.len() {
        if i + 2 <= s.len() {
            lemma_line_end(s, i + 2);
        }
        lemma_quoted_scan(s, i + 1, Seq::empty());
        lemma_bare_end(s, i);
    }
}

/// The tokens of `s`.
pub open spec fn tokens_of(s: Seq<char>) -> Result<Seq<Seq<char>>, CatalogError> {
    token_scan(s, 0, Seq::empty())
}

/// The KeyValues tokens of `text`.
fn tokenize(text: &[char]) -> (r: Result<Vec<Vec<char>>, CatalogError>)
    ensures
        match tokens_of(text@) {
            Ok(tokens) => r matches Ok(v) && views(v@) == tokens,
            Err(e) => r == Err::<Vec<Vec<char>>, CatalogError>(e),
        },
{
    let ghost s = text@;
    let mut tokens: Vec<Vec<char>> = Vec::new();
    let mut index: usize = 0;
    assert(views(tokens@) =~= Seq::<Seq<char>>::empty());
    while index < text.len()
        invariant
            s == text@,
            index <= text.len(),
            tokens_of(s) == token_scan(s, index as int, views(tokens@)),
        decreases text.len() - index,
    {
        let c = text[index];
        let ghost before = views(tokens@);
        let ghost at = index as int;
        if c == ' ' || c == '\t' || c == '\n' || c == '\x0C' || c == '\r' {
            index += 1;
        } else if c == '/' && index + 1 < text.len() && text[index + 1] == '/' {
            index += 2;
            let ghost entry = index as int;
            proof {
                lemma_line_end(s, index as int);
            }
            while index < text.len() && text[index] != '\n'
                invariant
                    s == text@,
                    index <= text.len(),
                    line_end(s, index as int) == line_end(s, entry),
                    entry <= index,
                decreases text.len() - index,
            {
                index += 1;
            }
        } else if c == '{' || c == '}' {
            let mut token: Vec<char> = Vec::new();
            token.push(c);
            tokens.push(token);
            index += 1;
            assert(token@ == seq![c]);
            assert(views(tokens@) =~= before.push(seq![c]));
        } else if c == '"' {
            index += 1;
            let ghost entry = index as int;
            let mut value: Vec<char> = Vec::new();
            while index < text.len() && text[index] != '"'
                invariant
                    s == text@,
                    entry <= index <= text.len(),
                    quoted_scan(s, entry, Seq::empty()) == quoted_scan(s, index as int, value@),
                decreases text.len() - index,
            {
                if text[index] == '\\' && index + 1 < text.len() {
                    index += 1;
                }
                value.push(text[index]);
                index += 1;
            }
            if index == text.len() {
                return Err(CatalogError::UnterminatedString);
            }
            index += 1;
            tokens.push(value);
            assert(views(tokens@) =~= before.push(value@));
        } else {
            let start = index;
            while index < text.len() && !(text[index] == ' ' || text[index] == '\t' || text[index] == '\n'
                || text[index] == '\x0C' || text[index] == '\r' || text[index] == '{' || text[index] == '}')
                invariant
                    s == text@,
                    start <= index <= text.len(),
                    bare_end(s, start as int) == bare_end(s, index as int),
                decreases text.len() - index,
            {
                index += 1;
            }
            let mut token: Vec<char> = Vec::new();
            let mut k: usize = start;
            while k < index
                invariant
                    s == text@,
                    start <= k <= index <= text.len(),
                    token@ == s.subrange(start as int, k as int),
                decreases index - k,
            {
                token.push(text[k]);
                k += 1;
                assert(token@ =~= s.subrange(start as int, k as int));
            }
            tokens.push(token);
            proof {
                lemma_bare_end(s, start as int);
            }
            assert(views(tokens@) =~= before.push(s.subrange(start as int, index as int)));
        }
    }
    Ok(tokens)
}


/// Where `pat` first occurs in `s` at or after `i`.
pub open spec fn find_from(s: Seq<char>, pat: Seq<char>, i: int) -> Option<int>
    decreases s.len() - i,
{
    if i < 0 || i + pat.len() > s.len() {
        None
    } else if pat.len() == 0 || s.subrange(i, i + pat.len()) == pat {
        Some(i)
    } else {
        find_from(s, pat, i + 1)
    }
}

/// Where `c` first occurs in `s` at or after `i`.
pub open spec fn find_char_from(s: Seq<char>, c: char, i: int) -> Option<int>
    decreases s.len() - i,
{
    if i < 0 || i >= s.len() {
        None
    } else if s[i] == c {
        Some(i)
    } else {
        find_char_from(s, c, i + 1)
    }
}

/// The index of the `}` that closes the block being read at `i`, where
/// `depth` blocks are open and the reader may be inside a quoted string
/// (after a backslash, if `escaped`) or inside a line comment.
pub open spec fn block_close(s: Seq<char>, i: int, depth: nat, quoted: bool, escaped: bool, comment: bool) -> Result<int, CatalogError>
    decreases s.len() - i,
{
    if i < 0 || i >= s.len() {
        Err(CatalogError::UnterminatedMasterBlock)
    } else if comment {
        block_close(s, i + 1, depth, quoted, escaped, s[i] != '\n')
    } else if quoted {
        if escaped {
            block_close(s, i + 1, depth, true, false, false)
        } else if s[i] == '\\' {
            block_close(s, i + 1, depth, true, true, false)
        } else if s[i] == '"' {
            block_close(s, i + 1, depth, false, false, false)
        } else {
            block_close(s, i + 1, depth, true, false, false)
        }
    } else if s[i] == '"' {
        block_close(s, i + 1, depth, true, false, false)
    } else if s[i] == '/' && i + 1 < s.len() && s[i + 1] == '/' {
        block_close(s, i + 2, depth, false, false, true)
    } else if s[i] == '{' {
        block_close(s, i + 1, depth + 1, false, false, false)
    } else if s[i] == '}' {
        if depth == 0 {
            Err(CatalogError::UnexpectedBlockEnd)
        } else if depth == 1 {
            Ok(i)
        } else {
            block_close(s, i + 1, (depth - 1) as nat, false, false, false)
        }
    } else {
        block_close(s, i + 1, depth, false, false, false)
    }
}

/// Where the `master_maps_list` block lies in `s`: from its `{` up to, but
/// not including, the index just past its `}`.
pub open spec fn master_fragment(s: Seq<char>) -> Result<(int, int), CatalogError> {
    match find_from(s, "master_maps_list"@, 0) {
        None => Err(CatalogError::NoMasterBlock),
        Some(name) => match find_char_from(s, '{', name) {
            None => Err(CatalogError::NoOpeningBrace),
            Some(start) => match block_close(s, start, 0, false, false, false) {
                Ok(close) => Ok((start, close + 1)),
                Err(e) => Err(e),
            },
        },
    }
}

/// The bounds of the `master_maps_list` block in `text`.
fn master_maps_fragment(text: &[char]) -> (r: Result<(usize, usize), CatalogError>)
    ensures
        match master_fragment(text@) {
            Ok((start, end)) => r == Ok::<(usize, usize), CatalogError>((start as usize, end as usize)) && 0 <= start < end <= text@.len(),
            Err(e) => r == Err::<(usize, usize), CatalogError>(e),
        },
{
    let ghost s = text@;
    let pat = chars_of("master_maps_list");
    proof {
        reveal_strlit("master_maps_list");
    }
    assert(pat@.len() == 16);
    let mut name: usize = 0;
    loop
        invariant
            s == text@,
            pat@ == "master_maps_list"@,
            pat@.len() == 16,
            name <= text.len(),
            find_from(s, pat@, 0) == find_from(s, pat@, name as int),
        ensures
            find_from(s, pat@, 0) == Some(name as int),
            name <= text.len(),
        decreases text.len() - name,
    {
        if name > text.len() || pat.len() > text.len() - name {
            return Err(CatalogError::NoMasterBlock);
        }
        if occurs_at(text, pat.as_slice(), name) {
            break;
        }
        name += 1;
    }
    let mut start: usize = name;
    loop
        invariant
            s == text@,
            pat@ == "master_maps_list"@,
            find_from(s, pat@, 0) == Some(name as int),
            find_char_from(s, '{', name as int) == find_char_from(s, '{', start as int),
            name <= start,
        ensures
            find_from(s, pat@, 0) == Some(name as int),
            find_char_from(s, '{', name as int) == Some(start as int),
        decreases text.len() - start,
    {
        if start >= text.len() {
            return Err(CatalogError::NoOpeningBrace);
        }
        if text[start] == '{' {
            break;
        }
        start += 1;
    }
    let mut depth: usize = 0;
    let mut quoted = false;
    let mut escaped = false;
    let mut comment = false;
    let mut index = start;
    while index < text.len()
        invariant
            s == text@,
            master_fragment(s) == match block_close(s, start as int, 0, false, false, false) {
                Ok(close) => Ok((start as int, close + 1)),
                Err(e) => Err::<(int, int), CatalogError>(e),
            },
            block_close(s, start as int, 0, false, false, false)
                == block_close(s, index as int, depth as nat, quoted, escaped, comment),
            start <= index,
            depth <= index,
            !quoted ==> !escaped,
            comment ==> !quoted && !escaped,
        decreases text.len() - index,
    {
        let c = text[index];
        if comment {
            if c == '\n' {
                comment = false;
            }
        } else if quoted {
            if escaped {
                escaped = false;
            } else if c == '\\' {
                escaped = true;
            } else if c == '"' {
                quoted = false;
            }
        } else if c == '"' {
            quoted = true;
        } else if c == '/' && index + 1 < text.len() && text[index + 1] == '/' {
            comment = true;
            index += 1;
        } else if c == '{' {
            depth += 1;
        } else if c == '}' {
            if depth == 0 {
                return Err(CatalogError::UnexpectedBlockEnd);
            }
            depth -= 1;
            if depth == 0 {
                return Ok((start, index + 1));
            }
        }
        index += 1;
    }
    Err(CatalogError::UnterminatedMasterBlock)
}


/// A KeyValues value as a mathematical object: a string, or a block of
/// (key, value) entries kept in key order.
pub enum KvValue {
    Scalar(Seq<char>),
    Block(Seq<(Seq<char>, KvValue)>),
}

/// A parsed KeyValues value.
pub enum Value {
    Scalar(Vec<char>),
    Block(Vec<(Vec<char>, Value)>),
}

impl Value {
    pub open spec fn model(&self) -> KvValue
        decreases self,
    {
        match self {
            Value::Scalar(text) => KvValue::Scalar(text@),
            Value::Block(entries) => KvValue::Block(entries_model(entries@)),
        }
    }
}

/// The entries of a block as mathematical objects.
pub open spec fn entries_model(entries: Seq<(Vec<char>, Value)>) -> Seq<(Seq<char>, KvValue)>
    decreases entries,
{
    if entries.len() == 0 {
        Seq::empty()
    } else {
        seq![(entries[0].0@, entries[0].1.model())] + entries_model(entries.subrange(1, entries.len() as int))
    }
}

/// The order of keys: lexicographic by code point, the order of `String`.
pub open spec fn key_less(a: Seq<char>, b: Seq<char>) -> bool
    decreases a.len(),
{
    if a.len() == 0 {
        b.len() > 0
    } else if b.len() == 0 {
        false
    } else if a[0] != b[0] {
        (a[0] as int) < (b[0] as int)
    } else {
        key_less(a.drop_first(), b.drop_first())
    }
}

/// The key order is a strict total order: irreflexive, asymmetric,
/// transitive, and any two different keys are ordered one way or the other.
pub proof fn lemma_key_order(a: Seq<char>, b: Seq<char>, c: Seq<char>)
    ensures
        !key_less(a, a),
        key_less(a, b) ==> !key_less(b, a),
        key_less(a, b) && key_less(b, c) ==> key_less(a, c),
        a != b ==> key_less(a, b) || key_less(b, a),
    decreases a.len(),
{
    if a.len() > 0 {
        lemma_key_order(a.drop_first(), a.drop_first(), a.drop_first());
        if b.len() > 0 {
            lemma_key_order(a.drop_first(), b.drop_first(), b.drop_first());
            if c.len() > 0 {
                lemma_key_order(a.drop_first(), b.drop_first(), c.drop_first());
            }
            if a != b && a[0] == b[0] {
                assert(a.drop_first() != b.drop_first()) by {
                    if a.drop_first() == b.drop_first() {
                        assert(a =~= seq![a[0]] + a.drop_first());
                        assert(b =~= seq![b[0]] + b.drop_first());
                    }
                }
            }
        }
    } else {
        if b.len() == 0 {
            assert(a =~= b);
        }
    }
}

/// Inserts an entry into a block kept in key order: an entry with an equal
/// key has its value replaced, otherwise the entry goes before the first
/// greater key.
pub open spec fn insert_entry(entries: Seq<(Seq<char>, KvValue)>, key: Seq<char>, value: KvValue) -> Seq<(Seq<char>, KvValue)>
    decreases entries.len(),
{
    if entries.len() == 0 {
        seq![(key, value)]
    } else if entries[0].0 == key {
        seq![(key, value)] + entries.drop_first()
    } else if key_less(key, entries[0].0) {
        seq![(key, value)] + entries
    } else {
        seq![entries[0]] + insert_entry(entries.drop_first(), key, value)
    }
}

/// The block whose `{` stands at token `pos`, and the index of the token
/// after its `}`.
pub open spec fn parse_block_at(tokens: Seq<Seq<char>>, pos: int) -> Result<(Seq<(Seq<char>, KvValue)>, int), CatalogError>
    decreases tokens.len() - pos, 1int,
{
    if pos < 0 || pos >= tokens.len() || tokens[pos] != seq!['{'] {
        Err(CatalogError::ExpectedBlock)
    } else {
        parse_entries(tokens, pos + 1, Seq::empty())
    }
}

/// The entries of a block from token `pos` on, after the entries `acc`
/// already read, and the index of the token after the closing `}`.
pub open spec fn parse_entries(tokens: Seq<Seq<char>>, pos: int, acc: Seq<(Seq<char>, KvValue)>) -> Result<(Seq<(Seq<char>, KvValue)>, int), CatalogError>
    decreases tokens.len() - pos, 0int,
{
    if pos < 0 || pos >= tokens.len() {
        Err(CatalogError::UnterminatedBlock)
    } else if tokens[pos] == seq!['}'] {
        Ok((acc, pos + 1))
    } else if pos + 1 >= tokens.len() {
        Err(CatalogError::MissingValue)
    } else if tokens[pos + 1] == seq!['{'] {
        match parse_block_at(tokens, pos + 1) {
            Ok((block, next)) => if pos < next <= tokens.len() {
                parse_entries(tokens, next, insert_entry(acc, tokens[pos], KvValue::Block(block)))
            } else {
                Err(CatalogError::UnterminatedBlock)
            },
            Err(e) => Err(e),
        }
    } else if tokens[pos + 1] == seq!['}'] {
        Err(CatalogError::UnexpectedBlockEnd)
    } else {
        parse_entries(tokens, pos + 2, insert_entry(acc, tokens[pos], KvValue::Scalar(tokens[pos + 1])))
    }
}


proof fn lemma_entries_model(entries: Seq<(Vec<char>, Value)>)
    ensures
        entries_model(entries).len() == entries.len(),
        forall|i: int| 0 <= i < entries.len() ==> #[trigger] entries_model(entries)[i] == (entries[i].0@, entries[i].1.model()),
    decreases entries.len(),
{
    if entries.len() > 0 {
        let rest = entries.subrange(1, entries.len() as int);
        lemma_entries_model(rest);
        assert forall|i: int| 0 <= i < entries.len() implies #[trigger] entries_model(entries)[i] == (entries[i].0@, entries[i].1.model()) by {
            if i > 0 {
                assert(rest[i - 1] == entries[i]);
            }
        }
    }
}

/// Whether `a` comes before `b` in key order.
/// The code point of `c`.
fn code_point(c: char) -> (u: u32)
    ensures
        u as int == c as int,
{
    c as u32
}

pub(crate) fn key_before(a: &[char], b: &[char]) -> (r: bool)
    ensures
        r == key_less(a@, b@),
{
    let mut i: usize = 0;
    assert(a@.skip(0) == a@ && b@.skip(0) == b@);
    loop
        invariant
            i <= a.len(),
            i <= b.len(),
            key_less(a@, b@) == key_less(a@.skip(i as int), b@.skip(i as int)),
        decreases a.len() - i,
    {
        if i == a.len() {
            return i < b.len();
        }
        if i == b.len() {
            return false;
        }
        if a[i] != b[i] {
            return code_point(a[i]) < code_point(b[i]);
        }
        assert(a@.skip(i as int).drop_first() == a@.skip(i + 1));
        assert(b@.skip(i as int).drop_first() == b@.skip(i + 1));
        i += 1;
    }
}

proof fn lemma_insert_entry_at(m: Seq<(Seq<char>, KvValue)>, key: Seq<char>, value: KvValue, j: int)
    requires
        0 <= j <= m.len(),
        forall|i: int| 0 <= i < j ==> (#[trigger] m[i]).0 != key && !key_less(key, m[i].0),
        j < m.len() ==> m[j].0 == key || key_less(key, m[j].0),
    ensures
        insert_entry(m, key, value) == if j < m.len() && m[j].0 == key {
            m.take(j) + seq![(key, value)] + m.skip(j + 1)
        } else {
            m.take(j) + seq![(key, value)] + m.skip(j)
        },
    decreases j,
{
    if j > 0 {
        let rest = m.drop_first();
        assert forall|i: int| 0 <= i < j - 1 implies (#[trigger] rest[i]).0 != key && !key_less(key, rest[i].0) by {
            assert(rest[i] == m[i + 1]);
        }
        lemma_insert_entry_at(rest, key, value, j - 1);
        assert(m[0].0 != key && !key_less(key, m[0].0));
        if j < m.len() && m[j].0 == key {
            assert(m.take(j) + seq![(key, value)] + m.skip(j + 1) == seq![m[0]] + (rest.take(j - 1) + seq![(key, value)] + rest.skip(j)));
        } else {
            assert(m.take(j) + seq![(key, value)] + m.skip(j) == seq![m[0]] + (rest.take(j - 1) + seq![(key, value)] + rest.skip(j - 1)));
        }
    } else {
        if m.len() > 0 && m[0].0 == key {
            assert(m.skip(1) == m.drop_first());
        }
        assert(m.skip(0) == m);
    }
}

/// Inserts `key` with `value` into a block kept in key order.
fn insert_value(entries: &mut Vec<(Vec<char>, Value)>, key: Vec<char>, value: Value)
    ensures
        entries_model(final(entries)@) == insert_entry(entries_model(old(entries)@), key@, value.model()),
{
    let ghost m = entries_model(entries@);
    proof {
        lemma_entries_model(entries@);
    }
    let mut j: usize = 0;
    let mut equal = false;
    while j < entries.len()
        invariant_except_break
            !equal,
        invariant
            j <= entries.len(),
            m == entries_model(entries@),
            entries@ == old(entries)@,
            m.len() == entries.len(),
            forall|i: int| 0 <= i < entries.len() ==> #[trigger] m[i] == (entries@[i].0@, entries@[i].1.model()),
            forall|i: int| 0 <= i < j ==> (#[trigger] m[i]).0 != key@ && !key_less(key@, m[i].0),
        ensures
            j <= entries.len(),
            forall|i: int| 0 <= i < j ==> (#[trigger] m[i]).0 != key@ && !key_less(key@, m[i].0),
            j < entries.len() ==> m[j as int].0 == key@ || key_less(key@, m[j as int].0),
            equal == (j < entries.len() && m[j as int].0 == key@),
        decreases entries.len() - j,
    {
        assert(m[j as int] == (entries@[j as int].0@, entries@[j as int].1.model()));
        if crate::text::same_chars(entries[j].0.as_slice(), key.as_slice()) {
            equal = true;
            break;
        }
        if key_before(key.as_slice(), entries[j].0.as_slice()) {
            break;
        }
        j += 1;
    }
    proof {
        lemma_insert_entry_at(m, key@, value.model(), j as int);
    }
    let ghost item = (key@, value.model());
    if equal {
        entries.remove(j);
        entries.insert(j, (key, value));
    } else {
        entries.insert(j, (key, value));
    }
    proof {
        lemma_entries_model(entries@);
        if equal {
            assert(entries_model(entries@) =~= m.take(j as int) + seq![item] + m.skip(j + 1));
        } else {
            assert(entries_model(entries@) =~= m.take(j as int) + seq![item] + m.skip(j as int));
        }
    }
}


proof fn lemma_parse_advances(tokens: Seq<Seq<char>>, pos: int, acc: Seq<(Seq<char>, KvValue)>)
    ensures
        parse_block_at(tokens, pos) matches Ok((_, next)) ==> pos < next <= tokens.len(),
        parse_entries(tokens, pos, acc) matches Ok((_, next)) ==> pos < next <= tokens.len(),
    decreases tokens.len() - pos,
{
    if 0 <= pos < tokens.len() {
        lemma_parse_advances(tokens, pos + 1, Seq::empty());
        if tokens[pos] != seq!['}'] && pos + 1 < tokens.len() {
            if tokens[pos + 1] == seq!['{'] {
                if let Ok((block, next)) = parse_block_at(tokens, pos + 1) {
                    if pos < next <= tokens.len() {
                        lemma_parse_advances(tokens, next, insert_entry(acc, tokens[pos], KvValue::Block(block)));
                    }
                }
            } else if tokens[pos + 1] != seq!['}'] {
                lemma_parse_advances(tokens, pos + 2, insert_entry(acc, tokens[pos], KvValue::Scalar(tokens[pos + 1])));
            }
        }
    }
}

/// Whether the token is the single character `c`.
fn is_token(token: &Vec<char>, c: char) -> (r: bool)
    ensures
        r == (token@ == seq![c]),
{
    let r = token.len() == 1 && token[0] == c;
    assert(r ==> token@ =~= seq![c]);
    r
}

/// Parses the block whose `{` stands at token `*offset`, and moves `*offset`
/// past its `}`.
fn parse_block(tokens: &Vec<Vec<char>>, offset: &mut usize) -> (r: Result<Vec<(Vec<char>, Value)>, CatalogError>)
    ensures
        match parse_block_at(views(tokens@), *old(offset) as int) {
            Ok((block, next)) => r matches Ok(entries) && entries_model(entries@) == block && *final(offset) == next,
            Err(e) => r matches Err(x) && x == e,
        },
    decreases tokens.len() - *old(offset),
{
    let ghost t = views(tokens@);
    let ghost start = *offset as int;
    proof {
        lemma_parse_advances(t, start, Seq::empty());
    }
    if *offset >= tokens.len() || !is_token(&tokens[*offset], '{') {
        return Err(CatalogError::ExpectedBlock);
    }
    *offset += 1;
    let mut entries: Vec<(Vec<char>, Value)> = Vec::new();
    assert(entries_model(entries@) =~= Seq::empty());
    loop
        invariant
            t == views(tokens@),
            start == *old(offset) as int,
            start < *offset,
            parse_block_at(t, start) == parse_entries(t, *offset as int, entries_model(entries@)),
        decreases tokens.len() - *offset,
    {
        proof {
            lemma_parse_advances(t, *offset as int, entries_model(entries@));
        }
        if *offset >= tokens.len() {
            return Err(CatalogError::UnterminatedBlock);
        }
        assert(t[*offset as int] == tokens@[*offset as int]@);
        if is_token(&tokens[*offset], '}') {
            *offset += 1;
            return Ok(entries);
        }
        let key = vstd::slice::slice_to_vec(tokens[*offset].as_slice());
        *offset += 1;
        if *offset >= tokens.len() {
            return Err(CatalogError::MissingValue);
        }
        assert(t[*offset as int] == tokens@[*offset as int]@);
        if is_token(&tokens[*offset], '{') {
            let ghost at = *offset as int;
            let block = parse_block(tokens, offset)?;
            proof {
                lemma_parse_advances(t, at, Seq::empty());
            }
            insert_value(&mut entries, key, Value::Block(block));
        } else if is_token(&tokens[*offset], '}') {
            return Err(CatalogError::UnexpectedBlockEnd);
        } else {
            let text = vstd::slice::slice_to_vec(tokens[*offset].as_slice());
            *offset += 1;
            insert_value(&mut entries, key, Value::Scalar(text));
        }
    }
}


/// One map of the catalogue.
#[derive(Debug, Clone)]
pub struct MapDefinition {
    pub index: usize,
    pub name: String,
    pub tags: Vec<String>,
    pub queue_eligible: bool,
}

/// A catalogue map as a mathematical object.
pub struct MapModel {
    pub index: usize,
    pub name: Seq<char>,
    pub tags: Seq<Seq<char>>,
    pub queue_eligible: bool,
}

/// The character sequences held by a sequence of strings.
pub open spec fn string_views(v: Seq<String>) -> Seq<Seq<char>> {
    v.map_values(|t: String| t@)
}

impl View for MapDefinition {
    type V = MapModel;

    open spec fn view(&self) -> MapModel {
        MapModel {
            index: self.index,
            name: self.name@,
            tags: string_views(self.tags@),
            queue_eligible: self.queue_eligible,
        }
    }
}

/// The maps of a catalogue as mathematical objects.
pub open spec fn map_models(v: Seq<MapDefinition>) -> Seq<MapModel> {
    v.map_values(|m: MapDefinition| m@)
}

/// The value of `key` in a block.
pub open spec fn lookup(entries: Seq<(Seq<char>, KvValue)>, key: Seq<char>) -> Option<KvValue>
    decreases entries.len(),
{
    if entries.len() == 0 {
        None
    } else if entries[0].0 == key {
        Some(entries[0].1)
    } else {
        lookup(entries.drop_first(), key)
    }
}

/// Whether a tag's flag turns the tag on: anything but `0` or `false` (in any case).
pub open spec fn tag_enabled(flag: Seq<char>) -> bool {
    flag != "0"@ && !eq_ignore_ascii_case(flag, "false"@)
}

/// The enabled tags of a tag block, in key order, in small letters.
pub open spec fn enabled_tags(entries: Seq<(Seq<char>, KvValue)>) -> Seq<Seq<char>>
    decreases entries.len(),
{
    if entries.len() == 0 {
        Seq::empty()
    } else {
        let rest = enabled_tags(entries.drop_last());
        match entries.last().1 {
            KvValue::Scalar(flag) => if tag_enabled(flag) { rest.push(lower_all(entries.last().0)) } else { rest },
            KvValue::Block(_) => rest,
        }
    }
}

/// The matchmaking tags of a map block: its `rolling_match_tags` block's enabled tags.
pub open spec fn map_tags(map: Seq<(Seq<char>, KvValue)>) -> Seq<Seq<char>> {
    match lookup(map, "rolling_match_tags"@) {
        Some(KvValue::Block(tags)) => enabled_tags(tags),
        _ => Seq::empty(),
    }
}

/// The map that a catalogue entry describes: its key is an index, its value
/// a block with a string `name`; the map can be queued for when its index is
/// not 0, its name is not `Missing`, and it has a tag.
pub open spec fn definition_of(key: Seq<char>, value: KvValue) -> Option<MapModel> {
    match parse_unsigned(key, usize::MAX as nat) {
        None => None,
        Some(index) => match value {
            KvValue::Block(map) => match lookup(map, "name"@) {
                Some(KvValue::Scalar(name)) => Some(MapModel {
                    index: index as usize,
                    name: name,
                    tags: map_tags(map),
                    queue_eligible: index > 0 && name != "Missing"@ && map_tags(map).len() > 0,
                }),
                _ => None,
            },
            KvValue::Scalar(_) => None,
        },
    }
}

/// The maps that the entries of the catalogue block describe, in entry order.
pub open spec fn definitions(master: Seq<(Seq<char>, KvValue)>) -> Seq<MapModel>
    decreases master.len(),
{
    if master.len() == 0 {
        Seq::empty()
    } else {
        let rest = definitions(master.drop_last());
        match definition_of(master.last().0, master.last().1) {
            Some(d) => rest.push(d),
            None => rest,
        }
    }
}

/// Inserts `d` after every map whose index is not greater than its own.
pub open spec fn insert_by_index(sorted: Seq<MapModel>, d: MapModel) -> Seq<MapModel>
    decreases sorted.len(),
{
    if sorted.len() == 0 || sorted.last().index <= d.index {
        sorted.push(d)
    } else {
        insert_by_index(sorted.drop_last(), d).push(sorted.last())
    }
}

/// `maps` stably sorted by index.
pub open spec fn sort_by_index(maps: Seq<MapModel>) -> Seq<MapModel>
    decreases maps.len(),
{
    if maps.len() == 0 {
        Seq::empty()
    } else {
        insert_by_index(sort_by_index(maps.drop_last()), maps.last())
    }
}

/// The catalogue that `items_game` describes, or why it has none.
pub open spec fn catalogue_of(items_game: Seq<char>) -> Result<Seq<MapModel>, CatalogError> {
    match master_fragment(items_game) {
        Err(e) => Err(e),
        Ok((start, end)) => match tokens_of(items_game.subrange(start, end)) {
            Err(e) => Err(e),
            Ok(tokens) => match parse_block_at(tokens, 0) {
                Err(e) => Err(e),
                Ok((master, _)) => Ok(sort_by_index(definitions(master))),
            },
        },
    }
}

/// The value of `key` in a block.
fn lookup_value<'a>(entries: &'a Vec<(Vec<char>, Value)>, key: &[char]) -> (r: Option<&'a Value>)
    ensures
        match lookup(entries_model(entries@), key@) {
            Some(v) => r matches Some(x) && x.model() == v,
            None => r is None,
        },
{
    let ghost m = entries_model(entries@);
    proof {
        lemma_entries_model(entries@);
    }
    let mut i: usize = 0;
    assert(m.skip(0) == m);
    while i < entries.len()
        invariant
            i <= entries.len(),
            m == entries_model(entries@),
            m.len() == entries.len(),
            forall|k: int| 0 <= k < entries.len() ==> #[trigger] m[k] == (entries@[k].0@, entries@[k].1.model()),
            lookup(m, key@) == lookup(m.skip(i as int), key@),
        decreases entries.len() - i,
    {
        assert(m[i as int] == (entries@[i as int].0@, entries@[i as int].1.model()));
        if same_chars(entries[i].0.as_slice(), key) {
            return Some(&entries[i].1);
        }
        assert(m.skip(i as int).drop_first() == m.skip(i + 1));
        i += 1;
    }
    None
}

/// The enabled tags of a tag block.
fn enabled_tag_list(entries: &Vec<(Vec<char>, Value)>) -> (tags: Vec<String>)
    ensures
        string_views(tags@) == enabled_tags(entries_model(entries@)),
{
    let ghost m = entries_model(entries@);
    proof {
        lemma_entries_model(entries@);
    }
    let zero = chars_of("0");
    let no = chars_of("false");
    let mut tags: Vec<String> = Vec::new();
    let mut i: usize = 0;
    assert(m.take(0) =~= Seq::<(Seq<char>, KvValue)>::empty());
    assert(string_views(tags@) =~= Seq::<Seq<char>>::empty());
    while i < entries.len()
        invariant
            i <= entries.len(),
            m == entries_model(entries@),
            m.len() == entries.len(),
            forall|k: int| 0 <= k < entries.len() ==> #[trigger] m[k] == (entries@[k].0@, entries@[k].1.model()),
            zero@ == "0"@,
            no@ == "false"@,
            string_views(tags@) == enabled_tags(m.take(i as int)),
        decreases entries.len() - i,
    {
        assert(m[i as int] == (entries@[i as int].0@, entries@[i as int].1.model()));
        assert(m.take(i + 1).drop_last() == m.take(i as int));
        assert(m.take(i + 1).last() == m[i as int]);
        let ghost before = tags@;
        match &entries[i].1 {
            Value::Scalar(flag) => {
                if !same_chars(flag.as_slice(), zero.as_slice()) && !same_ignoring_ascii_case(flag.as_slice(), no.as_slice()) {
                    let lower = to_lower(entries[i].0.as_slice());
                    tags.push(string_of(lower.as_slice()));
                    assert(string_views(tags@) =~= string_views(before).push(lower@));
                }
            },
            Value::Block(_) => {},
        }
        i += 1;
    }
    assert(m.take(entries.len() as int) == m);
    tags
}

/// The matchmaking tags of a map block.
fn map_tag_list(map: &Vec<(Vec<char>, Value)>) -> (tags: Vec<String>)
    ensures
        string_views(tags@) == map_tags(entries_model(map@)),
{
    let key = chars_of("rolling_match_tags");
    match lookup_value(map, key.as_slice()) {
        Some(Value::Block(tag_block)) => enabled_tag_list(tag_block),
        _ => {
            let tags: Vec<String> = Vec::new();
            assert(string_views(tags@) =~= Seq::<Seq<char>>::empty());
            tags
        },
    }
}

/// The map that a catalogue entry describes, if it describes one.
fn definition(key: &Vec<char>, value: &Value) -> (r: Option<MapDefinition>)
    ensures
        match definition_of(key@, value.model()) {
            Some(d) => r matches Some(x) && x@ == d,
            None => r is None,
        },
{
    let index = match parse_u64(key.as_slice()) {
        Some(v) => v,
        None => return None,
    };
    if index > usize::MAX as u64 {
        return None;
    }
    let index = index as usize;
    match value {
        Value::Block(map) => {
            let name_key = chars_of("name");
            match lookup_value(map, name_key.as_slice()) {
                Some(Value::Scalar(name)) => {
                    let tags = map_tag_list(map);
                    let missing = chars_of("Missing");
                    let queue_eligible = index > 0 && !same_chars(name.as_slice(), missing.as_slice()) && tags.len() > 0;
                    Some(MapDefinition { index, name: string_of(name.as_slice()), tags, queue_eligible })
                },
                _ => None,
            }
        },
        Value::Scalar(_) => None,
    }
}

proof fn lemma_insert_by_index_at(sorted: Seq<MapModel>, d: MapModel, j: int)
    requires
        0 <= j <= sorted.len(),
        forall|i: int| j <= i < sorted.len() ==> (#[trigger] sorted[i]).index > d.index,
        j > 0 ==> sorted[j - 1].index <= d.index,
    ensures
        insert_by_index(sorted, d) == sorted.take(j) + seq![d] + sorted.skip(j),
    decreases sorted.len() - j,
{
    if j < sorted.len() {
        let shorter = sorted.drop_last();
        lemma_insert_by_index_at(shorter, d, j);
        assert(sorted.take(j) + seq![d] + sorted.skip(j) == (shorter.take(j) + seq![d] + shorter.skip(j)).push(sorted.last()));
    } else {
        assert(sorted.take(j) == sorted);
        assert(sorted.skip(j) == Seq::<MapModel>::empty());
    }
}

/// Inserts `d` after every map whose index is not greater than its own.
fn insert_map(maps: &mut Vec<MapDefinition>, d: MapDefinition)
    ensures
        map_models(final(maps)@) == insert_by_index(map_models(old(maps)@), d@),
{
    let ghost m = map_models(maps@);
    let mut j: usize = maps.len();
    while j > 0 && maps[j - 1].index > d.index
        invariant
            j <= maps.len(),
            m == map_models(maps@),
            maps@ == old(maps)@,
            forall|i: int| j <= i < maps.len() ==> (#[trigger] m[i]).index > d@.index,
        decreases j,
    {
        j -= 1;
    }
    proof {
        lemma_insert_by_index_at(m, d@, j as int);
    }
    let ghost dm = d@;
    maps.insert(j, d);
    assert(map_models(maps@) =~= m.take(j as int) + seq![dm] + m.skip(j as int));
}

/// Reads the map catalogue from the text of `items_game.txt`: the entries of
/// its `master_maps_list` block whose key is an index and whose value has a
/// `name`, stably sorted by index.
pub fn parse_master_maps_list(items_game: &str) -> (r: Result<Vec<MapDefinition>, CatalogError>)
    ensures
        match catalogue_of(items_game@) {
            Ok(maps) => r matches Ok(v) && map_models(v@) == maps,
            Err(e) => r matches Err(x) && x == e,
        },
{
    let text = chars_of(items_game);
    let all = text.as_slice();
    let bounds = master_maps_fragment(all);
    let (start, end) = match bounds {
        Ok(b) => b,
        Err(e) => return Err(e),
    };
    assert(master_fragment(all@) == Ok::<(int, int), CatalogError>((start as int, end as int)));
    let fragment = vstd::slice::slice_subrange(all, start, end);
    assert(fragment@ == items_game@.subrange(start as int, end as int));
    let tokens = tokenize(fragment)?;
    let mut offset: usize = 0;
    let master = parse_block(&tokens, &mut offset)?;
    let ghost mm = entries_model(master@);
    proof {
        lemma_entries_model(master@);
    }
    let mut maps: Vec<MapDefinition> = Vec::new();
    let mut i: usize = 0;
    assert(mm.take(0) =~= Seq::<(Seq<char>, KvValue)>::empty());
    assert(map_models(maps@) =~= Seq::<MapModel>::empty());
    while i < master.len()
        invariant
            i <= master.len(),
            mm == entries_model(master@),
            mm.len() == master.len(),
            forall|k: int| 0 <= k < master.len() ==> #[trigger] mm[k] == (master@[k].0@, master@[k].1.model()),
            map_models(maps@) == sort_by_index(definitions(mm.take(i as int))),
        decreases master.len() - i,
    {
        assert(mm[i as int] == (master@[i as int].0@, master@[i as int].1.model()));
        assert(mm.take(i + 1).drop_last() == mm.take(i as int));
        assert(mm.take(i + 1).last() == mm[i as int]);
        if let Some(d) = definition(&master[i].0, &master[i].1) {
            let ghost dm = d@;
            insert_map(&mut maps, d);
            assert(definitions(mm.take(i + 1)) == definitions(mm.take(i as int)).push(dm));
            assert(definitions(mm.take(i + 1)).drop_last() == definitions(mm.take(i as int)));
        }
        i += 1;
    }
    assert(mm.take(master.len() as int) == mm);
    Ok(maps)
}


/// Whether a tag marks a seasonal map.
pub open spec fn is_seasonal_tag(tag: Seq<char>) -> bool {
    tag == "christmas"@ || tag == "halloween"@
}

/// Whether the map carries a seasonal tag (`christmas` or `halloween`).
pub fn is_seasonal(map: &MapDefinition) -> (r: bool)
    ensures
        r == exists|i: int| 0 <= i < map@.tags.len() && is_seasonal_tag(#[trigger] map@.tags[i]),
{
    let christmas = chars_of("christmas");
    let halloween = chars_of("halloween");
    let mut i: usize = 0;
    while i < map.tags.len()
        invariant
            i <= map.tags.len(),
            christmas@ == "christmas"@,
            halloween@ == "halloween"@,
            forall|k: int| 0 <= k < i ==> !is_seasonal_tag(#[trigger] map@.tags[k]),
        decreases map.tags.len() - i,
    {
        let tag = chars_of(map.tags[i].as_str());
        assert(map@.tags[i as int] == tag@);
        if same_chars(tag.as_slice(), christmas.as_slice()) || same_chars(tag.as_slice(), halloween.as_slice()) {
            assert(is_seasonal_tag(map@.tags[i as int]));
            return true;
        }
        i += 1;
    }
    false
}

/// The maps are in order of index.
pub open spec fn sorted_by_index(maps: Seq<MapModel>) -> bool {
    forall|i: int, j: int| 0 <= i < j < maps.len() ==> (#[trigger] maps[i]).index <= (#[trigger] maps[j]).index
}

proof fn lemma_insert_by_index_sorted(sorted: Seq<MapModel>, d: MapModel)
    requires
        sorted_by_index(sorted),
    ensures
        sorted_by_index(insert_by_index(sorted, d)),
        insert_by_index(sorted, d).len() == sorted.len() + 1,
        forall|i: int| 0 <= i < insert_by_index(sorted, d).len() ==> {
            ||| #[trigger] insert_by_index(sorted, d)[i] == d
            ||| sorted.contains(insert_by_index(sorted, d)[i])
        },
    decreases sorted.len(),
{
    if sorted.len() > 0 && sorted.last().index > d.index {
        let shorter = sorted.drop_last();
        assert(sorted_by_index(shorter)) by {
            assert forall|i: int, j: int| 0 <= i < j < shorter.len() implies (#[trigger] shorter[i]).index <= (#[trigger] shorter[j]).index by {
                assert(shorter[i] == sorted[i] && shorter[j] == sorted[j]);
            }
        }
        lemma_insert_by_index_sorted(shorter, d);
        let inner = insert_by_index(shorter, d);
        assert forall|i: int| 0 <= i < inner.len() implies (#[trigger] inner[i]).index <= sorted.last().index by {
            if inner[i] != d {
                let k = choose|k: int| 0 <= k < shorter.len() && shorter[k] == inner[i];
                assert(sorted[k] == shorter[k]);
            }
        }
        assert forall|i: int| 0 <= i < inner.len() implies sorted.contains(inner[i]) || inner[i] == d by {
            if inner[i] != d {
                let k = choose|k: int| 0 <= k < shorter.len() && shorter[k] == inner[i];
                assert(sorted[k] == shorter[k]);
            }
        }
        assert(sorted.contains(sorted.last())) by {
            assert(sorted[sorted.len() - 1] == sorted.last());
        }
    } else if sorted.len() > 0 {
        assert forall|i: int| 0 <= i < sorted.len() implies (#[trigger] sorted[i]).index <= d.index by {
            if i < sorted.len() - 1 {
                assert(sorted[i].index <= sorted[sorted.len() - 1].index);
            }
        }
        assert forall|i: int| 0 <= i < sorted.len() implies sorted.contains(#[trigger] sorted.push(d)[i]) by {
            assert(sorted.push(d)[i] == sorted[i]);
        }
    }
}

proof fn lemma_sort_by_index_sorted(maps: Seq<MapModel>)
    ensures
        sorted_by_index(sort_by_index(maps)),
    decreases maps.len(),
{
    if maps.len() > 0 {
        lemma_sort_by_index_sorted(maps.drop_last());
        lemma_insert_by_index_sorted(sort_by_index(maps.drop_last()), maps.last());
    }
}

/// A catalogue that `parse_master_maps_list` returns is in order of index.
pub proof fn lemma_catalogue_sorted(items_game: Seq<char>)
    ensures
        catalogue_of(items_game) matches Ok(maps) ==> sorted_by_index(maps),
{
    if let Ok((start, end)) = master_fragment(items_game) {
        if let Ok(tokens) = tokens_of(items_game.subrange(start, end)) {
            if let Ok((master, _)) = parse_block_at(tokens, 0) {
                lemma_sort_by_index_sorted(definitions(master));
            }
        }
    }
}

/// A catalogue map as the catalogue describes it: it can be queued for
/// exactly when its index is not 0, its name is not `Missing` and it has a
/// tag; its tags are in small letters.
pub open spec fn well_described(m: MapModel) -> bool {
    &&& m.queue_eligible == (m.index > 0 && m.name != "Missing"@ && m.tags.len() > 0)
    &&& forall|j: int| 0 <= j < m.tags.len() ==> lower_all(#[trigger] m.tags[j]) == m.tags[j]
}

proof fn lemma_lower_all_twice(s: Seq<char>)
    ensures
        lower_all(lower_all(s)) == lower_all(s),
{
    assert forall|i: int| 0 <= i < s.len() implies #[trigger] ascii_lower(ascii_lower(s[i])) == ascii_lower(s[i]) by {
        let c = s[i];
        if 'A' <= c <= 'Z' {
            assert((c as u32) as int == c as int);
            assert('a' <= ascii_lower(c) <= 'z');
        }
    }
    assert(lower_all(lower_all(s)) =~= lower_all(s));
}

proof fn lemma_enabled_tags_small(entries: Seq<(Seq<char>, KvValue)>)
    ensures
        forall|j: int| 0 <= j < enabled_tags(entries).len()
            ==> lower_all(#[trigger] enabled_tags(entries)[j]) == enabled_tags(entries)[j],
    decreases entries.len(),
{
    if entries.len() > 0 {
        lemma_enabled_tags_small(entries.drop_last());
        lemma_lower_all_twice(entries.last().0);
        let rest = enabled_tags(entries.drop_last());
        assert forall|j: int| 0 <= j < enabled_tags(entries).len()
            implies lower_all(#[trigger] enabled_tags(entries)[j]) == enabled_tags(entries)[j] by {
            if j < rest.len() {
                assert(enabled_tags(entries)[j] == rest[j]);
            }
        }
    }
}

proof fn lemma_definitions_described(master: Seq<(Seq<char>, KvValue)>)
    ensures
        forall|i: int| 0 <= i < definitions(master).len() ==> well_described(#[trigger] definitions(master)[i]),
    decreases master.len(),
{
    if master.len() > 0 {
        lemma_definitions_described(master.drop_last());
        let rest = definitions(master.drop_last());
        if let KvValue::Block(map) = master.last().1 {
            if let Some(KvValue::Block(tags)) = lookup(map, "rolling_match_tags"@) {
                lemma_enabled_tags_small(tags);
            }
        }
        assert forall|i: int| 0 <= i < definitions(master).len() implies well_described(#[trigger] definitions(master)[i]) by {
            if i < rest.len() {
                assert(definitions(master)[i] == rest[i]);
            }
        }
    }
}

proof fn lemma_sort_by_index_members(maps: Seq<MapModel>)
    ensures
        sort_by_index(maps).len() == maps.len(),
        forall|i: int| 0 <= i < sort_by_index(maps).len() ==> maps.contains(#[trigger] sort_by_index(maps)[i]),
    decreases maps.len(),
{
    if maps.len() > 0 {
        let shorter = maps.drop_last();
        lemma_sort_by_index_members(shorter);
        lemma_sort_by_index_sorted(shorter);
        lemma_insert_by_index_sorted(sort_by_index(shorter), maps.last());
        let s = sort_by_index(maps);
        assert forall|i: int| 0 <= i < s.len() implies maps.contains(#[trigger] s[i]) by {
            if s[i] == maps.last() {
                assert(maps[maps.len() - 1] == maps.last());
            } else {
                let inner = sort_by_index(shorter);
                let k = choose|k: int| 0 <= k < inner.len() && inner[k] == s[i];
                let m = choose|m: int| 0 <= m < shorter.len() && shorter[m] == inner[k];
                assert(maps[m] == shorter[m]);
            }
        }
    }
}

/// Every map of a catalogue that `parse_master_maps_list` returns can be
/// queued for exactly when its index is not 0, its name is not `Missing`
/// and it has a tag; and its tags are in small letters.
pub proof fn lemma_catalogue_maps_described(items_game: Seq<char>)
    ensures
        catalogue_of(items_game) matches Ok(maps) ==> forall|i: int| 0 <= i < maps.len() ==> well_described(#[trigger] maps[i]),
{
    if let Ok((start, end)) = master_fragment(items_game) {
        if let Ok(tokens) = tokens_of(items_game.subrange(start, end)) {
            if let Ok((master, _)) = parse_block_at(tokens, 0) {
                let defs = definitions(master);
                lemma_definitions_described(master);
                lemma_sort_by_index_members(defs);
                assert forall|i: int| 0 <= i < sort_by_index(defs).len() implies well_described(#[trigger] sort_by_index(defs)[i]) by {
                    let k = choose|k: int| 0 <= k < defs.len() && defs[k] == sort_by_index(defs)[i];
                }
            }
        }
    }
}

/// ASCII white space as `u8::is_ascii_whitespace` counts it: space, tab,
/// line feed, form feed and carriage return.
pub open spec fn ascii_white(c: char) -> bool {
    c == ' ' || c == '\t' || c == '\n' || c == '\x0C' || c == '\r'
}

/// Text that a quoted KeyValues string holds as it is: no quote, no backslash.
pub open spec fn plain_text(t: Seq<char>) -> bool {
    forall|i: int| 0 <= i < t.len() ==> t[i] != '"' && t[i] != '\\'
}

/// Quoted strings written one after another, each after its own run of
/// separating characters.
pub open spec fn quoted_layout(ts: Seq<Seq<char>>, gaps: Seq<Seq<char>>) -> Seq<char>
    decreases ts.len(),
{
    if ts.len() == 0 || gaps.len() == 0 {
        Seq::empty()
    } else {
        gaps[0] + seq!['"'] + ts[0] + seq!['"'] + quoted_layout(ts.drop_first(), gaps.drop_first())
    }
}

proof fn lemma_skip_white(s: Seq<char>, i: int, j: int, acc: Seq<Seq<char>>)
    requires
        0 <= i <= j <= s.len(),
        forall|k: int| i <= k < j ==> ascii_white(#[trigger] s[k]),
    ensures
        token_scan(s, i, acc) == token_scan(s, j, acc),
    decreases j - i,
{
    if i < j {
        assert(ascii_white(s[i]));
        lemma_skip_white(s, i + 1, j, acc);
    }
}

proof fn lemma_quoted_plain(s: Seq<char>, i: int, n: int, acc: Seq<char>)
    requires
        0 <= i,
        0 <= n,
        i + n < s.len(),
        plain_text(s.subrange(i, i + n)),
        s[i + n] == '"',
    ensures
        quoted_scan(s, i, acc) == Some((acc + s.subrange(i, i + n), i + n)),
    decreases n,
{
    if n == 0 {
        assert(acc + s.subrange(i, i) =~= acc);
    } else {
        assert(s.subrange(i, i + n)[0] == s[i]);
        assert(plain_text(s.subrange(i + 1, i + n))) by {
            assert forall|k: int| 0 <= k < n - 1 implies #[trigger] s.subrange(i + 1, i + n)[k] != '"'
                && s.subrange(i + 1, i + n)[k] != '\\' by {
                assert(s.subrange(i + 1, i + n)[k] == s.subrange(i, i + n)[k + 1]);
            }
        }
        lemma_quoted_plain(s, i + 1, n - 1, acc.push(s[i]));
        assert(acc.push(s[i]) + s.subrange(i + 1, i + n) =~= acc + s.subrange(i, i + n));
    }
}

proof fn lemma_layout_scan(p: Seq<char>, ts: Seq<Seq<char>>, gaps: Seq<Seq<char>>, acc: Seq<Seq<char>>)
    requires
        gaps.len() == ts.len(),
        forall|i: int| 0 <= i < ts.len() ==> plain_text(#[trigger] ts[i]),
        forall|i: int, j: int| 0 <= i < gaps.len() && 0 <= j < gaps[i].len() ==> ascii_white(#[trigger] gaps[i][j]),
    ensures
        token_scan(p + quoted_layout(ts, gaps), p.len() as int, acc) == Ok::<Seq<Seq<char>>, CatalogError>(acc + ts),
    decreases ts.len(),
{
    let s = p + quoted_layout(ts, gaps);
    if ts.len() == 0 {
        assert(s =~= p);
        assert(acc + ts =~= acc);
    } else {
        let g = gaps[0];
        let t = ts[0];
        let p2 = p + g + seq!['"'] + t + seq!['"'];
        let rest = quoted_layout(ts.drop_first(), gaps.drop_first());
        assert(s =~= p2 + rest);
        let q: int = (p.len() + g.len()) as int;
        assert forall|k: int| p.len() <= k < q implies ascii_white(#[trigger] s[k]) by {
            assert(s[k] == g[k - p.len()]);
            assert(ascii_white(gaps[0][k - p.len()]));
        }
        lemma_skip_white(s, p.len() as int, q, acc);
        assert(s[q] == '"');
        assert(s.subrange(q + 1, q + 1 + t.len()) =~= t);
        assert(s[q + 1 + t.len()] == '"');
        assert(plain_text(ts[0]));
        lemma_quoted_plain(s, q + 1, t.len() as int, Seq::empty());
        assert(Seq::<char>::empty() + t =~= t);
        assert(q + 1 + t.len() + 1 == p2.len());
        assert forall|i: int| 0 <= i < ts.drop_first().len() implies plain_text(#[trigger] ts.drop_first()[i]) by {
            assert(ts.drop_first()[i] == ts[i + 1]);
        }
        assert forall|i: int, j: int| 0 <= i < gaps.drop_first().len() && 0 <= j < gaps.drop_first()[i].len()
            implies ascii_white(#[trigger] gaps.drop_first()[i][j]) by {
            assert(gaps.drop_first()[i] == gaps[i + 1]);
        }
        lemma_layout_scan(p2, ts.drop_first(), gaps.drop_first(), acc.push(t));
        assert(acc.push(t) + ts.drop_first() =~= acc + ts);
    }
}

/// Quoted strings separated by any runs of ASCII white space (tabs as well
/// as spaces and line breaks) tokenise back into those strings, in order.
pub proof fn lemma_quoted_tokens_read_back(ts: Seq<Seq<char>>, gaps: Seq<Seq<char>>)
    requires
        gaps.len() == ts.len(),
        forall|i: int| 0 <= i < ts.len() ==> plain_text(#[trigger] ts[i]),
        forall|i: int, j: int| 0 <= i < gaps.len() && 0 <= j < gaps[i].len() ==> ascii_white(#[trigger] gaps[i][j]),
    ensures
        tokens_of(quoted_layout(ts, gaps)) == Ok::<Seq<Seq<char>>, CatalogError>(ts),
{
    lemma_layout_scan(Seq::empty(), ts, gaps, Seq::empty());
    assert(Seq::<char>::empty() + quoted_layout(ts, gaps) =~= quoted_layout(ts, gaps));
    assert(Seq::<Seq<char>>::empty() + ts =~= ts);
}

} // verus!
