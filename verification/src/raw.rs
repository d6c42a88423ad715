//! The raw stage: a grouped key/value mapping and the line-oriented parser
//! that builds it from the text of a desktop-entry file.
//!
//! The mapping is represented as a vector of groups, each a vector of
//! key/value pairs; its mathematical meaning is a `Map` built by folding
//! the pairs in order, so a later pair for the same key wins, exactly as
//! repeated insertion into a dictionary would behave.

use vstd::prelude::*;

use crate::error::Error;
use crate::text::find_first;
use crate::text::lemma_find_first_props;
use crate::text::line_seqs;
use crate::text::split_lines;
use crate::text::trim_spec;
use crate::text::trim_str;
use crate::text::find_char;
use crate::text::str_eq;

verus! {

/// The meaning of a list of key/value pairs: fold the pairs into a map in
/// order, so the last occurrence of a key wins.
spec fn kv_map(es: Seq<(String, String)>) -> Map<Seq<char>, Seq<char>>
    decreases es.len(),
{
    if es.len() == 0 {
        Map::empty()
    } else {
        kv_map(es.drop_last()).insert(es.last().0@, es.last().1@)
    }
}

/// One named group of key/value properties.
pub struct RawGroup {
    name: String,
    entries: Vec<(String, String)>,
}

impl View for RawGroup {
    type V = Map<Seq<char>, Seq<char>>;

    closed spec fn view(&self) -> Map<Seq<char>, Seq<char>> {
        kv_map(self.entries@)
    }
}

/// The meaning of a list of groups: fold each group's mapping into a map
/// keyed by group name, in order.
spec fn groups_map(gs: Seq<RawGroup>) -> Map<Seq<char>, Map<Seq<char>, Seq<char>>>
    decreases gs.len(),
{
    if gs.len() == 0 {
        Map::empty()
    } else {
        groups_map(gs.drop_last()).insert(gs.last().name@, gs.last()@)
    }
}

/// The raw result of parsing a desktop-entry file: a mapping from group
/// name to that group's key/value properties.
pub struct RawDesktopEntry {
    groups: Vec<RawGroup>,
}

impl View for RawDesktopEntry {
    type V = Map<Seq<char>, Map<Seq<char>, Seq<char>>>;

    closed spec fn view(&self) -> Map<Seq<char>, Map<Seq<char>, Seq<char>>> {
        groups_map(self.groups@)
    }
}

proof fn lemma_kv_push(es: Seq<(String, String)>, p: (String, String))
    ensures
        kv_map(es.push(p)) == kv_map(es).insert(p.0@, p.1@),
{
    assert(es.push(p).drop_last() =~= es);
    assert(es.push(p).last() == p);
}

proof fn lemma_kv_last_occurrence(es: Seq<(String, String)>, k: Seq<char>, i: int)
    requires
        0 <= i < es.len(),
        es[i].0@ == k,
        forall|j: int| i < j < es.len() ==> es[j].0@ != k,
    ensures
        kv_map(es).contains_key(k),
        kv_map(es)[k] == es[i].1@,
    decreases es.len(),
{
    if i == es.len() - 1 {
    } else {
        let dl = es.drop_last();
        assert(dl[i] == es[i]);
        assert(forall|j: int| i < j < dl.len() ==> dl[j] == es[j]);
        lemma_kv_last_occurrence(dl, k, i);
        assert(es.last().0@ != k);
    }
}

proof fn lemma_kv_absent(es: Seq<(String, String)>, k: Seq<char>)
    requires
        forall|j: int| 0 <= j < es.len() ==> es[j].0@ != k,
    ensures
        !kv_map(es).contains_key(k),
    decreases es.len(),
{
    if es.len() > 0 {
        let dl = es.drop_last();
        assert(forall|j: int| 0 <= j < dl.len() ==> dl[j] == es[j]);
        lemma_kv_absent(dl, k);
    }
}

proof fn lemma_groups_last_occurrence(gs: Seq<RawGroup>, n: Seq<char>, i: int)
    requires
        0 <= i < gs.len(),
        gs[i].name@ == n,
        forall|j: int| i < j < gs.len() ==> gs[j].name@ != n,
    ensures
        groups_map(gs).contains_key(n),
        groups_map(gs)[n] == gs[i]@,
    decreases gs.len(),
{
    if i == gs.len() - 1 {
    } else {
        let dl = gs.drop_last();
        assert(dl[i] == gs[i]);
        assert(forall|j: int| i < j < dl.len() ==> dl[j] == gs[j]);
        lemma_groups_last_occurrence(dl, n, i);
        assert(gs.last().name@ != n);
    }
}

proof fn lemma_groups_absent(gs: Seq<RawGroup>, n: Seq<char>)
    requires
        forall|j: int| 0 <= j < gs.len() ==> gs[j].name@ != n,
    ensures
        !groups_map(gs).contains_key(n),
    decreases gs.len(),
{
    if gs.len() > 0 {
        let dl = gs.drop_last();
        assert(forall|j: int| 0 <= j < dl.len() ==> dl[j] == gs[j]);
        lemma_groups_absent(dl, n);
    }
}

proof fn lemma_groups_update_last(gs: Seq<RawGroup>, i: int, g2: RawGroup)
    requires
        0 <= i < gs.len(),
        g2.name@ == gs[i].name@,
        forall|j: int| i < j < gs.len() ==> gs[j].name@ != gs[i].name@,
    ensures
        groups_map(gs.update(i, g2)) == groups_map(gs).insert(gs[i].name@, g2@),
    decreases gs.len(),
{
    let n = gs[i].name@;
    let us = gs.update(i, g2);
    if i == gs.len() - 1 {
        assert(us.drop_last() =~= gs.drop_last());
        assert(us.last() == g2);
        assert(groups_map(gs.drop_last()).insert(n, g2@) =~= groups_map(gs.drop_last()).insert(
            n,
            gs.last()@,
        ).insert(n, g2@));
    } else {
        let dl = gs.drop_last();
        assert(us.drop_last() =~= dl.update(i, g2));
        assert(us.last() == gs.last());
        assert(dl[i] == gs[i]);
        assert(forall|j: int| i < j < dl.len() ==> dl[j] == gs[j]);
        lemma_groups_update_last(dl, i, g2);
        let ln = gs.last().name@;
        assert(ln != n);
        assert(groups_map(dl).insert(n, g2@).insert(ln, gs.last()@) =~= groups_map(dl).insert(
            ln,
            gs.last()@,
        ).insert(n, g2@));
    }
}

impl RawGroup {
    /// Look up the value stored for `key`, the last written one if the key
    /// was set several times.
    pub fn get(&self, key: &str) -> (r: Option<&String>)
        ensures
            match r {
                Some(v) => self@.contains_key(key@) && v@ == self@[key@],
                None => !self@.contains_key(key@),
            },
    {
        let n = self.entries.len();
        let mut i: usize = n;
        while i > 0
            invariant
                0 <= i <= n,
                n == self.entries.len(),
                forall|j: int| i <= j < n ==> self.entries@[j].0@ != key@,
            decreases i,
        {
            i = i - 1;
            if str_eq(self.entries[i].0.as_str(), key) {
                proof {
                    lemma_kv_last_occurrence(self.entries@, key@, i as int);
                }
                return Some(&self.entries[i].1);
            }
        }
        proof {
            lemma_kv_absent(self.entries@, key@);
        }
        None
    }
}

/// Inserting `key = value` under `group` into a raw mapping: the group's
/// prior properties are kept (an absent group starts empty) and the key is
/// set to the new value.
pub open spec fn raw_insert(
    m: Map<Seq<char>, Map<Seq<char>, Seq<char>>>,
    g: Seq<char>,
    k: Seq<char>,
    v: Seq<char>,
) -> Map<Seq<char>, Map<Seq<char>, Seq<char>>> {
    let old_group = if m.contains_key(g) {
        m[g]
    } else {
        Map::empty()
    };
    m.insert(g, old_group.insert(k, v))
}

impl RawDesktopEntry {
    /// An empty raw mapping.
    pub fn new() -> (r: RawDesktopEntry)
        ensures
            r@ == Map::<Seq<char>, Map<Seq<char>, Seq<char>>>::empty(),
    {
        RawDesktopEntry { groups: Vec::new() }
    }

    /// Set `key` to `value` inside `group`, merging into the group's
    /// existing properties if the group was already present.
    pub fn insert(&mut self, group: &str, key: &str, value: &str)
        ensures
            final(self)@ == raw_insert(old(self)@, group@, key@, value@),
    {
        let n = self.groups.len();
        let mut i: usize = n;
        while i > 0
            invariant
                0 <= i <= n,
                n == self.groups.len(),
                *self == *old(self),
                forall|j: int| i <= j < n ==> self.groups@[j].name@ != group@,
            decreases i,
        {
            i = i - 1;
            if str_eq(self.groups[i].name.as_str(), group) {
                proof {
                    lemma_groups_last_occurrence(self.groups@, group@, i as int);
                }
                let ghost gs0 = self.groups@;
                let pair = (String::from_str(key), String::from_str(value));
                let ghost p0 = pair;
                let mut g = self.groups.remove(i);
                let ghost g0 = g;
                g.entries.push(pair);
                proof {
                    lemma_kv_push(g0.entries@, p0);
                }
                self.groups.insert(i, g);
                proof {
                    assert(gs0.remove(i as int).insert(i as int, g) =~= gs0.update(i as int, g));
                    lemma_groups_update_last(gs0, i as int, g);
                }
                return ;
            }
        }
        proof {
            lemma_groups_absent(self.groups@, group@);
        }
        let pair = (String::from_str(key), String::from_str(value));
        let ghost p0 = pair;
        let mut entries: Vec<(String, String)> = Vec::new();
        let ghost es0 = entries@;
        entries.push(pair);
        proof {
            lemma_kv_push(es0, p0);
        }
        let ghost gs0 = self.groups@;
        let g = RawGroup { name: String::from_str(group), entries };
        self.groups.push(g);
        proof {
            assert(gs0.push(g).drop_last() =~= gs0);
            assert(gs0.push(g).last() == g);
        }
    }

    /// Look up a group by name.
    pub fn get_group(&self, name: &str) -> (r: Option<&RawGroup>)
        ensures
            match r {
                Some(g) => self@.contains_key(name@) && g@ == self@[name@],
                None => !self@.contains_key(name@),
            },
    {
        let n = self.groups.len();
        let mut i: usize = n;
        while i > 0
            invariant
                0 <= i <= n,
                n == self.groups.len(),
                forall|j: int| i <= j < n ==> self.groups@[j].name@ != name@,
            decreases i,
        {
            i = i - 1;
            if str_eq(self.groups[i].name.as_str(), name) {
                proof {
                    lemma_groups_last_occurrence(self.groups@, name@, i as int);
                }
                return Some(&self.groups[i]);
            }
        }
        proof {
            lemma_groups_absent(self.groups@, name@);
        }
        None
    }
}

/// A line that the parser skips: empty, or a `#` comment.
pub open spec fn is_skippable_line(l: Seq<char>) -> bool {
    l.len() == 0 || l[0] == '#'
}

/// A group header line: `[` ... `]`.
pub open spec fn is_header_line(l: Seq<char>) -> bool {
    l.len() >= 2 && l[0] == '[' && l[l.len() - 1] == ']'
}

/// The group name carried by a header line: the text between the brackets.
pub open spec fn header_name(l: Seq<char>) -> Seq<char> {
    l.subrange(1, l.len() - 1)
}

/// The message reported for a property line seen before any group header.
pub open spec fn outside_group_msg() -> Seq<char> {
    "Entry found outside of group"@
}

/// The message reported for a property line with no `=` separator.
pub open spec fn not_key_value_msg() -> Seq<char> {
    "Entry not key/value"@
}

/// The outcome of the raw parse: the accumulated mapping, or the message
/// of the format error that aborted it.
pub enum RawParse {
    Parsed(Map<Seq<char>, Map<Seq<char>, Seq<char>>>),
    Failed(Seq<char>),
}

/// The raw grammar, one line at a time: skip blanks and comments, let a
/// header open its group, and split every other line at its first `=`
/// into a trimmed key and value stored under the current group. A
/// property line fails when no group with a nonempty name has been
/// opened, or when it has no `=`.
pub open spec fn parse_lines(
    lines: Seq<Seq<char>>,
    cur: Seq<char>,
    acc: Map<Seq<char>, Map<Seq<char>, Seq<char>>>,
) -> RawParse
    decreases lines.len(),
{
    if lines.len() == 0 {
        RawParse::Parsed(acc)
    } else {
        let l = lines[0];
        if is_skippable_line(l) {
            parse_lines(lines.skip(1), cur, acc)
        } else if is_header_line(l) {
            parse_lines(lines.skip(1), header_name(l), acc)
        } else if cur.len() == 0 {
            RawParse::Failed(outside_group_msg())
        } else {
            let j = find_first(l, '=');
            if j < 0 || j >= l.len() {
                RawParse::Failed(not_key_value_msg())
            } else {
                parse_lines(
                    lines.skip(1),
                    cur,
                    raw_insert(acc, cur, trim_spec(l.take(j)), trim_spec(l.skip(j + 1))),
                )
            }
        }
    }
}

/// What parsing a whole text means: run the line grammar over its lines,
/// starting with no group open and an empty mapping.
pub open spec fn spec_parse_raw(s: Seq<char>) -> RawParse {
    parse_lines(line_seqs(s), Seq::empty(), Map::empty())
}

/// Parse the text of a desktop-entry file into its raw grouped key/value
/// mapping. Returns a `FormatError` exactly when the grammar rejects the
/// text: a property line before any group header, or one with no `=`.
pub fn parse_desktop_entry_raw(content: &str) -> (r: Result<RawDesktopEntry, Error>)
    ensures
        match r {
            Ok(raw) => spec_parse_raw(content@) == RawParse::Parsed(raw@),
            Err(e) => e matches Error::FormatError(m) && spec_parse_raw(content@)
                == RawParse::Failed(m@),
        },
{
    let lines = split_lines(content);
    let ghost ls = line_seqs(content@);
    let mut raw = RawDesktopEntry::new();
    let mut current = String::new();
    let n = lines.len();
    let mut i: usize = 0;
    proof {
        assert(ls.skip(0) =~= ls);
    }
    while i < n
        invariant
            0 <= i <= n,
            n == lines.len(),
            lines@.map_values(|l: String| l@) == ls,
            ls == line_seqs(content@),
            parse_lines(ls, Seq::empty(), Map::empty()) == parse_lines(
                ls.skip(i as int),
                current@,
                raw@,
            ),
        decreases n - i,
    {
        let line = &lines[i];
        let ghost l = line@;
        proof {
            assert(ls[i as int] == lines@.map_values(|x: String| x@)[i as int]);
            assert(ls.skip(i as int)[0] == ls[i as int]);
            assert(ls.skip(i as int).skip(1) =~= ls.skip(i as int + 1));
        }
        let lv = line.as_str();
        let ll = lv.unicode_len();
        if ll == 0 {
            // an empty line is skipped
        } else {
            let c0 = lv.get_char(0);
            if c0 == '#' {
                // a comment line is skipped
            } else if c0 == '[' && ll >= 2 && lv.get_char(ll - 1) == ']' {
                current = String::from_str(lv.substring_char(1, ll - 1));
                proof {
                    assert(current@ =~= header_name(l));
                }
            } else if current.as_str().is_empty() {
                return Err(Error::FormatError(String::from_str("Entry found outside of group")));
            } else {
                proof {
                    assert(!is_header_line(l));
                }
                let j = find_char(lv, '=');
                proof {
                    lemma_find_first_props(l, '=');
                }
                if j == ll {
                    return Err(Error::FormatError(String::from_str("Entry not key/value")));
                }
                let key = trim_str(lv.substring_char(0, j));
                let value = trim_str(lv.substring_char(j + 1, ll));
                proof {
                    assert(l.subrange(0, j as int) =~= l.take(j as int));
                    assert(l.subrange(j + 1, ll as int) =~= l.skip(j + 1));
                }
                raw.insert(current.as_str(), key.as_str(), value.as_str());
            }
        }
        i = i + 1;
    }
    proof {
        assert(ls.skip(n as int) =~= Seq::<Seq<char>>::empty());
    }
    Ok(raw)
}

} // verus!
