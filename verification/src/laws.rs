//! General laws of the raw grammar, stated over the parsing specification
//! and proved once and for all: how well-formed input is accumulated, when
//! the parser must fail, and which lines can never matter.

use vstd::prelude::*;

use crate::raw::RawParse;
use crate::raw::header_name;
use crate::raw::is_header_line;
use crate::raw::is_skippable_line;
use crate::raw::not_key_value_msg;
use crate::raw::outside_group_msg;
use crate::raw::parse_lines;
use crate::raw::raw_insert;
use crate::text::find_first;
use crate::text::trim_spec;

verus! {

/// A line the parser treats as a property: not skippable, not a header,
/// and holding an `=` separator.
pub open spec fn is_property_line(l: Seq<char>) -> bool {
    &&& !is_skippable_line(l)
    &&& !is_header_line(l)
    &&& 0 <= find_first(l, '=') < l.len()
}

/// The key a property line carries: the text before its first `=`,
/// trimmed.
pub open spec fn line_key(l: Seq<char>) -> Seq<char> {
    trim_spec(l.take(find_first(l, '=')))
}

/// The value a property line carries: the text after its first `=`,
/// trimmed.
pub open spec fn line_value(l: Seq<char>) -> Seq<char> {
    trim_spec(l.skip(find_first(l, '=') + 1))
}

/// Running the parser over property lines only, under an open group,
/// never fails, and once at least one line has run the group is present.
pub proof fn lemma_properties_never_fail(
    lines: Seq<Seq<char>>,
    cur: Seq<char>,
    acc: Map<Seq<char>, Map<Seq<char>, Seq<char>>>,
)
    requires
        cur.len() > 0,
        forall|i: int| 0 <= i < lines.len() ==> is_property_line(#[trigger] lines[i]),
    ensures
        parse_lines(lines, cur, acc) is Parsed,
        lines.len() == 0 ==> parse_lines(lines, cur, acc) == RawParse::Parsed(acc),
        (acc.contains_key(cur) || lines.len() >= 1) ==> parse_lines(
            lines,
            cur,
            acc,
        )->Parsed_0.contains_key(cur),
    decreases lines.len(),
{
    if lines.len() == 0 {
    } else {
        let l = lines[0];
        assert(is_property_line(l));
        let acc2 = raw_insert(acc, cur, line_key(l), line_value(l));
        assert(parse_lines(lines, cur, acc) == parse_lines(lines.skip(1), cur, acc2));
        assert(forall|i: int|
            0 <= i < lines.skip(1).len() ==> #[trigger] lines.skip(1)[i] == lines[i + 1]);
        lemma_properties_never_fail(lines.skip(1), cur, acc2);
    }
}

/// A pair already accumulated under the open group survives a run of
/// property lines whose keys all differ from its key.
pub proof fn lemma_property_preserved(
    lines: Seq<Seq<char>>,
    cur: Seq<char>,
    acc: Map<Seq<char>, Map<Seq<char>, Seq<char>>>,
    k: Seq<char>,
)
    requires
        cur.len() > 0,
        forall|i: int| 0 <= i < lines.len() ==> is_property_line(#[trigger] lines[i]),
        acc.contains_key(cur),
        acc[cur].contains_key(k),
        forall|i: int| 0 <= i < lines.len() ==> line_key(#[trigger] lines[i]) != k,
    ensures
        parse_lines(lines, cur, acc) matches RawParse::Parsed(m) && m.contains_key(cur)
            && m[cur].contains_key(k) && m[cur][k] == acc[cur][k],
    decreases lines.len(),
{
    lemma_properties_never_fail(lines, cur, acc);
    if lines.len() == 0 {
    } else {
        let l = lines[0];
        assert(is_property_line(l));
        let acc2 = raw_insert(acc, cur, line_key(l), line_value(l));
        assert(parse_lines(lines, cur, acc) == parse_lines(lines.skip(1), cur, acc2));
        assert(forall|i: int|
            0 <= i < lines.skip(1).len() ==> #[trigger] lines.skip(1)[i] == lines[i + 1]);
        assert(line_key(l) != k);
        assert(acc2[cur].contains_key(k) && acc2[cur][k] == acc[cur][k]);
        lemma_property_preserved(lines.skip(1), cur, acc2, k);
    }
}

/// Under an open group, the pair carried by a property line whose key no
/// later line repeats ends up in that group, with that line's value.
pub proof fn lemma_property_lands(
    lines: Seq<Seq<char>>,
    cur: Seq<char>,
    acc: Map<Seq<char>, Map<Seq<char>, Seq<char>>>,
    i: int,
)
    requires
        cur.len() > 0,
        forall|j: int| 0 <= j < lines.len() ==> is_property_line(#[trigger] lines[j]),
        0 <= i < lines.len(),
        forall|j: int| i < j < lines.len() ==> line_key(#[trigger] lines[j]) != line_key(lines[i]),
    ensures
        parse_lines(lines, cur, acc) matches RawParse::Parsed(m) && m.contains_key(cur)
            && m[cur].contains_key(line_key(lines[i])) && m[cur][line_key(lines[i])] == line_value(
            lines[i],
        ),
    decreases i,
{
    let l = lines[0];
    assert(is_property_line(l));
    let acc2 = raw_insert(acc, cur, line_key(l), line_value(l));
    assert(parse_lines(lines, cur, acc) == parse_lines(lines.skip(1), cur, acc2));
    assert(forall|j: int|
        0 <= j < lines.skip(1).len() ==> #[trigger] lines.skip(1)[j] == lines[j + 1]);
    if i == 0 {
        assert(acc2.contains_key(cur) && acc2[cur].contains_key(line_key(l)) && acc2[cur][line_key(
            l,
        )] == line_value(l));
        assert(forall|j: int|
            0 <= j < lines.skip(1).len() ==> line_key(#[trigger] lines.skip(1)[j]) != line_key(l));
        lemma_property_preserved(lines.skip(1), cur, acc2, line_key(l));
    } else {
        assert(lines.skip(1)[i - 1] == lines[i]);
        assert(forall|j: int|
            i - 1 < j < lines.skip(1).len() ==> line_key(#[trigger] lines.skip(1)[j]) != line_key(
                lines[i],
            ));
        lemma_property_lands(lines.skip(1), cur, acc2, i - 1);
    }
}

/// Well-formed input of one group: a header line opening a group with a
/// nonempty name, followed only by property lines with pairwise distinct
/// keys. The raw parse succeeds, the group is present, and it maps each
/// line's trimmed key to that line's trimmed value.
pub proof fn lemma_single_group_wellformed(lines: Seq<Seq<char>>, g: Seq<char>)
    requires
        lines.len() >= 2,
        is_header_line(lines[0]),
        !is_skippable_line(lines[0]),
        header_name(lines[0]) == g,
        g.len() > 0,
        forall|i: int| 1 <= i < lines.len() ==> is_property_line(#[trigger] lines[i]),
        forall|i: int, j: int|
            1 <= i < j < lines.len() ==> line_key(#[trigger] lines[i]) != line_key(
                #[trigger] lines[j],
            ),
    ensures
        parse_lines(lines, Seq::empty(), Map::empty()) matches RawParse::Parsed(m)
            && m.contains_key(g) && forall|i: int|
            1 <= i < lines.len() ==> m[g].contains_key(line_key(#[trigger] lines[i]))
                && m[g][line_key(lines[i])] == line_value(lines[i]),
{
    let acc = Map::<Seq<char>, Map<Seq<char>, Seq<char>>>::empty();
    assert(parse_lines(lines, Seq::empty(), acc) == parse_lines(lines.skip(1), g, acc));
    assert(forall|i: int|
        0 <= i < lines.skip(1).len() ==> #[trigger] lines.skip(1)[i] == lines[i + 1]);
    lemma_properties_never_fail(lines.skip(1), g, acc);
    let m = parse_lines(lines.skip(1), g, acc)->Parsed_0;
    assert forall|i: int|
        1 <= i < lines.len() implies m[g].contains_key(line_key(#[trigger] lines[i]))
        && m[g][line_key(lines[i])] == line_value(lines[i]) by {
        assert(lines.skip(1)[i - 1] == lines[i]);
        assert(forall|j: int|
            i - 1 < j < lines.skip(1).len() ==> line_key(#[trigger] lines.skip(1)[j]) != line_key(
                lines[i],
            ));
        lemma_property_lands(lines.skip(1), g, acc, i - 1);
    }
}

/// A property line reached before any group header makes the whole parse
/// fail with the format error naming it, wherever blank and comment lines
/// stand in front, and whatever the line's content.
pub proof fn lemma_property_before_group_fails(
    lines: Seq<Seq<char>>,
    i: int,
    acc: Map<Seq<char>, Map<Seq<char>, Seq<char>>>,
)
    requires
        0 <= i < lines.len(),
        forall|j: int| 0 <= j < i ==> is_skippable_line(#[trigger] lines[j]),
        !is_skippable_line(lines[i]),
        !is_header_line(lines[i]),
    ensures
        parse_lines(lines, Seq::empty(), acc) == RawParse::Failed(outside_group_msg()),
    decreases i,
{
    if i == 0 {
    } else {
        assert(is_skippable_line(lines[0]));
        assert(forall|j: int|
            0 <= j < lines.skip(1).len() ==> #[trigger] lines.skip(1)[j] == lines[j + 1]);
        lemma_property_before_group_fails(lines.skip(1), i - 1, acc);
    }
}

/// A property line without an `=` separator makes the whole parse fail
/// with the format error naming it, whatever its content, whatever group
/// is open, and whatever follows.
pub proof fn lemma_missing_separator_fails(
    l: Seq<char>,
    rest: Seq<Seq<char>>,
    cur: Seq<char>,
    acc: Map<Seq<char>, Map<Seq<char>, Seq<char>>>,
)
    requires
        cur.len() > 0,
        !is_skippable_line(l),
        !is_header_line(l),
        forall|k: int| 0 <= k < l.len() ==> l[k] != '=',
    ensures
        parse_lines(seq![l] + rest, cur, acc) == RawParse::Failed(not_key_value_msg()),
{
    crate::text::lemma_find_first_is(l, '=', l.len() as int);
    assert((seq![l] + rest)[0] == l);
}

/// An empty line or a `#` comment never affects the raw mapping: removing
/// it from anywhere in the input leaves the parse's outcome unchanged.
pub proof fn lemma_skippable_line_ignored(
    pre: Seq<Seq<char>>,
    l: Seq<char>,
    post: Seq<Seq<char>>,
    cur: Seq<char>,
    acc: Map<Seq<char>, Map<Seq<char>, Seq<char>>>,
)
    requires
        is_skippable_line(l),
    ensures
        parse_lines(pre + seq![l] + post, cur, acc) == parse_lines(pre + post, cur, acc),
    decreases pre.len(),
{
    if pre.len() == 0 {
        assert(pre + seq![l] + post =~= seq![l] + post);
        assert((seq![l] + post)[0] == l);
        assert((seq![l] + post).skip(1) =~= post);
        assert(pre + post =~= post);
    } else {
        let l0 = pre[0];
        let with = pre + seq![l] + post;
        let without = pre + post;
        assert(with[0] == l0);
        assert(without[0] == l0);
        assert(with.len() > 0 && without.len() > 0);
        assert(with.skip(1) =~= pre.skip(1) + seq![l] + post);
        assert(without.skip(1) =~= pre.skip(1) + post);
        if is_skippable_line(l0) {
            lemma_skippable_line_ignored(pre.skip(1), l, post, cur, acc);
        } else if is_header_line(l0) {
            lemma_skippable_line_ignored(pre.skip(1), l, post, header_name(l0), acc);
        } else if cur.len() == 0 {
        } else {
            let j = find_first(l0, '=');
            if j < 0 || j >= l0.len() {
            } else {
                let acc2 = raw_insert(
                    acc,
                    cur,
                    trim_spec(l0.take(j)),
                    trim_spec(l0.skip(j + 1)),
                );
                lemma_skippable_line_ignored(pre.skip(1), l, post, cur, acc2);
            }
        }
    }
}

/// Re-declaring a group name merges rather than resets: a header, a
/// property line, the same header again, and a second property line
/// accumulate both pairs into the one group entry, the later write
/// winning per key.
pub proof fn lemma_redeclared_group_merges(
    g: Seq<char>,
    k1: Seq<char>,
    v1: Seq<char>,
    k2: Seq<char>,
    v2: Seq<char>,
)
    requires
        g.len() > 0,
        k1.len() > 0 ==> (k1[0] != '#' && k1[0] != '['),
        k2.len() > 0 ==> (k2[0] != '#' && k2[0] != '['),
        forall|i: int| 0 <= i < k1.len() ==> k1[i] != '=',
        forall|i: int| 0 <= i < k2.len() ==> k2[i] != '=',
    ensures
        ({
            let hdr = seq!['['] + g + seq![']'];
            let l1 = k1 + seq!['='] + v1;
            let l2 = k2 + seq!['='] + v2;
            parse_lines(seq![hdr, l1, hdr, l2], Seq::empty(), Map::empty()) == RawParse::Parsed(
                Map::empty().insert(
                    g,
                    Map::empty().insert(trim_spec(k1), trim_spec(v1)).insert(
                        trim_spec(k2),
                        trim_spec(v2),
                    ),
                ),
            )
        }),
{
    let hdr = seq!['['] + g + seq![']'];
    let l1 = k1 + seq!['='] + v1;
    let l2 = k2 + seq!['='] + v2;
    assert(hdr[0] == '[' && hdr[hdr.len() - 1] == ']');
    assert(is_header_line(hdr) && !is_skippable_line(hdr));
    assert(header_name(hdr) =~= g);
    lemma_property_line_shape(k1, v1);
    lemma_property_line_shape(k2, v2);
    let tk1 = trim_spec(k1);
    let tv1 = trim_spec(v1);
    let tk2 = trim_spec(k2);
    let tv2 = trim_spec(v2);
    assert(l1.take(k1.len() as int) =~= k1);
    assert(l1.skip(k1.len() as int + 1) =~= v1);
    assert(l2.take(k2.len() as int) =~= k2);
    assert(l2.skip(k2.len() as int + 1) =~= v2);
    let e = Map::<Seq<char>, Map<Seq<char>, Seq<char>>>::empty();
    let acc1 = raw_insert(e, g, tk1, tv1);
    let acc2 = raw_insert(acc1, g, tk2, tv2);
    let s0 = seq![hdr, l1, hdr, l2];
    let s1 = seq![l1, hdr, l2];
    let s2 = seq![hdr, l2];
    let s3 = seq![l2];
    assert(s0.skip(1) =~= s1);
    assert(s1.skip(1) =~= s2);
    assert(s2.skip(1) =~= s3);
    assert(s3.skip(1) =~= Seq::<Seq<char>>::empty());
    assert(s0[0] == hdr && s1[0] == l1 && s2[0] == hdr && s3[0] == l2);
    assert(parse_lines(s0, Seq::empty(), e) == parse_lines(s1, g, e));
    assert(parse_lines(s1, g, e) == parse_lines(s2, g, acc1));
    assert(parse_lines(s2, g, acc1) == parse_lines(s3, g, acc1));
    assert(parse_lines(s3.skip(1), g, acc2) == RawParse::Parsed(acc2));
    assert(parse_lines(s3, g, acc1) == RawParse::Parsed(acc2));
    assert(acc1[g] == Map::<Seq<char>, Seq<char>>::empty().insert(tk1, tv1));
    assert(acc2 =~= Map::empty().insert(
        g,
        Map::empty().insert(tk1, tv1).insert(tk2, tv2),
    ));
}

/// A line built as key, `=`, value — with no `=` in the key and a first
/// character that opens neither a comment nor a header — is a property
/// line whose first separator sits right after the key.
proof fn lemma_property_line_shape(k: Seq<char>, v: Seq<char>)
    requires
        k.len() > 0 ==> (k[0] != '#' && k[0] != '['),
        forall|i: int| 0 <= i < k.len() ==> k[i] != '=',
    ensures
        ({
            let l = k + seq!['='] + v;
            &&& is_property_line(l)
            &&& find_first(l, '=') == k.len()
            &&& line_key(l) == trim_spec(k)
            &&& line_value(l) == trim_spec(v)
        }),
{
    let l = k + seq!['='] + v;
    assert(l.len() == k.len() + 1 + v.len());
    assert(l[k.len() as int] == '=');
    assert(forall|i: int| 0 <= i < k.len() ==> l[i] == k[i]);
    crate::text::lemma_find_first_is(l, '=', k.len() as int);
    if k.len() > 0 {
        assert(l[0] == k[0]);
    } else {
        assert(l[0] == '=');
    }
    assert(!is_skippable_line(l) && !is_header_line(l));
    assert(l.take(k.len() as int) =~= k);
    assert(l.skip(k.len() as int + 1) =~= v);
}

} // verus!
