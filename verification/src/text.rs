//! Character-level text utilities: whitespace trimming, searching for a
//! character, equality of string slices, and splitting text into lines.
//! Each executable function is proved against a recursive specification
//! over the string's view, a `Seq<char>`.

use vstd::prelude::*;

verus! {

/// Whether `c` has the Unicode `White_Space` property, exactly as
/// `char::is_whitespace` decides it.
pub open spec fn is_ws(c: char) -> bool {
    let u = c as u32;
    u == 0x9 || u == 0xA || u == 0xB || u == 0xC || u == 0xD || u == 0x20 || u == 0x85
        || u == 0xA0 || u == 0x1680 || (0x2000 <= u && u <= 0x200A) || u == 0x2028 || u == 0x2029
        || u == 0x202F || u == 0x205F || u == 0x3000
}

/// Runtime test for the Unicode `White_Space` property.
pub fn is_ws_char(c: char) -> (r: bool)
    ensures
        r == is_ws(c),
{
    let u = c as u32;
    u == 0x9 || u == 0xA || u == 0xB || u == 0xC || u == 0xD || u == 0x20 || u == 0x85
        || u == 0xA0 || u == 0x1680 || (0x2000 <= u && u <= 0x200A) || u == 0x2028 || u == 0x2029
        || u == 0x202F || u == 0x205F || u == 0x3000
}

/// Index of the first occurrence of `c` in `s`, or `s.len()` if `c` does
/// not occur.
pub open spec fn find_first(s: Seq<char>, c: char) -> int
    decreases s.len(),
{
    if s.len() == 0 {
        0
    } else if s[0] == c {
        0
    } else {
        1 + find_first(s.skip(1), c)
    }
}

/// `find_first` is characterised by a scan: if nothing before `j` is `c`,
/// and `j` is either the end or an occurrence of `c`, then `j` is the
/// first occurrence.
pub proof fn lemma_find_first_is(s: Seq<char>, c: char, j: int)
    requires
        0 <= j <= s.len(),
        forall|k: int| 0 <= k < j ==> s[k] != c,
        j < s.len() ==> s[j] == c,
    ensures
        find_first(s, c) == j,
    decreases s.len(),
{
    if s.len() == 0 {
    } else if j == 0 {
    } else {
        assert(s[0] != c);
        lemma_find_first_is(s.skip(1), c, j - 1);
    }
}

/// Basic bounds and meaning of `find_first`.
pub proof fn lemma_find_first_props(s: Seq<char>, c: char)
    ensures
        0 <= find_first(s, c) <= s.len(),
        find_first(s, c) < s.len() ==> s[find_first(s, c)] == c,
        forall|k: int| 0 <= k < find_first(s, c) ==> s[k] != c,
    decreases s.len(),
{
    if s.len() == 0 {
    } else if s[0] == c {
    } else {
        lemma_find_first_props(s.skip(1), c);
        assert forall|k: int| 0 <= k < find_first(s, c) implies s[k] != c by {
            if k > 0 {
                assert(s.skip(1)[k - 1] == s[k]);
            }
        }
    }
}

/// Index of the first occurrence of `c` in `s`, or the character length of
/// `s` if `c` does not occur.
pub fn find_char(s: &str, c: char) -> (r: usize)
    ensures
        r as int == find_first(s@, c),
{
    let n = s.unicode_len();
    let mut i: usize = 0;
    while i < n
        invariant
            0 <= i <= n,
            n == s@.len(),
            forall|k: int| 0 <= k < i ==> s@[k] != c,
        decreases n - i,
    {
        if s.get_char(i) == c {
            proof {
                lemma_find_first_is(s@, c, i as int);
            }
            return i;
        }
        i = i + 1;
    }
    proof {
        lemma_find_first_is(s@, c, n as int);
    }
    n
}

/// `s` with its leading whitespace removed.
pub open spec fn trim_left_spec(s: Seq<char>) -> Seq<char>
    decreases s.len(),
{
    if s.len() > 0 && is_ws(s[0]) {
        trim_left_spec(s.skip(1))
    } else {
        s
    }
}

/// `s` with its trailing whitespace removed.
pub open spec fn trim_right_spec(s: Seq<char>) -> Seq<char>
    decreases s.len(),
{
    if s.len() > 0 && is_ws(s.last()) {
        trim_right_spec(s.drop_last())
    } else {
        s
    }
}

/// `s` with both leading and trailing whitespace removed, exactly as
/// `str::trim` computes it.
pub open spec fn trim_spec(s: Seq<char>) -> Seq<char> {
    trim_right_spec(trim_left_spec(s))
}

proof fn lemma_trim_left_at(s: Seq<char>, a: int)
    requires
        0 <= a <= s.len(),
        forall|k: int| 0 <= k < a ==> is_ws(s[k]),
        a < s.len() ==> !is_ws(s[a]),
    ensures
        trim_left_spec(s) == s.skip(a),
    decreases s.len(),
{
    if a == 0 {
        assert(s.skip(0) =~= s);
    } else {
        assert(is_ws(s[0]));
        lemma_trim_left_at(s.skip(1), a - 1);
        assert(s.skip(1).skip(a - 1) =~= s.skip(a));
    }
}

proof fn lemma_trim_right_at(s: Seq<char>, b: int)
    requires
        0 <= b <= s.len(),
        forall|k: int| b <= k < s.len() ==> is_ws(s[k]),
        b > 0 ==> !is_ws(s[b - 1]),
    ensures
        trim_right_spec(s) == s.take(b),
    decreases s.len(),
{
    if b == s.len() {
        assert(s.take(b) =~= s);
    } else {
        assert(is_ws(s.last()));
        lemma_trim_right_at(s.drop_last(), b);
        assert(s.drop_last().take(b) =~= s.take(b));
    }
}

/// A fresh `String` holding `s` without its leading and trailing
/// whitespace.
pub fn trim_str(s: &str) -> (r: String)
    ensures
        r@ == trim_spec(s@),
{
    let n = s.unicode_len();
    let mut a: usize = 0;
    while a < n && is_ws_char(s.get_char(a))
        invariant
            0 <= a <= n,
            n == s@.len(),
            forall|k: int| 0 <= k < a ==> is_ws(s@[k]),
        decreases n - a,
    {
        a = a + 1;
    }
    proof {
        lemma_trim_left_at(s@, a as int);
    }
    let mut b: usize = n;
    while b > a && is_ws_char(s.get_char(b - 1))
        invariant
            a <= b <= n,
            n == s@.len(),
            forall|k: int| b <= k < n ==> is_ws(s@[k]),
        decreases b,
    {
        b = b - 1;
    }
    proof {
        let t = s@.skip(a as int);
        assert forall|k: int| (b - a) <= k < t.len() implies is_ws(t[k]) by {
            assert(t[k] == s@[k + a]);
        }
        if b > a {
            assert(t[b - a - 1] == s@[b - 1]);
        }
        lemma_trim_right_at(t, b - a);
        assert(t.take(b - a) =~= s@.subrange(a as int, b as int));
    }
    String::from_str(s.substring_char(a, b))
}

/// Runtime equality of two string slices, decided character by character.
pub fn str_eq(a: &str, b: &str) -> (r: bool)
    ensures
        r == (a@ == b@),
{
    let n = a.unicode_len();
    if n != b.unicode_len() {
        proof {
            assert(a@.len() != b@.len());
        }
        return false;
    }
    let mut i: usize = 0;
    while i < n
        invariant
            0 <= i <= n,
            n == a@.len(),
            n == b@.len(),
            forall|k: int| 0 <= k < i ==> a@[k] == b@[k],
        decreases n - i,
    {
        if a.get_char(i) != b.get_char(i) {
            return false;
        }
        i = i + 1;
    }
    proof {
        assert(a@ =~= b@);
    }
    true
}

/// A line's content once a terminating newline was found: the carriage
/// return of a `\r\n` ending is not part of the line.
pub open spec fn strip_cr(p: Seq<char>) -> Seq<char> {
    if p.len() > 0 && p.last() == '\r' {
        p.drop_last()
    } else {
        p
    }
}

/// The lines of `s`, exactly as `str::lines` yields them: pieces split at
/// `\n`, with a `\r` immediately before the `\n` removed, and no empty
/// final piece when the text ends with a newline.
pub open spec fn line_seqs(s: Seq<char>) -> Seq<Seq<char>>
    decreases s.len(),
{
    if s.len() == 0 {
        Seq::empty()
    } else {
        let j = find_first(s, '\n');
        if j < 0 || j >= s.len() {
            seq![s]
        } else {
            seq![strip_cr(s.take(j))] + line_seqs(s.skip(j + 1))
        }
    }
}

/// Split `content` into its lines.
pub fn split_lines(content: &str) -> (r: Vec<String>)
    ensures
        r@.map_values(|l: String| l@) == line_seqs(content@),
{
    let n = content.unicode_len();
    let mut lines: Vec<String> = Vec::new();
    let mut start: usize = 0;
    let mut i: usize = 0;
    proof {
        assert(content@.skip(0) =~= content@);
        assert(lines@.map_values(|l: String| l@) =~= Seq::<Seq<char>>::empty());
    }
    while i < n
        invariant
            0 <= start <= i <= n,
            n == content@.len(),
            forall|k: int| start <= k < i ==> content@[k] != '\n',
            line_seqs(content@) =~= lines@.map_values(|l: String| l@) + line_seqs(
                content@.skip(start as int),
            ),
        decreases n - i,
    {
        if content.get_char(i) == '\n' {
            let mut end = i;
            if end > start && content.get_char(end - 1) == '\r' {
                end = end - 1;
            }
            let piece = String::from_str(content.substring_char(start, end));
            proof {
                let rest = content@.skip(start as int);
                assert forall|k: int| 0 <= k < (i - start) implies rest[k] != '\n' by {
                    assert(rest[k] == content@[k + start]);
                }
                assert(rest[i - start] == content@[i as int]);
                lemma_find_first_is(rest, '\n', i - start);
                assert(rest.take(i - start) =~= content@.subrange(start as int, i as int));
                if end < i {
                    assert(rest.take(i - start).last() == content@[i - 1]);
                    assert(strip_cr(rest.take(i - start)) =~= content@.subrange(
                        start as int,
                        end as int,
                    ));
                } else {
                    assert(strip_cr(rest.take(i - start)) == rest.take(i - start));
                }
                assert(rest.skip(i - start + 1) =~= content@.skip(i + 1));
                assert((lines@ + seq![piece]).map_values(|l: String| l@) =~= lines@.map_values(
                    |l: String| l@,
                ) + seq![piece@]);
            }
            lines.push(piece);
            start = i + 1;
        }
        i = i + 1;
    }
    if start < n {
        let piece = String::from_str(content.substring_char(start, n));
        proof {
            let rest = content@.skip(start as int);
            assert forall|k: int| 0 <= k < rest.len() implies rest[k] != '\n' by {
                assert(rest[k] == content@[k + start]);
            }
            lemma_find_first_is(rest, '\n', rest.len() as int);
            assert(rest =~= content@.subrange(start as int, n as int));
            assert((lines@ + seq![piece]).map_values(|l: String| l@) =~= lines@.map_values(
                |l: String| l@,
            ) + seq![piece@]);
        }
        lines.push(piece);
    } else {
        proof {
            assert(content@.skip(start as int) =~= Seq::<char>::empty());
            assert(lines@.map_values(|l: String| l@) + line_seqs(Seq::<char>::empty())
                =~= lines@.map_values(|l: String| l@));
        }
    }
    lines
}

} // verus!
