//! Reading the desktop theme's `colors.toml`: one `key = value` pair per
//! line, keys compared in lowercase, values taken from the first quoted run
//! or else the first word.

use vstd::prelude::*;
use crate::text::{chars_of, is_white_space, lowercase, string_of, unicode_lowercase, unicode_white_space};

verus! {

/// `s` without leading white space.
pub open spec fn strip_leading_ws(s: Seq<char>) -> Seq<char>
    decreases s.len(),
{
    if s.len() > 0 && unicode_white_space(s[0]) {
        strip_leading_ws(s.drop_first())
    } else {
        s
    }
}

/// `s` without trailing white space.
pub open spec fn strip_trailing_ws(s: Seq<char>) -> Seq<char>
    decreases s.len(),
{
    if s.len() > 0 && unicode_white_space(s.last()) {
        strip_trailing_ws(s.drop_last())
    } else {
        s
    }
}

/// `str::trim`: `s` without white space at either end.
pub open spec fn trim_ws(s: Seq<char>) -> Seq<char> {
    strip_trailing_ws(strip_leading_ws(s))
}

/// `s` without the character `c` at its start.
pub open spec fn strip_leading_char(s: Seq<char>, c: char) -> Seq<char>
    decreases s.len(),
{
    if s.len() > 0 && s[0] == c {
        strip_leading_char(s.drop_first(), c)
    } else {
        s
    }
}

/// `s` without the character `c` at its end.
pub open spec fn strip_trailing_char(s: Seq<char>, c: char) -> Seq<char>
    decreases s.len(),
{
    if s.len() > 0 && s.last() == c {
        strip_trailing_char(s.drop_last(), c)
    } else {
        s
    }
}

/// `str::trim_matches(c)` for one character.
pub open spec fn trim_char(s: Seq<char>, c: char) -> Seq<char> {
    strip_trailing_char(strip_leading_char(s, c), c)
}

/// Position of the first `c` in `s`.
pub open spec fn index_of(s: Seq<char>, c: char) -> Option<int>
    decreases s.len(),
{
    if s.len() == 0 {
        None
    } else if s[0] == c {
        Some(0)
    } else {
        match index_of(s.drop_first(), c) {
            Some(i) => Some(i + 1),
            None => None,
        }
    }
}

/// Position of the first white-space character of `s`.
pub open spec fn ws_index(s: Seq<char>) -> Option<int>
    decreases s.len(),
{
    if s.len() == 0 {
        None
    } else if unicode_white_space(s[0]) {
        Some(0)
    } else {
        match ws_index(s.drop_first()) {
            Some(i) => Some(i + 1),
            None => None,
        }
    }
}

/// The first word of `s` as `split_whitespace().next()` finds it, or `s`
/// itself when it has none.
pub open spec fn first_word(s: Seq<char>) -> Seq<char> {
    let t = strip_leading_ws(s);
    if t.len() == 0 {
        s
    } else {
        match ws_index(t) {
            Some(i) => t.take(i),
            None => t,
        }
    }
}

/// The value quoted with `q` in `v`: the text between the first two `q`,
/// or, with a single `q`, `v` without surrounding double then single
/// quotes; absent when `v` holds no `q`.
pub open spec fn quoted_value(v: Seq<char>, q: char) -> Option<Seq<char>> {
    match index_of(v, q) {
        None => None,
        Some(i) => match index_of(v.skip(i + 1), q) {
            Some(j) => Some(v.subrange(i + 1, i + 1 + j)),
            None => Some(trim_char(trim_char(v, '"'), '\'')),
        },
    }
}

/// The value of a colour entry from its trimmed right-hand side.
pub open spec fn theme_value(v: Seq<char>) -> Seq<char> {
    match quoted_value(v, '"') {
        Some(x) => x,
        None => match quoted_value(v, '\'') {
            Some(x) => x,
            None => first_word(v),
        },
    }
}

/// The entry a line of the colour file holds: none for a blank line, a
/// comment, or a line without `=`; otherwise the lowercase trimmed key and
/// the value.
pub open spec fn theme_entry(line: Seq<char>) -> Option<(Seq<char>, Seq<char>)> {
    let t = trim_ws(line);
    if t.len() == 0 || t[0] == '#' {
        None
    } else {
        match index_of(t, '=') {
            None => None,
            Some(e) => Some(
                (unicode_lowercase(trim_ws(t.take(e))), theme_value(trim_ws(t.skip(e + 1)))),
            ),
        }
    }
}

/// A line without a `\r` that ends it.
pub open spec fn strip_cr(l: Seq<char>) -> Seq<char> {
    if l.len() > 0 && l.last() == '\r' {
        l.drop_last()
    } else {
        l
    }
}

/// `str::lines`: split at `\n`, dropping a `\r` before it; a final line
/// ending adds no empty line.
pub open spec fn lines_of(s: Seq<char>) -> Seq<Seq<char>>
    decreases s.len(),
{
    if s.len() == 0 {
        Seq::empty()
    } else {
        match index_of(s, '\n') {
            None => seq![s],
            Some(i) => {
                proof {
                    lemma_index_of_bounds(s, '\n');
                }
                seq![strip_cr(s.take(i))] + lines_of(s.skip(i + 1))
            },
        }
    }
}

/// The entries of a sequence of lines, in order.
pub open spec fn theme_entries(lines: Seq<Seq<char>>) -> Seq<(Seq<char>, Seq<char>)>
    decreases lines.len(),
{
    if lines.len() == 0 {
        Seq::empty()
    } else {
        match theme_entry(lines[0]) {
            Some(e) => seq![e] + theme_entries(lines.drop_first()),
            None => theme_entries(lines.drop_first()),
        }
    }
}

pub proof fn lemma_index_of_bounds(s: Seq<char>, c: char)
    ensures
        index_of(s, c) matches Some(i) ==> 0 <= i < s.len() && s[i] == c && forall|k: int|
            0 <= k < i ==> s[k] != c,
        index_of(s, c) is None ==> forall|k: int| 0 <= k < s.len() ==> s[k] != c,
    decreases s.len(),
{
    if s.len() > 0 && s[0] != c {
        lemma_index_of_bounds(s.drop_first(), c);
        assert forall|k: int| 0 <= k < s.len() && k > 0 implies s[k] == s.drop_first()[k - 1] by {}
    }
}

/// Position of the first `c` in `s`.
fn find_char(s: &[char], c: char) -> (r: Option<usize>)
    ensures
        r matches Some(i) ==> index_of(s@, c) == Some(i as int) && i < s@.len(),
        r is None ==> index_of(s@, c) is None,
{
    let mut i: usize = 0;
    assert(s@.skip(0) =~= s@);
    while i < s.len()
        invariant
            i <= s@.len(),
            index_of(s@, c) == match index_of(s@.skip(i as int), c) {
                Some(k) => Some(k + i),
                None => None::<int>,
            },
        decreases s.len() - i,
    {
        proof {
            assert(s@.skip(i as int)[0] == s@[i as int]);
            assert(s@.skip(i as int).drop_first() =~= s@.skip(i + 1));
        }
        if s[i] == c {
            return Some(i);
        }
        i = i + 1;
    }
    None
}

/// Position of the first white-space character of `s`.
fn find_ws(s: &[char]) -> (r: Option<usize>)
    ensures
        r matches Some(i) ==> ws_index(s@) == Some(i as int) && i < s@.len(),
        r is None ==> ws_index(s@) is None,
{
    let mut i: usize = 0;
    assert(s@.skip(0) =~= s@);
    while i < s.len()
        invariant
            i <= s@.len(),
            ws_index(s@) == match ws_index(s@.skip(i as int)) {
                Some(k) => Some(k + i),
                None => None::<int>,
            },
        decreases s.len() - i,
    {
        proof {
            assert(s@.skip(i as int)[0] == s@[i as int]);
            assert(s@.skip(i as int).drop_first() =~= s@.skip(i + 1));
        }
        if is_white_space(s[i]) {
            return Some(i);
        }
        i = i + 1;
    }
    None
}

/// The characters `s[from..to]`.
fn slice_chars(s: &[char], from: usize, to: usize) -> (r: Vec<char>)
    requires
        from <= to <= s@.len(),
    ensures
        r@ == s@.subrange(from as int, to as int),
{
    let mut out: Vec<char> = Vec::new();
    let mut k: usize = from;
    while k < to
        invariant
            from <= k <= to <= s@.len(),
            out@ == s@.subrange(from as int, k as int),
        decreases to - k,
    {
        out.push(s[k]);
        k = k + 1;
    }
    out
}

/// `str::trim`.
pub(crate) fn trim(s: &[char]) -> (r: Vec<char>)
    ensures
        r@ == trim_ws(s@),
{
    let mut i: usize = 0;
    assert(s@.subrange(0, s@.len() as int) =~= s@);
    while i < s.len() && is_white_space(s[i])
        invariant
            i <= s@.len(),
            strip_leading_ws(s@) == strip_leading_ws(s@.subrange(i as int, s@.len() as int)),
        decreases s.len() - i,
    {
        proof {
            assert(s@.subrange(i as int, s@.len() as int).drop_first() =~= s@.subrange(i + 1, s@.len() as int));
        }
        i = i + 1;
    }
    let ghost lead = s@.subrange(i as int, s@.len() as int);
    assert(strip_leading_ws(lead) == lead);
    let mut n: usize = s.len();
    assert(lead =~= s@.subrange(i as int, n as int));
    while n > i && is_white_space(s[n - 1])
        invariant
            i <= n <= s@.len(),
            lead == s@.subrange(i as int, s@.len() as int),
            strip_trailing_ws(lead) == strip_trailing_ws(s@.subrange(i as int, n as int)),
        decreases n,
    {
        proof {
            assert(s@.subrange(i as int, n as int).drop_last() =~= s@.subrange(i as int, n - 1));
        }
        n = n - 1;
    }
    slice_chars(s, i, n)
}

/// `str::trim_matches(c)` for one character.
fn trim_matches_char(s: &[char], c: char) -> (r: Vec<char>)
    ensures
        r@ == trim_char(s@, c),
{
    let mut i: usize = 0;
    assert(s@.subrange(0, s@.len() as int) =~= s@);
    while i < s.len() && s[i] == c
        invariant
            i <= s@.len(),
            strip_leading_char(s@, c) == strip_leading_char(s@.subrange(i as int, s@.len() as int), c),
        decreases s.len() - i,
    {
        proof {
            assert(s@.subrange(i as int, s@.len() as int).drop_first() =~= s@.subrange(i + 1, s@.len() as int));
        }
        i = i + 1;
    }
    let ghost lead = s@.subrange(i as int, s@.len() as int);
    let mut n: usize = s.len();
    assert(lead =~= s@.subrange(i as int, n as int));
    while n > i && s[n - 1] == c
        invariant
            i <= n <= s@.len(),
            lead == s@.subrange(i as int, s@.len() as int),
            strip_trailing_char(lead, c) == strip_trailing_char(s@.subrange(i as int, n as int), c),
        decreases n,
    {
        proof {
            assert(s@.subrange(i as int, n as int).drop_last() =~= s@.subrange(i as int, n - 1));
        }
        n = n - 1;
    }
    slice_chars(s, i, n)
}

fn quoted(v: &[char], q: char) -> (r: Option<Vec<char>>)
    ensures
        match quoted_value(v@, q) {
            Some(x) => r matches Some(y) && y@ == x,
            None => r is None,
        },
{
    match find_char(v, q) {
        None => None,
        Some(i) => {
            proof {
                lemma_index_of_bounds(v@, q);
            }
            let from = if i < v.len() { i + 1 } else { v.len() };
            let rest = slice_chars(v, from, v.len());
            assert(rest@ =~= v@.skip(i + 1));
            match find_char(rest.as_slice(), q) {
                Some(j) => {
                    proof {
                        lemma_index_of_bounds(rest@, q);
                    }
                    Some(slice_chars(v, i + 1, i + 1 + j))
                },
                None => {
                    let a = trim_matches_char(v, '"');
                    Some(trim_matches_char(a.as_slice(), '\''))
                },
            }
        },
    }
}

fn first_word_of(v: &[char]) -> (r: Vec<char>)
    ensures
        r@ == first_word(v@),
{
    let mut i: usize = 0;
    assert(v@.subrange(0, v@.len() as int) =~= v@);
    while i < v.len() && is_white_space(v[i])
        invariant
            i <= v@.len(),
            strip_leading_ws(v@) == strip_leading_ws(v@.subrange(i as int, v@.len() as int)),
        decreases v.len() - i,
    {
        proof {
            assert(v@.subrange(i as int, v@.len() as int).drop_first() =~= v@.subrange(i + 1, v@.len() as int));
        }
        i = i + 1;
    }
    let t = slice_chars(v, i, v.len());
    if t.len() == 0 {
        return slice_chars(v, 0, v.len());
    }
    match find_ws(t.as_slice()) {
        Some(k) => {
            proof {
                lemma_ws_index_bounds(t@);
            }
            slice_chars(t.as_slice(), 0, k)
        },
        None => t,
    }
}

proof fn lemma_ws_index_bounds(s: Seq<char>)
    ensures
        ws_index(s) matches Some(i) ==> 0 <= i < s.len(),
    decreases s.len(),
{
    if s.len() > 0 && !unicode_white_space(s[0]) {
        lemma_ws_index_bounds(s.drop_first());
    }
}

/// Reads one line of the colour file; see `theme_entry`.
pub fn parse_theme_line(line: &[char]) -> (r: Option<(String, String)>)
    ensures
        match theme_entry(line@) {
            Some((k, v)) => r matches Some((a, b)) && a@ == k && b@ == v,
            None => r is None,
        },
{
    let t = trim(line);
    if t.len() == 0 || t[0] == '#' {
        return None;
    }
    let e = match find_char(t.as_slice(), '=') {
        Some(e) => e,
        None => return None,
    };
    proof {
        lemma_index_of_bounds(t@, '=');
    }
    let key_raw = slice_chars(t.as_slice(), 0, e);
    let key_trim = trim(key_raw.as_slice());
    let key_text = string_of(key_trim.as_slice());
    let key = lowercase(key_text.as_str());
    let val_part = slice_chars(t.as_slice(), e + 1, t.len());
    let val_raw = trim(val_part.as_slice());
    assert(key_raw@ =~= t@.take(e as int));
    assert(val_part@ =~= t@.skip(e + 1));
    let value = match quoted(val_raw.as_slice(), '"') {
        Some(x) => x,
        None => match quoted(val_raw.as_slice(), '\'') {
            Some(x) => x,
            None => first_word_of(val_raw.as_slice()),
        },
    };
    Some((key, string_of(value.as_slice())))
}

/// Splits text into lines; see `lines_of`.
pub fn split_lines(s: &[char]) -> (r: Vec<Vec<char>>)
    ensures
        r@.len() == lines_of(s@).len(),
        forall|k: int| 0 <= k < r@.len() ==> (#[trigger] r@[k])@ == lines_of(s@)[k],
{
    let mut out: Vec<Vec<char>> = Vec::new();
    let ghost mut got: Seq<Seq<char>> = Seq::empty();
    let mut start: usize = 0;
    assert(s@.skip(0) =~= s@);
    while start < s.len()
        invariant
            start <= s@.len(),
            lines_of(s@) == got + lines_of(s@.skip(start as int)),
            out@.len() == got.len(),
            forall|k: int| 0 <= k < out@.len() ==> (#[trigger] out@[k])@ == got[k],
        decreases s.len() - start,
    {
        let rest = slice_chars(s, start, s.len());
        assert(rest@ =~= s@.skip(start as int));
        match find_char(rest.as_slice(), '\n') {
            None => {
                proof {
                    got = got.push(rest@);
                    assert(lines_of(s@.skip(s@.len() as int)) =~= Seq::<Seq<char>>::empty());
                    assert(got + lines_of(s@.skip(s@.len() as int)) =~= got);
                }
                out.push(rest);
                start = s.len();
            },
            Some(i) => {
                proof {
                    lemma_index_of_bounds(rest@, '\n');
                }
                let mut line = slice_chars(rest.as_slice(), 0, i);
                if i > 0 && rest[i - 1] == '\r' {
                    line = slice_chars(rest.as_slice(), 0, i - 1);
                    assert(line@ =~= rest@.take(i as int).drop_last());
                }
                proof {
                    got = got.push(strip_cr(rest@.take(i as int)));
                    assert(rest@.skip(i + 1) =~= s@.skip(start + i + 1));
                    assert(lines_of(s@) =~= got + lines_of(s@.skip(start + i + 1)));
                }
                out.push(line);
                start = start + i + 1;
            },
        }
    }
    proof {
        assert(lines_of(s@.skip(start as int)) =~= Seq::<Seq<char>>::empty());
        assert(got =~= lines_of(s@));
    }
    out
}

/// The `(key, value)` entries of a colour file, in file order; a later
/// entry for the same key is meant to override an earlier one.
pub fn parse_theme_colors(content: &str) -> (r: Vec<(String, String)>)
    ensures
        r@.len() == theme_entries(lines_of(content@)).len(),
        forall|k: int|
            0 <= k < r@.len() ==> (#[trigger] r@[k]).0@ == theme_entries(lines_of(content@))[k].0
                && r@[k].1@ == theme_entries(lines_of(content@))[k].1,
{
    let cs = chars_of(content);
    let lines = split_lines(cs.as_slice());
    let ghost ls = lines_of(content@);
    let mut out: Vec<(String, String)> = Vec::new();
    let ghost mut got: Seq<(Seq<char>, Seq<char>)> = Seq::empty();
    let mut i: usize = 0;
    assert(ls.skip(0) =~= ls);
    while i < lines.len()
        invariant
            lines@.len() == ls.len(),
            ls == lines_of(content@),
            forall|k: int| 0 <= k < lines@.len() ==> (#[trigger] lines@[k])@ == ls[k],
            i <= ls.len(),
            theme_entries(ls) == got + theme_entries(ls.skip(i as int)),
            out@.len() == got.len(),
            forall|k: int| 0 <= k < out@.len() ==> (#[trigger] out@[k]).0@ == got[k].0 && out@[k].1@ == got[k].1,
        decreases lines.len() - i,
    {
        proof {
            assert(ls.skip(i as int)[0] == ls[i as int]);
            assert(ls.skip(i as int).drop_first() =~= ls.skip(i + 1));
        }
        match parse_theme_line(lines[i].as_slice()) {
            Some(kv) => {
                proof {
                    got = got.push((kv.0@, kv.1@));
                    assert(got + theme_entries(ls.skip(i + 1)) =~= theme_entries(ls));
                }
                out.push(kv);
            },
            None => {},
        }
        i = i + 1;
    }
    proof {
        assert(theme_entries(ls.skip(i as int)) =~= Seq::<(Seq<char>, Seq<char>)>::empty());
        assert(got =~= theme_entries(ls));
    }
    out
}

} // verus!
