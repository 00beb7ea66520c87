use crate::text::{chars_of, slice, split, split_chars, string_of, trim, trim_chars};
use vstd::prelude::*;

verus! {

/// `pat` occurs in `s` starting at index `i`.
pub open spec fn occurs_at(s: Seq<char>, i: int, pat: Seq<char>) -> bool {
    0 <= i && i + pat.len() <= s.len() && s.subrange(i, i + pat.len()) == pat
}

/// The first index from `i` on where `pat` occurs in `s`, or -1.
pub open spec fn first_at(s: Seq<char>, pat: Seq<char>, i: int) -> int
    decreases s.len() - i,
{
    if i < 0 || i >= s.len() || i + pat.len() > s.len() {
        -1
    } else if s.subrange(i, i + pat.len()) == pat {
        i
    } else {
        first_at(s, pat, i + 1)
    }
}

/// The last index in `lo .. hi` where `pat` occurs in `s`, or -1.
pub open spec fn last_before(s: Seq<char>, pat: Seq<char>, lo: int, hi: int) -> int
    decreases hi - lo,
{
    if hi <= lo {
        -1
    } else if occurs_at(s, hi - 1, pat) {
        hi - 1
    } else {
        last_before(s, pat, lo, hi - 1)
    }
}

/// A line that starts with `#` is a comment through its end.
pub open spec fn strip_hash_comment(s: Seq<char>) -> Seq<char> {
    if s.len() > 0 && s[0] == '#' {
        Seq::empty()
    } else {
        s
    }
}

/// Removes the span from the first `<!--` to the last `-->` that follows it.
pub open spec fn strip_html_comment(s: Seq<char>) -> Seq<char> {
    let i = first_at(s, "<!--"@, 0);
    let j = last_before(s, "-->"@, i + 4, s.len() as int);
    if i < 0 || j < 0 {
        s
    } else {
        s.take(i) + s.skip(j + 3)
    }
}

/// A configuration line with its comments removed.
pub open spec fn clean_line(s: Seq<char>) -> Seq<char> {
    strip_html_comment(strip_hash_comment(s))
}

/// A line that still holds something other than white space once cleaned.
pub open spec fn is_meaningful(s: Seq<char>) -> bool {
    trim(clean_line(s)).len() > 0
}

/// A line without the `\r` that preceded its line break.
pub open spec fn strip_cr(s: Seq<char>) -> Seq<char> {
    if s.len() > 0 && s.last() == '\r' {
        s.drop_last()
    } else {
        s
    }
}

/// The lines of a text: split at each `\n`, a `\r` before the `\n` dropped, and no
/// empty line after a final line break.
pub open spec fn lines_of(s: Seq<char>) -> Seq<Seq<char>> {
    let ps = split(s, '\n');
    let n = ps.len();
    Seq::new((n - 1) as nat, |i: int| strip_cr(ps[i])) + if ps[n - 1].len() == 0 {
        Seq::<Seq<char>>::empty()
    } else {
        seq![ps[n - 1]]
    }
}

/// The meaningful lines of `ls`, cleaned, in order.
pub open spec fn meaningful_lines(ls: Seq<Seq<char>>) -> Seq<Seq<char>>
    decreases ls.len(),
{
    if ls.len() == 0 {
        Seq::empty()
    } else if is_meaningful(ls.last()) {
        meaningful_lines(ls.drop_last()).push(clean_line(ls.last()))
    } else {
        meaningful_lines(ls.drop_last())
    }
}

/// The views of a list of strings.
pub open spec fn views(v: Seq<String>) -> Seq<Seq<char>> {
    v.map_values(|s: String| s@)
}

pub(crate) fn occurs(v: &Vec<char>, i: usize, pat: &Vec<char>) -> (r: bool)
    ensures
        r == occurs_at(v@, i as int, pat@),
{
    if pat.len() > v.len() || i > v.len() - pat.len() {
        return false;
    }
    let mut k: usize = 0;
    while k < pat.len()
        invariant
            i + pat.len() <= v.len(),
            k <= pat.len(),
            forall|m: int| 0 <= m < k ==> v@[i + m] == pat@[m],
        decreases pat.len() - k,
    {
        if v[i + k] != pat[k] {
            assert(v@.subrange(i as int, i + pat.len())[k as int] != pat@[k as int]);
            return false;
        }
        k += 1;
    }
    assert(v@.subrange(i as int, i + pat.len()) =~= pat@);
    true
}

fn first_index(v: &Vec<char>, pat: &Vec<char>) -> (r: Option<usize>)
    ensures
        r matches Some(i) ==> first_at(v@, pat@, 0) == i && occurs_at(v@, i as int, pat@),
        r is None ==> first_at(v@, pat@, 0) < 0,
{
    let mut i: usize = 0;
    while i < v.len()
        invariant
            i <= v.len(),
            first_at(v@, pat@, i as int) == first_at(v@, pat@, 0),
        decreases v.len() - i,
    {
        if occurs(v, i, pat) {
            return Some(i);
        }
        i += 1;
    }
    None
}

fn last_index(v: &Vec<char>, pat: &Vec<char>, lo: usize) -> (r: Option<usize>)
    ensures
        r matches Some(j) ==> last_before(v@, pat@, lo as int, v.len() as int) == j
            && occurs_at(v@, j as int, pat@),
        r is None ==> last_before(v@, pat@, lo as int, v.len() as int) < 0,
{
    let mut j: usize = v.len();
    while j > lo
        invariant
            j <= v.len(),
            last_before(v@, pat@, lo as int, j as int) == last_before(
                v@,
                pat@,
                lo as int,
                v.len() as int,
            ),
        decreases j,
    {
        if occurs(v, j - 1, pat) {
            return Some(j - 1);
        }
        j -= 1;
    }
    None
}

/// One configuration line with its comments removed.
pub fn clean_config_line(line: &Vec<char>) -> (r: Vec<char>)
    ensures
        r@ == clean_line(line@),
{
    let s: Vec<char> = if line.len() > 0 && line[0] == '#' {
        Vec::new()
    } else {
        slice(line, 0, line.len())
    };
    assert(s@ =~= strip_hash_comment(line@));
    let open = chars_of("<!--");
    let close = chars_of("-->");
    proof {
        reveal_strlit("<!--");
        reveal_strlit("-->");
    }
    match first_index(&s, &open) {
        None => s,
        Some(i) => {
            match last_index(&s, &close, i + 4) {
                None => s,
                Some(j) => {
                    let mut r = slice(&s, 0, i);
                    let mut k: usize = j + 3;
                    let ghost r0 = r@;
                    while k < s.len()
                        invariant
                            j + 3 <= k <= s.len(),
                            r@ == r0 + s@.subrange(j + 3, k as int),
                        decreases s.len() - k,
                    {
                        r.push(s[k]);
                        k += 1;
                        assert(r@ =~= r0 + s@.subrange(j + 3, k as int));
                    }
                    assert(s@.skip(j + 3) =~= s@.subrange(j + 3, s.len() as int));
                    r
                }
            }
        }
    }
}

/// The lines of `text`.
pub fn text_lines(text: &str) -> (r: Vec<Vec<char>>)
    ensures
        r.len() == lines_of(text@).len(),
        forall|k: int| 0 <= k < r.len() ==> #[trigger] r@[k]@ == lines_of(text@)[k],
{
    let parts = split_chars(&chars_of(text), '\n');
    let ghost ps = split(text@, '\n');
    proof {
        crate::text::lemma_split_nonempty(text@, '\n');
    }
    let n = parts.len();
    let mut r: Vec<Vec<char>> = Vec::new();
    let mut i: usize = 0;
    while i + 1 < n
        invariant
            n == parts.len() == ps.len() >= 1,
            i <= n - 1,
            forall|k: int| 0 <= k < n ==> #[trigger] parts@[k]@ == ps[k],
            r.len() == i,
            forall|k: int| 0 <= k < i ==> #[trigger] r@[k]@ == strip_cr(ps[k]),
        decreases n - i,
    {
        let p = &parts[i];
        let q = if p.len() > 0 && p[p.len() - 1] == '\r' {
            slice(p, 0, p.len() - 1)
        } else {
            slice(p, 0, p.len())
        };
        assert(q@ =~= strip_cr(ps[i as int]));
        r.push(q);
        i += 1;
    }
    let last = &parts[n - 1];
    if last.len() > 0 {
        r.push(slice(last, 0, last.len()));
    }
    assert(last@.subrange(0, last.len() as int) =~= last@);
    r
}

/// The cleaned meaningful lines of a configuration file's text, in order.
pub fn config_lines(text: &str) -> (r: Vec<String>)
    ensures
        views(r@) == meaningful_lines(lines_of(text@)),
{
    let ls = text_lines(text);
    let ghost g = lines_of(text@);
    let mut r: Vec<String> = Vec::new();
    let mut i: usize = 0;
    while i < ls.len()
        invariant
            i <= ls.len() == g.len(),
            forall|k: int| 0 <= k < ls.len() ==> #[trigger] ls@[k]@ == g[k],
            views(r@) == meaningful_lines(g.take(i as int)),
        decreases ls.len() - i,
    {
        let c = clean_config_line(&ls[i]);
        let t = trim_chars(&c);
        assert(g.take(i + 1).drop_last() =~= g.take(i as int));
        if t.len() > 0 {
            r.push(string_of(&c));
            assert(views(r@) =~= meaningful_lines(g.take(i + 1)));
        }
        i += 1;
    }
    assert(g.take(g.len() as int) =~= g);
    r
}

} // verus!
