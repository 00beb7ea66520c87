use crate::lines::{occurs, occurs_at, views};
use crate::text::{
    after, before, chars_of, find, same_chars, slice, split, split_chars, split_first, string_of,
    to_uppercase, trim, trim_chars, upper_of,
};
use vstd::prelude::*;

verus! {

/// `item` is one of the strings of `list`.
pub open spec fn listed(item: Seq<char>, list: Seq<&str>) -> bool {
    exists|k: int| 0 <= k < list.len() && (#[trigger] list[k])@ == item
}

/// Some comma-separated item of `value`, trimmed, is in `list`.
pub open spec fn any_listed(value: Seq<char>, list: Seq<&str>) -> bool {
    value.len() > 0 && exists|k: int|
        0 <= k < split(value, ',').len() && listed(trim(#[trigger] split(value, ',')[k]), list)
}

/// Every comma-separated item of `value`, trimmed, is in `list`.
pub open spec fn all_listed(value: Seq<char>, list: Seq<&str>) -> bool {
    value.len() > 0 && forall|k: int|
        0 <= k < split(value, ',').len() ==> listed(trim(#[trigger] split(value, ',')[k]), list)
}

fn is_listed(item: &Vec<char>, list: &[&str]) -> (r: bool)
    ensures
        r == listed(item@, list@),
{
    let mut i: usize = 0;
    while i < list.len()
        invariant
            i <= list.len(),
            forall|k: int| 0 <= k < i ==> (#[trigger] list@[k])@ != item@,
        decreases list.len() - i,
    {
        if same_chars(item, list[i]) {
            return true;
        }
        i += 1;
    }
    false
}

/// Whether some comma-separated item of `value`, trimmed, is in `check_list`.
pub fn oneof(value: &str, check_list: &[&str]) -> (r: bool)
    ensures
        r == any_listed(value@, check_list@),
{
    if value.unicode_len() == 0 {
        return false;
    }
    let parts = split_chars(&chars_of(value), ',');
    let mut i: usize = 0;
    while i < parts.len()
        invariant
            i <= parts.len() == split(value@, ',').len(),
            value@.len() > 0,
            forall|k: int| 0 <= k < parts.len() ==> #[trigger] parts@[k]@ == split(value@, ',')[k],
            forall|k: int| 0 <= k < i ==> !listed(trim(#[trigger] split(value@, ',')[k]), check_list@),
        decreases parts.len() - i,
    {
        let t = trim_chars(&parts[i]);
        if is_listed(&t, check_list) {
            assert(listed(trim(split(value@, ',')[i as int]), check_list@));
            return true;
        }
        i += 1;
    }
    false
}

/// Whether every comma-separated item of `value`, trimmed, is in `check_list`.
pub fn everyof(value: &str, check_list: &[&str]) -> (r: bool)
    ensures
        r == all_listed(value@, check_list@),
{
    if value.unicode_len() == 0 {
        return false;
    }
    let parts = split_chars(&chars_of(value), ',');
    let mut i: usize = 0;
    while i < parts.len()
        invariant
            i <= parts.len() == split(value@, ',').len(),
            value@.len() > 0,
            forall|k: int| 0 <= k < parts.len() ==> #[trigger] parts@[k]@ == split(value@, ',')[k],
            forall|k: int| 0 <= k < i ==> listed(trim(#[trigger] split(value@, ',')[k]), check_list@),
        decreases parts.len() - i,
    {
        if !is_listed(&trim_chars(&parts[i]), check_list) {
            return false;
        }
        i += 1;
    }
    true
}

/// Whether `value` holds nothing but white space.
pub fn string_is_empty(value: &str) -> (r: bool)
    ensures
        r == (trim(value@).len() == 0),
{
    trim_chars(&chars_of(value)).len() == 0
}

/// `value`, or `default_value` when `value` holds nothing but white space.
pub fn string_get(value: &str, default_value: &str) -> (r: String)
    ensures
        r@ == if trim(value@).len() == 0 {
            default_value@
        } else {
            value@
        },
{
    if string_is_empty(value) {
        String::from_str(default_value)
    } else {
        String::from_str(value)
    }
}

/// The lines of `ls` that hold more than white space, in order.
pub open spec fn non_blank(ls: Seq<Seq<char>>) -> Seq<Seq<char>>
    decreases ls.len(),
{
    if ls.len() == 0 {
        Seq::empty()
    } else if trim(ls.last()).len() > 0 {
        non_blank(ls.drop_last()).push(ls.last())
    } else {
        non_blank(ls.drop_last())
    }
}

/// The lines of `lines` that hold more than white space.
pub fn mlt_del_emptyline(lines: &[String]) -> (r: Vec<String>)
    ensures
        views(r@) == non_blank(views(lines@)),
{
    let ghost g = views(lines@);
    let mut r: Vec<String> = Vec::new();
    let mut i: usize = 0;
    while i < lines.len()
        invariant
            i <= lines.len() == g.len(),
            g == views(lines@),
            views(r@) == non_blank(g.take(i as int)),
        decreases lines.len() - i,
    {
        assert(g.take(i + 1).drop_last() =~= g.take(i as int));
        assert(g[i as int] == lines@[i as int]@);
        if !string_is_empty(lines[i].as_str()) {
            r.push(lines[i].clone());
            assert(views(r@) =~= non_blank(g.take(i + 1)));
        }
        i += 1;
    }
    assert(g.take(g.len() as int) =~= g);
    r
}

/// The last of `lines`, or the empty string when there is none.
pub fn mlt_get_lastline(lines: &[String]) -> (r: String)
    ensures
        r@ == if lines@.len() == 0 {
            Seq::<char>::empty()
        } else {
            lines@.last()@
        },
{
    if lines.len() == 0 {
        String::new()
    } else {
        lines[lines.len() - 1].clone()
    }
}

/// The value of the first `key:value` pair of `pairs` whose key matches `key`, keys
/// compared as they are or upper-cased; empty when none does.
pub open spec fn lookup(pairs: Seq<Seq<char>>, key: Seq<char>, case_sensitive: bool) -> Seq<char>
    decreases pairs.len(),
{
    if pairs.len() == 0 {
        Seq::empty()
    } else {
        let p = trim(pairs[0]);
        let k = trim(before(p, ':'));
        if find(p, ':') >= 0 && (if case_sensitive {
            k
        } else {
            upper_of(k)
        }) == key {
            trim(after(p, ':'))
        } else {
            lookup(pairs.drop_first(), key, case_sensitive)
        }
    }
}

/// What `slkv_get` returns.
pub open spec fn slkv_value(value: Seq<char>, slkv: Seq<char>, case_sensitive: bool) -> Seq<char> {
    if slkv.len() == 0 {
        Seq::empty()
    } else {
        lookup(
            split(slkv, ','),
            if case_sensitive {
                trim(value)
            } else {
                upper_of(trim(value))
            },
            case_sensitive,
        )
    }
}

/// The value stored under key `value` in the comma-separated `key:value` list `slkv`.
pub fn slkv_get(value: &str, slkv: &str, case_sensitive: bool) -> (r: String)
    ensures
        r@ == slkv_value(value@, slkv@, case_sensitive),
{
    if slkv.unicode_len() == 0 {
        return String::new();
    }
    let parts = split_chars(&chars_of(slkv), ',');
    let ghost ps = split(slkv@, ',');
    let v = trim_chars(&chars_of(value));
    let search = if case_sensitive {
        v
    } else {
        chars_of(to_uppercase(string_of(&v).as_str()).as_str())
    };
    let mut i: usize = 0;
    assert(ps.skip(0) =~= ps);
    while i < parts.len()
        invariant
            i <= parts.len() == ps.len(),
            slkv@.len() > 0,
            forall|k: int| 0 <= k < parts.len() ==> #[trigger] parts@[k]@ == ps[k],
            lookup(ps.skip(i as int), search@, case_sensitive) == slkv_value(
                value@,
                slkv@,
                case_sensitive,
            ),
        decreases parts.len() - i,
    {
        assert(ps.skip(i as int)[0] == ps[i as int]);
        assert(ps.skip(i as int).drop_first() =~= ps.skip(i + 1));
        let p = trim_chars(&parts[i]);
        let (k, val) = split_first(&p, ':');
        let k = trim_chars(&k);
        let key = if case_sensitive {
            k
        } else {
            chars_of(to_uppercase(string_of(&k).as_str()).as_str())
        };
        if crate::text::find_char(&p, ':') < p.len() && vec_eq(&key, &search) {
            return string_of(&trim_chars(&val));
        }
        i += 1;
    }
    String::new()
}

fn vec_eq(a: &Vec<char>, b: &Vec<char>) -> (r: bool)
    ensures
        r == (a@ == b@),
{
    if a.len() != b.len() {
        return false;
    }
    let mut i: usize = 0;
    while i < a.len()
        invariant
            a.len() == b.len(),
            i <= a.len(),
            forall|k: int| 0 <= k < i ==> a@[k] == b@[k],
        decreases a.len() - i,
    {
        if a[i] != b[i] {
            return false;
        }
        i += 1;
    }
    assert(a@ =~= b@);
    true
}

/// The head of a compact string: the part before the first `;`.
pub fn sslf_get_head(data: &str) -> (r: String)
    ensures
        r@ == before(data@, ';'),
{
    string_of(&split_first(&chars_of(data), ';').0)
}

/// The tail of a compact string: the part after the first `;`, empty without one.
pub fn sslf_get_tail(data: &str) -> (r: String)
    ensures
        r@ == after(data@, ';'),
{
    string_of(&split_first(&chars_of(data), ';').1)
}

/// `s` with every occurrence of `pat`, taken from left to right without overlap,
/// replaced by `rep`; an empty `pat` puts `rep` around every character.
pub open spec fn replaced(s: Seq<char>, pat: Seq<char>, rep: Seq<char>) -> Seq<char>
    decreases s.len(),
{
    if s.len() == 0 {
        if pat.len() == 0 {
            rep
        } else {
            Seq::empty()
        }
    } else if pat.len() == 0 {
        rep + seq![s[0]] + replaced(s.drop_first(), pat, rep)
    } else if occurs_at(s, 0, pat) {
        rep + replaced(s.skip(pat.len() as int), pat, rep)
    } else {
        seq![s[0]] + replaced(s.drop_first(), pat, rep)
    }
}

fn push_all(r: &mut Vec<char>, s: &Vec<char>)
    ensures
        final(r)@ == old(r)@ + s@,
{
    let mut i: usize = 0;
    let ghost r0 = r@;
    while i < s.len()
        invariant
            i <= s.len(),
            r@ == r0 + s@.take(i as int),
        decreases s.len() - i,
    {
        r.push(s[i]);
        i += 1;
        assert(r@ =~= r0 + s@.take(i as int));
    }
    assert(s@.take(s.len() as int) =~= s@);
}

/// `path` with every occurrence of `search` replaced by `replace`.
pub fn path_normalize(path: &str, search: &str, replace: &str) -> (r: String)
    ensures
        r@ == replaced(path@, search@, replace@),
{
    let s = chars_of(path);
    let pat = chars_of(search);
    let rep = chars_of(replace);
    let mut r: Vec<char> = Vec::new();
    let mut i: usize = 0;
    assert(s@.skip(0) =~= s@);
    while i < s.len()
        invariant
            i <= s.len(),
            s@ == path@,
            pat@ == search@,
            rep@ == replace@,
            r@ + replaced(s@.skip(i as int), pat@, rep@) == replaced(path@, search@, replace@),
        decreases s.len() - i,
    {
        let ghost t = s@.skip(i as int);
        assert(t.drop_first() =~= s@.skip(i + 1));
        if pat.len() == 0 {
            push_all(&mut r, &rep);
            r.push(s[i]);
            i += 1;
        } else if occurs(&s, i, &pat) {
            assert(t.subrange(0, pat.len() as int) =~= s@.subrange(i as int, i + pat.len()));
            assert(t.skip(pat.len() as int) =~= s@.skip(i + pat.len()));
            push_all(&mut r, &rep);
            i += pat.len();
        } else {
            assert(!occurs_at(t, 0, pat@)) by {
                if i + pat.len() <= s.len() {
                    assert(t.subrange(0, pat.len() as int) =~= s@.subrange(
                        i as int,
                        i + pat.len(),
                    ));
                }
            }
            r.push(s[i]);
            i += 1;
        }
        assert(r@ + replaced(s@.skip(i as int), pat@, rep@) =~= replaced(path@, search@, replace@));
    }
    if pat.len() == 0 {
        push_all(&mut r, &rep);
    }
    assert(s@.skip(i as int) =~= Seq::<char>::empty());
    assert(r@ =~= replaced(path@, search@, replace@));
    string_of(&r)
}

/// `text` wrapped in an HTML comment: `<!-- text -->`.
pub fn html_comment_wrap(text: &str) -> (r: String)
    ensures
        r@ == "<!-- "@ + text@ + " -->"@,
{
    let mut r = String::from_str("<!-- ");
    r.append(text);
    r.append(" -->");
    r
}

/// `s` without any number of leading copies of `pat`.
pub open spec fn strip_prefixes(s: Seq<char>, pat: Seq<char>) -> Seq<char>
    decreases s.len(),
{
    if pat.len() > 0 && occurs_at(s, 0, pat) {
        strip_prefixes(s.skip(pat.len() as int), pat)
    } else {
        s
    }
}

/// `s` without any number of trailing copies of `pat`.
pub open spec fn strip_suffixes(s: Seq<char>, pat: Seq<char>) -> Seq<char>
    decreases s.len(),
{
    if pat.len() > 0 && occurs_at(s, s.len() - pat.len(), pat) {
        strip_suffixes(s.take(s.len() - pat.len()), pat)
    } else {
        s
    }
}

/// `text` with its HTML comment markers and the white space around them removed.
pub open spec fn unwrapped(text: Seq<char>) -> Seq<char> {
    trim(strip_suffixes(strip_prefixes(trim(text), "<!--"@), "-->"@))
}

/// Removes the HTML comment wrapping of `text`.
pub fn html_comment_unwrap(text: &str) -> (r: String)
    ensures
        r@ == unwrapped(text@),
{
    let s = trim_chars(&chars_of(text));
    let open = chars_of("<!--");
    let close = chars_of("-->");
    proof {
        reveal_strlit("<!--");
        reveal_strlit("-->");
    }
    let mut lo: usize = 0;
    assert(s@.skip(0) =~= s@);
    while lo < s.len() && occurs(&s, lo, &open)
        invariant
            lo <= s.len(),
            open@ == "<!--"@,
            open@.len() == 4,
            strip_prefixes(s@.skip(lo as int), open@) == strip_prefixes(s@, open@),
        decreases s.len() - lo,
    {
        let ghost t = s@.skip(lo as int);
        assert(t.subrange(0, 4) =~= s@.subrange(lo as int, lo + 4));
        assert(t.skip(4) =~= s@.skip(lo + 4));
        lo += 4;
    }
    let ghost p = s@.skip(lo as int);
    assert(!occurs_at(p, 0, open@)) by {
        if lo + 4 <= s.len() {
            assert(p.subrange(0, 4) =~= s@.subrange(lo as int, lo + 4));
        }
    }
    let mut hi: usize = s.len();
    assert(s@.subrange(lo as int, s.len() as int) =~= p);
    while hi - lo >= 3 && occurs(&s, hi - 3, &close)
        invariant
            lo <= hi <= s.len(),
            close@ == "-->"@,
            close@.len() == 3,
            p == strip_prefixes(s@, open@),
            strip_suffixes(s@.subrange(lo as int, hi as int), close@) == strip_suffixes(p, close@),
        decreases hi,
    {
        let ghost t = s@.subrange(lo as int, hi as int);
        assert(t.subrange(t.len() - 3, t.len() as int) =~= s@.subrange(hi - 3, hi as int));
        assert(t.take(t.len() - 3) =~= s@.subrange(lo as int, hi - 3));
        hi -= 3;
    }
    let ghost q = s@.subrange(lo as int, hi as int);
    assert(!occurs_at(q, q.len() - 3, close@)) by {
        if hi - lo >= 3 {
            assert(q.subrange(q.len() - 3, q.len() as int) =~= s@.subrange(hi - 3, hi as int));
        }
    }
    string_of(&trim_chars(&slice(&s, lo, hi)))
}

/// `s` with every `name:`, `email:` and `site:` removed, from left to right.
pub open spec fn without_keys(s: Seq<char>) -> Seq<char>
    decreases s.len(),
{
    if s.len() == 0 {
        Seq::empty()
    } else if s.len() >= 5 && occurs_at(s, 0, "name:"@) {
        without_keys(s.skip(5))
    } else if s.len() >= 6 && occurs_at(s, 0, "email:"@) {
        without_keys(s.skip(6))
    } else if s.len() >= 5 && occurs_at(s, 0, "site:"@) {
        without_keys(s.skip(5))
    } else {
        seq![s[0]] + without_keys(s.drop_first())
    }
}

/// The values of an identity list: its keys and one trailing comma removed, then trimmed.
pub open spec fn pure_values(data: Seq<char>) -> Seq<char> {
    let s = without_keys(data);
    trim(
        if s.len() > 0 && s.last() == ',' {
            s.drop_last()
        } else {
            s
        },
    )
}

fn key_at(s: &Vec<char>, i: usize, key: &Vec<char>, lit: Ghost<Seq<char>>) -> (r: bool)
    requires
        key@ == lit@,
        i <= s.len(),
    ensures
        r == occurs_at(s@.skip(i as int), 0, lit@),
{
    let r = occurs(s, i, key);
    let ghost t = s@.skip(i as int);
    if key.len() <= s.len() - i {
        assert(t.subrange(0, key.len() as int) =~= s@.subrange(i as int, i + key.len()));
    }
    r
}

/// The values of an identity list, without their keys.
pub fn shtkv_get_pure_v(data: &str) -> (r: String)
    ensures
        r@ == pure_values(data@),
{
    let s = chars_of(data);
    let name = chars_of("name:");
    let email = chars_of("email:");
    let site = chars_of("site:");
    proof {
        reveal_strlit("name:");
        reveal_strlit("email:");
        reveal_strlit("site:");
    }
    let mut r: Vec<char> = Vec::new();
    let mut i: usize = 0;
    assert(s@.skip(0) =~= s@);
    while i < s.len()
        invariant
            i <= s.len(),
            s@ == data@,
            name@ == "name:"@,
            email@ == "email:"@,
            site@ == "site:"@,
            name@.len() == 5,
            email@.len() == 6,
            site@.len() == 5,
            r@ + without_keys(s@.skip(i as int)) == without_keys(data@),
        decreases s.len() - i,
    {
        let ghost t = s@.skip(i as int);
        if key_at(&s, i, &name, Ghost("name:"@)) {
            assert(t.skip(5) =~= s@.skip(i + 5));
            i += 5;
        } else if key_at(&s, i, &email, Ghost("email:"@)) {
            assert(t.skip(6) =~= s@.skip(i + 6));
            i += 6;
        } else if key_at(&s, i, &site, Ghost("site:"@)) {
            assert(t.skip(5) =~= s@.skip(i + 5));
            i += 5;
        } else {
            assert(t.drop_first() =~= s@.skip(i + 1));
            r.push(s[i]);
            i += 1;
            assert(r@ + without_keys(s@.skip(i as int)) =~= without_keys(data@));
        }
    }
    assert(s@.skip(i as int) =~= Seq::<char>::empty());
    assert(r@ =~= without_keys(data@));
    if r.len() > 0 && r[r.len() - 1] == ',' {
        r.pop();
    }
    string_of(&trim_chars(&r))
}

/// A path made of one normal component: non-empty, not `.` or `..`, and free of the
/// characters that separate components or start a prefix (`/`, `\`, `:`).
pub open spec fn single_component(path: Seq<char>) -> bool {
    path.len() > 0 && path != "."@ && path != ".."@ && forall|i: int|
        0 <= i < path.len() ==> #[trigger] path[i] != '/' && path[i] != '\\' && path[i] != ':'
}

/// Relies on `std::path::Path::file_name`: the final component of the path, `None` when
/// the path ends in `..`; a path of one normal component is its own file name.
#[verifier::external_body]
fn file_name_of(path: &str) -> (r: Option<String>)
    ensures
        path@ == ".."@ ==> r is None,
        single_component(path@) ==> r is Some && r->0@ == path@,
{
    std::path::Path::new(path).file_name().map(|n| n.to_string_lossy().into_owned())
}

/// Relies on `std::path::Path::parent`: the path without its final component, `None` when
/// the path ends in a root or a prefix, or is empty; `Some("")` for a relative path of
/// one component.
#[verifier::external_body]
fn parent_of(path: &str) -> (r: Option<String>)
    ensures
        path@.len() == 0 ==> r is None,
        single_component(path@) ==> r is Some && r->0@.len() == 0,
{
    std::path::Path::new(path).parent().map(|p| p.to_string_lossy().into_owned())
}

/// The final component of `path`, or the empty string when it has none.
pub fn path_get_name(path: &str) -> (r: String)
    ensures
        path@ == ".."@ ==> r@.len() == 0,
        single_component(path@) ==> r@ == path@,
{
    match file_name_of(path) {
        Some(n) => n,
        None => String::new(),
    }
}

/// The directory part of `path`, or the empty string when it has none.
pub fn path_get_dirs(path: &str) -> (r: String)
    ensures
        path@.len() == 0 ==> r@.len() == 0,
        single_component(path@) ==> r@.len() == 0,
{
    match parent_of(path) {
        Some(d) => d,
        None => String::new(),
    }
}

} // verus!
