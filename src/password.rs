use crate::config::{validation, AppConfig, ConfigError, ConfigView};
use crate::digest::{digest_of, get_string_hash, hex, hex_len, method_of};
use crate::text::{chars_of, push_char, string_of, to_upper, upper, upper_all};
use vstd::prelude::*;

verus! {

/// The text that is hashed: name, email and site joined by commas.
pub open spec fn base_text(c: ConfigView) -> Seq<char> {
    c.name + ","@ + c.email + ","@ + c.site
}

/// The first `k` characters of `s` upper-cased, the rest as they are.
pub open spec fn upper_prefix(s: Seq<char>, k: nat) -> Seq<char> {
    upper_all(s.take(k as int)) + s.skip(k as int)
}

/// The digest cut to `cut_length` characters, its last character replaced by the first
/// of `end_char` when both are non-empty.
pub open spec fn cut_with_end(c: ConfigView, digest: Seq<char>) -> Seq<char> {
    let n = if c.cut_length < digest.len() {
        c.cut_length as int
    } else {
        digest.len() as int
    };
    let t = digest.take(n);
    if c.end_char.len() > 0 && t.len() > 0 {
        t.update(t.len() - 1, c.end_char[0])
    } else {
        t
    }
}

/// Number of leading token characters that are upper-cased: `upper_start`, or the whole
/// token when it is shorter.
pub open spec fn upper_span(c: ConfigView, t: Seq<char>) -> nat {
    if c.upper_start <= t.len() {
        c.upper_start
    } else {
        t.len()
    }
}

/// The formatted token: `cut_with_end`, then its first `upper_start` characters
/// upper-cased (all of them when the token is shorter).
pub open spec fn token(c: ConfigView, digest: Seq<char>) -> Seq<char> {
    let t = cut_with_end(c, digest);
    upper_prefix(t, upper_span(c, t))
}

/// Length of the token: `cut_length`, or the digest's length when that is shorter.
pub open spec fn token_len(c: ConfigView, digest: Seq<char>) -> nat {
    if c.cut_length <= digest.len() {
        c.cut_length
    } else {
        digest.len()
    }
}

/// The output for a given hex digest: name, token and site joined by commas.
pub open spec fn password_text(c: ConfigView, digest: Seq<char>) -> Seq<char> {
    c.name + ","@ + token(c, digest) + ","@ + c.site
}

/// The hex digest a valid configuration hashes to.
pub open spec fn config_digest(c: ConfigView) -> Seq<char> {
    hex(digest_of(method_of(c.method)->0, base_text(c)))
}

/// The password a valid configuration derives.
pub open spec fn password_of(c: ConfigView) -> Seq<char> {
    password_text(c, config_digest(c))
}

fn append(r: &mut String, s: &str)
    ensures
        final(r)@ == old(r)@ + s@,
{
    r.append(s);
}

fn comma_join(a: &str, b: &str, c: &str) -> (r: String)
    ensures
        r@ == a@ + ","@ + b@ + ","@ + c@,
{
    let mut r = String::from_str(a);
    push_char(&mut r, ',');
    append(&mut r, b);
    push_char(&mut r, ',');
    append(&mut r, c);
    proof {
        reveal_strlit(",");
    }
    assert(r@ =~= a@ + ","@ + b@ + ","@ + c@);
    r
}

/// Formats a hex digest into the password for `config`: the digest is cut to
/// `cut_length` characters, its last character is replaced by the first of `end_char`,
/// its first `upper_start` characters are upper-cased, and the result stands between
/// the name and the site.
pub fn format_password(config: &AppConfig, digest: &str) -> (r: String)
    ensures
        r@ == password_text(config@, digest@),
{
    let d = chars_of(digest);
    let n: usize = if config.cut_length < d.len() {
        config.cut_length
    } else {
        d.len()
    };
    let mut t: Vec<char> = Vec::new();
    let mut i: usize = 0;
    while i < n
        invariant
            n <= d.len(),
            i <= n,
            t@ == d@.take(i as int),
        decreases n - i,
    {
        t.push(d[i]);
        i += 1;
        assert(t@ =~= d@.take(i as int));
    }
    let end = chars_of(config.end_char.as_str());
    if end.len() > 0 && t.len() > 0 {
        let last = t.len() - 1;
        t.set(last, end[0]);
    }
    let ghost cut = t@;
    assert(cut =~= cut_with_end(config@, digest@));
    let span: usize = if config.upper_start <= t.len() {
        config.upper_start
    } else {
        t.len()
    };
    let mut j: usize = 0;
    while j < span
        invariant
            span <= t.len() == cut.len(),
            j <= span,
            forall|k: int| 0 <= k < j ==> t@[k] == upper(cut[k]),
            forall|k: int| j <= k < t.len() ==> t@[k] == cut[k],
        decreases span - j,
    {
        let u = to_upper(t[j]);
        t.set(j, u);
        j += 1;
    }
    assert(t@ =~= upper_prefix(cut, span as nat));
    let token = string_of(&t);
    comma_join(config.name.as_str(), token.as_str(), config.site.as_str())
}

/// Derives the password of `config`: the first validation error when it has one;
/// otherwise the digest of name, email and site, formatted by `format_password`.
pub fn generate_password_hash(config: &AppConfig) -> (r: Result<String, ConfigError>)
    ensures
        match validation(config@) {
            Err(e) => r == Err::<String, ConfigError>(e),
            Ok(_) => r matches Ok(s) && s@ == password_of(config@) && config_digest(config@).len()
                == hex_len(method_of(config@.method)->0),
        },
{
    match config.validate() {
        Err(e) => Err(e),
        Ok(()) => {
            let base = comma_join(
                config.name.as_str(),
                config.email.as_str(),
                config.site.as_str(),
            );
            let digest = get_string_hash(base.as_str(), config.method.as_str());
            Ok(format_password(config, digest.as_str()))
        },
    }
}

/// Formatting is deterministic: two configurations that agree on the fields the
/// formatter reads give the same password, whatever their file paths.
pub proof fn lemma_password_deterministic(a: ConfigView, b: ConfigView)
    requires
        a.method == b.method,
        a.cut_length == b.cut_length,
        a.end_char == b.end_char,
        a.upper_start == b.upper_start,
        a.name == b.name,
        a.email == b.email,
        a.site == b.site,
    ensures
        password_of(a) == password_of(b),
{
    assert(base_text(a) == base_text(b));
}

/// The output is the name, a token and the site, joined by commas; the token is
/// `cut_length` characters long, or as long as the digest when that is shorter.
pub proof fn lemma_password_shape(c: ConfigView, digest: Seq<char>)
    requires
        validation(c) is Ok,
    ensures
        password_text(c, digest) == c.name + ","@ + token(c, digest) + ","@ + c.site,
        token(c, digest).len() == token_len(c, digest),
        digest.len() >= c.cut_length ==> token(c, digest).len() == c.cut_length,
{
}

/// With a non-empty `end_char` and a non-empty token, the token's last character is the
/// first character of `end_char`, upper-cased when the upper-case span reaches it.
pub proof fn lemma_end_char(c: ConfigView, digest: Seq<char>)
    requires
        validation(c) is Ok,
        c.end_char.len() > 0,
        digest.len() > 0,
    ensures
        token(c, digest)[token_len(c, digest) - 1] == if c.upper_start >= token_len(c, digest) {
            upper(c.end_char[0])
        } else {
            c.end_char[0]
        },
{
}

/// The first `upper_start` characters of the token (all of it when it is shorter) are
/// upper-cased, so no `a`..`z` is left among them; the characters after them keep the
/// case they had before.
pub proof fn lemma_upper_span(c: ConfigView, digest: Seq<char>)
    requires
        validation(c) is Ok,
    ensures
        forall|i: int|
            0 <= i < c.upper_start && i < token_len(c, digest) ==> token(c, digest)[i] == upper(
                cut_with_end(c, digest)[i],
            ) && !('a' <= #[trigger] token(c, digest)[i] && token(c, digest)[i] <= 'z'),
        forall|i: int|
            c.upper_start <= i < token_len(c, digest) ==> #[trigger] token(c, digest)[i]
                == cut_with_end(c, digest)[i],
{
}

} // verus!
