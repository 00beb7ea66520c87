use crate::digest::method_of;
use crate::lines::{config_lines, lines_of, meaningful_lines, views};
use crate::text::{
    after, before, chars_of, find, parse_digits, parse_usize, same_chars, split, split_chars,
    split_first, string_of, to_uppercase, trim, trim_chars, upper_of,
};
use vstd::prelude::*;

verus! {

/// The settings that drive one password derivation.
#[derive(Clone, Debug)]
pub struct AppConfig {
    pub method: String,
    pub cut_length: usize,
    pub end_char: String,
    pub upper_start: usize,
    pub name: String,
    pub email: String,
    pub site: String,
    pub input_file: Option<String>,
    pub output_file: Option<String>,
    pub platform_identifier: String,
}

/// A configuration as plain values.
pub struct ConfigView {
    pub method: Seq<char>,
    pub cut_length: nat,
    pub end_char: Seq<char>,
    pub upper_start: nat,
    pub name: Seq<char>,
    pub email: Seq<char>,
    pub site: Seq<char>,
    pub input_file: Option<Seq<char>>,
    pub output_file: Option<Seq<char>>,
    pub platform_identifier: Seq<char>,
}

pub open spec fn opt_view(o: Option<String>) -> Option<Seq<char>> {
    match o {
        Some(s) => Some(s@),
        None => None,
    }
}

impl View for AppConfig {
    type V = ConfigView;

    open spec fn view(&self) -> ConfigView {
        ConfigView {
            method: self.method@,
            cut_length: self.cut_length as nat,
            end_char: self.end_char@,
            upper_start: self.upper_start as nat,
            name: self.name@,
            email: self.email@,
            site: self.site@,
            input_file: opt_view(self.input_file),
            output_file: opt_view(self.output_file),
            platform_identifier: self.platform_identifier@,
        }
    }
}

/// Why a configuration cannot be used.
#[derive(Clone, Copy, Debug, PartialEq, Eq, Structural)]
pub enum ConfigError {
    UnsupportedMethod,
    InvalidCutLength,
    InvalidUpperStart,
}

/// Cut length that an unreadable `cut` value falls back to.
pub const DEFAULT_CUT: usize = 8;

/// Upper-case span that an unreadable `upper-start` value falls back to.
pub const DEFAULT_UPPER: usize = 3;

/// Longest cut length accepted.
pub const MAX_CUT: usize = 64;

/// The built-in configuration.
pub open spec fn default_view() -> ConfigView {
    ConfigView {
        method: "SHA512"@,
        cut_length: 8,
        end_char: "!"@,
        upper_start: 3,
        name: Seq::empty(),
        email: Seq::empty(),
        site: Seq::empty(),
        input_file: None,
        output_file: None,
        platform_identifier: Seq::empty(),
    }
}

/// One `key:value` entry of an identity list applied to `c`.
pub open spec fn text_entry(c: ConfigView, p: Seq<char>) -> ConfigView {
    let k = trim(before(p, ':'));
    let v = trim(after(p, ':'));
    if find(p, ':') < 0 {
        c
    } else if k == "name"@ {
        ConfigView { name: v, ..c }
    } else if k == "email"@ {
        ConfigView { email: v, ..c }
    } else if k == "site"@ {
        ConfigView { site: v, ..c }
    } else {
        c
    }
}

/// `v` read as an unsigned integer, or `fallback` when it is not one.
pub open spec fn number_or(v: Seq<char>, fallback: nat) -> nat {
    match parse_usize(v) {
        Some(n) => n,
        None => fallback,
    }
}

/// One `key:value` entry of a hash-parameter list applied to `c`.
pub open spec fn hash_entry(c: ConfigView, p: Seq<char>) -> ConfigView {
    let k = trim(before(p, ':'));
    let v = trim(after(p, ':'));
    if find(p, ':') < 0 {
        c
    } else if k == "method"@ {
        ConfigView { method: upper_of(v), ..c }
    } else if k == "cut"@ {
        ConfigView { cut_length: number_or(v, 8), ..c }
    } else if k == "end"@ {
        ConfigView { end_char: v, ..c }
    } else if k == "upper-start"@ {
        ConfigView { upper_start: number_or(v, 3), ..c }
    } else {
        c
    }
}

/// The identity entries `ps` applied to `c` in order.
pub open spec fn text_entries(c: ConfigView, ps: Seq<Seq<char>>) -> ConfigView
    decreases ps.len(),
{
    if ps.len() == 0 {
        c
    } else {
        text_entry(text_entries(c, ps.drop_last()), ps.last())
    }
}

/// The hash-parameter entries `ps` applied to `c` in order.
pub open spec fn hash_entries(c: ConfigView, ps: Seq<Seq<char>>) -> ConfigView
    decreases ps.len(),
{
    if ps.len() == 0 {
        c
    } else {
        hash_entry(hash_entries(c, ps.drop_last()), ps.last())
    }
}

/// An identity list applied to `c`.
pub open spec fn text_applied(c: ConfigView, s: Seq<char>) -> ConfigView {
    text_entries(c, split(s, ','))
}

/// A hash-parameter list applied to `c`.
pub open spec fn hash_applied(c: ConfigView, s: Seq<char>) -> ConfigView {
    hash_entries(c, split(s, ','))
}

/// A combined list applied to `c`: its identity keys, then its hash keys.
pub open spec fn slkv_applied(c: ConfigView, s: Seq<char>) -> ConfigView {
    hash_applied(text_applied(c, s), s)
}

/// A compact `head;tail` string applied to `c`.
pub open spec fn sslf_applied(c: ConfigView, s: Seq<char>) -> ConfigView {
    hash_applied(text_applied(c, before(s, ';')), after(s, ';'))
}

/// The first error a configuration has, checked in order: algorithm, cut length,
/// upper-case span.
pub open spec fn validation(c: ConfigView) -> Result<(), ConfigError> {
    if method_of(c.method) is None {
        Err(ConfigError::UnsupportedMethod)
    } else if c.cut_length == 0 || c.cut_length > 64 {
        Err(ConfigError::InvalidCutLength)
    } else if c.upper_start > c.cut_length {
        Err(ConfigError::InvalidUpperStart)
    } else {
        Ok(())
    }
}

/// The configuration a file's text gives: its last meaningful line read as a compact
/// string over the defaults, or the defaults when no line is meaningful.
pub open spec fn file_config(text: Seq<char>) -> ConfigView {
    let ls = meaningful_lines(lines_of(text));
    if ls.len() == 0 {
        default_view()
    } else {
        sslf_applied(default_view(), ls.last())
    }
}

/// A file's text holds at least one meaningful line.
pub open spec fn file_has_config(text: Seq<char>) -> bool {
    meaningful_lines(lines_of(text)).len() > 0
}

/// Applies `f` to `c` when the source `o` is present.
pub open spec fn apply_opt(
    c: ConfigView,
    o: Option<&str>,
    f: spec_fn(ConfigView, Seq<char>) -> ConfigView,
) -> ConfigView {
    match o {
        Some(s) => f(c, s@),
        None => c,
    }
}

/// The configuration all sources give together. The defaults are overridden field by
/// field by the identity list, the hash-parameter list, the combined list and the compact
/// string, in that order; a file text with a meaningful line then replaces the whole
/// result; the file paths are set last.
pub open spec fn resolved(
    text: Option<&str>,
    hash: Option<&str>,
    slkv: Option<&str>,
    sslf: Option<&str>,
    file: Option<&str>,
    file_text: Option<&str>,
    save: Option<&str>,
) -> ConfigView {
    let c1 = apply_opt(default_view(), text, |c: ConfigView, s: Seq<char>| text_applied(c, s));
    let c2 = apply_opt(c1, hash, |c: ConfigView, s: Seq<char>| hash_applied(c, s));
    let c3 = apply_opt(c2, slkv, |c: ConfigView, s: Seq<char>| slkv_applied(c, s));
    let c4 = apply_opt(c3, sslf, |c: ConfigView, s: Seq<char>| sslf_applied(c, s));
    let c5 = match file_text {
        Some(t) => if file_has_config(t@) {
            file_config(t@)
        } else {
            c4
        },
        None => c4,
    };
    ConfigView {
        input_file: match file {
            Some(f) => Some(f@),
            None => None,
        },
        output_file: match save {
            Some(f) => Some(f@),
            None => None,
        },
        ..c5
    }
}

fn owned(o: Option<&str>) -> (r: Option<String>)
    ensures
        opt_view(r) == match o {
            Some(f) => Some(f@),
            None => None::<Seq<char>>,
        },
{
    match o {
        Some(f) => Some(String::from_str(f)),
        None => None,
    }
}

/// The sentence that describes an error of a configuration whose method is `method`.
pub open spec fn error_text(e: ConfigError, method: Seq<char>) -> Seq<char> {
    match e {
        ConfigError::UnsupportedMethod => "Unsupported hash algorithm: "@ + method,
        ConfigError::InvalidCutLength => "Cut length must be between 1-64"@,
        ConfigError::InvalidUpperStart => "Upper start position cannot exceed cut length"@,
    }
}

impl ConfigError {
    /// A sentence that describes the error, for a configuration whose method is `method`;
    /// an unsupported algorithm is named in it.
    pub fn describe(&self, method: &str) -> (r: String)
        ensures
            r@ == error_text(*self, method@),
    {
        match self {
            ConfigError::UnsupportedMethod => {
                let mut r = String::from_str("Unsupported hash algorithm: ");
                r.append(method);
                r
            },
            ConfigError::InvalidCutLength => String::from_str("Cut length must be between 1-64"),
            ConfigError::InvalidUpperStart => String::from_str(
                "Upper start position cannot exceed cut length",
            ),
        }
    }
}

impl Default for AppConfig {
    fn default() -> (r: AppConfig)
        ensures
            r@ == default_view(),
    {
        AppConfig {
            method: String::from_str("SHA512"),
            cut_length: DEFAULT_CUT,
            end_char: String::from_str("!"),
            upper_start: DEFAULT_UPPER,
            name: String::new(),
            email: String::new(),
            site: String::new(),
            input_file: None,
            output_file: None,
            platform_identifier: String::new(),
        }
    }
}

impl AppConfig {
    fn apply_text_entry(&mut self, p: &Vec<char>)
        ensures
            final(self)@ == text_entry(old(self)@, p@),
    {
        let (k, v) = split_first(p, ':');
        if find_colon(p) {
            let k = trim_chars(&k);
            let v = string_of(&trim_chars(&v));
            if same_chars(&k, "name") {
                self.name = v;
            } else if same_chars(&k, "email") {
                self.email = v;
            } else if same_chars(&k, "site") {
                self.site = v;
            }
        }
    }

    fn apply_hash_entry(&mut self, p: &Vec<char>)
        ensures
            final(self)@ == hash_entry(old(self)@, p@),
    {
        let (k, v) = split_first(p, ':');
        if find_colon(p) {
            let k = trim_chars(&k);
            let v = trim_chars(&v);
            if same_chars(&k, "method") {
                self.method = to_uppercase(string_of(&v).as_str());
            } else if same_chars(&k, "cut") {
                self.cut_length = match parse_digits(&v) {
                    Some(n) => n,
                    None => DEFAULT_CUT,
                };
            } else if same_chars(&k, "end") {
                self.end_char = string_of(&v);
            } else if same_chars(&k, "upper-start") {
                self.upper_start = match parse_digits(&v) {
                    Some(n) => n,
                    None => DEFAULT_UPPER,
                };
            }
        }
    }

    /// Applies an identity list (`name`, `email`, `site`); other keys are ignored.
    pub fn apply_text_config(config: &mut AppConfig, text: &str)
        ensures
            final(config)@ == text_applied(old(config)@, text@),
    {
        let parts = split_chars(&chars_of(text), ',');
        let ghost ps = split(text@, ',');
        let mut i: usize = 0;
        while i < parts.len()
            invariant
                i <= parts.len() == ps.len(),
                forall|k: int| 0 <= k < parts.len() ==> #[trigger] parts@[k]@ == ps[k],
                config@ == text_entries(old(config)@, ps.take(i as int)),
            decreases parts.len() - i,
        {
            config.apply_text_entry(&parts[i]);
            i += 1;
            assert(ps.take(i as int).drop_last() =~= ps.take(i - 1));
        }
        assert(ps.take(ps.len() as int) =~= ps);
    }

    /// Applies a hash-parameter list (`method`, `cut`, `end`, `upper-start`); other keys
    /// are ignored, and an unreadable number falls back to its default.
    pub fn apply_hash_config(config: &mut AppConfig, hash: &str)
        ensures
            final(config)@ == hash_applied(old(config)@, hash@),
    {
        let parts = split_chars(&chars_of(hash), ',');
        let ghost ps = split(hash@, ',');
        let mut i: usize = 0;
        while i < parts.len()
            invariant
                i <= parts.len() == ps.len(),
                forall|k: int| 0 <= k < parts.len() ==> #[trigger] parts@[k]@ == ps[k],
                config@ == hash_entries(old(config)@, ps.take(i as int)),
            decreases parts.len() - i,
        {
            config.apply_hash_entry(&parts[i]);
            i += 1;
            assert(ps.take(i as int).drop_last() =~= ps.take(i - 1));
        }
        assert(ps.take(ps.len() as int) =~= ps);
    }

    /// Applies a combined list: its identity keys first, then its hash keys.
    pub fn apply_slkv_config(config: &mut AppConfig, slkv: &str)
        ensures
            final(config)@ == slkv_applied(old(config)@, slkv@),
    {
        Self::apply_text_config(config, slkv);
        Self::apply_hash_config(config, slkv);
    }

    /// Applies a compact `head;tail` string: `head` as an identity list, `tail` as a
    /// hash-parameter list.
    pub fn apply_sslf_config(config: &mut AppConfig, sslf: &str)
        ensures
            final(config)@ == sslf_applied(old(config)@, sslf@),
    {
        let (head, tail) = split_first(&chars_of(sslf), ';');
        Self::apply_text_config(config, string_of(&head).as_str());
        Self::apply_hash_config(config, string_of(&tail).as_str());
    }

    /// The configuration a file's text gives: its last meaningful line, read as a compact
    /// string over the defaults; the defaults when it has none.
    pub fn load_from_file(file_text: &str) -> (r: AppConfig)
        ensures
            r@ == file_config(file_text@),
    {
        let lines = config_lines(file_text);
        let mut config = AppConfig::default();
        if lines.len() > 0 {
            let last = &lines[lines.len() - 1];
            assert(views(lines@).last() == last@);
            Self::apply_sslf_config(&mut config, last.as_str());
        }
        config
    }

    /// Resolves the configuration from all its sources: the three inline encodings and
    /// the compact string, then the text of the configuration file at `file` (`None`
    /// where it could not be read), and the paths of the input and output files.
    pub fn new(
        text: Option<&str>,
        hash: Option<&str>,
        slkv: Option<&str>,
        sslf: Option<&str>,
        file: Option<&str>,
        file_text: Option<&str>,
        save: Option<&str>,
    ) -> (r: AppConfig)
        ensures
            r@ == resolved(text, hash, slkv, sslf, file, file_text, save),
    {
        let mut config = AppConfig::default();
        if let Some(t) = text {
            Self::apply_text_config(&mut config, t);
        }
        if let Some(h) = hash {
            Self::apply_hash_config(&mut config, h);
        }
        if let Some(k) = slkv {
            Self::apply_slkv_config(&mut config, k);
        }
        if let Some(f) = sslf {
            Self::apply_sslf_config(&mut config, f);
        }
        if let Some(t) = file_text {
            if config_lines(t).len() > 0 {
                config = Self::load_from_file(t);
            }
        }
        config.input_file = owned(file);
        config.output_file = owned(save);
        config
    }

    /// The first error of this configuration, if any.
    pub fn validate(&self) -> (r: Result<(), ConfigError>)
        ensures
            r == validation(self@),
    {
        if crate::digest::HashMethod::from_name(self.method.as_str()).is_none() {
            Err(ConfigError::UnsupportedMethod)
        } else if self.cut_length == 0 || self.cut_length > MAX_CUT {
            Err(ConfigError::InvalidCutLength)
        } else if self.upper_start > self.cut_length {
            Err(ConfigError::InvalidUpperStart)
        } else {
            Ok(())
        }
    }
}

/// The keys an identity list recognises.
pub open spec fn is_text_key(k: Seq<char>) -> bool {
    k == "name"@ || k == "email"@ || k == "site"@
}

/// The keys a hash-parameter list recognises.
pub open spec fn is_hash_key(k: Seq<char>) -> bool {
    k == "method"@ || k == "cut"@ || k == "end"@ || k == "upper-start"@
}

/// An entry with a key that an identity list does not recognise changes nothing,
/// wherever it stands in the list.
pub proof fn lemma_unknown_text_key(c: ConfigView, ps: Seq<Seq<char>>, i: int, p: Seq<char>)
    requires
        0 <= i <= ps.len(),
        !is_text_key(trim(before(p, ':'))),
    ensures
        text_entry(c, p) == c,
        text_entries(c, ps.insert(i, p)) == text_entries(c, ps),
    decreases ps.len(),
{
    if i == ps.len() {
        assert(ps.insert(i, p).drop_last() =~= ps);
    } else {
        lemma_unknown_text_key(c, ps.drop_last(), i, p);
        assert(ps.insert(i, p).drop_last() =~= ps.drop_last().insert(i, p));
    }
}

/// An entry with a key that a hash-parameter list does not recognise changes nothing,
/// wherever it stands in the list.
pub proof fn lemma_unknown_hash_key(c: ConfigView, ps: Seq<Seq<char>>, i: int, p: Seq<char>)
    requires
        0 <= i <= ps.len(),
        !is_hash_key(trim(before(p, ':'))),
    ensures
        hash_entry(c, p) == c,
        hash_entries(c, ps.insert(i, p)) == hash_entries(c, ps),
    decreases ps.len(),
{
    if i == ps.len() {
        assert(ps.insert(i, p).drop_last() =~= ps);
    } else {
        lemma_unknown_hash_key(c, ps.drop_last(), i, p);
        assert(ps.insert(i, p).drop_last() =~= ps.drop_last().insert(i, p));
    }
}

/// A configuration file with a meaningful line replaces every inline source: the result
/// is what its last meaningful line gives as the only compact string.
pub proof fn lemma_file_replaces_inline(
    text: Option<&str>,
    hash: Option<&str>,
    slkv: Option<&str>,
    sslf: Option<&str>,
    file: Option<&str>,
    file_text: &str,
    save: Option<&str>,
    last: &str,
)
    requires
        file_has_config(file_text@),
        last@ == meaningful_lines(lines_of(file_text@)).last(),
    ensures
        resolved(text, hash, slkv, sslf, file, Some(file_text), save) == resolved(
            None,
            None,
            None,
            Some(last),
            file,
            None,
            save,
        ),
{
}

fn find_colon(p: &Vec<char>) -> (r: bool)
    ensures
        r == (find(p@, ':') >= 0),
{
    crate::text::find_char(p, ':') < p.len()
}

} // verus!
