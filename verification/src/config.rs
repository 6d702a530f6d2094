use crate::decimal::{parse_u64, parse_unsigned, parse_usize};
use crate::text::{
    split, split_chars, starts_with, string_of, strings_of, texts_of, to_chars, trim, trimmed,
};
use vstd::prelude::*;

verus! {

/// The timeout, in milliseconds, that holds where none is configured.
pub const DEFAULT_TIMEOUT_MS: u64 = 15000;

/// The largest response body, in bytes, that is kept where no limit is configured.
pub const DEFAULT_MAX_BYTES: usize = 5242880;

/// `globset`'s compiled set of patterns.
#[verifier::external_type_specification]
#[verifier::external_body]
pub struct ExGlobSet(globset::GlobSet);

/// The patterns that a compiled set was built from, in the order in which they were added.
pub uninterp spec fn globset_patterns(set: globset::GlobSet) -> Seq<Seq<char>>;

/// Whether `globset::Glob::new` accepts `pattern`.
pub uninterp spec fn glob_valid(pattern: Seq<char>) -> bool;

/// Whether `globset::GlobSetBuilder::build` succeeds on a builder to which
/// these patterns were added, each compiled by `globset::Glob::new`.
pub uninterp spec fn glob_set_builds(patterns: Seq<Seq<char>>) -> bool;

/// Whether the glob compiled from `pattern` by `globset::Glob::new` matches `text`.
pub uninterp spec fn glob_matches(pattern: Seq<char>, text: Seq<char>) -> bool;

/// What `url::Url::parse` makes of `input`: the scheme and the serialization
/// of the URL, or `None` where it rejects the input.
pub uninterp spec fn url_parse(input: Seq<char>) -> Option<(Seq<char>, Seq<char>)>;

/// Trusted: whether `globset::Glob::new` accepts the pattern.
#[verifier::external_body]
fn glob_compiles(pattern: &str) -> (ok: bool)
    ensures
        ok == glob_valid(pattern@),
{
    globset::Glob::new(pattern).is_ok()
}

/// Trusted: the set that `globset::GlobSetBuilder::build` makes of the
/// patterns, each compiled by `globset::Glob::new` and added in order, or
/// `None` where it makes none. A pattern that does not compile is not
/// added; the caller hands in none.
#[verifier::external_body]
fn build_set(patterns: &Vec<String>) -> (set: Option<globset::GlobSet>)
    requires
        forall|i: int| 0 <= i < patterns.len() ==> glob_valid(#[trigger] patterns[i]@),
    ensures
        set is Some <==> glob_set_builds(strings_of(patterns@)),
        set is Some ==> globset_patterns(set->0) == strings_of(patterns@),
{
    let mut builder = globset::GlobSetBuilder::new();
    for pattern in patterns.iter() {
        if let Ok(glob) = globset::Glob::new(pattern) {
            builder.add(glob);
        }
    }
    builder.build().ok()
}

/// Trusted: `globset::GlobSet::is_match`, which is true exactly where one of
/// the globs in the set matches the text.
#[verifier::external_body]
fn set_matches(set: &globset::GlobSet, text: &str) -> (hit: bool)
    ensures
        hit == (exists|i: int|
            0 <= i < globset_patterns(*set).len() && glob_matches(
                #[trigger] globset_patterns(*set)[i],
                text@,
            )),
{
    set.is_match(text)
}

/// Trusted: a clone of a compiled set is a set of the same patterns.
pub assume_specification[ <globset::GlobSet as Clone>::clone ](set: &globset::GlobSet) -> (copy:
    globset::GlobSet)
    ensures
        globset_patterns(copy) == globset_patterns(*set),
;

/// Trusted: parses `input` with `url::Url::parse` and keeps what `scheme`
/// and `as_str` give of the result.
#[verifier::external_body]
fn parse_url(input: &str) -> (r: Option<ParsedUrl>)
    ensures
        r is Some <==> url_parse(input@) is Some,
        r is Some ==> (r->0.scheme@, r->0.href@) == url_parse(input@)->0,
{
    match url::Url::parse(input) {
        Ok(u) => Some(ParsedUrl { scheme: u.scheme().to_string(), href: u.as_str().to_string() }),
        Err(_) => None,
    }
}

/// Whether one of `patterns` matches `text`.
pub open spec fn any_matches(patterns: Seq<Seq<char>>, text: Seq<char>) -> bool {
    exists|i: int| 0 <= i < patterns.len() && glob_matches(#[trigger] patterns[i], text)
}

/// The allowlist that holds where none is configured: any `https` URL.
pub open spec fn default_allowlist() -> Seq<char> {
    "https://*"@
}

/// The entries among `parts` that are left after trimming each and dropping the empty ones.
pub open spec fn entries_of(parts: Seq<Seq<char>>) -> Seq<Seq<char>>
    decreases parts.len(),
{
    if parts.len() == 0 {
        Seq::empty()
    } else if trimmed(parts.last()).len() == 0 {
        entries_of(parts.drop_last())
    } else {
        entries_of(parts.drop_last()).push(trimmed(parts.last()))
    }
}

/// The entries of a comma-separated allowlist setting, or of the default where it is unset.
pub open spec fn allowlist_entries(setting: Option<Seq<char>>) -> Seq<Seq<char>> {
    entries_of(
        split(
            match setting {
                Some(list) => list,
                None => default_allowlist(),
            },
            ',',
        ),
    )
}

/// An allowlist entry with `https://` put in front where it names no scheme.
pub open spec fn with_scheme(entry: Seq<char>) -> Seq<char> {
    if "http://"@.is_prefix_of(entry) || "https://"@.is_prefix_of(entry) {
        entry
    } else {
        "https://"@ + entry
    }
}

/// The pattern that is compiled for an allowlist entry: the entry with its
/// scheme, or the pattern for any `https` URL where that does not compile.
pub open spec fn pattern_of(entry: Seq<char>) -> Seq<char> {
    if glob_valid(with_scheme(entry)) {
        with_scheme(entry)
    } else {
        default_allowlist()
    }
}

/// The patterns that are compiled for a list of allowlist entries, one for each.
pub open spec fn patterns_of(entries: Seq<Seq<char>>) -> Seq<Seq<char>> {
    Seq::new(entries.len(), |i: int| pattern_of(entries[i]))
}

/// Whether the set of patterns for these allowlist entries can be compiled.
pub open spec fn compiles(entries: Seq<Seq<char>>) -> bool {
    &&& forall|i: int|
        0 <= i < entries.len() ==> glob_valid(#[trigger] patterns_of(entries)[i])
    &&& glob_set_builds(patterns_of(entries))
}

/// The number that a setting gives: its value where it is set to an unsigned
/// decimal number no larger than `max`.
pub open spec fn number_setting(setting: Option<Seq<char>>, max: nat) -> Option<nat> {
    match setting {
        Some(text) => parse_unsigned(text, max),
        None => None,
    }
}

/// The text of a setting, where it is set.
pub open spec fn setting_text(setting: Option<&str>) -> Option<Seq<char>> {
    match setting {
        Some(text) => Some(text@),
        None => None,
    }
}

/// A URL as the fetch logic sees it: its scheme and its full serialization.
#[derive(Debug, Clone)]
pub struct ParsedUrl {
    pub scheme: String,
    pub href: String,
}

impl ParsedUrl {
    /// Parses `input` as an absolute URL.
    pub fn parse(input: &str) -> (r: Option<ParsedUrl>)
        ensures
            r is Some <==> url_parse(input@) is Some,
            r is Some ==> (r->0.scheme@, r->0.href@) == url_parse(input@)->0,
    {
        parse_url(input)
    }
}

/// The settings as they are read, before any pattern is compiled.
#[derive(Debug)]
pub struct RawConfig {
    pub allowlist: Vec<String>,
    pub timeout_ms: Option<u64>,
    pub max_bytes: Option<usize>,
}

impl RawConfig {
    /// Reads the three settings: the allowlist's entries, trimmed and without
    /// the empty ones, and the two numbers where they are set and well formed.
    pub fn from_settings(
        allowlist: Option<&str>,
        timeout_ms: Option<&str>,
        max_bytes: Option<&str>,
    ) -> (raw: RawConfig)
        ensures
            strings_of(raw.allowlist@) == allowlist_entries(setting_text(allowlist)),
            raw.timeout_ms == match number_setting(setting_text(timeout_ms), u64::MAX as nat) {
                Some(n) => Some(n as u64),
                None => None,
            },
            raw.max_bytes == match number_setting(setting_text(max_bytes), usize::MAX as nat) {
                Some(n) => Some(n as usize),
                None => None,
            },
    {
        let list = match allowlist {
            Some(text) => to_chars(text),
            None => to_chars("https://*"),
        };
        let parts = split_chars(&list, ',');
        let mut entries: Vec<String> = Vec::new();
        let mut i: usize = 0;
        assert(texts_of(parts@).take(0) == Seq::<Seq<char>>::empty());
        while i < parts.len()
            invariant
                i <= parts.len(),
                strings_of(entries@) == entries_of(texts_of(parts@).take(i as int)),
            decreases parts.len() - i,
        {
            let entry = trim(&parts[i]);
            let ghost before = strings_of(entries@);
            let ghost upto = texts_of(parts@).take(i + 1);
            assert(upto.drop_last() == texts_of(parts@).take(i as int));
            assert(upto.last() == parts@[i as int]@);
            if entry.len() > 0 {
                entries.push(string_of(&entry));
                assert(strings_of(entries@) =~= before.push(entry@));
            }
            i += 1;
        }
        assert(texts_of(parts@).take(parts.len() as int) == texts_of(parts@));
        let timeout = match timeout_ms {
            Some(text) => parse_u64(&to_chars(text)),
            None => None,
        };
        let limit = match max_bytes {
            Some(text) => parse_usize(&to_chars(text)),
            None => None,
        };
        RawConfig { allowlist: entries, timeout_ms: timeout, max_bytes: limit }
    }

    /// The patterns that are compiled for the allowlist's entries, one for each.
    pub fn patterns(&self) -> (patterns: Vec<String>)
        ensures
            strings_of(patterns@) == patterns_of(strings_of(self.allowlist@)),
    {
        let mut patterns: Vec<String> = Vec::new();
        let mut i: usize = 0;
        while i < self.allowlist.len()
            invariant
                i <= self.allowlist.len(),
                patterns.len() == i,
                forall|k: int|
                    0 <= k < i ==> (#[trigger] patterns@[k])@ == pattern_of(self.allowlist@[k]@),
            decreases self.allowlist.len() - i,
        {
            let candidate = add_scheme(self.allowlist[i].as_str());
            let valid = glob_compiles(candidate.as_str());
            patterns.push(or_any_https(candidate, valid));
            i += 1;
        }
        assert(strings_of(patterns@) =~= patterns_of(strings_of(self.allowlist@)));
        patterns
    }
}

/// Puts `https://` in front of an allowlist entry that names no scheme.
pub fn add_scheme(entry: &str) -> (pattern: String)
    ensures
        pattern@ == with_scheme(entry@),
{
    let chars = to_chars(entry);
    if starts_with(&chars, &to_chars("http://")) || starts_with(&chars, &to_chars("https://")) {
        entry.to_owned()
    } else {
        let mut joined = to_chars("https://");
        let mut tail = chars;
        joined.append(&mut tail);
        string_of(&joined)
    }
}

/// Keeps a pattern that compiles, and puts the pattern for any `https` URL
/// in place of one that does not.
pub fn or_any_https(pattern: String, valid: bool) -> (kept: String)
    ensures
        kept@ == if valid {
            pattern@
        } else {
            default_allowlist()
        },
{
    if valid {
        pattern
    } else {
        "https://*".to_owned()
    }
}

/// The configuration that every call shares: the compiled allowlist, the
/// timeout in milliseconds and the largest body that is kept.
#[derive(Debug)]
pub struct Config {
    pub allowlist: globset::GlobSet,
    pub timeout_ms: u64,
    pub max_bytes: usize,
}

impl Clone for Config {
    fn clone(&self) -> (copy: Self)
        ensures
            copy.patterns() == self.patterns(),
            copy.timeout_ms == self.timeout_ms,
            copy.max_bytes == self.max_bytes,
    {
        Config {
            allowlist: self.allowlist.clone(),
            timeout_ms: self.timeout_ms,
            max_bytes: self.max_bytes,
        }
    }
}

impl Config {
    /// The patterns of the allowlist.
    pub open spec fn patterns(&self) -> Seq<Seq<char>> {
        globset_patterns(self.allowlist)
    }

    /// Whether the allowlist lets the text of a URL through: whether one of its patterns matches.
    pub open spec fn allows(&self, href: Seq<char>) -> bool {
        any_matches(self.patterns(), href)
    }

    /// Whether this is the configuration that the three settings describe.
    pub open spec fn describes(
        &self,
        allowlist: Option<Seq<char>>,
        timeout_ms: Option<Seq<char>>,
        max_bytes: Option<Seq<char>>,
    ) -> bool {
        &&& self.patterns() == patterns_of(allowlist_entries(allowlist))
        &&& self.timeout_ms == match number_setting(timeout_ms, u64::MAX as nat) {
            Some(n) => n as u64,
            None => DEFAULT_TIMEOUT_MS,
        }
        &&& self.max_bytes == match number_setting(max_bytes, usize::MAX as nat) {
            Some(n) => n as usize,
            None => DEFAULT_MAX_BYTES,
        }
    }

    /// Builds the configuration from the three settings, each given as its
    /// text where it is set. The allowlist's patterns must compile as a set;
    /// `try_from_env` tests that.
    pub fn from_env(allowlist: Option<&str>, timeout_ms: Option<&str>, max_bytes: Option<&str>) -> (cfg:
        Config)
        requires
            compiles(allowlist_entries(setting_text(allowlist))),
        ensures
            cfg.describes(
                setting_text(allowlist),
                setting_text(timeout_ms),
                setting_text(max_bytes),
            ),
    {
        let raw = RawConfig::from_settings(allowlist, timeout_ms, max_bytes);
        let patterns = raw.patterns();
        let ghost entries = allowlist_entries(setting_text(allowlist));
        assert(strings_of(patterns@).len() == patterns.len());
        assert(patterns_of(entries).len() == entries.len());
        assert forall|i: int| 0 <= i < patterns.len() implies glob_valid(
            #[trigger] patterns[i]@,
        ) by {
            assert(patterns[i]@ == strings_of(patterns@)[i]);
            assert(glob_valid(patterns_of(entries)[i]));
        }
        let set = build_set(&patterns);
        Config {
            allowlist: set.unwrap(),
            timeout_ms: match raw.timeout_ms {
                Some(n) => n,
                None => DEFAULT_TIMEOUT_MS,
            },
            max_bytes: match raw.max_bytes {
                Some(n) => n,
                None => DEFAULT_MAX_BYTES,
            },
        }
    }

    /// Builds the configuration from the three settings, or returns `None`
    /// where the allowlist's patterns do not compile as a set.
    pub fn try_from_env(
        allowlist: Option<&str>,
        timeout_ms: Option<&str>,
        max_bytes: Option<&str>,
    ) -> (r: Option<Config>)
        ensures
            r is Some <==> compiles(allowlist_entries(setting_text(allowlist))),
            r is Some ==> r->0.describes(
                setting_text(allowlist),
                setting_text(timeout_ms),
                setting_text(max_bytes),
            ),
    {
        let raw = RawConfig::from_settings(allowlist, None, None);
        let patterns = raw.patterns();
        let ghost entries = allowlist_entries(setting_text(allowlist));
        assert(strings_of(patterns@).len() == patterns.len());
        assert(patterns_of(entries).len() == entries.len());
        let mut i: usize = 0;
        while i < patterns.len()
            invariant
                i <= patterns.len(),
                patterns.len() == entries.len(),
                strings_of(patterns@) == patterns_of(entries),
                entries == allowlist_entries(setting_text(allowlist)),
                forall|k: int| 0 <= k < i ==> glob_valid(#[trigger] patterns[k]@),
            decreases patterns.len() - i,
        {
            if !glob_compiles(patterns[i].as_str()) {
                assert(patterns[i as int]@ == strings_of(patterns@)[i as int]);
                assert(!glob_valid(patterns_of(entries)[i as int]));
                return None;
            }
            i += 1;
        }
        assert forall|k: int| 0 <= k < entries.len() implies glob_valid(
            #[trigger] patterns_of(entries)[k],
        ) by {
            assert(strings_of(patterns@)[k] == patterns[k]@);
        }
        match build_set(&patterns) {
            Some(_) => Some(Config::from_env(allowlist, timeout_ms, max_bytes)),
            None => None,
        }
    }

    /// Decides whether the allowlist lets a URL through, by its full serialization.
    pub fn is_allowed(&self, url: &ParsedUrl) -> (allowed: bool)
        ensures
            allowed == self.allows(url.href@),
    {
        set_matches(&self.allowlist, url.href.as_str())
    }
}

/// A URL is let through exactly where its full text matches one of the
/// patterns compiled for the entries of the configured allowlist, each entry
/// taken with `https://` in front where it names no scheme.
pub proof fn lemma_allowed_iff_pattern_matches(
    cfg: Config,
    allowlist: Option<Seq<char>>,
    timeout_ms: Option<Seq<char>>,
    max_bytes: Option<Seq<char>>,
    href: Seq<char>,
)
    requires
        cfg.describes(allowlist, timeout_ms, max_bytes),
    ensures
        cfg.allows(href) <==> exists|i: int|
            0 <= i < allowlist_entries(allowlist).len() && glob_matches(
                pattern_of(#[trigger] allowlist_entries(allowlist)[i]),
                href,
            ),
{
    let entries = allowlist_entries(allowlist);
    let patterns = patterns_of(entries);
    if cfg.allows(href) {
        let i = choose|i: int| 0 <= i < patterns.len() && glob_matches(#[trigger] patterns[i], href);
        assert(glob_matches(pattern_of(entries[i]), href));
    }
    if exists|i: int| 0 <= i < entries.len() && glob_matches(pattern_of(#[trigger] entries[i]), href) {
        let i = choose|i: int|
            0 <= i < entries.len() && glob_matches(pattern_of(#[trigger] entries[i]), href);
        assert(glob_matches(patterns[i], href));
    }
}

/// A configuration whose allowlist has no entry lets no URL through.
pub proof fn lemma_empty_allowlist_allows_nothing(cfg: Config, href: Seq<char>)
    requires
        cfg.patterns().len() == 0,
    ensures
        !cfg.allows(href),
{
}

} // verus!
