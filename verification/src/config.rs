//! The immutable rule set that classification runs against: match
//! patterns (literal or compiled), exclusion patterns, color mappings
//! and notification settings, normalized once from raw flag values.

use vstd::prelude::*;

use crate::cli::Args;
use crate::color::Color;
use crate::color::parse_color_name;
use crate::color::spec_default_color;
use crate::color::spec_parse_color;
use crate::pattern::CompiledPattern;
use crate::pattern::regex_compiles;
use crate::pattern::regex_match_of;
use crate::text::contains_chars;
use crate::text::contains_seq;
use crate::text::lower_of;
use crate::text::lower_string;
use crate::text::str_eq;
use crate::text::to_chars;

verus! {

/// A reason the rule set could not be built.
#[derive(Debug, Clone, PartialEq, Eq)]
pub enum ConfigError {
    /// A pattern that does not compile as a regular expression, or
    /// whose compiled program exceeds the size ceiling.
    InvalidRegex { pattern: String },
    /// A color name outside the fixed vocabulary.
    UnknownColor { name: String },
}

impl ConfigError {
    /// A human-readable description of the error.
    pub fn message(&self) -> (r: String)
        ensures
            self matches ConfigError::InvalidRegex { pattern } ==> r@
                == "Invalid or too complex regex pattern: "@ + pattern@,
            self matches ConfigError::UnknownColor { name } ==> r@ == "Unknown color: "@ + name@,
    {
        match self {
            ConfigError::InvalidRegex { pattern } => String::from_str(
                "Invalid or too complex regex pattern: ",
            ).concat(pattern.as_str()),
            ConfigError::UnknownColor { name } => String::from_str("Unknown color: ").concat(
                name.as_str(),
            ),
        }
    }
}

/// First-match lookup in an association list of pattern colors.
pub open spec fn spec_lookup_color(entries: Seq<(String, Color)>, key: Seq<char>) -> Option<Color>
    decreases entries.len(),
{
    if entries.len() == 0 {
        None
    } else if entries[0].0@ == key {
        Some(entries[0].1)
    } else {
        spec_lookup_color(entries.drop_first(), key)
    }
}

/// The ready-to-use rule set: every list already split, lower-cased
/// variants precomputed, and regex patterns compiled when regex mode is
/// on.
#[derive(Debug)]
pub struct Config {
    /// Paths of the files to watch.
    pub files: Vec<String>,
    /// Match patterns, in declaration order.
    pub patterns: Vec<String>,
    /// Compiled forms of `patterns`; empty unless regex mode is on.
    pub regex_patterns: Vec<CompiledPattern>,
    /// Exclusion patterns.
    pub exclude_patterns: Vec<String>,
    /// Lower-cased exclusion patterns; empty unless matching is
    /// case-insensitive.
    pub exclude_patterns_lowercase: Vec<String>,
    /// Compiled forms of `exclude_patterns`; empty unless regex mode is
    /// on and there are exclusions.
    pub exclude_regex_patterns: Vec<CompiledPattern>,
    /// Case-insensitive matching.
    pub case_insensitive: bool,
    /// Pattern colors, user mappings first, then the built-in defaults.
    pub color_mappings: Vec<(String, Color)>,
    /// Desktop notifications enabled.
    pub notify_enabled: bool,
    /// Patterns whose matches trigger notifications.
    pub notify_patterns: Vec<String>,
    /// Maximum notifications per one-second window.
    pub notify_throttle: u32,
    /// Scan existing content once instead of tailing.
    pub dry_run: bool,
    /// Suppress non-matching lines.
    pub quiet: bool,
    /// Disable colored output.
    pub no_color: bool,
    /// Prefix printed lines with the file name.
    pub prefix_files: bool,
    /// Polling interval in milliseconds.
    pub poll_interval: u64,
    /// Read buffer size in bytes.
    pub buffer_size: usize,
}

impl Config {
    /// The compiled pattern lists never desynchronize from their
    /// sources: a compiled entry at position `i` was built from the
    /// pattern text at position `i` with this rule set's case flag, and
    /// the lower-cased exclusions mirror the exclusions exactly.
    pub open spec fn wf(&self) -> bool {
        &&& (self.regex_patterns@.len() == self.patterns@.len() || self.regex_patterns@.len()
            == 0)
        &&& forall|i: int|
            0 <= i < self.regex_patterns@.len() ==> (#[trigger] self.regex_patterns@[i]).source_view()
                == self.patterns@[i]@ && self.regex_patterns@[i].ci() == self.case_insensitive
        &&& (self.exclude_regex_patterns@.len() == self.exclude_patterns@.len()
            || self.exclude_regex_patterns@.len() == 0)
        &&& forall|i: int|
            0 <= i < self.exclude_regex_patterns@.len() ==> (
            #[trigger] self.exclude_regex_patterns@[i]).source_view()
                == self.exclude_patterns@[i]@ && self.exclude_regex_patterns@[i].ci()
                == self.case_insensitive
        &&& self.case_insensitive ==> self.exclude_patterns_lowercase@.len()
            == self.exclude_patterns@.len() && forall|i: int|
            0 <= i < self.exclude_patterns@.len() ==> (
            #[trigger] self.exclude_patterns_lowercase@[i])@ == lower_of(
                self.exclude_patterns@[i]@,
            )
        &&& !self.case_insensitive ==> self.exclude_patterns_lowercase@.len() == 0
    }

    /// Whether a matched pattern should raise a notification.
    pub open spec fn spec_should_notify(&self, pattern: Seq<char>) -> bool {
        self.notify_enabled && exists|i: int|
            0 <= i < self.notify_patterns@.len() && (#[trigger] self.notify_patterns@[i])@
                == pattern
    }

    /// Whether a line is struck out by the exclusion rules.
    pub open spec fn spec_should_exclude(&self, line: Seq<char>) -> bool {
        if self.exclude_patterns@.len() == 0 {
            false
        } else if self.exclude_regex_patterns@.len() > 0 {
            exists|i: int|
                0 <= i < self.exclude_regex_patterns@.len() && regex_match_of(
                    (#[trigger] self.exclude_regex_patterns@[i]).source_view(),
                    self.exclude_regex_patterns@[i].ci(),
                    line,
                )
        } else if self.case_insensitive {
            exists|i: int|
                0 <= i < self.exclude_patterns_lowercase@.len() && contains_seq(
                    lower_of(line),
                    (#[trigger] self.exclude_patterns_lowercase@[i])@,
                )
        } else {
            exists|i: int|
                0 <= i < self.exclude_patterns@.len() && contains_seq(
                    line,
                    (#[trigger] self.exclude_patterns@[i])@,
                )
        }
    }

    /// Check whether a pattern should trigger notifications.
    pub fn should_notify_for_pattern(&self, pattern: &str) -> (r: bool)
        ensures
            r == self.spec_should_notify(pattern@),
    {
        if !self.notify_enabled {
            return false;
        }
        let n: usize = self.notify_patterns.len();
        let mut i: usize = 0;
        while i < n
            invariant
                self.notify_enabled,
                n == self.notify_patterns@.len(),
                i <= n,
                forall|j: int| 0 <= j < i ==> (#[trigger] self.notify_patterns@[j])@ != pattern@,
            decreases n - i,
        {
            if str_eq(self.notify_patterns[i].as_str(), pattern) {
                proof {
                    assert((self.notify_patterns@[i as int])@ == pattern@);
                }
                return true;
            }
            i = i + 1;
        }
        false
    }

    /// Get the color mapped to a pattern, if any.
    pub fn get_color_for_pattern(&self, pattern: &str) -> (r: Option<Color>)
        ensures
            r == spec_lookup_color(self.color_mappings@, pattern@),
    {
        let n: usize = self.color_mappings.len();
        proof {
            assert(self.color_mappings@.skip(0) =~= self.color_mappings@);
        }
        let mut i: usize = 0;
        while i < n
            invariant
                n == self.color_mappings@.len(),
                i <= n,
                spec_lookup_color(self.color_mappings@.skip(i as int), pattern@)
                    == spec_lookup_color(self.color_mappings@, pattern@),
            decreases n - i,
        {
            let ghost rest = self.color_mappings@.skip(i as int);
            proof {
                assert(rest[0] == self.color_mappings@[i as int]);
                assert(rest.drop_first() =~= self.color_mappings@.skip(i + 1));
            }
            if str_eq(self.color_mappings[i].0.as_str(), pattern) {
                return Some(self.color_mappings[i].1);
            }
            i = i + 1;
        }
        proof {
            assert(self.color_mappings@.skip(n as int) =~= Seq::<(String, Color)>::empty());
        }
        None
    }

    /// Check if a line should be excluded based on the exclude patterns.
    pub fn should_exclude(&self, line: &str) -> (r: bool)
        ensures
            r == self.spec_should_exclude(line@),
    {
        if self.exclude_patterns.len() == 0 {
            return false;
        }
        if self.exclude_regex_patterns.len() > 0 {
            let n: usize = self.exclude_regex_patterns.len();
            let mut i: usize = 0;
            while i < n
                invariant
                    self.exclude_patterns@.len() != 0,
                    n == self.exclude_regex_patterns@.len(),
                    n > 0,
                    i <= n,
                    forall|j: int|
                        0 <= j < i ==> !regex_match_of(
                            (#[trigger] self.exclude_regex_patterns@[j]).source_view(),
                            self.exclude_regex_patterns@[j].ci(),
                            line@,
                        ),
                decreases n - i,
            {
                if self.exclude_regex_patterns[i].is_match(line) {
                    proof {
                        assert(regex_match_of(
                            (self.exclude_regex_patterns@[i as int]).source_view(),
                            self.exclude_regex_patterns@[i as int].ci(),
                            line@,
                        ));
                    }
                    return true;
                }
                i = i + 1;
            }
            false
        } else if self.case_insensitive {
            let folded = lower_string(line);
            let search_line = to_chars(folded.as_str());
            let n: usize = self.exclude_patterns_lowercase.len();
            let mut i: usize = 0;
            while i < n
                invariant
                    self.exclude_patterns@.len() != 0,
                    self.exclude_regex_patterns@.len() == 0,
                    self.case_insensitive,
                    n == self.exclude_patterns_lowercase@.len(),
                    search_line@ == lower_of(line@),
                    i <= n,
                    forall|j: int|
                        0 <= j < i ==> !contains_seq(
                            lower_of(line@),
                            (#[trigger] self.exclude_patterns_lowercase@[j])@,
                        ),
                decreases n - i,
            {
                let pat = to_chars(self.exclude_patterns_lowercase[i].as_str());
                if contains_chars(&search_line, &pat) {
                    proof {
                        assert(contains_seq(
                            lower_of(line@),
                            (self.exclude_patterns_lowercase@[i as int])@,
                        ));
                    }
                    return true;
                }
                i = i + 1;
            }
            false
        } else {
            let line_chars = to_chars(line);
            let n: usize = self.exclude_patterns.len();
            let mut i: usize = 0;
            while i < n
                invariant
                    self.exclude_patterns@.len() != 0,
                    self.exclude_regex_patterns@.len() == 0,
                    !self.case_insensitive,
                    n == self.exclude_patterns@.len(),
                    line_chars@ == line@,
                    i <= n,
                    forall|j: int|
                        0 <= j < i ==> !contains_seq(
                            line@,
                            (#[trigger] self.exclude_patterns@[j])@,
                        ),
                decreases n - i,
            {
                let pat = to_chars(self.exclude_patterns[i].as_str());
                if contains_chars(&line_chars, &pat) {
                    proof {
                        assert(contains_seq(line@, (self.exclude_patterns@[i as int])@));
                    }
                    return true;
                }
                i = i + 1;
            }
            false
        }
    }
}

/// The first pattern in the list that does not compile, if any.
pub open spec fn spec_first_bad_pattern(pats: Seq<Seq<char>>, ci: bool) -> Option<Seq<char>>
    decreases pats.len(),
{
    if pats.len() == 0 {
        None
    } else if !regex_compiles(pats[0], ci) {
        Some(pats[0])
    } else {
        spec_first_bad_pattern(pats.drop_first(), ci)
    }
}

/// The first color name in the mapping list that does not parse, if
/// any.
pub open spec fn spec_first_bad_color(pairs: Seq<(Seq<char>, Seq<char>)>) -> Option<Seq<char>>
    decreases pairs.len(),
{
    if pairs.len() == 0 {
        None
    } else if spec_parse_color(pairs[0].1) is None {
        Some(pairs[0].1)
    } else {
        spec_first_bad_color(pairs.drop_first())
    }
}

/// The color a user mapping gives to `key`, later entries winning, if
/// any.
pub open spec fn spec_user_color(
    pairs: Seq<(Seq<char>, Seq<char>)>,
    key: Seq<char>,
) -> Option<Color>
    decreases pairs.len(),
{
    if pairs.len() == 0 {
        None
    } else if pairs.last().0 == key {
        spec_parse_color(pairs.last().1)
    } else {
        spec_user_color(pairs.drop_last(), key)
    }
}

/// The color of `key`: its user mapping when one exists, else the
/// built-in default.
pub open spec fn spec_color_of(
    pairs: Seq<(Seq<char>, Seq<char>)>,
    key: Seq<char>,
) -> Option<Color> {
    match spec_user_color(pairs, key) {
        Some(c) => Some(c),
        None => spec_default_color(key),
    }
}

proof fn lemma_lookup_prepend(entry: (String, Color), entries: Seq<(String, Color)>, key: Seq<char>)
    ensures
        spec_lookup_color(seq![entry] + entries, key) == if entry.0@ == key {
            Some(entry.1)
        } else {
            spec_lookup_color(entries, key)
        },
{
    let s = seq![entry] + entries;
    assert(s[0] == entry);
    assert(s.drop_first() =~= entries);
}

proof fn lemma_lookup_append(a: Seq<(String, Color)>, b: Seq<(String, Color)>, key: Seq<char>)
    ensures
        spec_lookup_color(a + b, key) == match spec_lookup_color(a, key) {
            Some(c) => Some(c),
            None => spec_lookup_color(b, key),
        },
    decreases a.len(),
{
    if a.len() == 0 {
        assert(a + b =~= b);
    } else {
        assert((a + b)[0] == a[0]);
        assert((a + b).drop_first() =~= a.drop_first() + b);
        lemma_lookup_append(a.drop_first(), b, key);
    }
}

proof fn lemma_default_lookup(d: Seq<(String, Color)>, key: Seq<char>)
    requires
        d.len() == 8,
        d[0].0@ == "ERROR"@ && d[0].1 == Color::Red,
        d[1].0@ == "WARN"@ && d[1].1 == Color::Yellow,
        d[2].0@ == "WARNING"@ && d[2].1 == Color::Yellow,
        d[3].0@ == "INFO"@ && d[3].1 == Color::Green,
        d[4].0@ == "DEBUG"@ && d[4].1 == Color::Cyan,
        d[5].0@ == "TRACE"@ && d[5].1 == Color::Magenta,
        d[6].0@ == "FATAL"@ && d[6].1 == Color::Red,
        d[7].0@ == "CRITICAL"@ && d[7].1 == Color::Red,
    ensures
        spec_lookup_color(d, key) == spec_default_color(key),
{
    let d1 = d.drop_first();
    let d2 = d1.drop_first();
    let d3 = d2.drop_first();
    let d4 = d3.drop_first();
    let d5 = d4.drop_first();
    let d6 = d5.drop_first();
    let d7 = d6.drop_first();
    let d8 = d7.drop_first();
    assert(d8.len() == 0);
    assert(spec_lookup_color(d8, key) is None);
    assert(d7[0] == d[7]);
    assert(d6[0] == d[6]);
    assert(d5[0] == d[5]);
    assert(d4[0] == d[4]);
    assert(d3[0] == d[3]);
    assert(d2[0] == d[2]);
    assert(d1[0] == d[1]);
    assert(spec_lookup_color(d7, key) == if d[7].0@ == key {
        Some(d[7].1)
    } else {
        spec_lookup_color(d8, key)
    });
    assert(spec_lookup_color(d6, key) == if d[6].0@ == key {
        Some(d[6].1)
    } else {
        spec_lookup_color(d7, key)
    });
    assert(spec_lookup_color(d5, key) == if d[5].0@ == key {
        Some(d[5].1)
    } else {
        spec_lookup_color(d6, key)
    });
    assert(spec_lookup_color(d4, key) == if d[4].0@ == key {
        Some(d[4].1)
    } else {
        spec_lookup_color(d5, key)
    });
    assert(spec_lookup_color(d3, key) == if d[3].0@ == key {
        Some(d[3].1)
    } else {
        spec_lookup_color(d4, key)
    });
    assert(spec_lookup_color(d2, key) == if d[2].0@ == key {
        Some(d[2].1)
    } else {
        spec_lookup_color(d3, key)
    });
    assert(spec_lookup_color(d1, key) == if d[1].0@ == key {
        Some(d[1].1)
    } else {
        spec_lookup_color(d2, key)
    });
    assert(spec_lookup_color(d, key) == if d[0].0@ == key {
        Some(d[0].1)
    } else {
        spec_lookup_color(d1, key)
    });
}

impl Config {
    /// Parse one color name from the fixed vocabulary.
    pub fn parse_color(color_name: &str) -> (r: Result<Color, ConfigError>)
        ensures
            r is Ok <==> spec_parse_color(color_name@) is Some,
            r matches Ok(c) ==> Some(c) == spec_parse_color(color_name@),
            r matches Err(e) ==> e matches ConfigError::UnknownColor { name } && name@
                == color_name@,
    {
        match parse_color_name(color_name) {
            Some(c) => Ok(c),
            None => Err(ConfigError::UnknownColor { name: String::from_str(color_name) }),
        }
    }

    /// Compile each pattern of a list, stopping at the first failure.
    pub fn compile_regex_patterns(patterns: &Vec<String>, case_insensitive: bool) -> (r: Result<
        Vec<CompiledPattern>,
        ConfigError,
    >)
        ensures
            r is Ok <==> spec_first_bad_pattern(patterns.deep_view(), case_insensitive) is None,
            r matches Err(e) ==> e matches ConfigError::InvalidRegex { pattern } && Some(pattern@)
                == spec_first_bad_pattern(patterns.deep_view(), case_insensitive),
            r matches Ok(v) ==> v@.len() == patterns@.len() && forall|i: int|
                0 <= i < v@.len() ==> (#[trigger] v@[i]).source_view() == patterns.deep_view()[i]
                    && v@[i].ci() == case_insensitive,
    {
        let ghost pats = patterns.deep_view();
        let mut compiled: Vec<CompiledPattern> = Vec::new();
        let mut i: usize = 0;
        proof {
            assert(pats.skip(0) =~= pats);
        }
        while i < patterns.len()
            invariant
                pats == patterns.deep_view(),
                patterns@.len() == pats.len(),
                i <= pats.len(),
                spec_first_bad_pattern(pats.skip(i as int), case_insensitive)
                    == spec_first_bad_pattern(pats, case_insensitive),
                compiled@.len() == i,
                forall|j: int|
                    0 <= j < i ==> (#[trigger] compiled@[j]).source_view() == pats[j]
                        && compiled@[j].ci() == case_insensitive,
            decreases pats.len() - i,
        {
            let ghost rest = pats.skip(i as int);
            proof {
                assert(rest[0] == pats[i as int]);
                assert(rest.drop_first() =~= pats.skip(i as int + 1));
                assert(patterns@[i as int]@ == pats[i as int]);
            }
            match CompiledPattern::compile(patterns[i].as_str(), case_insensitive) {
                Ok(cp) => {
                    compiled.push(cp);
                },
                Err(_) => {
                    return Err(ConfigError::InvalidRegex { pattern: patterns[i].clone() });
                },
            }
            i = i + 1;
        }
        proof {
            assert(pats.skip(pats.len() as int) =~= Seq::<Seq<char>>::empty());
        }
        Ok(compiled)
    }

    /// Build the color table: user mappings, later bindings winning,
    /// over the built-in defaults.
    pub fn parse_color_mappings(mappings: &Vec<(String, String)>) -> (r: Result<
        Vec<(String, Color)>,
        ConfigError,
    >)
        ensures
            r is Ok <==> spec_first_bad_color(mappings.deep_view()) is None,
            r matches Err(e) ==> e matches ConfigError::UnknownColor { name } && Some(name@)
                == spec_first_bad_color(mappings.deep_view()),
            r matches Ok(m) ==> forall|key: Seq<char>|
                #[trigger] spec_lookup_color(m@, key) == spec_color_of(
                    mappings.deep_view(),
                    key,
                ),
    {
        let ghost pairs = mappings.deep_view();
        let mut user: Vec<(String, Color)> = Vec::new();
        let mut i: usize = 0;
        proof {
            assert(pairs.skip(0) =~= pairs);
            assert(pairs.take(0) =~= Seq::<(Seq<char>, Seq<char>)>::empty());
        }
        while i < mappings.len()
            invariant
                pairs == mappings.deep_view(),
                mappings@.len() == pairs.len(),
                i <= pairs.len(),
                spec_first_bad_color(pairs.skip(i as int)) == spec_first_bad_color(pairs),
                forall|key: Seq<char>|
                    #[trigger] spec_lookup_color(user@, key) == spec_user_color(
                        pairs.take(i as int),
                        key,
                    ),
            decreases pairs.len() - i,
        {
            let ghost rest = pairs.skip(i as int);
            proof {
                assert(rest[0] == pairs[i as int]);
                assert(rest.drop_first() =~= pairs.skip(i as int + 1));
                assert(mappings@[i as int].0@ == pairs[i as int].0);
                assert(mappings@[i as int].1@ == pairs[i as int].1);
            }
            match Self::parse_color(mappings[i].1.as_str()) {
                Ok(color) => {
                    let entry = (mappings[i].0.clone(), color);
                    let ghost gentry = entry;
                    let ghost old_user = user@;
                    user.insert(0, entry);
                    proof {
                        assert(user@ =~= seq![gentry] + old_user);
                        let take1 = pairs.take(i as int + 1);
                        assert(take1.last() == pairs[i as int]);
                        assert(take1.drop_last() =~= pairs.take(i as int));
                        assert forall|key: Seq<char>|
                            #[trigger] spec_lookup_color(user@, key) == spec_user_color(
                                take1,
                                key,
                            ) by {
                            lemma_lookup_prepend(gentry, old_user, key);
                        }
                    }
                },
                Err(e) => {
                    return Err(e);
                },
            }
            i = i + 1;
        }
        proof {
            assert(pairs.skip(pairs.len() as int) =~= Seq::<(Seq<char>, Seq<char>)>::empty());
            assert(pairs.take(pairs.len() as int) =~= pairs);
        }
        let ghost user_final = user@;
        let mut defaults: Vec<(String, Color)> = Vec::new();
        defaults.push((String::from_str("ERROR"), Color::Red));
        defaults.push((String::from_str("WARN"), Color::Yellow));
        defaults.push((String::from_str("WARNING"), Color::Yellow));
        defaults.push((String::from_str("INFO"), Color::Green));
        defaults.push((String::from_str("DEBUG"), Color::Cyan));
        defaults.push((String::from_str("TRACE"), Color::Magenta));
        defaults.push((String::from_str("FATAL"), Color::Red));
        defaults.push((String::from_str("CRITICAL"), Color::Red));
        let ghost dv = defaults@;
        let mut result = user;
        result.append(&mut defaults);
        proof {
            assert forall|key: Seq<char>|
                #[trigger] spec_lookup_color(result@, key) == spec_color_of(pairs, key) by {
                lemma_lookup_append(user_final, dv, key);
                lemma_default_lookup(dv, key);
            }
        }
        Ok(result)
    }

    /// The raw flag values are acceptable: in regex mode every pattern
    /// and every exclusion compiles, and every color name parses.
    pub open spec fn spec_args_ok(args: &Args) -> bool {
        &&& args.regex ==> spec_first_bad_pattern(args.spec_patterns(), args.case_insensitive)
            is None && spec_first_bad_pattern(args.spec_exclude_patterns(), args.case_insensitive)
            is None
        &&& spec_first_bad_color(args.spec_color_mappings()) is None
    }

    /// Every field of the rule set is the normalization of the
    /// corresponding raw flag value.
    pub open spec fn matches_args(&self, args: &Args) -> bool {
        &&& self.files.deep_view() == args.files.deep_view()
        &&& self.patterns.deep_view() == args.spec_patterns()
        &&& self.regex_patterns@.len() == (if args.regex {
            args.spec_patterns().len()
        } else {
            0
        })
        &&& self.exclude_patterns.deep_view() == args.spec_exclude_patterns()
        &&& self.exclude_regex_patterns@.len() == (if args.regex
            && args.spec_exclude_patterns().len() > 0 {
            args.spec_exclude_patterns().len()
        } else {
            0
        })
        &&& self.case_insensitive == args.case_insensitive
        &&& forall|key: Seq<char>|
            #[trigger] spec_lookup_color(self.color_mappings@, key) == spec_color_of(
                args.spec_color_mappings(),
                key,
            )
        &&& self.notify_enabled == args.notify
        &&& self.notify_patterns.deep_view() == args.spec_notify_patterns()
        &&& self.notify_throttle == args.notify_throttle
        &&& self.dry_run == args.dry_run
        &&& self.quiet == args.quiet
        &&& self.no_color == args.no_color
        &&& self.prefix_files == args.spec_should_prefix_files()
        &&& self.poll_interval == args.poll_interval
        &&& self.buffer_size == args.buffer_size
    }

    /// Build the rule set from raw flag values, or report the first
    /// offending pattern or color name.
    pub fn from_args(args: &Args) -> (r: Result<Config, ConfigError>)
        ensures
            r is Ok <==> Self::spec_args_ok(args),
            r matches Ok(c) ==> c.wf() && c.matches_args(args),
            args.regex && spec_first_bad_pattern(args.spec_patterns(), args.case_insensitive)
                is Some ==> (r matches Err(ConfigError::InvalidRegex { pattern }) && Some(pattern@)
                == spec_first_bad_pattern(args.spec_patterns(), args.case_insensitive)),
            args.regex && spec_first_bad_pattern(args.spec_patterns(), args.case_insensitive)
                is None && spec_first_bad_pattern(
                args.spec_exclude_patterns(),
                args.case_insensitive,
            ) is Some ==> (r matches Err(ConfigError::InvalidRegex { pattern }) && Some(pattern@)
                == spec_first_bad_pattern(args.spec_exclude_patterns(), args.case_insensitive)),
            (args.regex ==> spec_first_bad_pattern(args.spec_patterns(), args.case_insensitive)
                is None && spec_first_bad_pattern(
                args.spec_exclude_patterns(),
                args.case_insensitive,
            ) is None) && spec_first_bad_color(args.spec_color_mappings()) is Some ==> (r matches Err(
                ConfigError::UnknownColor { name },
            ) && Some(name@) == spec_first_bad_color(args.spec_color_mappings())),
    {
        let patterns = args.patterns();
        let notify_patterns = args.notify_patterns();
        let exclude_patterns = args.exclude_patterns();

        let regex_patterns: Vec<CompiledPattern>;
        if args.regex {
            match Self::compile_regex_patterns(&patterns, args.case_insensitive) {
                Ok(v) => {
                    regex_patterns = v;
                },
                Err(e) => {
                    return Err(e);
                },
            }
        } else {
            regex_patterns = Vec::new();
        }

        let exclude_regex_patterns: Vec<CompiledPattern>;
        if args.regex && exclude_patterns.len() > 0 {
            match Self::compile_regex_patterns(&exclude_patterns, args.case_insensitive) {
                Ok(v) => {
                    exclude_regex_patterns = v;
                },
                Err(e) => {
                    return Err(e);
                },
            }
        } else {
            exclude_regex_patterns = Vec::new();
            proof {
                if args.regex && args.spec_exclude_patterns().len() == 0 {
                    assert(args.spec_exclude_patterns() =~= Seq::<Seq<char>>::empty());
                }
            }
        }

        let exclude_patterns_lowercase: Vec<String>;
        if args.case_insensitive {
            let mut lowered: Vec<String> = Vec::new();
            let mut i: usize = 0;
            while i < exclude_patterns.len()
                invariant
                    i <= exclude_patterns@.len(),
                    lowered@.len() == i,
                    forall|j: int|
                        0 <= j < i ==> (#[trigger] lowered@[j])@ == lower_of(
                            exclude_patterns@[j]@,
                        ),
                decreases exclude_patterns@.len() - i,
            {
                lowered.push(lower_string(exclude_patterns[i].as_str()));
                i = i + 1;
            }
            exclude_patterns_lowercase = lowered;
        } else {
            exclude_patterns_lowercase = Vec::new();
        }

        let color_pairs = args.color_mappings();
        let color_mappings: Vec<(String, Color)>;
        match Self::parse_color_mappings(&color_pairs) {
            Ok(m) => {
                color_mappings = m;
            },
            Err(e) => {
                return Err(e);
            },
        }

        Ok(
            Config {
                files: crate::text::clone_strings(&args.files),
                patterns,
                regex_patterns,
                exclude_patterns,
                exclude_patterns_lowercase,
                exclude_regex_patterns,
                case_insensitive: args.case_insensitive,
                color_mappings,
                notify_enabled: args.notify,
                notify_patterns,
                notify_throttle: args.notify_throttle,
                dry_run: args.dry_run,
                quiet: args.quiet,
                no_color: args.no_color,
                prefix_files: args.should_prefix_files(),
                poll_interval: args.poll_interval,
                buffer_size: args.buffer_size,
            },
        )
    }
}

/// Exclusion is evaluated independently of inclusion: two rule sets
/// that agree on their exclusion rules and case flag exclude exactly
/// the same lines, whatever their match patterns — so a line matching
/// both an include and an exclude pattern is excluded.
pub proof fn lemma_exclusion_independent_of_patterns(a: &Config, b: &Config, line: Seq<char>)
    requires
        a.exclude_patterns.deep_view() == b.exclude_patterns.deep_view(),
        a.exclude_patterns_lowercase.deep_view() == b.exclude_patterns_lowercase.deep_view(),
        a.exclude_regex_patterns@.len() == b.exclude_regex_patterns@.len(),
        forall|i: int|
            0 <= i < a.exclude_regex_patterns@.len() ==> (
            #[trigger] a.exclude_regex_patterns@[i]).source_view()
                == b.exclude_regex_patterns@[i].source_view() && a.exclude_regex_patterns@[i].ci()
                == b.exclude_regex_patterns@[i].ci(),
        a.case_insensitive == b.case_insensitive,
    ensures
        a.spec_should_exclude(line) == b.spec_should_exclude(line),
{
    assert(a.exclude_patterns.deep_view().len() == a.exclude_patterns@.len());
    assert(b.exclude_patterns.deep_view().len() == b.exclude_patterns@.len());
    assert(a.exclude_patterns@.len() == b.exclude_patterns@.len());
    assert forall|i: int| 0 <= i < a.exclude_patterns@.len() implies (
    #[trigger] a.exclude_patterns@[i])@ == (b.exclude_patterns@[i])@ by {
        assert(a.exclude_patterns.deep_view()[i] == (a.exclude_patterns@[i])@);
        assert(b.exclude_patterns.deep_view()[i] == (b.exclude_patterns@[i])@);
    }
    assert(a.exclude_patterns_lowercase.deep_view().len() == a.exclude_patterns_lowercase@.len());
    assert(b.exclude_patterns_lowercase.deep_view().len() == b.exclude_patterns_lowercase@.len());
    assert(a.exclude_patterns_lowercase@.len() == b.exclude_patterns_lowercase@.len());
    assert forall|i: int| 0 <= i < a.exclude_patterns_lowercase@.len() implies (
    #[trigger] a.exclude_patterns_lowercase@[i])@ == (b.exclude_patterns_lowercase@[i])@ by {
        assert(a.exclude_patterns_lowercase.deep_view()[i] == (a.exclude_patterns_lowercase@[i])@);
        assert(b.exclude_patterns_lowercase.deep_view()[i] == (b.exclude_patterns_lowercase@[i])@);
    }
    if a.spec_should_exclude(line) {
        assert(b.spec_should_exclude(line));
    }
    if b.spec_should_exclude(line) {
        if b.exclude_regex_patterns@.len() > 0 {
            let i = choose|i: int|
                0 <= i < b.exclude_regex_patterns@.len() && regex_match_of(
                    (#[trigger] b.exclude_regex_patterns@[i]).source_view(),
                    b.exclude_regex_patterns@[i].ci(),
                    line,
                );
            assert(regex_match_of(
                (a.exclude_regex_patterns@[i]).source_view(),
                a.exclude_regex_patterns@[i].ci(),
                line,
            ));
        } else if b.case_insensitive {
            let i = choose|i: int|
                0 <= i < b.exclude_patterns_lowercase@.len() && contains_seq(
                    lower_of(line),
                    (#[trigger] b.exclude_patterns_lowercase@[i])@,
                );
            assert((a.exclude_patterns_lowercase@[i])@ == (b.exclude_patterns_lowercase@[i])@);
            assert(contains_seq(lower_of(line), (a.exclude_patterns_lowercase@[i])@));
        } else {
            let i = choose|i: int|
                0 <= i < b.exclude_patterns@.len() && contains_seq(
                    line,
                    (#[trigger] b.exclude_patterns@[i])@,
                );
            assert((a.exclude_patterns@[i])@ == (b.exclude_patterns@[i])@);
            assert(contains_seq(line, (a.exclude_patterns@[i])@));
        }
        assert(a.spec_should_exclude(line));
    }
}

} // verus!
