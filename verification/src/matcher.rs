//! The stateless classifier: given a line and the rule set, which
//! pattern (if any) matches first, what color it carries, and whether
//! it should raise a notification.

use vstd::prelude::*;

use crate::color::Color;
use crate::config::Config;
use crate::config::spec_lookup_color;
use crate::pattern::regex_match_of;
use crate::text::contains_chars;
use crate::text::contains_seq;
use crate::text::lower_of;
use crate::text::lower_string;
use crate::text::to_chars;

verus! {

/// Whether `p` occurs in `line` as a literal substring under the case
/// flag.
pub open spec fn spec_literal_matches(line: Seq<char>, p: Seq<char>, ci: bool) -> bool {
    if ci {
        contains_seq(lower_of(line), lower_of(p))
    } else {
        contains_seq(line, p)
    }
}

/// The outcome of classifying one line.
#[derive(Debug, Clone, PartialEq, Eq)]
pub struct MatchResult {
    /// Some pattern matched the line.
    pub matched: bool,
    /// The first matching pattern, in declaration order.
    pub pattern: Option<String>,
    /// The color mapped to that pattern, if any.
    pub color: Option<Color>,
    /// Whether that pattern should raise a notification.
    pub should_notify: bool,
}

/// The classifier: a rule set applied line by line.
#[derive(Debug)]
pub struct Matcher {
    /// The rule set matched against.
    pub config: Config,
}

impl Matcher {
    /// The classifier is usable: its rule set is well formed.
    pub open spec fn wf(&self) -> bool {
        self.config.wf()
    }

    /// Regex mode is in force exactly when compiled patterns exist.
    pub open spec fn spec_regex_mode(&self) -> bool {
        self.config.regex_patterns@.len() > 0
    }

    /// Whether the pattern at position `i` matches the line, in the
    /// mode in force.
    pub open spec fn spec_pattern_matches(&self, i: int, line: Seq<char>) -> bool {
        if self.spec_regex_mode() {
            regex_match_of((self.config.patterns@[i])@, self.config.case_insensitive, line)
        } else {
            spec_literal_matches(line, (self.config.patterns@[i])@, self.config.case_insensitive)
        }
    }

    /// The first matching pattern position at or after `i`, if any.
    pub open spec fn spec_first_match_from(&self, line: Seq<char>, i: int) -> Option<int>
        decreases self.config.patterns@.len() - i,
        when 0 <= i <= self.config.patterns@.len()
    {
        if i >= self.config.patterns@.len() {
            None
        } else if self.spec_pattern_matches(i, line) {
            Some(i)
        } else {
            self.spec_first_match_from(line, i + 1)
        }
    }

    /// The first matching pattern position, if any.
    pub open spec fn spec_first_match(&self, line: Seq<char>) -> Option<int> {
        self.spec_first_match_from(line, 0)
    }

    /// What a correct classification of `line` looks like.
    pub open spec fn spec_match_result_ok(&self, line: Seq<char>, r: MatchResult) -> bool {
        &&& r.matched <==> self.spec_first_match(line) is Some
        &&& match self.spec_first_match(line) {
            Some(i) => {
                &&& r.pattern matches Some(p) && p@ == (self.config.patterns@[i])@
                &&& r.color == spec_lookup_color(
                    self.config.color_mappings@,
                    (self.config.patterns@[i])@,
                )
                &&& r.should_notify == self.config.spec_should_notify(
                    (self.config.patterns@[i])@,
                )
            },
            None => {
                &&& r.pattern is None
                &&& r.color is None
                &&& r.should_notify == false
            },
        }
    }

    /// Wrap a rule set for classification.
    pub fn new(config: Config) -> (m: Matcher)
        ensures
            m.config == config,
    {
        Matcher { config }
    }

    /// Classify one line against the rule set.
    pub fn match_line(&self, line: &str) -> (r: MatchResult)
        requires
            self.wf(),
        ensures
            self.spec_match_result_ok(line@, r),
    {
        if self.config.regex_patterns.len() == 0 {
            self.match_literal(line)
        } else {
            self.match_regex(line)
        }
    }

    fn match_literal(&self, line: &str) -> (r: MatchResult)
        requires
            self.wf(),
            self.config.regex_patterns@.len() == 0,
        ensures
            self.spec_match_result_ok(line@, r),
    {
        let search_line: Vec<char> = if self.config.case_insensitive {
            let folded = lower_string(line);
            to_chars(folded.as_str())
        } else {
            to_chars(line)
        };
        let n: usize = self.config.patterns.len();
        let mut i: usize = 0;
        while i < n
            invariant
                self.wf(),
                self.config.regex_patterns@.len() == 0,
                n == self.config.patterns@.len(),
                i <= n,
                search_line@ == if self.config.case_insensitive {
                    lower_of(line@)
                } else {
                    line@
                },
                self.spec_first_match_from(line@, i as int) == self.spec_first_match(line@),
            decreases n - i,
        {
            let search_pat: Vec<char> = if self.config.case_insensitive {
                let folded = lower_string(self.config.patterns[i].as_str());
                to_chars(folded.as_str())
            } else {
                to_chars(self.config.patterns[i].as_str())
            };
            if contains_chars(&search_line, &search_pat) {
                proof {
                    assert(self.spec_pattern_matches(i as int, line@));
                    assert(self.spec_first_match(line@) == Some(i as int));
                }
                let pattern_text = self.config.patterns[i].as_str();
                let color = self.config.get_color_for_pattern(pattern_text);
                let should_notify = self.config.should_notify_for_pattern(pattern_text);
                return MatchResult {
                    matched: true,
                    pattern: Some(self.config.patterns[i].clone()),
                    color,
                    should_notify,
                };
            }
            proof {
                assert(!self.spec_pattern_matches(i as int, line@));
            }
            i = i + 1;
        }
        MatchResult { matched: false, pattern: None, color: None, should_notify: false }
    }

    fn match_regex(&self, line: &str) -> (r: MatchResult)
        requires
            self.wf(),
            self.config.regex_patterns@.len() > 0,
        ensures
            self.spec_match_result_ok(line@, r),
    {
        let n: usize = self.config.regex_patterns.len();
        let mut i: usize = 0;
        while i < n
            invariant
                self.wf(),
                self.config.regex_patterns@.len() > 0,
                n == self.config.regex_patterns@.len(),
                n == self.config.patterns@.len(),
                i <= n,
                self.spec_first_match_from(line@, i as int) == self.spec_first_match(line@),
            decreases n - i,
        {
            if self.config.regex_patterns[i].is_match(line) {
                proof {
                    assert(self.spec_pattern_matches(i as int, line@));
                    assert(self.spec_first_match(line@) == Some(i as int));
                }
                let pattern_text = self.config.patterns[i].as_str();
                let color = self.config.get_color_for_pattern(pattern_text);
                let should_notify = self.config.should_notify_for_pattern(pattern_text);
                return MatchResult {
                    matched: true,
                    pattern: Some(self.config.patterns[i].clone()),
                    color,
                    should_notify,
                };
            }
            proof {
                assert(!self.spec_pattern_matches(i as int, line@));
            }
            i = i + 1;
        }
        MatchResult { matched: false, pattern: None, color: None, should_notify: false }
    }

    /// Check if any pattern matches, as quiet-mode filtering asks.
    pub fn has_match(&self, line: &str) -> (r: bool)
        requires
            self.wf(),
        ensures
            r == (self.spec_first_match(line@) is Some),
    {
        self.match_line(line).matched
    }

    /// Every pattern that matches the line, in declaration order.
    pub open spec fn spec_all_matches(&self, line: Seq<char>) -> Seq<Seq<char>> {
        Seq::new(self.config.patterns@.len(), |i: int| (self.config.patterns@[i])@).filter(
            |p: Seq<char>|
                if self.spec_regex_mode() {
                    regex_match_of(p, self.config.case_insensitive, line)
                } else {
                    spec_literal_matches(line, p, self.config.case_insensitive)
                },
        )
    }

    /// Get all patterns that match a line.
    pub fn get_all_matches(&self, line: &str) -> (r: Vec<String>)
        requires
            self.wf(),
        ensures
            r.deep_view() == self.spec_all_matches(line@),
    {
        broadcast use vstd::prelude::Seq::lemma_filter_push;

        let ghost texts = Seq::new(
            self.config.patterns@.len(),
            |i: int| (self.config.patterns@[i])@,
        );
        let ghost match_fn = |p: Seq<char>|
            if self.spec_regex_mode() {
                regex_match_of(p, self.config.case_insensitive, line@)
            } else {
                spec_literal_matches(line@, p, self.config.case_insensitive)
            };
        let regex_mode: bool = self.config.regex_patterns.len() > 0;
        let search_line: Vec<char> = if !regex_mode && self.config.case_insensitive {
            let folded = lower_string(line);
            to_chars(folded.as_str())
        } else {
            to_chars(line)
        };
        let mut matches: Vec<String> = Vec::new();
        let n: usize = self.config.patterns.len();
        let mut i: usize = 0;
        proof {
            assert(texts.take(0) =~= Seq::<Seq<char>>::empty());
        }
        while i < n
            invariant
                self.wf(),
                n == self.config.patterns@.len(),
                i <= n,
                regex_mode == self.spec_regex_mode(),
                regex_mode ==> self.config.regex_patterns@.len() == n,
                texts == Seq::new(
                    self.config.patterns@.len(),
                    |j: int| (self.config.patterns@[j])@,
                ),
                match_fn == (|p: Seq<char>|
                    if self.spec_regex_mode() {
                        regex_match_of(p, self.config.case_insensitive, line@)
                    } else {
                        spec_literal_matches(line@, p, self.config.case_insensitive)
                    }),
                search_line@ == if !regex_mode && self.config.case_insensitive {
                    lower_of(line@)
                } else {
                    line@
                },
                matches.deep_view() == texts.take(i as int).filter(match_fn),
            decreases n - i,
        {
            proof {
                texts.take(i as int).lemma_filter_push(texts[i as int], match_fn);
                assert(texts.take(i + 1 as int) =~= texts.take(i as int).push(texts[i as int]));
            }
            let hit: bool;
            if regex_mode {
                hit = self.config.regex_patterns[i].is_match(line);
            } else {
                let search_pat: Vec<char> = if self.config.case_insensitive {
                    let folded = lower_string(self.config.patterns[i].as_str());
                    to_chars(folded.as_str())
                } else {
                    to_chars(self.config.patterns[i].as_str())
                };
                hit = contains_chars(&search_line, &search_pat);
            }
            proof {
                assert(hit == match_fn(texts[i as int]));
            }
            if hit {
                let ghost old_matches = matches.deep_view();
                matches.push(self.config.patterns[i].clone());
                proof {
                    assert(matches.deep_view() =~= old_matches.push(texts[i as int]));
                }
            }
            i = i + 1;
        }
        proof {
            assert(texts.take(n as int) =~= texts);
        }
        matches
    }
}

proof fn lemma_first_match_from_properties(m: &Matcher, line: Seq<char>, i: int)
    requires
        0 <= i <= m.config.patterns@.len(),
    ensures
        match m.spec_first_match_from(line, i) {
            Some(k) => i <= k < m.config.patterns@.len() && m.spec_pattern_matches(k, line)
                && forall|j: int| i <= j < k ==> !m.spec_pattern_matches(j, line),
            None => forall|j: int|
                i <= j < m.config.patterns@.len() ==> !m.spec_pattern_matches(j, line),
        },
    decreases m.config.patterns@.len() - i,
{
    if i < m.config.patterns@.len() && !m.spec_pattern_matches(i, line) {
        lemma_first_match_from_properties(m, line, i + 1);
    }
}

/// The first matching position is a genuine first: it matches, and no
/// earlier pattern does; when it is absent, no pattern matches at all.
pub proof fn lemma_first_match_properties(m: &Matcher, line: Seq<char>)
    ensures
        match m.spec_first_match(line) {
            Some(k) => 0 <= k < m.config.patterns@.len() && m.spec_pattern_matches(k, line)
                && forall|j: int| 0 <= j < k ==> !m.spec_pattern_matches(j, line),
            None => forall|j: int|
                0 <= j < m.config.patterns@.len() ==> !m.spec_pattern_matches(j, line),
        },
{
    lemma_first_match_from_properties(m, line, 0);
}

/// For a literal rule set, a line containing the text of some declared
/// pattern (case-folded as configured) classifies as matched, and the
/// reported pattern is the first declared pattern occurring in the
/// line.
pub proof fn lemma_literal_first_pattern_wins(
    m: &Matcher,
    line: Seq<char>,
    r: MatchResult,
    i: int,
)
    requires
        m.wf(),
        m.config.regex_patterns@.len() == 0,
        m.spec_match_result_ok(line, r),
        0 <= i < m.config.patterns@.len(),
        spec_literal_matches(line, (m.config.patterns@[i])@, m.config.case_insensitive),
    ensures
        r.matched,
        m.spec_first_match(line) matches Some(k) && k <= i && spec_literal_matches(
            line,
            (m.config.patterns@[k])@,
            m.config.case_insensitive,
        ) && (forall|j: int|
            0 <= j < k ==> !spec_literal_matches(
                line,
                (#[trigger] m.config.patterns@[j])@,
                m.config.case_insensitive,
            )) && (r.pattern matches Some(p) && p@ == (m.config.patterns@[k])@),
{
    lemma_first_match_properties(m, line);
    assert(m.spec_pattern_matches(i, line));
    if m.spec_first_match(line) is None {
        assert(!m.spec_pattern_matches(i, line));
    }
    let k = m.spec_first_match(line)->Some_0;
    if k > i {
        assert(!m.spec_pattern_matches(i, line));
    }
    assert forall|j: int| 0 <= j < k implies !spec_literal_matches(
        line,
        (#[trigger] m.config.patterns@[j])@,
        m.config.case_insensitive,
    ) by {
        assert(!m.spec_pattern_matches(j, line));
    }
}

/// For a regex rule set, classification is equivalent to evaluating
/// each pattern's compiled form in declared order and reporting the
/// first that matches; when none does, the line is unmatched.
pub proof fn lemma_regex_first_pattern_wins(m: &Matcher, line: Seq<char>, r: MatchResult)
    requires
        m.wf(),
        m.spec_regex_mode(),
        m.spec_match_result_ok(line, r),
    ensures
        r.matched <==> exists|i: int|
            0 <= i < m.config.patterns@.len() && regex_match_of(
                (#[trigger] m.config.patterns@[i])@,
                m.config.case_insensitive,
                line,
            ),
        m.spec_first_match(line) matches Some(k) ==> 0 <= k < m.config.patterns@.len()
            && regex_match_of((m.config.patterns@[k])@, m.config.case_insensitive, line) && (
        forall|j: int|
            0 <= j < k ==> !regex_match_of(
                (#[trigger] m.config.patterns@[j])@,
                m.config.case_insensitive,
                line,
            )) && (r.pattern matches Some(p) && p@ == (m.config.patterns@[k])@),
{
    lemma_first_match_properties(m, line);
    if exists|i: int|
        0 <= i < m.config.patterns@.len() && regex_match_of(
            (#[trigger] m.config.patterns@[i])@,
            m.config.case_insensitive,
            line,
        ) {
        let i = choose|i: int|
            0 <= i < m.config.patterns@.len() && regex_match_of(
                (#[trigger] m.config.patterns@[i])@,
                m.config.case_insensitive,
                line,
            );
        assert(m.spec_pattern_matches(i, line));
        if m.spec_first_match(line) is None {
            assert(!m.spec_pattern_matches(i, line));
        }
    }
    if m.spec_first_match(line) is Some {
        let k = m.spec_first_match(line)->Some_0;
        assert(m.spec_pattern_matches(k, line));
        assert forall|j: int| 0 <= j < k implies !regex_match_of(
            (#[trigger] m.config.patterns@[j])@,
            m.config.case_insensitive,
            line,
        ) by {
            assert(!m.spec_pattern_matches(j, line));
        }
    }
}

/// Classification is a pure function of the rule set and the line: any
/// two correct classifications of the same line agree, so re-running
/// the classifier always returns an identical result.
pub proof fn lemma_classify_deterministic(
    m: &Matcher,
    line: Seq<char>,
    r1: MatchResult,
    r2: MatchResult,
)
    requires
        m.spec_match_result_ok(line, r1),
        m.spec_match_result_ok(line, r2),
    ensures
        r1.matched == r2.matched,
        r1.pattern is Some <==> r2.pattern is Some,
        r1.pattern matches Some(p1) ==> r2.pattern matches Some(p2) && p1@ == p2@,
        r1.color == r2.color,
        r1.should_notify == r2.should_notify,
{
}

} // verus!
