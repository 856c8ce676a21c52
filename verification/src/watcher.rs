//! The per-line engine behind both tailing and dry runs: statistics,
//! and what the consumer must do with each incoming line — print it,
//! notify on it, or drop it.  The polling loops, timers and channels
//! that feed it live outside the library.

use vstd::prelude::*;

use crate::config::Config;
use crate::highlighter::format_output_line;
use crate::highlighter::spec_output_line;
use crate::matcher::MatchResult;
use crate::matcher::Matcher;
use crate::notifier::Notification;
use crate::notifier::Notifier;

verus! {

/// Counters accumulated over one run.
#[derive(Debug, Clone, Copy, PartialEq, Eq, Structural)]
pub struct WatcherStats {
    /// Files being watched.
    pub files_watched: usize,
    /// Lines handed to the engine.
    pub lines_processed: usize,
    /// Lines some pattern matched.
    pub matches_found: usize,
    /// Notifications actually handed over for dispatch; throttled or
    /// ineligible attempts are not counted.
    pub notifications_sent: usize,
}

impl Default for WatcherStats {
    /// All counters start at zero.
    fn default() -> (r: WatcherStats)
        ensures
            r.files_watched == 0,
            r.lines_processed == 0,
            r.matches_found == 0,
            r.notifications_sent == 0,
    {
        WatcherStats { files_watched: 0, lines_processed: 0, matches_found: 0, notifications_sent: 0 }
    }
}

/// Everything the consumer must do with one incoming line.
#[derive(Debug)]
pub struct LineOutcome {
    /// The line was dropped by an exclusion rule; nothing else applies.
    pub excluded: bool,
    /// The classification, when the line was not excluded.
    pub result: Option<MatchResult>,
    /// The line as it should be printed, when printing is due.
    pub output: Option<String>,
    /// A notification to dispatch, when one is due.
    pub notification: Option<Notification>,
}

proof fn lemma_eligible_iff_should_notify(n: &Notifier, c: &Config, p: Seq<char>)
    requires
        n.notify_enabled == c.notify_enabled,
        n.notify_patterns.deep_view() == c.notify_patterns.deep_view(),
    ensures
        n.spec_eligible(p) == c.spec_should_notify(p),
{
    assert(n.notify_patterns.deep_view().len() == n.notify_patterns@.len());
    assert(c.notify_patterns.deep_view().len() == c.notify_patterns@.len());
    if n.spec_eligible(p) {
        let i = choose|i: int|
            0 <= i < n.notify_patterns@.len() && (#[trigger] n.notify_patterns@[i])@ == p;
        assert(n.notify_patterns.deep_view()[i] == (n.notify_patterns@[i])@);
        assert((c.notify_patterns@[i])@ == p);
    }
    if c.spec_should_notify(p) {
        let i = choose|i: int|
            0 <= i < c.notify_patterns@.len() && (#[trigger] c.notify_patterns@[i])@ == p;
        assert(c.notify_patterns.deep_view()[i] == (c.notify_patterns@[i])@);
        assert((n.notify_patterns@[i])@ == p);
    }
}

/// The engine: classifier, notification gate, and counters.
#[derive(Debug)]
pub struct LogWatcher {
    /// The classifier, holding the rule set.
    pub matcher: Matcher,
    /// The notification gate.
    pub notifier: Notifier,
    /// Counters for the final summary.
    pub stats: WatcherStats,
}

impl LogWatcher {
    /// The engine is usable: the rule set is well formed and the
    /// notification gate mirrors its settings.
    pub open spec fn wf(&self) -> bool {
        &&& self.matcher.wf()
        &&& self.notifier.notify_enabled == self.matcher.config.notify_enabled
        &&& self.notifier.notify_patterns.deep_view()
            == self.matcher.config.notify_patterns.deep_view()
        &&& self.notifier.notify_throttle == self.matcher.config.notify_throttle
    }

    /// Build the engine around a rule set.
    pub fn new(config: Config) -> (w: LogWatcher)
        requires
            config.wf(),
        ensures
            w.wf(),
            w.matcher.config == config,
            w.stats == (WatcherStats {
                files_watched: 0,
                lines_processed: 0,
                matches_found: 0,
                notifications_sent: 0,
            }),
            w.notifier.throttle.window_start_ms == 0,
            w.notifier.throttle.count_in_window == 0,
    {
        let notifier = Notifier::new(&config);
        let matcher = Matcher::new(config);
        LogWatcher { matcher, notifier, stats: WatcherStats::default() }
    }

    /// Handle one line read while tailing: count it, drop it when an
    /// exclusion rule strikes it out, otherwise classify it, decide the
    /// notification attempt, and render the printable text.
    pub fn process_line(&mut self, filename: Option<&str>, line: &str, now_ms: u64) -> (o:
        LineOutcome)
        requires
            old(self).wf(),
            old(self).stats.lines_processed < usize::MAX,
            old(self).stats.matches_found < usize::MAX,
            old(self).stats.notifications_sent < usize::MAX,
        ensures
            final(self).wf(),
            final(self).matcher == old(self).matcher,
            final(self).stats.files_watched == old(self).stats.files_watched,
            final(self).stats.lines_processed == old(self).stats.lines_processed + 1,
            old(self).matcher.config.spec_should_exclude(line@) ==> {
                &&& o.excluded
                &&& o.result is None
                &&& o.output is None
                &&& o.notification is None
                &&& final(self).stats.matches_found == old(self).stats.matches_found
                &&& final(self).stats.notifications_sent == old(self).stats.notifications_sent
                &&& final(self).notifier == old(self).notifier
            },
            !old(self).matcher.config.spec_should_exclude(line@) ==> {
                &&& !o.excluded
                &&& o.result matches Some(r) && old(self).matcher.spec_match_result_ok(line@, r)
                    && {
                    &&& final(self).stats.matches_found == old(self).stats.matches_found + (
                    if r.matched {
                        1int
                    } else {
                        0int
                    })
                    &&& final(self).stats.notifications_sent == old(
                        self,
                    ).stats.notifications_sent + (if o.notification is Some {
                        1int
                    } else {
                        0int
                    })
                    &&& (o.output is Some <==> spec_output_line(
                        old(self).matcher.config.quiet,
                        old(self).matcher.config.prefix_files,
                        line@,
                        match filename {
                            Some(f) => Some(f@),
                            None => None::<Seq<char>>,
                        },
                        r.matched,
                        false,
                    ) is Some)
                    &&& (o.output matches Some(t) ==> Some(t@) == spec_output_line(
                        old(self).matcher.config.quiet,
                        old(self).matcher.config.prefix_files,
                        line@,
                        match filename {
                            Some(f) => Some(f@),
                            None => None::<Seq<char>>,
                        },
                        r.matched,
                        false,
                    ))
                    &&& !r.should_notify ==> o.notification is None && final(self).notifier == old(
                        self,
                    ).notifier
                    &&& r.should_notify ==> {
                        let (admitted, after) = old(self).notifier.throttle.spec_admit(
                            now_ms,
                            old(self).notifier.notify_throttle,
                        );
                        &&& final(self).notifier.throttle == after
                        &&& (admitted <==> o.notification is Some)
                        &&& (o.notification matches Some(nf) ==> r.pattern matches Some(p)
                            && nf.title@ == crate::notifier::spec_title(
                            p@,
                            match filename {
                                Some(f) => Some(f@),
                                None => None::<Seq<char>>,
                            },
                        ) && nf.body@ == crate::notifier::spec_body(line@))
                    }
                }
            },
    {
        self.stats.lines_processed = self.stats.lines_processed + 1;
        if self.matcher.config.should_exclude(line) {
            return LineOutcome { excluded: true, result: None, output: None, notification: None };
        }
        let result = self.matcher.match_line(line);
        let mut notification: Option<Notification> = None;
        if result.matched {
            self.stats.matches_found = self.stats.matches_found + 1;
            if result.should_notify {
                match &result.pattern {
                    Some(p) => {
                        proof {
                            lemma_eligible_iff_should_notify(
                                &self.notifier,
                                &self.matcher.config,
                                p@,
                            );
                        }
                        notification = self.notifier.send_notification(
                            p.as_str(),
                            line,
                            filename,
                            now_ms,
                        );
                        if notification.is_some() {
                            self.stats.notifications_sent = self.stats.notifications_sent + 1;
                        }
                    },
                    None => {
                        proof {
                            assert(false);
                        }
                    },
                }
            }
        }
        let output = format_output_line(
            self.matcher.config.quiet,
            self.matcher.config.prefix_files,
            line,
            filename,
            result.matched,
            false,
        );
        LineOutcome { excluded: false, result: Some(result), output, notification }
    }
}

/// First-match lookup in an association list of per-pattern counters.
pub open spec fn spec_lookup_count(entries: Seq<(String, usize)>, key: Seq<char>) -> Option<usize>
    decreases entries.len(),
{
    if entries.len() == 0 {
        None
    } else if entries[0].0@ == key {
        Some(entries[0].1)
    } else {
        spec_lookup_count(entries.drop_first(), key)
    }
}

proof fn lemma_count_absent(entries: Seq<(String, usize)>, key: Seq<char>)
    ensures
        spec_lookup_count(entries, key) is None <==> forall|j: int|
            0 <= j < entries.len() ==> (#[trigger] entries[j]).0@ != key,
    decreases entries.len(),
{
    if entries.len() > 0 {
        lemma_count_absent(entries.drop_first(), key);
        assert forall|j: int|
            1 <= j < entries.len() implies entries.drop_first()[j - 1] == entries[j] by {}
    }
}

proof fn lemma_count_update(
    entries: Seq<(String, usize)>,
    i: int,
    e: (String, usize),
    key: Seq<char>,
)
    requires
        0 <= i < entries.len(),
        forall|j: int| 0 <= j < i ==> (#[trigger] entries[j]).0@ != key,
        entries[i].0@ == key,
        e.0@ == key,
    ensures
        forall|k: Seq<char>|
            #[trigger] spec_lookup_count(entries.update(i, e), k) == if k == key {
                Some(e.1)
            } else {
                spec_lookup_count(entries, k)
            },
    decreases entries.len(),
{
    let u = entries.update(i, e);
    if i == 0 {
        assert(u[0] == e);
        assert(u.drop_first() =~= entries.drop_first());
    } else {
        assert(u[0] == entries[0]);
        assert(u.drop_first() =~= entries.drop_first().update(i - 1, e));
        assert forall|j: int|
            0 <= j < i - 1 implies (#[trigger] entries.drop_first()[j]).0@ != key by {
            assert(entries.drop_first()[j] == entries[j + 1]);
        }
        lemma_count_update(entries.drop_first(), i - 1, e, key);
    }
    assert forall|k: Seq<char>|
        #[trigger] spec_lookup_count(u, k) == (if k == key {
            Some(e.1)
        } else {
            spec_lookup_count(entries, k)
        }) by {
        assert(spec_lookup_count(u, k) == if u[0].0@ == k {
            Some(u[0].1)
        } else {
            spec_lookup_count(u.drop_first(), k)
        });
        assert(spec_lookup_count(entries, k) == if entries[0].0@ == k {
            Some(entries[0].1)
        } else {
            spec_lookup_count(entries.drop_first(), k)
        });
    }
}

proof fn lemma_count_push(entries: Seq<(String, usize)>, e: (String, usize), key: Seq<char>)
    requires
        spec_lookup_count(entries, key) is None,
        e.0@ == key,
    ensures
        forall|k: Seq<char>|
            #[trigger] spec_lookup_count(entries.push(e), k) == if k == key {
                Some(e.1)
            } else {
                spec_lookup_count(entries, k)
            },
    decreases entries.len(),
{
    let u = entries.push(e);
    if entries.len() == 0 {
        assert(u[0] == e);
        assert(u.drop_first() =~= Seq::<(String, usize)>::empty());
        assert forall|k: Seq<char>|
            #[trigger] spec_lookup_count(u, k) == (if k == key {
                Some(e.1)
            } else {
                spec_lookup_count(entries, k)
            }) by {
            assert(spec_lookup_count(u, k) == if u[0].0@ == k {
                Some(u[0].1)
            } else {
                spec_lookup_count(u.drop_first(), k)
            });
        }
    } else {
        assert(u[0] == entries[0]);
        assert(u.drop_first() =~= entries.drop_first().push(e));
        lemma_count_push(entries.drop_first(), e, key);
        assert forall|k: Seq<char>|
            #[trigger] spec_lookup_count(u, k) == (if k == key {
                Some(e.1)
            } else {
                spec_lookup_count(entries, k)
            }) by {
            assert(spec_lookup_count(u, k) == if u[0].0@ == k {
                Some(u[0].1)
            } else {
                spec_lookup_count(u.drop_first(), k)
            });
            assert(spec_lookup_count(entries, k) == if entries[0].0@ == k {
                Some(entries[0].1)
            } else {
                spec_lookup_count(entries.drop_first(), k)
            });
        }
    }
}

/// Credit one more hit to `key` in the per-pattern counters; a pattern
/// seen for the first time enters with count one.
pub fn bump_count(counts: &mut Vec<(String, usize)>, key: &str)
    requires
        spec_lookup_count(old(counts)@, key@) matches Some(c) ==> c < usize::MAX,
    ensures
        forall|k: Seq<char>|
            #[trigger] spec_lookup_count(final(counts)@, k) == (if k == key@ {
                match spec_lookup_count(old(counts)@, key@) {
                    Some(c) => Some((c + 1) as usize),
                    None => Some(1usize),
                }
            } else {
                spec_lookup_count(old(counts)@, k)
            }),
{
    let n: usize = counts.len();
    let mut i: usize = 0;
    proof {
        assert(counts@.skip(0) =~= counts@);
    }
    while i < n
        invariant
            counts@ == old(counts)@,
            n == counts@.len(),
            i <= n,
            spec_lookup_count(old(counts)@, key@) matches Some(c) ==> c < usize::MAX,
            forall|j: int| 0 <= j < i ==> (#[trigger] counts@[j]).0@ != key@,
            spec_lookup_count(counts@.skip(i as int), key@) == spec_lookup_count(counts@, key@),
        decreases n - i,
    {
        let ghost rest = counts@.skip(i as int);
        proof {
            assert(rest[0] == counts@[i as int]);
            assert(rest.drop_first() =~= counts@.skip(i as int + 1));
        }
        if crate::text::str_eq(counts[i].0.as_str(), key) {
            let name = counts[i].0.clone();
            let c: usize = counts[i].1;
            proof {
                assert(spec_lookup_count(counts@, key@) == Some(c));
            }
            counts[i] = (name, c + 1);
            proof {
                lemma_count_update(old(counts)@, i as int, ((old(counts)@[i as int]).0, (c
                    + 1) as usize), key@);
                assert(counts@ =~= old(counts)@.update(
                    i as int,
                    ((old(counts)@[i as int]).0, (c + 1) as usize),
                ));
            }
            return;
        }
        i = i + 1;
    }
    proof {
        assert(counts@.skip(n as int) =~= Seq::<(String, usize)>::empty());
    }
    let ghost before = counts@;
    counts.push((String::from_str(key), 1));
    proof {
        assert(counts@.last().0@ == key@);
        lemma_count_push(before, counts@.last(), key@);
        assert(counts@ =~= before.push(counts@.last()));
    }
}

/// Whether a dry-run scan credits a line: no exclusion rule strikes it
/// out, and some pattern matches it.
pub open spec fn spec_scan_hit(m: &Matcher, l: Seq<char>) -> bool {
    !m.config.spec_should_exclude(l) && m.spec_first_match(l) is Some
}

/// The pattern credited for a hit line: its first matching pattern.
pub open spec fn spec_hit_pattern(m: &Matcher, l: Seq<char>) -> Seq<char> {
    (m.config.patterns@[m.spec_first_match(l)->Some_0])@
}

/// The hit lines of a scan, in order.
pub open spec fn spec_hits(m: &Matcher, lines: Seq<Seq<char>>) -> Seq<Seq<char>> {
    lines.filter(|l: Seq<char>| spec_scan_hit(m, l))
}

/// How many lines of a scan are credited to pattern `p`.
pub open spec fn spec_pattern_hits(m: &Matcher, lines: Seq<Seq<char>>, p: Seq<char>) -> nat {
    lines.filter(|l: Seq<char>| spec_scan_hit(m, l) && spec_hit_pattern(m, l) == p).len()
}

/// The rendered text of a hit line in a dry run: marker, optional
/// file-name prefix, then the line.
pub open spec fn spec_hit_output(m: &Matcher, filename: Option<Seq<char>>, l: Seq<char>) -> Seq<
    char,
> {
    spec_output_line(m.config.quiet, m.config.prefix_files, l, filename, true, true)->Some_0
}

/// The color a hit line is printed in: the color mapped to its
/// credited pattern.
pub open spec fn spec_hit_color(m: &Matcher, l: Seq<char>) -> Option<crate::color::Color> {
    crate::config::spec_lookup_color(m.config.color_mappings@, spec_hit_pattern(m, l))
}

/// A per-pattern counter after crediting `h` more hits: entries enter
/// on their first hit.
pub open spec fn spec_merged_count(base: Option<usize>, h: nat) -> Option<usize> {
    match base {
        Some(c) => Some((c + h) as usize),
        None => if h > 0 {
            Some(h as usize)
        } else {
            None
        },
    }
}

impl LogWatcher {
    /// Scan a whole file's lines, as a dry run does: count every line,
    /// classify each one that no exclusion rule strikes out, credit its
    /// first matching pattern in `counts`, and render each hit for
    /// printing.  A scan never notifies.
    pub fn process_existing_file(
        &mut self,
        counts: &mut Vec<(String, usize)>,
        filename: Option<&str>,
        lines: &Vec<String>,
    ) -> (outputs: Vec<(String, Option<crate::color::Color>)>)
        requires
            old(self).wf(),
            old(self).stats.lines_processed + lines@.len() <= usize::MAX,
            old(self).stats.matches_found + lines@.len() <= usize::MAX,
            forall|k: Seq<char>|
                #[trigger] spec_lookup_count(old(counts)@, k) matches Some(c) ==> c + lines@.len()
                    <= usize::MAX,
        ensures
            final(self).wf(),
            final(self).matcher == old(self).matcher,
            final(self).notifier == old(self).notifier,
            final(self).stats.files_watched == old(self).stats.files_watched,
            final(self).stats.notifications_sent == old(self).stats.notifications_sent,
            final(self).stats.lines_processed == old(self).stats.lines_processed + lines@.len(),
            final(self).stats.matches_found == old(self).stats.matches_found + spec_hits(
                &old(self).matcher,
                lines.deep_view(),
            ).len(),
            forall|k: Seq<char>|
                #[trigger] spec_lookup_count(final(counts)@, k) == spec_merged_count(
                    spec_lookup_count(old(counts)@, k),
                    spec_pattern_hits(&old(self).matcher, lines.deep_view(), k),
                ),
            outputs@.len() == spec_hits(&old(self).matcher, lines.deep_view()).len(),
            forall|j: int|
                0 <= j < outputs@.len() ==> ((#[trigger] outputs@[j]).0@ == spec_hit_output(
                    &old(self).matcher,
                    match filename {
                        Some(f) => Some(f@),
                        None => None::<Seq<char>>,
                    },
                    spec_hits(&old(self).matcher, lines.deep_view())[j],
                ) && outputs@[j].1 == spec_hit_color(
                    &old(self).matcher,
                    spec_hits(&old(self).matcher, lines.deep_view())[j],
                )),
    {
        broadcast use vstd::prelude::Seq::lemma_filter_push;
        broadcast use vstd::prelude::Seq::lemma_filter_len;
        broadcast use vstd::prelude::Seq::lemma_push_map_commute;

        let ghost m = old(self).matcher;
        let ghost lv = lines.deep_view();
        let ghost fname: Option<Seq<char>> = match filename {
            Some(f) => Some(f@),
            None => None,
        };
        let ghost hit_fn = |l: Seq<char>| spec_scan_hit(&m, l);
        let mut outputs: Vec<(String, Option<crate::color::Color>)> = Vec::new();
        let mut i: usize = 0;
        proof {
            assert(lv.take(0) =~= Seq::<Seq<char>>::empty());
        }
        while i < lines.len()
            invariant
                self.wf(),
                self.matcher == m,
                m == old(self).matcher,
                self.notifier == old(self).notifier,
                self.stats.files_watched == old(self).stats.files_watched,
                self.stats.notifications_sent == old(self).stats.notifications_sent,
                lv == lines.deep_view(),
                lines@.len() == lv.len(),
                i <= lv.len(),
                fname == match filename {
                    Some(f) => Some(f@),
                    None => None::<Seq<char>>,
                },
                hit_fn == (|l: Seq<char>| spec_scan_hit(&m, l)),
                old(self).stats.lines_processed + lv.len() <= usize::MAX,
                old(self).stats.matches_found + lv.len() <= usize::MAX,
                forall|k: Seq<char>|
                    #[trigger] spec_lookup_count(old(counts)@, k) matches Some(c) ==> c + lv.len()
                        <= usize::MAX,
                self.stats.lines_processed == old(self).stats.lines_processed + i,
                self.stats.matches_found == old(self).stats.matches_found + lv.take(
                    i as int,
                ).filter(hit_fn).len(),
                forall|k: Seq<char>|
                    #[trigger] spec_lookup_count(counts@, k) == spec_merged_count(
                        spec_lookup_count(old(counts)@, k),
                        spec_pattern_hits(&m, lv.take(i as int), k),
                    ),
                outputs@.len() == lv.take(i as int).filter(hit_fn).len(),
                forall|j: int|
                    0 <= j < outputs@.len() ==> ((#[trigger] outputs@[j]).0@ == spec_hit_output(
                        &m,
                        fname,
                        lv.take(i as int).filter(hit_fn)[j],
                    ) && outputs@[j].1 == spec_hit_color(
                        &m,
                        lv.take(i as int).filter(hit_fn)[j],
                    )),
            decreases lv.len() - i,
        {
            let ghost pre = lv.take(i as int);
            let ghost pre1 = lv.take(i + 1 as int);
            let ghost l = lv[i as int];
            proof {
                assert(pre1 =~= pre.push(l));
                pre.lemma_filter_push(l, hit_fn);
                assert(pre1.filter(hit_fn) == pre.push(l).filter(hit_fn));
                assert(lines@[i as int]@ == l);
                pre.filter(hit_fn).lemma_filter_len(hit_fn);
            }
            let line = lines[i].as_str();
            self.stats.lines_processed = self.stats.lines_processed + 1;
            let excluded = self.matcher.config.should_exclude(line);
            let mut hit = false;
            if !excluded {
                let result = self.matcher.match_line(line);
                if result.matched {
                    hit = true;
                    proof {
                        assert(spec_scan_hit(&m, l));
                        assert(pre.filter(hit_fn).len() <= pre.len());
                    }
                    self.stats.matches_found = self.stats.matches_found + 1;
                    match &result.pattern {
                        Some(p) => {
                            proof {
                                assert(p@ == spec_hit_pattern(&m, l));
                                let pk = |x: Seq<char>|
                                    spec_scan_hit(&m, x) && spec_hit_pattern(&m, x) == p@;
                                assert(spec_pattern_hits(&m, pre, p@) == pre.filter(pk).len());
                                assert(pre.filter(pk).len() <= pre.len());
                            }
                            bump_count(counts, p.as_str());
                        },
                        None => {
                            proof {
                                assert(false);
                            }
                        },
                    }
                    match format_output_line(
                        self.matcher.config.quiet,
                        self.matcher.config.prefix_files,
                        line,
                        filename,
                        true,
                        true,
                    ) {
                        Some(t) => {
                            let ghost old_outputs = outputs@;
                            let ghost gt = t@;
                            let ghost gc = result.color;
                            proof {
                                assert(Some(t@) == spec_output_line(
                                    m.config.quiet,
                                    m.config.prefix_files,
                                    l,
                                    fname,
                                    true,
                                    true,
                                ));
                                assert(gt == spec_hit_output(&m, fname, l));
                                assert(gc == spec_hit_color(&m, l));
                            }
                            outputs.push((t, result.color));
                            proof {
                                assert(outputs@.len() == old_outputs.len() + 1);
                                assert(outputs@.last().0@ == gt);
                                assert(outputs@.last().1 == gc);
                                assert forall|j: int|
                                    0 <= j < outputs@.len() implies ((#[trigger] outputs@[j]).0@
                                    == spec_hit_output(&m, fname, pre1.filter(hit_fn)[j])
                                    && outputs@[j].1 == spec_hit_color(
                                    &m,
                                    pre1.filter(hit_fn)[j],
                                )) by {
                                    assert(pre1.filter(hit_fn) =~= pre.filter(hit_fn).push(l));
                                    if j < old_outputs.len() {
                                        assert(outputs@[j] == old_outputs[j]);
                                        assert(pre1.filter(hit_fn)[j] == pre.filter(hit_fn)[j]);
                                    } else {
                                        assert(outputs@[j] == outputs@.last());
                                        assert(pre1.filter(hit_fn)[j] == l);
                                    }
                                }
                            }
                        },
                        None => {
                            proof {
                                assert(false);
                            }
                        },
                    }
                } else {
                    proof {
                        assert(!spec_scan_hit(&m, l));
                    }
                }
            } else {
                proof {
                    assert(!spec_scan_hit(&m, l));
                }
            }
            proof {
                assert(hit == spec_scan_hit(&m, l));
                assert forall|k: Seq<char>|
                    #[trigger] spec_lookup_count(counts@, k) == spec_merged_count(
                        spec_lookup_count(old(counts)@, k),
                        spec_pattern_hits(&m, pre1, k),
                    ) by {
                    let pk = |x: Seq<char>|
                        spec_scan_hit(&m, x) && spec_hit_pattern(&m, x) == k;
                    pre.lemma_filter_push(l, pk);
                    assert(pre1.filter(pk) == pre.push(l).filter(pk));
                    assert(spec_pattern_hits(&m, pre1, k) == pre1.filter(pk).len());
                    assert(spec_pattern_hits(&m, pre, k) == pre.filter(pk).len());
                }
                if !hit_fn(l) {
                    assert(pre1.filter(hit_fn) == pre.filter(hit_fn));
                }
            }
            i = i + 1;
        }
        proof {
            assert(lv.take(lv.len() as int) =~= lv);
        }
        outputs
    }
}

} // verus!
