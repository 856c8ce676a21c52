//! Raw command-line values as plain data, and how they are cut into
//! pattern lists and color mappings.  Flag parsing itself happens
//! outside the library; this module only normalizes the strings it is
//! handed.

use vstd::prelude::*;

use crate::text::chars_to_string;
use crate::text::clean_segments;
use crate::text::spec_clean_segments;
use crate::text::split_chars;
use crate::text::split_seq;
use crate::text::to_chars;
use crate::text::trim_chars;
use crate::text::trim_seq;

verus! {

/// A comma-separated list, each entry trimmed, empty entries dropped.
pub open spec fn spec_split_list(s: Seq<char>) -> Seq<Seq<char>> {
    spec_clean_segments(split_seq(s, ','))
}

/// Comma-separated list splitting, executable form.
pub fn split_list(s: &str) -> (r: Vec<String>)
    ensures
        r.deep_view() == spec_split_list(s@),
{
    let chars = to_chars(s);
    let segs = split_chars(&chars, ',');
    clean_segments(&segs)
}

/// The `pattern:color` pairs of a comma-separated mapping list; entries
/// that do not have exactly one colon are dropped.
pub open spec fn spec_color_pairs(s: Seq<char>) -> Seq<(Seq<char>, Seq<char>)> {
    split_seq(s, ',').map_values(|m: Seq<char>| split_seq(m, ':')).filter(
        |parts: Seq<Seq<char>>| parts.len() == 2,
    ).map_values(|parts: Seq<Seq<char>>| (trim_seq(parts[0]), trim_seq(parts[1])))
}

/// Color-mapping splitting, executable form.
pub fn split_color_pairs(s: &str) -> (r: Vec<(String, String)>)
    ensures
        r.deep_view() == spec_color_pairs(s@),
{
    broadcast use vstd::prelude::Seq::lemma_filter_push;
    broadcast use vstd::prelude::Seq::lemma_push_map_commute;

    let chars = to_chars(s);
    let segs = split_chars(&chars, ',');
    let ghost split_fn = |m: Seq<char>| split_seq(m, ':');
    let ghost keep_fn = |parts: Seq<Seq<char>>| parts.len() == 2;
    let ghost pair_fn = |parts: Seq<Seq<char>>| (trim_seq(parts[0]), trim_seq(parts[1]));
    let mut r: Vec<(String, String)> = Vec::new();
    let mut i: usize = 0;
    while i < segs.len()
        invariant
            segs.deep_view() == split_seq(s@, ','),
            i <= segs@.len(),
            segs@.len() == segs.deep_view().len(),
            split_fn == (|m: Seq<char>| split_seq(m, ':')),
            keep_fn == (|parts: Seq<Seq<char>>| parts.len() == 2),
            pair_fn == (|parts: Seq<Seq<char>>| (trim_seq(parts[0]), trim_seq(parts[1]))),
            r.deep_view() == segs.deep_view().take(i as int).map_values(split_fn).filter(
                keep_fn,
            ).map_values(pair_fn),
        decreases segs@.len() - i,
    {
        let ghost pre = segs.deep_view().take(i as int);
        let ghost pre1 = segs.deep_view().take(i + 1 as int);
        let ghost seg = segs.deep_view()[i as int];
        proof {
            assert(pre1 =~= pre.push(seg));
            assert(pre1.map_values(split_fn) =~= pre.map_values(split_fn).push(split_fn(seg)));
        }
        let parts = split_chars(&segs[i], ':');
        proof {
            assert(segs[i as int].deep_view() == seg);
            assert(segs[i as int]@ =~= seg);
            assert(parts.deep_view() == split_fn(seg));
        }
        proof {
            let m1 = pre.map_values(split_fn);
            m1.lemma_filter_push(split_fn(seg), keep_fn);
            assert(pre1.map_values(split_fn) == m1.push(split_fn(seg)));
        }
        if parts.len() == 2 {
            let key = trim_chars(&parts[0]);
            let value = trim_chars(&parts[1]);
            let ghost old_r = r.deep_view();
            proof {
                assert(parts[0]@ =~= parts.deep_view()[0]);
                assert(parts[1]@ =~= parts.deep_view()[1]);
                assert(keep_fn(split_fn(seg)));
                assert(pre1.map_values(split_fn).filter(keep_fn) == pre.map_values(
                    split_fn,
                ).filter(keep_fn).push(split_fn(seg)));
            }
            r.push((chars_to_string(&key), chars_to_string(&value)));
            proof {
                assert(r.deep_view() =~= old_r.push((key@, value@)));
                assert(r.deep_view() =~= pre1.map_values(split_fn).filter(keep_fn).map_values(
                    pair_fn,
                ));
            }
        } else {
            proof {
                assert(parts.deep_view().len() != 2);
                assert(!keep_fn(split_fn(seg)));
                assert(pre1.map_values(split_fn).filter(keep_fn) == pre.map_values(
                    split_fn,
                ).filter(keep_fn));
            }
        }
        i = i + 1;
    }
    proof {
        assert(segs.deep_view().take(segs.deep_view().len() as int) =~= segs.deep_view());
    }
    r
}

/// The raw command-line values the tool runs from, already parsed into
/// plain fields.
#[derive(Debug, Clone)]
pub struct Args {
    /// Paths of the log files to watch.
    pub files: Vec<String>,
    /// Comma-separated patterns to match.
    pub patterns: String,
    /// Treat patterns as regular expressions.
    pub regex: bool,
    /// Case-insensitive pattern matching.
    pub case_insensitive: bool,
    /// Custom `pattern:color` mappings.
    pub color_map: Option<String>,
    /// Desktop notifications enabled.
    pub notify: bool,
    /// Patterns that trigger notifications; all patterns when absent.
    pub notify_patterns: Option<String>,
    /// Maximum notifications per one-second window.
    pub notify_throttle: u32,
    /// Scan existing content once instead of tailing.
    pub dry_run: bool,
    /// Suppress non-matching lines.
    pub quiet: bool,
    /// Comma-separated patterns to exclude.
    pub exclude: Option<String>,
    /// Disable colored output.
    pub no_color: bool,
    /// Prefix lines with the file name; decided by file count when absent.
    pub prefix_file: Option<bool>,
    /// Polling interval in milliseconds.
    pub poll_interval: u64,
    /// Read buffer size in bytes.
    pub buffer_size: usize,
}

impl Args {
    /// The match patterns, split out of the raw comma-separated flag.
    pub open spec fn spec_patterns(&self) -> Seq<Seq<char>> {
        spec_split_list(self.patterns@)
    }

    /// The notification patterns: the dedicated flag when given, else
    /// every match pattern.
    pub open spec fn spec_notify_patterns(&self) -> Seq<Seq<char>> {
        match self.notify_patterns {
            Some(p) => spec_split_list(p@),
            None => self.spec_patterns(),
        }
    }

    /// The exclusion patterns, empty when the flag is absent.
    pub open spec fn spec_exclude_patterns(&self) -> Seq<Seq<char>> {
        match self.exclude {
            Some(p) => spec_split_list(p@),
            None => Seq::empty(),
        }
    }

    /// The raw `pattern:color` pairs, empty when the flag is absent.
    pub open spec fn spec_color_mappings(&self) -> Seq<(Seq<char>, Seq<char>)> {
        match self.color_map {
            Some(m) => spec_color_pairs(m@),
            None => Seq::empty(),
        }
    }

    /// Whether lines carry a file-name prefix: the explicit flag when
    /// given, else only when more than one file is watched.
    pub open spec fn spec_should_prefix_files(&self) -> bool {
        match self.prefix_file {
            Some(p) => p,
            None => self.files@.len() > 1,
        }
    }

    /// The list of files to watch.
    pub fn files(&self) -> (r: &Vec<String>)
        ensures
            r == &self.files,
    {
        &self.files
    }

    /// The patterns as a vector of strings.
    pub fn patterns(&self) -> (r: Vec<String>)
        ensures
            r.deep_view() == self.spec_patterns(),
    {
        split_list(self.patterns.as_str())
    }

    /// The notification patterns as a vector of strings.
    pub fn notify_patterns(&self) -> (r: Vec<String>)
        ensures
            r.deep_view() == self.spec_notify_patterns(),
    {
        match &self.notify_patterns {
            Some(p) => split_list(p.as_str()),
            None => self.patterns(),
        }
    }

    /// The color mappings as `(pattern, color)` string pairs.
    pub fn color_mappings(&self) -> (r: Vec<(String, String)>)
        ensures
            r.deep_view() == self.spec_color_mappings(),
    {
        match &self.color_map {
            Some(m) => split_color_pairs(m.as_str()),
            None => {
                let r: Vec<(String, String)> = Vec::new();
                proof {
                    assert(r.deep_view() =~= Seq::<(Seq<char>, Seq<char>)>::empty());
                }
                r
            },
        }
    }

    /// Whether printed lines should carry the file name.
    pub fn should_prefix_files(&self) -> (r: bool)
        ensures
            r == self.spec_should_prefix_files(),
    {
        match &self.prefix_file {
            Some(p) => *p,
            None => self.files.len() > 1,
        }
    }

    /// The exclusion patterns as a vector of strings.
    pub fn exclude_patterns(&self) -> (r: Vec<String>)
        ensures
            r.deep_view() == self.spec_exclude_patterns(),
    {
        match &self.exclude {
            Some(p) => split_list(p.as_str()),
            None => {
                let r: Vec<String> = Vec::new();
                proof {
                    assert(r.deep_view() =~= Seq::<Seq<char>>::empty());
                }
                r
            },
        }
    }
}

} // verus!
