//! The per-file tail state machine: which bytes have been consumed,
//! what one size observation means (growth, no change, or rotation),
//! and how freshly read text is cut into complete lines.

use vstd::prelude::*;

use crate::text::chars_to_string;
use crate::text::clean_segments;
use crate::text::spec_clean_segments;
use crate::text::split_chars;
use crate::text::split_seq;
use crate::text::to_chars;

verus! {

/// What one size observation asks the poller to do.
#[derive(Debug, Clone, Copy, PartialEq, Eq, Structural)]
pub enum PollAction {
    /// The file shrank: it was rotated or truncated.  Nothing is read.
    Rotation,
    /// New bytes exist: read forward from `offset` to the current size.
    ReadFrom { offset: u64 },
    /// The size is unchanged: nothing to do.
    NoChange,
}

/// The tailing state of one watched file.
#[derive(Debug, Clone, PartialEq, Eq)]
pub struct TailState {
    /// Path of the tailed file.
    pub path: String,
    /// How many bytes of the file have been consumed.
    pub last_offset: u64,
}

impl TailState {
    /// What a poll observing `current_size` must do.
    pub open spec fn spec_poll_action(&self, current_size: u64) -> PollAction {
        if current_size < self.last_offset {
            PollAction::Rotation
        } else if current_size > self.last_offset {
            PollAction::ReadFrom { offset: self.last_offset }
        } else {
            PollAction::NoChange
        }
    }

    /// Start tailing at the file's current size, so that existing
    /// content is not replayed.
    pub fn new(path: String, initial_size: u64) -> (t: TailState)
        ensures
            t.path == path,
            t.last_offset == initial_size,
    {
        TailState { path, last_offset: initial_size }
    }

    /// Classify one size observation.
    pub fn poll_action(&self, current_size: u64) -> (a: PollAction)
        ensures
            a == self.spec_poll_action(current_size),
    {
        if current_size < self.last_offset {
            PollAction::Rotation
        } else if current_size > self.last_offset {
            PollAction::ReadFrom { offset: self.last_offset }
        } else {
            PollAction::NoChange
        }
    }

    /// Record that everything up to `current_size` has been consumed.
    pub fn advance_to(&mut self, current_size: u64)
        requires
            old(self).last_offset <= current_size,
        ensures
            final(self).path == old(self).path,
            final(self).last_offset == current_size,
    {
        self.last_offset = current_size;
    }

    /// Rotation recovery: once the file exists again, tail it from the
    /// beginning.
    pub fn reset(&mut self)
        ensures
            final(self).path == old(self).path,
            final(self).last_offset == 0,
    {
        self.last_offset = 0;
    }
}

/// A shrink is always seen as a rotation: with the file tailed to some
/// offset, a poll that observes any smaller size (a truncation to zero
/// included) reports a rotation and reads nothing.
pub proof fn lemma_truncation_reports_rotation(t: &TailState, new_size: u64)
    requires
        new_size < t.last_offset,
    ensures
        t.spec_poll_action(new_size) == PollAction::Rotation,
{
}

/// The complete lines of freshly read text: every newline-terminated
/// segment, trimmed, the empty ones dropped.  Text after the last
/// newline is an unfinished line and is not reported.
pub open spec fn spec_complete_lines(s: Seq<char>) -> Seq<Seq<char>> {
    spec_clean_segments(split_seq(s, '\n').drop_last())
}

/// Every line of a whole file's content: newline-separated segments,
/// trimmed, the empty ones dropped; a final unterminated segment
/// counts as a line.
pub open spec fn spec_all_lines(s: Seq<char>) -> Seq<Seq<char>> {
    spec_clean_segments(split_seq(s, '\n'))
}

/// Cut freshly read text into complete lines.
pub fn extract_lines(data: &str) -> (r: Vec<String>)
    ensures
        r.deep_view() == spec_complete_lines(data@),
{
    let chars = to_chars(data);
    let mut segs = split_chars(&chars, '\n');
    proof {
        crate::text::lemma_split_seq_len(data@, '\n');
    }
    let ghost whole = segs.deep_view();
    segs.pop();
    proof {
        assert(segs.deep_view() =~= whole.drop_last());
    }
    clean_segments(&segs)
}

/// Cut a whole file's content into lines.
pub fn split_content_lines(content: &str) -> (r: Vec<String>)
    ensures
        r.deep_view() == spec_all_lines(content@),
{
    let chars = to_chars(content);
    let segs = split_chars(&chars, '\n');
    clean_segments(&segs)
}

/// A newline-terminated segment as line reading yields it: the
/// carriage return of a `\r\n` terminator is stripped.
pub open spec fn spec_strip_cr(seg: Seq<char>) -> Seq<char> {
    if seg.len() > 0 && seg.last() == '\r' {
        seg.drop_last()
    } else {
        seg
    }
}

/// Every raw line of a file's content, as `BufRead::lines` yields
/// them: split at `\n`, the carriage return of each `\r\n` terminator
/// stripped, and no empty final line for a trailing newline.  Blank
/// lines stay, so a scan counts them.
pub open spec fn spec_raw_lines(s: Seq<char>) -> Seq<Seq<char>> {
    let segs = split_seq(s, '\n');
    let body = segs.drop_last().map_values(|seg: Seq<char>| spec_strip_cr(seg));
    if segs.last().len() == 0 {
        body
    } else {
        body.push(segs.last())
    }
}

/// Cut a whole file's content into raw lines.
pub fn split_raw_lines(content: &str) -> (r: Vec<String>)
    ensures
        r.deep_view() == spec_raw_lines(content@),
{
    let chars = to_chars(content);
    let mut segs = split_chars(&chars, '\n');
    proof {
        crate::text::lemma_split_seq_len(content@, '\n');
    }
    let ghost whole = segs.deep_view();
    let ghost strip_fn = |seg: Seq<char>| spec_strip_cr(seg);
    let last = match segs.pop() {
        Some(v) => v,
        None => Vec::new(),
    };
    proof {
        assert(segs.deep_view() =~= whole.drop_last());
        assert(last@ == whole.last());
    }
    let mut r: Vec<String> = Vec::new();
    let mut i: usize = 0;
    while i < segs.len()
        invariant
            segs.deep_view() == whole.drop_last(),
            whole == split_seq(content@, '\n'),
            whole.len() >= 1,
            segs@.len() == whole.len() - 1,
            i <= segs@.len(),
            strip_fn == (|seg: Seq<char>| spec_strip_cr(seg)),
            r.deep_view() == whole.drop_last().take(i as int).map_values(strip_fn),
        decreases segs@.len() - i,
    {
        let ghost seg = segs.deep_view()[i as int];
        let n: usize = segs[i].len();
        let m: usize = if n > 0 && segs[i][n - 1] == '\r' {
            n - 1
        } else {
            n
        };
        proof {
            assert(segs@[i as int]@ =~= seg);
            assert(seg.subrange(0, m as int) =~= strip_fn(seg));
        }
        let mut line: Vec<char> = Vec::new();
        let mut j: usize = 0;
        while j < m
            invariant
                i < segs@.len(),
                m <= segs@[i as int]@.len(),
                j <= m,
                line@ == segs@[i as int]@.subrange(0, j as int),
            decreases m - j,
        {
            line.push(segs[i][j]);
            j = j + 1;
            proof {
                assert(line@ =~= segs@[i as int]@.subrange(0, j as int));
            }
        }
        let ghost old_r = r.deep_view();
        proof {
            assert(line@ == strip_fn(seg));
        }
        r.push(chars_to_string(&line));
        proof {
            assert(r.deep_view() =~= old_r.push(strip_fn(seg)));
            assert(whole.drop_last().take(i + 1 as int) =~= whole.drop_last().take(
                i as int,
            ).push(seg));
            assert(r.deep_view() =~= whole.drop_last().take(i + 1 as int).map_values(strip_fn));
        }
        i = i + 1;
    }
    proof {
        assert(whole.drop_last().take(whole.drop_last().len() as int) =~= whole.drop_last());
    }
    if last.len() > 0 {
        let ghost old_r = r.deep_view();
        r.push(chars_to_string(&last));
        proof {
            assert(r.deep_view() =~= old_r.push(whole.last()));
        }
    }
    r
}

} // verus!
