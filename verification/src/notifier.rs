//! Rate-limited alerting: a sliding one-second window caps how many
//! notifications go out, oversized bodies are truncated, and titles are
//! built from the matched pattern.  Actual dispatch to the desktop
//! happens outside the library; this module only decides and prepares.

use vstd::prelude::*;

use crate::config::Config;
use crate::text::chars_to_string;
use crate::text::clone_strings;
use crate::text::str_eq;
use crate::text::to_chars;

verus! {

/// Length of the throttle window, in milliseconds.
pub const THROTTLE_WINDOW_MS: u64 = 1000;

/// Characters kept of an oversized notification body, before the
/// ellipsis.
pub const BODY_KEEP_CHARS: usize = 197;

/// Bodies longer than this many characters are truncated.
pub const BODY_MAX_CHARS: usize = 200;

/// The sliding window of the notification throttle.
#[derive(Debug, Clone, Copy, PartialEq, Eq, Structural)]
pub struct ThrottleState {
    /// When the current window opened.
    pub window_start_ms: u64,
    /// Notifications admitted in the current window.
    pub count_in_window: u32,
}

impl ThrottleState {
    /// Whether the window that opened at `window_start_ms` has lapsed
    /// by `now_ms`.
    pub open spec fn spec_window_expired(&self, now_ms: u64) -> bool {
        now_ms >= self.window_start_ms && now_ms - self.window_start_ms >= THROTTLE_WINDOW_MS
    }

    /// The state after rolling the window forward: unchanged while the
    /// window lasts, fresh (opened at `now_ms`, count zero) once it has
    /// lapsed.
    pub open spec fn spec_rolled(&self, now_ms: u64) -> ThrottleState {
        if self.spec_window_expired(now_ms) {
            ThrottleState { window_start_ms: now_ms, count_in_window: 0 }
        } else {
            *self
        }
    }

    /// One attempt against the rolled state: whether it is admitted,
    /// and the state afterwards.
    pub open spec fn spec_admit(&self, now_ms: u64, throttle: u32) -> (bool, ThrottleState) {
        let rolled = self.spec_rolled(now_ms);
        if rolled.count_in_window < throttle {
            (
                true,
                ThrottleState {
                    window_start_ms: rolled.window_start_ms,
                    count_in_window: (rolled.count_in_window + 1) as u32,
                },
            )
        } else {
            (false, rolled)
        }
    }

    /// A throttle whose first window opens at time zero.
    pub fn new() -> (t: ThrottleState)
        ensures
            t.window_start_ms == 0,
            t.count_in_window == 0,
    {
        ThrottleState { window_start_ms: 0, count_in_window: 0 }
    }

    /// Account one notification attempt at `now_ms`: reset the window
    /// if it has lapsed, then admit the attempt exactly when the count
    /// is still under the cap.
    pub fn try_admit(&mut self, now_ms: u64, throttle: u32) -> (admitted: bool)
        ensures
            (admitted, *final(self)) == old(self).spec_admit(now_ms, throttle),
    {
        if now_ms >= self.window_start_ms && now_ms - self.window_start_ms >= THROTTLE_WINDOW_MS {
            self.count_in_window = 0;
            self.window_start_ms = now_ms;
        }
        if self.count_in_window < throttle {
            self.count_in_window = self.count_in_window + 1;
            true
        } else {
            false
        }
    }
}

/// With a cap of two, three attempts inside one window admit exactly
/// the first two; the third is suppressed and leaves the state
/// untouched.  Once the window has lapsed, the next attempt is admitted
/// again.
pub proof fn lemma_throttle_window(
    s0: ThrottleState,
    t1: u64,
    t2: u64,
    t3: u64,
    t4: u64,
    a1: bool,
    s1: ThrottleState,
    a2: bool,
    s2: ThrottleState,
    a3: bool,
    s3: ThrottleState,
    a4: bool,
    s4: ThrottleState,
)
    requires
        s0.spec_window_expired(t1),
        t1 <= t2 <= t3,
        t3 - t1 < THROTTLE_WINDOW_MS,
        t4 >= t3,
        t4 - t1 >= THROTTLE_WINDOW_MS,
        (a1, s1) == s0.spec_admit(t1, 2),
        (a2, s2) == s1.spec_admit(t2, 2),
        (a3, s3) == s2.spec_admit(t3, 2),
        (a4, s4) == s3.spec_admit(t4, 2),
    ensures
        a1,
        a2,
        !a3,
        s3 == s2,
        a4,
        s4.count_in_window == 1,
{
}

/// A notification ready for dispatch: what the desktop sink is handed.
#[derive(Debug, Clone, PartialEq, Eq)]
pub struct Notification {
    /// The summary line, naming the matched pattern.
    pub title: String,
    /// The matched log line, truncated when oversized.
    pub body: String,
}

/// The notification title for a match of `pattern`, with the watched
/// file named when known.
pub open spec fn spec_title(pattern: Seq<char>, filename: Option<Seq<char>>) -> Seq<char> {
    match filename {
        Some(f) => pattern + " detected in "@ + f,
        None => pattern + " detected"@,
    }
}

/// The notification body for a matched line: the line itself, or its
/// first characters and an ellipsis when it is over the cap.
pub open spec fn spec_body(line: Seq<char>) -> Seq<char> {
    if line.len() > BODY_MAX_CHARS {
        line.subrange(0, BODY_KEEP_CHARS as int) + "..."@
    } else {
        line
    }
}

/// The notification gate: eligibility rules and the shared throttle.
#[derive(Debug)]
pub struct Notifier {
    /// Whether notifications are enabled at all.
    pub notify_enabled: bool,
    /// The patterns whose matches may notify.
    pub notify_patterns: Vec<String>,
    /// Maximum notifications per window.
    pub notify_throttle: u32,
    /// The shared sliding-window state.
    pub throttle: ThrottleState,
}

impl Notifier {
    /// Whether a matched pattern is eligible for notification.
    pub open spec fn spec_eligible(&self, pattern: Seq<char>) -> bool {
        self.notify_enabled && exists|i: int|
            0 <= i < self.notify_patterns@.len() && (#[trigger] self.notify_patterns@[i])@
                == pattern
    }

    /// A gate configured from the rule set, its first window opening at
    /// time zero.
    pub fn new(config: &Config) -> (n: Notifier)
        ensures
            n.notify_enabled == config.notify_enabled,
            n.notify_patterns.deep_view() == config.notify_patterns.deep_view(),
            n.notify_throttle == config.notify_throttle,
            n.throttle == (ThrottleState { window_start_ms: 0, count_in_window: 0 }),
    {
        Notifier {
            notify_enabled: config.notify_enabled,
            notify_patterns: clone_strings(&config.notify_patterns),
            notify_throttle: config.notify_throttle,
            throttle: ThrottleState::new(),
        }
    }

    /// Decide one notification attempt at `now_ms`: nothing when
    /// notifications are off or the pattern is not eligible (the
    /// throttle is left untouched), nothing when the throttle
    /// suppresses it (silently), else the title and truncated body to
    /// dispatch.
    pub fn send_notification(
        &mut self,
        pattern: &str,
        line: &str,
        filename: Option<&str>,
        now_ms: u64,
    ) -> (r: Option<Notification>)
        ensures
            !old(self).spec_eligible(pattern@) ==> r is None && *final(self) == *old(self),
            old(self).spec_eligible(pattern@) ==> {
                let (admitted, after) = old(self).throttle.spec_admit(
                    now_ms,
                    old(self).notify_throttle,
                );
                &&& final(self).throttle == after
                &&& final(self).notify_enabled == old(self).notify_enabled
                &&& final(self).notify_patterns == old(self).notify_patterns
                &&& final(self).notify_throttle == old(self).notify_throttle
                &&& if admitted {
                    r matches Some(n) && n.title@ == spec_title(
                        pattern@,
                        match filename {
                            Some(f) => Some(f@),
                            None => None,
                        },
                    ) && n.body@ == spec_body(line@)
                } else {
                    r is None
                }
            },
    {
        if !self.notify_enabled {
            return None;
        }
        if !self.is_eligible(pattern) {
            return None;
        }
        if !self.throttle.try_admit(now_ms, self.notify_throttle) {
            return None;
        }
        let line_chars = to_chars(line);
        let body: String;
        if line_chars.len() > BODY_MAX_CHARS {
            let mut kept: Vec<char> = Vec::new();
            let mut i: usize = 0;
            while i < BODY_KEEP_CHARS
                invariant
                    line_chars@ == line@,
                    line@.len() > BODY_MAX_CHARS,
                    i <= BODY_KEEP_CHARS,
                    kept@ == line@.subrange(0, i as int),
                decreases BODY_KEEP_CHARS - i,
            {
                kept.push(line_chars[i]);
                i = i + 1;
                proof {
                    assert(kept@ =~= line@.subrange(0, i as int));
                }
            }
            body = chars_to_string(&kept).concat("...");
        } else {
            body = chars_to_string(&line_chars);
        }
        let mut title = String::from_str(pattern);
        match filename {
            Some(f) => {
                title.append(" detected in ");
                title.append(f);
            },
            None => {
                title.append(" detected");
            },
        }
        Some(Notification { title, body })
    }

    fn is_eligible(&self, pattern: &str) -> (r: bool)
        requires
            self.notify_enabled,
        ensures
            r == self.spec_eligible(pattern@),
    {
        let n: usize = self.notify_patterns.len();
        let mut i: usize = 0;
        while i < n
            invariant
                self.notify_enabled,
                n == self.notify_patterns@.len(),
                i <= n,
                forall|j: int| 0 <= j < i ==> (#[trigger] self.notify_patterns@[j])@ != pattern@,
            decreases n - i,
        {
            if str_eq(self.notify_patterns[i].as_str(), pattern) {
                proof {
                    assert((self.notify_patterns@[i as int])@ == pattern@);
                }
                return true;
            }
            i = i + 1;
        }
        false
    }

    /// Exercise the notification path with a fixed test message.
    pub fn test_notification(&mut self, now_ms: u64) -> (r: Option<Notification>)
        ensures
            !old(self).spec_eligible("TEST"@) ==> r is None && *final(self) == *old(self),
            old(self).spec_eligible("TEST"@) ==> {
                let (admitted, after) = old(self).throttle.spec_admit(
                    now_ms,
                    old(self).notify_throttle,
                );
                &&& final(self).throttle == after
                &&& (admitted <==> r is Some)
                &&& (r matches Some(n) ==> n.title@ == spec_title("TEST"@, Some("test.log"@))
                    && n.body@ == "LogWatcher notification test"@)
            },
    {
        proof {
            reveal_strlit("LogWatcher notification test");
        }
        self.send_notification("TEST", "LogWatcher notification test", Some("test.log"), now_ms)
    }

    /// How many notifications the current window has admitted.
    pub fn get_notification_count(&self) -> (r: u32)
        ensures
            r == self.throttle.count_in_window,
    {
        self.throttle.count_in_window
    }
}

} // verus!
