//! Small helpers on sizes and path strings: rotation detection,
//! human-readable size formatting, base names, and start-up file
//! selection.

use vstd::prelude::*;

use crate::text::chars_eq_str;
use crate::text::chars_to_string;
use crate::text::to_chars;

verus! {

/// A watched file counts as rotated when its size has shrunk below the
/// offset that was already tailed.
pub fn is_file_rotated(current_size: u64, previous_size: u64) -> (rotated: bool)
    ensures
        rotated == (current_size < previous_size),
{
    current_size < previous_size
}

/// The character of one decimal digit.
pub open spec fn digit_char(d: nat) -> char {
    ((48 + d) as u8) as char
}

/// The decimal digits of a number.
pub open spec fn spec_digits(n: nat) -> Seq<char>
    decreases n,
{
    if n < 10 {
        seq![digit_char(n)]
    } else {
        spec_digits(n / 10).push(digit_char(n % 10))
    }
}

/// Decimal rendering of a number, executable form.
pub fn u64_digits(n: u64) -> (r: Vec<char>)
    ensures
        r@ == spec_digits(n as nat),
    decreases n,
{
    let d: u8 = (n % 10) as u8;
    let c: char = (48 + d) as char;
    if n < 10 {
        let mut v: Vec<char> = Vec::new();
        v.push(c);
        v
    } else {
        let mut v = u64_digits(n / 10);
        v.push(c);
        v
    }
}

/// A size rendered with one decimal and a unit: the value is scaled by
/// the largest applicable power of 1024, and the single decimal is
/// rounded to the nearest tenth, ties to even.
pub open spec fn spec_format_file_size(size: nat) -> Seq<char> {
    if size < 1024 {
        spec_digits(size) + " B"@
    } else {
        let div: nat = if size < 1048576 {
            1024
        } else if size < 1073741824 {
            1048576
        } else if size < 1099511627776 {
            1073741824
        } else {
            1099511627776
        };
        let unit: Seq<char> = if size < 1048576 {
            " KB"@
        } else if size < 1073741824 {
            " MB"@
        } else if size < 1099511627776 {
            " GB"@
        } else {
            " TB"@
        };
        let q: nat = (size * 10) / div;
        let r: nat = (size * 10) % div;
        let tenths: nat = if 2 * r > div || (2 * r == div && q % 2 == 1) {
            q + 1
        } else {
            q
        };
        spec_digits(tenths / 10) + seq!['.'] + seq![digit_char(tenths % 10)] + unit
    }
}

/// Format a file size in human-readable form.
pub fn format_file_size(size: u64) -> (r: String)
    ensures
        r@ == spec_format_file_size(size as nat),
{
    if size < 1024 {
        let digits = u64_digits(size);
        let s = chars_to_string(&digits);
        s.concat(" B")
    } else {
        let div: u64;
        let unit: &str;
        if size < 1048576 {
            div = 1024;
            unit = " KB";
        } else if size < 1073741824 {
            div = 1048576;
            unit = " MB";
        } else if size < 1099511627776 {
            div = 1073741824;
            unit = " GB";
        } else {
            div = 1099511627776;
            unit = " TB";
        }
        let wide: u128 = (size as u128) * 10;
        let q: u128 = wide / (div as u128);
        let rem: u128 = wide % (div as u128);
        proof {
            assert(q * (div as u128) + rem == wide) by (nonlinear_arith)
                requires
                    div > 0,
                    q == wide / (div as u128),
                    rem == wide % (div as u128),
            ;
            assert(q <= wide);
        }
        let tenths_wide: u128 = if 2 * rem > (div as u128) || (2 * rem == (div as u128) && q % 2
            == 1) {
            q + 1
        } else {
            q
        };
        let tenths: u64 = (tenths_wide / 10) as u64;
        let frac: u8 = (tenths_wide % 10) as u8;
        let digits = u64_digits(tenths);
        let mut all: Vec<char> = digits;
        all.push('.');
        all.push((48 + frac) as char);
        let s = chars_to_string(&all);
        s.concat(unit)
    }
}

/// The characters after the last `/`.
pub open spec fn spec_basename(s: Seq<char>) -> Seq<char>
    decreases s.len(),
{
    if s.len() == 0 {
        Seq::empty()
    } else if s.last() == '/' {
        Seq::empty()
    } else {
        spec_basename(s.drop_last()).push(s.last())
    }
}

/// The input without trailing `/` separators and without trailing `.`
/// components, which name no file of their own.
pub open spec fn spec_strip_trailing(s: Seq<char>) -> Seq<char>
    decreases s.len(),
{
    if s.len() > 0 && s.last() == '/' {
        spec_strip_trailing(s.drop_last())
    } else if s.len() == 1 && s[0] == '.' {
        spec_strip_trailing(s.drop_last())
    } else if s.len() >= 2 && s.last() == '.' && s[s.len() - 2] == '/' {
        spec_strip_trailing(s.drop_last())
    } else {
        s
    }
}

/// The file name of a path string: the last path component, or
/// `unknown` when there is none.
pub open spec fn spec_get_filename(s: Seq<char>) -> Seq<char> {
    let b = spec_basename(spec_strip_trailing(s));
    if b.len() == 0 || b == ".."@ {
        "unknown"@
    } else {
        b
    }
}

proof fn lemma_basename_subrange(s: Seq<char>, k: int)
    requires
        0 <= k <= s.len(),
        forall|j: int| k <= j < s.len() ==> s[j] != '/',
        k > 0 ==> s[k - 1] == '/',
    ensures
        spec_basename(s) == s.subrange(k, s.len() as int),
    decreases s.len(),
{
    if k < s.len() {
        assert(s.last() != '/');
        let t = s.drop_last();
        lemma_basename_subrange(t, k);
        assert(t.subrange(k, t.len() as int) =~= s.subrange(k, s.len() as int).drop_last());
        assert(s.subrange(k, s.len() as int) =~= s.subrange(k, s.len() as int).drop_last().push(
            s.last(),
        ));
    } else {
        if s.len() == 0 {
            assert(spec_basename(s) =~= s.subrange(0, 0));
        } else {
            assert(s.last() == '/');
            assert(s.subrange(k, s.len() as int) =~= Seq::<char>::empty());
        }
    }
}

/// Get the file name from a path string.
pub fn get_filename(path: &str) -> (r: String)
    ensures
        r@ == spec_get_filename(path@),
{
    let chars = to_chars(path);
    let mut end: usize = chars.len();
    proof {
        assert(path@.subrange(0, path@.len() as int) =~= path@);
    }
    while end > 0 && (chars[end - 1] == '/' || (chars[end - 1] == '.' && (end == 1 || chars[end
        - 2] == '/')))
        invariant
            end <= chars@.len(),
            chars@ == path@,
            spec_strip_trailing(path@) == spec_strip_trailing(path@.subrange(0, end as int)),
        decreases end,
    {
        proof {
            assert(path@.subrange(0, end as int).drop_last() =~= path@.subrange(0, end - 1));
        }
        end = end - 1;
    }
    let ghost stripped = path@.subrange(0, end as int);
    proof {
        assert(spec_strip_trailing(stripped) == stripped);
    }
    let mut start: usize = end;
    while start > 0 && chars[start - 1] != '/'
        invariant
            start <= end <= chars@.len(),
            chars@ == path@,
            forall|j: int| start <= j < end ==> path@[j] != '/',
        decreases start,
    {
        start = start - 1;
    }
    proof {
        assert forall|j: int| start <= j < end implies stripped[j] != '/' by {
            assert(stripped[j] == path@[j]);
        }
        if start > 0 {
            assert(stripped[start - 1] == path@[start as int - 1]);
        }
        lemma_basename_subrange(stripped, start as int);
    }
    let mut component: Vec<char> = Vec::new();
    let mut i: usize = start;
    while i < end
        invariant
            start <= i <= end <= chars@.len(),
            chars@ == path@,
            component@ == path@.subrange(start as int, i as int),
        decreases end - i,
    {
        component.push(chars[i]);
        i = i + 1;
        proof {
            assert(component@ =~= path@.subrange(start as int, i as int));
        }
    }
    proof {
        assert(stripped.subrange(start as int, stripped.len() as int) =~= path@.subrange(
            start as int,
            end as int,
        ));
    }
    if component.len() == 0 || chars_eq_str(&component, "..") {
        String::from_str("unknown")
    } else {
        chars_to_string(&component)
    }
}

/// The files marked readable, in their given order.
pub open spec fn spec_selected(files: Seq<Seq<char>>, keep: Seq<bool>) -> Seq<Seq<char>>
    decreases files.len(),
{
    if files.len() == 0 || files.len() != keep.len() {
        Seq::empty()
    } else {
        let rest = spec_selected(files.drop_last(), keep.drop_last());
        if keep.last() {
            rest.push(files.last())
        } else {
            rest
        }
    }
}

/// The files that could not be opened at start-up.
#[derive(Debug, Clone, PartialEq, Eq)]
pub struct FileAccessError {
    /// Every requested file that was not readable.
    pub failed: Vec<String>,
}

/// Select the watchable files: those marked readable, keeping order;
/// when none is readable the whole run is refused, with the failed
/// paths reported.
pub fn validate_files(files: &Vec<String>, readable: &Vec<bool>) -> (r: Result<
    Vec<String>,
    FileAccessError,
>)
    requires
        files@.len() == readable@.len(),
    ensures
        r is Ok <==> exists|i: int| 0 <= i < readable@.len() && readable@[i],
        r matches Ok(v) ==> v.deep_view() == spec_selected(files.deep_view(), readable@),
        r matches Err(e) ==> e.failed.deep_view() == spec_selected(
            files.deep_view(),
            readable@.map_values(|b: bool| !b),
        ),
{
    let mut valid: Vec<String> = Vec::new();
    let mut failed: Vec<String> = Vec::new();
    let mut i: usize = 0;
    let ghost fv = files.deep_view();
    let ghost neg = readable@.map_values(|b: bool| !b);
    while i < files.len()
        invariant
            fv == files.deep_view(),
            neg == readable@.map_values(|b: bool| !b),
            files@.len() == readable@.len(),
            fv.len() == files@.len(),
            i <= files@.len(),
            valid.deep_view() == spec_selected(fv.take(i as int), readable@.take(i as int)),
            failed.deep_view() == spec_selected(fv.take(i as int), neg.take(i as int)),
            (exists|j: int| 0 <= j < i && readable@[j]) <==> valid.deep_view().len() > 0,
        decreases files@.len() - i,
    {
        proof {
            assert(fv.take(i + 1 as int).drop_last() =~= fv.take(i as int));
            assert(readable@.take(i + 1 as int).drop_last() =~= readable@.take(i as int));
            assert(neg.take(i + 1 as int).drop_last() =~= neg.take(i as int));
            assert(fv.take(i + 1 as int).last() == fv[i as int]);
        }
        if readable[i] {
            let ghost old_valid = valid.deep_view();
            valid.push(files[i].clone());
            proof {
                assert(valid.deep_view() =~= old_valid.push(fv[i as int]));
            }
        } else {
            let ghost old_failed = failed.deep_view();
            failed.push(files[i].clone());
            proof {
                assert(failed.deep_view() =~= old_failed.push(fv[i as int]));
            }
        }
        i = i + 1;
    }
    proof {
        assert(fv.take(fv.len() as int) =~= fv);
        assert(readable@.take(fv.len() as int) =~= readable@);
        assert(neg.take(fv.len() as int) =~= neg);
    }
    if valid.len() == 0 {
        Err(FileAccessError { failed })
    } else {
        Ok(valid)
    }
}

} // verus!
