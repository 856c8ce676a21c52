//! Character-level helpers shared by the rule set, the matcher and the
//! tailer: Unicode case folding, substring search, trimming and
//! splitting, all specified over `Seq<char>`.

use vstd::prelude::*;

verus! {

/// The characters of the lower-cased form of `s`, as
/// `str::to_lowercase` computes it.  Unicode lower-casing takes pages
/// to state, so the result only carries a name; every case-insensitive
/// contract of this crate speaks of the same name.
pub uninterp spec fn lower_of(s: Seq<char>) -> Seq<char>;

/// The characters of a string slice, as a vector.
pub fn to_chars(s: &str) -> (r: Vec<char>)
    ensures
        r@ == s@,
{
    let n: usize = s.unicode_len();
    let mut r: Vec<char> = Vec::new();
    let mut i: usize = 0;
    while i < n
        invariant
            n == s@.len(),
            i <= n,
            r@ == s@.subrange(0, i as int),
        decreases n - i,
    {
        r.push(s.get_char(i));
        i = i + 1;
        proof {
            assert(r@ =~= s@.subrange(0, i as int));
        }
    }
    proof {
        assert(r@ =~= s@);
    }
    r
}

/// A `String` with exactly the given characters.
///
/// Relies on `String`'s `FromIterator` impl: collecting characters
/// yields a string whose characters are the collected ones in order.
#[verifier::external_body]
pub fn chars_to_string(v: &Vec<char>) -> (s: String)
    ensures
        s@ == v@,
{
    v.iter().collect()
}

/// A lower-cased copy of a string.
///
/// Relies on `str::to_lowercase`: the result depends on the characters
/// alone, which is what [`lower_of`] names; an empty string stays
/// empty.
#[verifier::external_body]
pub fn lower_string(s: &str) -> (r: String)
    ensures
        r@ == lower_of(s@),
        s@.len() == 0 ==> r@.len() == 0,
{
    s.to_lowercase()
}

/// The needle occurs in the haystack starting at position `i`.
pub open spec fn match_at(hay: Seq<char>, needle: Seq<char>, i: int) -> bool {
    0 <= i && i + needle.len() <= hay.len() && hay.subrange(i, i + needle.len()) == needle
}

/// Plain substring containment.
pub open spec fn contains_seq(hay: Seq<char>, needle: Seq<char>) -> bool {
    exists|i: int| match_at(hay, needle, i)
}

/// Whether the needle occurs at one given position, executable form.
fn match_at_exec(hay: &Vec<char>, needle: &Vec<char>, i: usize) -> (r: bool)
    requires
        i + needle@.len() <= hay@.len(),
    ensures
        r == match_at(hay@, needle@, i as int),
{
    let m: usize = needle.len();
    let n: usize = hay.len();
    let mut k: usize = 0;
    while k < m
        invariant
            m == needle@.len(),
            n == hay@.len(),
            i + m <= n,
            k <= m,
            forall|j: int| 0 <= j < k ==> hay@[i + j] == needle@[j],
        decreases m - k,
    {
        if hay[i + k] != needle[k] {
            proof {
                assert(hay@.subrange(i as int, i + m as int)[k as int] == hay@[i + k]);
            }
            return false;
        }
        k = k + 1;
    }
    proof {
        assert(hay@.subrange(i as int, i + m as int) =~= needle@);
    }
    true
}

/// Substring containment, executable form: naive scan over every
/// starting position.
pub fn contains_chars(hay: &Vec<char>, needle: &Vec<char>) -> (r: bool)
    ensures
        r == contains_seq(hay@, needle@),
{
    let m: usize = needle.len();
    let n: usize = hay.len();
    if m == 0 {
        proof {
            assert(hay@.subrange(0, 0) =~= needle@);
            assert(match_at(hay@, needle@, 0));
        }
        return true;
    }
    if m > n {
        proof {
            assert(forall|i: int| !match_at(hay@, needle@, i));
        }
        return false;
    }
    let mut i: usize = 0;
    while i <= n - m
        invariant
            1 <= m <= n,
            m == needle@.len(),
            n == hay@.len(),
            i <= n - m + 1,
            forall|j: int| 0 <= j < i ==> !match_at(hay@, needle@, j),
        decreases n - i,
    {
        if match_at_exec(hay, needle, i) {
            return true;
        }
        i = i + 1;
    }
    proof {
        assert(forall|j: int| j > n - m ==> !match_at(hay@, needle@, j));
    }
    false
}

/// Character-vector equality, executable form.
pub fn chars_eq(a: &Vec<char>, b: &Vec<char>) -> (r: bool)
    ensures
        r == (a@ == b@),
{
    if a.len() != b.len() {
        return false;
    }
    let n: usize = a.len();
    let mut i: usize = 0;
    while i < n
        invariant
            n == a@.len() == b@.len(),
            i <= n,
            forall|j: int| 0 <= j < i ==> a@[j] == b@[j],
        decreases n - i,
    {
        if a[i] != b[i] {
            return false;
        }
        i = i + 1;
    }
    proof {
        assert(a@ =~= b@);
    }
    true
}

/// Whether a character vector spells the given string slice.
pub fn chars_eq_str(a: &Vec<char>, b: &str) -> (r: bool)
    ensures
        r == (a@ == b@),
{
    let bc = to_chars(b);
    chars_eq(a, &bc)
}

/// String-slice equality by characters.
pub fn str_eq(a: &str, b: &str) -> (r: bool)
    ensures
        r == (a@ == b@),
{
    let ac = to_chars(a);
    chars_eq_str(&ac, b)
}

/// An element-wise copy of a vector of strings.
pub fn clone_strings(v: &Vec<String>) -> (r: Vec<String>)
    ensures
        r.deep_view() == v.deep_view(),
{
    let mut r: Vec<String> = Vec::new();
    let mut i: usize = 0;
    while i < v.len()
        invariant
            i <= v@.len(),
            r.deep_view() == v.deep_view().take(i as int),
        decreases v@.len() - i,
    {
        let c = v[i].clone();
        proof {
            assert(c == v@[i as int]);
            assert(c.deep_view() == v.deep_view()[i as int]);
        }
        let ghost old_r = r.deep_view();
        r.push(c);
        i = i + 1;
        proof {
            assert(r.deep_view() =~= old_r.push(v.deep_view()[i - 1]));
            assert(r.deep_view() =~= v.deep_view().take(i as int));
        }
    }
    proof {
        assert(v.deep_view().take(v@.len() as int) =~= v.deep_view());
    }
    r
}

/// The characters that trimming strips: the Unicode `White_Space` set,
/// as `char::is_whitespace` recognizes it.
pub open spec fn is_space_char(c: char) -> bool {
    ||| 0x9 <= c as u32 <= 0xD
    ||| c as u32 == 0x20
    ||| c as u32 == 0x85
    ||| c as u32 == 0xA0
    ||| c as u32 == 0x1680
    ||| 0x2000 <= c as u32 <= 0x200A
    ||| c as u32 == 0x2028
    ||| c as u32 == 0x2029
    ||| c as u32 == 0x202F
    ||| c as u32 == 0x205F
    ||| c as u32 == 0x3000
}

/// Whitespace test, executable form.
pub fn is_space_char_exec(c: char) -> (r: bool)
    ensures
        r == is_space_char(c),
{
    let u: u32 = c as u32;
    (0x9 <= u && u <= 0xD) || u == 0x20 || u == 0x85 || u == 0xA0 || u == 0x1680 || (0x2000 <= u
        && u <= 0x200A) || u == 0x2028 || u == 0x2029 || u == 0x202F || u == 0x205F || u == 0x3000
}

/// A sequence with leading and trailing whitespace removed.
pub open spec fn trim_seq(s: Seq<char>) -> Seq<char>
    decreases s.len(),
{
    if s.len() == 0 {
        s
    } else if is_space_char(s[0]) {
        trim_seq(s.drop_first())
    } else if is_space_char(s.last()) {
        trim_seq(s.drop_last())
    } else {
        s
    }
}

proof fn lemma_trim_all_space(s: Seq<char>)
    requires
        forall|i: int| 0 <= i < s.len() ==> is_space_char(s[i]),
    ensures
        trim_seq(s) == Seq::<char>::empty(),
    decreases s.len(),
{
    if s.len() == 0 {
        assert(s =~= Seq::<char>::empty());
    } else {
        lemma_trim_all_space(s.drop_first());
    }
}

proof fn lemma_trim_subrange(s: Seq<char>, start: int, end: int)
    requires
        0 <= start <= end <= s.len(),
        forall|i: int| 0 <= i < start ==> is_space_char(s[i]),
        forall|i: int| end <= i < s.len() ==> is_space_char(s[i]),
        start < end ==> !is_space_char(s[start]) && !is_space_char(s[end - 1]),
    ensures
        trim_seq(s) == s.subrange(start, end),
    decreases s.len(),
{
    if start == end {
        assert(forall|i: int| 0 <= i < s.len() ==> is_space_char(s[i]));
        lemma_trim_all_space(s);
        assert(s.subrange(start, end) =~= Seq::<char>::empty());
    } else if start > 0 {
        let t = s.drop_first();
        assert(forall|i: int| 0 <= i < start - 1 ==> is_space_char(t[i]));
        assert(forall|i: int| end - 1 <= i < t.len() ==> is_space_char(t[i]));
        lemma_trim_subrange(t, start - 1, end - 1);
        assert(t.subrange(start - 1, end - 1) =~= s.subrange(start, end));
    } else if end < s.len() {
        let t = s.drop_last();
        assert(forall|i: int| end <= i < t.len() ==> is_space_char(t[i]));
        lemma_trim_subrange(t, start, end);
        assert(t.subrange(start, end) =~= s.subrange(start, end));
    } else {
        assert(!is_space_char(s[0]));
        assert(!is_space_char(s.last()));
        assert(s.subrange(0, s.len() as int) =~= s);
    }
}

/// Leading and trailing whitespace removed, executable form.
pub fn trim_chars(v: &Vec<char>) -> (r: Vec<char>)
    ensures
        r@ == trim_seq(v@),
{
    let n: usize = v.len();
    let mut start: usize = 0;
    while start < n && is_space_char_exec(v[start])
        invariant
            n == v@.len(),
            start <= n,
            forall|i: int| 0 <= i < start ==> is_space_char(v@[i]),
        decreases n - start,
    {
        start = start + 1;
    }
    let mut end: usize = n;
    while end > start && is_space_char_exec(v[end - 1])
        invariant
            n == v@.len(),
            start <= end <= n,
            forall|i: int| end <= i < n ==> is_space_char(v@[i]),
        decreases end,
    {
        end = end - 1;
    }
    let mut r: Vec<char> = Vec::new();
    let mut i: usize = start;
    while i < end
        invariant
            n == v@.len(),
            start <= i <= end <= n,
            r@ == v@.subrange(start as int, i as int),
        decreases end - i,
    {
        r.push(v[i]);
        i = i + 1;
        proof {
            assert(r@ =~= v@.subrange(start as int, i as int));
        }
    }
    proof {
        lemma_trim_subrange(v@, start as int, end as int);
    }
    r
}

/// Splitting at every separator, every segment kept, as `str::split`
/// does: the empty sequence yields one empty segment, and a trailing
/// separator yields a trailing empty segment.
pub open spec fn split_seq(s: Seq<char>, sep: char) -> Seq<Seq<char>>
    decreases s.len(),
{
    if s.len() == 0 {
        seq![Seq::<char>::empty()]
    } else if s.last() == sep {
        split_seq(s.drop_last(), sep).push(Seq::<char>::empty())
    } else {
        let prev = split_seq(s.drop_last(), sep);
        prev.update(prev.len() - 1, prev.last().push(s.last()))
    }
}

pub proof fn lemma_split_seq_len(s: Seq<char>, sep: char)
    ensures
        split_seq(s, sep).len() >= 1,
    decreases s.len(),
{
    if s.len() > 0 {
        lemma_split_seq_len(s.drop_last(), sep);
    }
}

/// Splitting at every separator, executable form.
pub fn split_chars(v: &Vec<char>, sep: char) -> (r: Vec<Vec<char>>)
    ensures
        r.deep_view() == split_seq(v@, sep),
{
    let mut r: Vec<Vec<char>> = Vec::new();
    let mut cur: Vec<char> = Vec::new();
    let mut i: usize = 0;
    while i < v.len()
        invariant
            i <= v@.len(),
            r.deep_view().push(cur@) == split_seq(v@.subrange(0, i as int), sep),
        decreases v@.len() - i,
    {
        let ghost prefix = v@.subrange(0, i as int);
        let ghost prefix1 = v@.subrange(0, i + 1 as int);
        proof {
            assert(prefix1.drop_last() =~= prefix);
            assert(prefix1.last() == v@[i as int]);
        }
        if v[i] == sep {
            let ghost old_r = r.deep_view();
            let ghost old_cur = cur@;
            r.push(cur);
            cur = Vec::new();
            proof {
                assert(r.deep_view() =~~= old_r.push(old_cur));
                assert(r.deep_view().push(cur@) =~~= split_seq(prefix, sep).push(
                    Seq::<char>::empty(),
                ));
            }
        } else {
            let ghost old_cur = cur@;
            cur.push(v[i]);
            proof {
                let prev = split_seq(prefix, sep);
                lemma_split_seq_len(prefix, sep);
                assert(r.deep_view().push(cur@) =~~= prev.update(
                    prev.len() - 1,
                    prev.last().push(v@[i as int]),
                ));
            }
        }
        i = i + 1;
    }
    proof {
        assert(v@.subrange(0, v@.len() as int) =~= v@);
    }
    r.push(cur);
    proof {
        assert(r.deep_view() =~~= split_seq(v@, sep));
    }
    r
}

/// Segments each trimmed, the ones left empty dropped.
pub open spec fn spec_clean_segments(segs: Seq<Seq<char>>) -> Seq<Seq<char>> {
    segs.map_values(|p: Seq<char>| trim_seq(p)).filter(|p: Seq<char>| p.len() != 0)
}

/// Trim every segment and drop the empty ones, executable form.
pub fn clean_segments(segs: &Vec<Vec<char>>) -> (r: Vec<String>)
    ensures
        r.deep_view() == spec_clean_segments(segs.deep_view()),
{
    broadcast use vstd::prelude::Seq::lemma_filter_push;
    broadcast use vstd::prelude::Seq::lemma_push_map_commute;

    let ghost sv = segs.deep_view();
    let ghost trim_fn = |p: Seq<char>| trim_seq(p);
    let ghost keep_fn = |p: Seq<char>| p.len() != 0;
    let mut r: Vec<String> = Vec::new();
    let mut i: usize = 0;
    while i < segs.len()
        invariant
            sv == segs.deep_view(),
            i <= segs@.len(),
            segs@.len() == sv.len(),
            trim_fn == (|p: Seq<char>| trim_seq(p)),
            keep_fn == (|p: Seq<char>| p.len() != 0),
            r.deep_view() == sv.take(i as int).map_values(trim_fn).filter(keep_fn),
        decreases segs@.len() - i,
    {
        let ghost pre = sv.take(i as int);
        let ghost pre1 = sv.take(i + 1 as int);
        let ghost seg = sv[i as int];
        proof {
            assert(pre1 =~= pre.push(seg));
            assert(pre1.map_values(trim_fn) =~= pre.map_values(trim_fn).push(trim_fn(seg)));
            let m1 = pre.map_values(trim_fn);
            m1.lemma_filter_push(trim_fn(seg), keep_fn);
            assert(pre1.map_values(trim_fn) == m1.push(trim_fn(seg)));
        }
        let t = trim_chars(&segs[i]);
        proof {
            assert(segs[i as int].deep_view() == seg);
            assert(segs[i as int]@ =~= segs[i as int].deep_view());
            assert(t@ == trim_fn(seg));
        }
        if t.len() > 0 {
            let ghost old_r = r.deep_view();
            r.push(chars_to_string(&t));
            proof {
                assert(keep_fn(trim_fn(seg)));
                assert(r.deep_view() =~= old_r.push(t@));
            }
        } else {
            proof {
                assert(!keep_fn(trim_fn(seg)));
            }
        }
        i = i + 1;
    }
    proof {
        assert(sv.take(sv.len() as int) =~= sv);
    }
    r
}

} // verus!
