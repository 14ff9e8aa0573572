//! Character-level string utilities with exact specifications.
//!
//! Everything in the pipeline that reads or builds names — asset file
//! names, checksum manifests, version tags, archive entry paths — goes
//! through the helpers in this module, so their contracts pin down the
//! string semantics once for the whole crate.

use vstd::prelude::*;

verus! {

use vstd::string::*;

/// `pat` occurs in `s` starting at position `i`.
pub open spec fn match_at(s: Seq<char>, pat: Seq<char>, i: int) -> bool {
    0 <= i && i + pat.len() <= s.len() && s.subrange(i, i + pat.len()) == pat
}

/// `pat` occurs somewhere in `s`.
pub open spec fn contains_seq(s: Seq<char>, pat: Seq<char>) -> bool {
    exists|i: int| match_at(s, pat, i)
}

/// `s` begins with `pat`.
pub open spec fn starts_with_seq(s: Seq<char>, pat: Seq<char>) -> bool {
    pat.len() <= s.len() && s.subrange(0, pat.len() as int) == pat
}

/// `s` ends with `pat`.
pub open spec fn ends_with_seq(s: Seq<char>, pat: Seq<char>) -> bool {
    pat.len() <= s.len() && s.subrange(s.len() - pat.len(), s.len() as int) == pat
}

/// Relies on `String::push`: appends the single character `c`.
#[verifier::external_body]
pub fn push_char(s: &mut String, c: char)
    ensures
        final(s)@ == old(s)@.push(c),
{
    s.push(c);
}

/// Compares `pat` against `s` at position `i`, character by character.
pub fn match_at_exec(s: &str, pat: &str, i: usize) -> (r: bool)
    requires
        i + pat@.len() <= s@.len(),
        s@.len() <= usize::MAX,
    ensures
        r == match_at(s@, pat@, i as int),
{
    let n: usize = pat.unicode_len();
    let mut j: usize = 0;
    while j < n
        invariant
            n == pat@.len(),
            i + n <= s@.len(),
            s@.len() <= usize::MAX,
            0 <= j <= n,
            forall|k: int| 0 <= k < j ==> s@[i + k] == pat@[k],
        decreases n - j,
    {
        if s.get_char(i + j) != pat.get_char(j) {
            assert(s@.subrange(i as int, i + pat@.len()) != pat@) by {
                assert(s@.subrange(i as int, i + pat@.len())[j as int] != pat@[j as int]);
            }
            return false;
        }
        j = j + 1;
    }
    assert(s@.subrange(i as int, i + pat@.len()) =~= pat@);
    true
}

/// Whether `pat` occurs anywhere in `s`.
pub fn contains_str(s: &str, pat: &str) -> (r: bool)
    ensures
        r == contains_seq(s@, pat@),
{
    let n: usize = s.unicode_len();
    let m: usize = pat.unicode_len();
    if m > n {
        assert(forall|i: int| !match_at(s@, pat@, i));
        return false;
    }
    if m == 0 {
        assert(match_at(s@, pat@, 0)) by {
            assert(s@.subrange(0, 0) =~= pat@);
        }
        return true;
    }
    let mut i: usize = 0;
    while i <= n - m
        invariant
            n == s@.len(),
            m == pat@.len(),
            0 < m <= n,
            0 <= i <= n - m + 1,
            forall|k: int| 0 <= k < i ==> !match_at(s@, pat@, k),
        decreases n - i,
    {
        if match_at_exec(s, pat, i) {
            return true;
        }
        i = i + 1;
    }
    assert(forall|k: int| match_at(s@, pat@, k) ==> 0 <= k <= n - m);
    false
}

/// Whether `s` ends with `pat`.
pub fn ends_with_str(s: &str, pat: &str) -> (r: bool)
    ensures
        r == ends_with_seq(s@, pat@),
{
    let n: usize = s.unicode_len();
    let m: usize = pat.unicode_len();
    if m > n {
        return false;
    }
    match_at_exec(s, pat, n - m)
}

/// Index of the first occurrence of `c` in `s`, or -1 if `c` does not occur.
pub open spec fn first_index_of(s: Seq<char>, c: char) -> int
    decreases s.len(),
{
    if s.len() == 0 {
        -1
    } else if s[0] == c {
        0
    } else {
        let r = first_index_of(s.skip(1), c);
        if r < 0 {
            -1
        } else {
            r + 1
        }
    }
}

/// Index of the last occurrence of `c` in `s`, or -1 if `c` does not occur.
pub open spec fn last_index_of(s: Seq<char>, c: char) -> int
    decreases s.len(),
{
    if s.len() == 0 {
        -1
    } else if s[s.len() - 1] == c {
        s.len() - 1
    } else {
        last_index_of(s.take(s.len() - 1), c)
    }
}

/// What `first_index_of` returns: the position of `c`, with nothing equal
/// to `c` before it, or -1 when `c` is absent.
pub proof fn lemma_first_index_of(s: Seq<char>, c: char)
    ensures
        first_index_of(s, c) == -1 ==> forall|j: int| 0 <= j < s.len() ==> s[j] != c,
        first_index_of(s, c) != -1 ==> {
            let r = first_index_of(s, c);
            0 <= r < s.len() && s[r] == c && forall|j: int| 0 <= j < r ==> s[j] != c
        },
    decreases s.len(),
{
    if s.len() != 0 && s[0] != c {
        lemma_first_index_of(s.skip(1), c);
        let r1 = first_index_of(s.skip(1), c);
        if r1 == -1 {
            assert forall|j: int| 0 <= j < s.len() implies s[j] != c by {
                if j > 0 {
                    assert(s.skip(1)[j - 1] == s[j]);
                }
            }
        } else {
            assert(s.skip(1)[r1] == s[r1 + 1]);
            assert forall|j: int| 0 <= j < r1 + 1 implies s[j] != c by {
                if j > 0 {
                    assert(s.skip(1)[j - 1] == s[j]);
                }
            }
        }
    }
}

/// What `last_index_of` returns: the position of `c`, with nothing equal
/// to `c` after it, or -1 when `c` is absent.
pub proof fn lemma_last_index_of(s: Seq<char>, c: char)
    ensures
        last_index_of(s, c) == -1 ==> forall|j: int| 0 <= j < s.len() ==> s[j] != c,
        last_index_of(s, c) != -1 ==> {
            let r = last_index_of(s, c);
            0 <= r < s.len() && s[r] == c && forall|j: int| r < j < s.len() ==> s[j] != c
        },
    decreases s.len(),
{
    if s.len() != 0 && s[s.len() - 1] != c {
        let t = s.take(s.len() - 1);
        lemma_last_index_of(t, c);
        assert(forall|j: int| 0 <= j < t.len() ==> t[j] == s[j]);
        let r1 = last_index_of(t, c);
        if r1 == -1 {
            assert(forall|j: int| 0 <= j < s.len() ==> s[j] != c);
        } else {
            assert(s[r1] == c);
            assert(forall|j: int| r1 < j < s.len() ==> s[j] != c);
        }
    }
}

/// First index of `c` in `s`, scanning left to right.
pub fn find_char(s: &str, c: char) -> (r: Option<usize>)
    ensures
        match r {
            Some(i) => first_index_of(s@, c) == i as int,
            None => first_index_of(s@, c) == -1,
        },
{
    proof {
        lemma_first_index_of(s@, c);
    }
    let n: usize = s.unicode_len();
    let mut i: usize = 0;
    while i < n
        invariant
            n == s@.len(),
            0 <= i <= n,
            forall|j: int| 0 <= j < i ==> s@[j] != c,
            first_index_of(s@, c) == -1 ==> forall|j: int| 0 <= j < n ==> s@[j] != c,
            first_index_of(s@, c) != -1 ==> {
                let r = first_index_of(s@, c);
                0 <= r < n && s@[r] == c && forall|j: int| 0 <= j < r ==> s@[j] != c
            },
        decreases n - i,
    {
        if s.get_char(i) == c {
            return Some(i);
        }
        i = i + 1;
    }
    None
}

/// Last index of `c` in `s`, scanning right to left.
pub fn rfind_char(s: &str, c: char) -> (r: Option<usize>)
    ensures
        match r {
            Some(i) => last_index_of(s@, c) == i as int,
            None => last_index_of(s@, c) == -1,
        },
{
    proof {
        lemma_last_index_of(s@, c);
    }
    let n: usize = s.unicode_len();
    let mut i: usize = n;
    while i > 0
        invariant
            n == s@.len(),
            0 <= i <= n,
            forall|j: int| i <= j < n ==> s@[j] != c,
            last_index_of(s@, c) == -1 ==> forall|j: int| 0 <= j < n ==> s@[j] != c,
            last_index_of(s@, c) != -1 ==> {
                let r = last_index_of(s@, c);
                0 <= r < n && s@[r] == c && forall|j: int| r < j < n ==> s@[j] != c
            },
        decreases i,
    {
        if s.get_char(i - 1) == c {
            return Some(i - 1);
        }
        i = i - 1;
    }
    None
}

/// Copy of `s` as an owned string.
pub fn to_owned_str(s: &str) -> (r: String)
    ensures
        r@ == s@,
{
    let mut r = String::new();
    r.append(s);
    r
}

/// The characters of `s` from `from` (inclusive) to `to` (exclusive).
pub fn substring(s: &str, from: usize, to: usize) -> (r: String)
    requires
        from <= to <= s@.len(),
    ensures
        r@ == s@.subrange(from as int, to as int),
{
    to_owned_str(s.substring_char(from, to))
}

/// `hay` with every non-overlapping occurrence of `from` replaced by `to`,
/// scanning left to right; an empty `from` matches at every character
/// boundary, as `str::replace` has it.
pub open spec fn replace_seq(hay: Seq<char>, from: Seq<char>, to: Seq<char>) -> Seq<char>
    decreases hay.len(),
{
    if from.len() == 0 {
        if hay.len() == 0 {
            to
        } else {
            to + hay.take(1) + replace_seq(hay.skip(1), from, to)
        }
    } else if hay.len() < from.len() {
        hay
    } else if starts_with_seq(hay, from) {
        to + replace_seq(hay.skip(from.len() as int), from, to)
    } else {
        hay.take(1) + replace_seq(hay.skip(1), from, to)
    }
}

/// Replaces every occurrence of `from` in `hay` by `to`.
pub fn replace_all(hay: &str, from: &str, to: &str) -> (r: String)
    ensures
        r@ == replace_seq(hay@, from@, to@),
    decreases hay@.len(),
{
    let n: usize = hay.unicode_len();
    let m: usize = from.unicode_len();
    if m == 0 {
        if n == 0 {
            to_owned_str(to)
        } else {
            let mut r = to_owned_str(to);
            r.append(hay.substring_char(0, 1));
            let rest = replace_all(hay.substring_char(1, n), from, to);
            proof {
                assert(hay@.skip(1) =~= hay@.subrange(1, n as int));
            }
            r.append(rest.as_str());
            r
        }
    } else if n < m {
        to_owned_str(hay)
    } else if match_at_exec(hay, from, 0) {
        let mut r = to_owned_str(to);
        let rest = replace_all(hay.substring_char(m, n), from, to);
        proof {
            assert(hay@.skip(m as int) =~= hay@.subrange(m as int, n as int));
        }
        r.append(rest.as_str());
        r
    } else {
        let mut r = substring(hay, 0, 1);
        proof {
            assert(hay@.take(1) =~= hay@.subrange(0, 1));
            assert(hay@.skip(1) =~= hay@.subrange(1, n as int));
        }
        let rest = replace_all(hay.substring_char(1, n), from, to);
        r.append(rest.as_str());
        r
    }
}

/// A whitespace character, as the manifest parser counts them: space,
/// tab, carriage return or line feed.
pub open spec fn is_ws(c: char) -> bool {
    c == ' ' || c == '\t' || c == '\n' || c == '\r'
}

/// `s` without leading whitespace.
pub open spec fn trim_start_seq(s: Seq<char>) -> Seq<char>
    decreases s.len(),
{
    if s.len() > 0 && is_ws(s[0]) {
        trim_start_seq(s.skip(1))
    } else {
        s
    }
}

/// `s` without trailing whitespace.
pub open spec fn trim_end_seq(s: Seq<char>) -> Seq<char>
    decreases s.len(),
{
    if s.len() > 0 && is_ws(s[s.len() - 1]) {
        trim_end_seq(s.take(s.len() - 1))
    } else {
        s
    }
}

/// `s` without leading and trailing whitespace.
pub open spec fn trim_seq(s: Seq<char>) -> Seq<char> {
    trim_end_seq(trim_start_seq(s))
}

/// Trimming the front strips exactly the leading whitespace run.
pub proof fn lemma_trim_start_skip(s: Seq<char>, a: int)
    requires
        0 <= a <= s.len(),
        forall|j: int| 0 <= j < a ==> is_ws(s[j]),
        a < s.len() ==> !is_ws(s[a]),
    ensures
        trim_start_seq(s) == s.skip(a),
    decreases a,
{
    if a == 0 {
        assert(s.skip(0) =~= s);
    } else {
        lemma_trim_start_skip(s.skip(1), a - 1);
        assert(s.skip(1).skip(a - 1) =~= s.skip(a));
    }
}

/// Trimming the back strips exactly the trailing whitespace run.
pub proof fn lemma_trim_end_take(s: Seq<char>, b: int)
    requires
        0 <= b <= s.len(),
        forall|j: int| b <= j < s.len() ==> is_ws(s[j]),
        b > 0 ==> !is_ws(s[b - 1]),
    ensures
        trim_end_seq(s) == s.take(b),
    decreases s.len() - b,
{
    if b == s.len() {
        assert(s.take(b) =~= s);
    } else {
        lemma_trim_end_take(s.take(s.len() - 1), b);
        assert(s.take(s.len() - 1).take(b) =~= s.take(b));
    }
}

/// Strips leading and trailing whitespace from `s`.
pub fn trim_str(s: &str) -> (r: String)
    ensures
        r@ == trim_seq(s@),
{
    let n: usize = s.unicode_len();
    let mut a: usize = 0;
    while a < n && is_ws_exec(s.get_char(a))
        invariant
            n == s@.len(),
            0 <= a <= n,
            forall|j: int| 0 <= j < a ==> is_ws(s@[j]),
        decreases n - a,
    {
        a = a + 1;
    }
    proof {
        lemma_trim_start_skip(s@, a as int);
    }
    if a == n {
        proof {
            assert(trim_seq(s@) =~= Seq::<char>::empty());
        }
        String::new()
    } else {
        let mut b: usize = n;
        while b > a && is_ws_exec(s.get_char(b - 1))
            invariant
                n == s@.len(),
                0 <= a <= b <= n,
                a < n && !is_ws(s@[a as int]),
                forall|j: int| b <= j < n ==> is_ws(s@[j]),
            decreases b,
        {
            b = b - 1;
        }
        proof {
            let t = s@.skip(a as int);
            lemma_trim_end_take(t, b - a);
            assert(t.take(b - a) =~= s@.subrange(a as int, b as int));
        }
        substring(s, a, b)
    }
}

/// Whether `c` is whitespace, in the sense of [`is_ws`].
pub fn is_ws_exec(c: char) -> (r: bool)
    ensures
        r == is_ws(c),
{
    c == ' ' || c == '\t' || c == '\n' || c == '\r'
}

/// The lines of `s` after the characters of `cur` have already been read:
/// lines are separated by a line feed, a carriage return directly before
/// a separator is dropped, and a final separator opens no further line,
/// as `str::lines` has it.
pub open spec fn lines_acc(s: Seq<char>, cur: Seq<char>) -> Seq<Seq<char>>
    decreases s.len(),
{
    if s.len() == 0 {
        if cur.len() == 0 {
            Seq::empty()
        } else {
            seq![cur]
        }
    } else if s[0] == '\n' {
        seq![strip_cr(cur)] + lines_acc(s.skip(1), Seq::empty())
    } else {
        lines_acc(s.skip(1), cur.push(s[0]))
    }
}

/// `l` without a trailing carriage return.
pub open spec fn strip_cr(l: Seq<char>) -> Seq<char> {
    if l.len() > 0 && l[l.len() - 1] == '\r' {
        l.take(l.len() - 1)
    } else {
        l
    }
}

/// The lines of `s`.
pub open spec fn lines_of(s: Seq<char>) -> Seq<Seq<char>> {
    lines_acc(s, Seq::empty())
}

/// Splits `s` into its lines.
pub fn lines_vec(s: &str) -> (r: Vec<String>)
    ensures
        r@.map_values(|l: String| l@) == lines_of(s@),
{
    let n: usize = s.unicode_len();
    let mut out: Vec<String> = Vec::new();
    let mut cur = String::new();
    let mut i: usize = 0;
    proof {
        assert(cur@ =~= Seq::<char>::empty());
        assert(s@.skip(0) =~= s@);
        assert(out@.map_values(|l: String| l@) + lines_acc(s@, cur@) =~= lines_acc(s@, cur@));
    }
    while i < n
        invariant
            n == s@.len(),
            0 <= i <= n,
            out@.map_values(|l: String| l@) + lines_acc(s@.skip(i as int), cur@) == lines_of(
                s@,
            ),
        decreases n - i,
    {
        let c = s.get_char(i);
        proof {
            assert(s@.skip(i as int)[0] == s@[i as int]);
            assert(s@.skip(i as int).skip(1) =~= s@.skip(i + 1));
        }
        if c == '\n' {
            let line = strip_cr_exec(&cur);
            cur = String::new();
            let ghost prev = out@.map_values(|l: String| l@);
            out.push(line);
            proof {
                assert(out@.map_values(|l: String| l@) =~= prev + seq![line@]);
            }
        } else {
            push_char(&mut cur, c);
        }
        i = i + 1;
    }
    proof {
        assert(s@.skip(n as int) =~= Seq::<char>::empty());
    }
    if cur.as_str().unicode_len() > 0 {
        let ghost prev = out@.map_values(|l: String| l@);
        let ghost cv = cur@;
        out.push(cur);
        proof {
            assert(out@.map_values(|l: String| l@) =~= prev + seq![cv]);
        }
    }
    out
}

/// A path component worth keeping: nonempty and not the current-directory
/// marker.
pub open spec fn keep_component(c: Seq<char>) -> bool {
    c.len() > 0 && c != seq!['.']
}

/// The components of the slash-separated path `p` that remain after the
/// characters of `cur` have been read, with empty and current-directory
/// components dropped.
pub open spec fn components_acc(p: Seq<char>, cur: Seq<char>) -> Seq<Seq<char>>
    decreases p.len(),
{
    if p.len() == 0 {
        if keep_component(cur) {
            seq![cur]
        } else {
            Seq::empty()
        }
    } else if p[0] == '/' {
        if keep_component(cur) {
            seq![cur] + components_acc(p.skip(1), Seq::empty())
        } else {
            components_acc(p.skip(1), Seq::empty())
        }
    } else {
        components_acc(p.skip(1), cur.push(p[0]))
    }
}

/// The slash-separated components of `p`, with empty and
/// current-directory components dropped.
pub open spec fn path_components(p: Seq<char>) -> Seq<Seq<char>> {
    components_acc(p, Seq::empty())
}

/// Splits `p` into its path components.
pub fn split_components(p: &str) -> (r: Vec<String>)
    ensures
        r@.map_values(|c: String| c@) == path_components(p@),
{
    let n: usize = p.unicode_len();
    let mut out: Vec<String> = Vec::new();
    let mut cur = String::new();
    let mut i: usize = 0;
    proof {
        assert(cur@ =~= Seq::<char>::empty());
        assert(p@.skip(0) =~= p@);
        assert(out@.map_values(|c: String| c@) + components_acc(p@, cur@) =~= components_acc(
            p@,
            cur@,
        ));
    }
    while i < n
        invariant
            n == p@.len(),
            0 <= i <= n,
            out@.map_values(|c: String| c@) + components_acc(p@.skip(i as int), cur@)
                == path_components(p@),
        decreases n - i,
    {
        let c = p.get_char(i);
        proof {
            assert(p@.skip(i as int)[0] == p@[i as int]);
            assert(p@.skip(i as int).skip(1) =~= p@.skip(i + 1));
        }
        if c == '/' {
            if keep_component_exec(&cur) {
                let ghost prev = out@.map_values(|l: String| l@);
                let ghost cv = cur@;
                out.push(cur);
                proof {
                    assert(out@.map_values(|l: String| l@) =~= prev + seq![cv]);
                }
            }
            cur = String::new();
            proof {
                assert(cur@ =~= Seq::<char>::empty());
            }
        } else {
            push_char(&mut cur, c);
        }
        i = i + 1;
    }
    proof {
        assert(p@.skip(n as int) =~= Seq::<char>::empty());
    }
    if keep_component_exec(&cur) {
        let ghost prev = out@.map_values(|l: String| l@);
        let ghost cv = cur@;
        out.push(cur);
        proof {
            assert(out@.map_values(|l: String| l@) =~= prev + seq![cv]);
        }
    }
    out
}

/// Whether `c` is a component worth keeping, in the sense of
/// [`keep_component`].
pub fn keep_component_exec(c: &String) -> (r: bool)
    ensures
        r == keep_component(c@),
{
    let n: usize = c.as_str().unicode_len();
    if n == 0 {
        false
    } else if n == 1 && c.as_str().get_char(0) == '.' {
        proof {
            assert(c@ =~= seq!['.']);
        }
        false
    } else {
        proof {
            if n == 1 {
                assert(c@[0] != '.');
                assert(c@ != seq!['.']);
            } else {
                assert(c@.len() != seq!['.'].len());
            }
        }
        true
    }
}

/// Reading a slash-free prefix only grows the pending component: the
/// components of `t + s` from `cur` are those of `s` from `cur + t`.
pub proof fn lemma_components_acc_prefix(t: Seq<char>, s: Seq<char>, cur: Seq<char>)
    requires
        forall|i: int| 0 <= i < t.len() ==> t[i] != '/',
    ensures
        components_acc(t + s, cur) == components_acc(s, cur + t),
    decreases t.len(),
{
    if t.len() == 0 {
        assert(t + s =~= s);
        assert(cur + t =~= cur);
    } else {
        assert((t + s)[0] == t[0]);
        assert((t + s).skip(1) =~= t.skip(1) + s);
        lemma_components_acc_prefix(t.skip(1), s, cur.push(t[0]));
        assert(cur.push(t[0]) + t.skip(1) =~= cur + t);
    }
}

/// A slash-free, kept component followed by a slash is the first
/// component of a path: the rest of the components are the rest of the
/// path's.
pub proof fn lemma_top_component(top: Seq<char>, rest: Seq<char>)
    requires
        keep_component(top),
        forall|i: int| 0 <= i < top.len() ==> top[i] != '/',
    ensures
        path_components(top + seq!['/'] + rest) == seq![top] + path_components(rest),
{
    let tail = seq!['/'] + rest;
    assert(top + seq!['/'] + rest =~= top + tail);
    lemma_components_acc_prefix(top, tail, Seq::empty());
    assert(Seq::<char>::empty() + top =~= top);
    assert(tail[0] == '/');
    assert(tail.skip(1) =~= rest);
}

/// `base` with each component of `comps` appended behind a slash.
pub open spec fn joined_under(base: Seq<char>, comps: Seq<Seq<char>>) -> Seq<char>
    decreases comps.len(),
{
    if comps.len() == 0 {
        base
    } else {
        joined_under(base + seq!['/'] + comps[0], comps.skip(1))
    }
}

/// Appends the components of `comps`, starting at index `from`, behind
/// slashes under `base`.
pub fn join_under(base: String, comps: &Vec<String>, from: usize) -> (r: String)
    requires
        from <= comps@.len(),
    ensures
        r@ == joined_under(base@, comps@.map_values(|c: String| c@).skip(from as int)),
{
    let ghost cs = comps@.map_values(|c: String| c@);
    let mut r = base;
    let mut i: usize = from;
    while i < comps.len()
        invariant
            from <= i <= comps@.len(),
            cs == comps@.map_values(|c: String| c@),
            joined_under(r@, cs.skip(i as int)) == joined_under(base@, cs.skip(from as int)),
        decreases comps@.len() - i,
    {
        let ghost before = r@;
        r.append("/");
        r.append(comps[i].as_str());
        proof {
            reveal_strlit("/");
            assert(r@ =~= before + seq!['/'] + cs[i as int]);
            assert(cs.skip(i as int)[0] == cs[i as int]);
            assert(cs.skip(i as int).skip(1) =~= cs.skip(i + 1));
        }
        i = i + 1;
    }
    proof {
        assert(cs.skip(comps@.len() as int) =~= Seq::<Seq<char>>::empty());
    }
    r
}

/// `l` without a trailing carriage return.
pub fn strip_cr_exec(l: &String) -> (r: String)
    ensures
        r@ == strip_cr(l@),
{
    let ln: usize = l.as_str().unicode_len();
    if ln > 0 && l.as_str().get_char(ln - 1) == '\r' {
        proof {
            assert(l@.take(ln - 1) =~= l@.subrange(0, ln - 1));
        }
        substring(l.as_str(), 0, ln - 1)
    } else {
        to_owned_str(l.as_str())
    }
}

} // verus!
