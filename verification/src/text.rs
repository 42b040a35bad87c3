//! Verified text utilities: character extraction, substring search, suffix
//! and prefix tests, case-insensitive comparison, and resource-path
//! normalization.

use vstd::prelude::*;
use vstd::string::*;

verus! {

/// Relies on `String::push`: appends the given character to the end of the
/// string.
#[verifier::external_body]
pub fn push_char(s: &mut String, c: char)
    ensures
        final(s)@ == old(s)@.push(c),
{
    s.push(c);
}

/// Whether two string slices hold the same characters.
pub fn str_eq(a: &str, b: &str) -> (r: bool)
    ensures
        r == (a@ == b@),
{
    let n = a.unicode_len();
    if n != b.unicode_len() {
        proof {
            assert(a@.len() != b@.len());
        }
        return false;
    }
    for i in 0..n
        invariant
            n == a@.len() == b@.len(),
            a@.take(i as int) == b@.take(i as int),
    {
        if a.get_char(i) != b.get_char(i) {
            proof {
                assert(a@[i as int] != b@[i as int]);
            }
            return false;
        }
        proof {
            assert(a@.take(i + 1) =~= a@.take(i as int).push(a@[i as int]));
            assert(b@.take(i + 1) =~= b@.take(i as int).push(b@[i as int]));
        }
    }
    proof {
        assert(a@.take(n as int) =~= a@);
        assert(b@.take(n as int) =~= b@);
    }
    true
}

/// The characters of a string slice, as a vector.
pub fn chars_of(s: &str) -> (r: Vec<char>)
    ensures
        r@ == s@,
{
    let n = s.unicode_len();
    let mut r: Vec<char> = Vec::new();
    for i in 0..n
        invariant
            n == s@.len(),
            r@ =~= s@.take(i as int),
    {
        r.push(s.get_char(i));
        proof {
            assert(s@.take(i + 1) =~= s@.take(i as int).push(s@[i as int]));
        }
    }
    proof {
        assert(s@.take(n as int) =~= s@);
    }
    r
}

/// A string holding exactly the characters of `cs[from..to]`.
pub fn string_from_range(cs: &Vec<char>, from: usize, to: usize) -> (r: String)
    requires
        from <= to <= cs@.len(),
    ensures
        r@ == cs@.subrange(from as int, to as int),
{
    let mut r = String::new();
    for i in from..to
        invariant
            from <= i <= to <= cs@.len(),
            r@ =~= cs@.subrange(from as int, i as int),
    {
        push_char(&mut r, cs[i]);
        proof {
            assert(cs@.subrange(from as int, i + 1)
                =~= cs@.subrange(from as int, i as int).push(cs@[i as int]));
        }
    }
    r
}

/// A string holding exactly the given characters.
pub fn string_of(cs: &Vec<char>) -> (r: String)
    ensures
        r@ == cs@,
{
    let r = string_from_range(cs, 0, cs.len());
    proof {
        assert(cs@.subrange(0, cs@.len() as int) =~= cs@);
    }
    r
}

/// Whether `sub` occurs as a contiguous run inside `s` at offset `at`.
pub open spec fn occurs_at(s: Seq<char>, sub: Seq<char>, at: int) -> bool {
    &&& 0 <= at
    &&& at + sub.len() <= s.len()
    &&& s.subrange(at, at + sub.len()) == sub
}

/// Whether `sub` occurs as a contiguous run anywhere inside `s`.
pub open spec fn spec_contains(s: Seq<char>, sub: Seq<char>) -> bool {
    exists|at: int| occurs_at(s, sub, at)
}

/// Whether `s` ends with `suffix`.
pub open spec fn spec_ends_with(s: Seq<char>, suffix: Seq<char>) -> bool {
    &&& suffix.len() <= s.len()
    &&& s.subrange(s.len() - suffix.len(), s.len() as int) == suffix
}

/// Whether `s` starts with `prefix`.
pub open spec fn spec_starts_with(s: Seq<char>, prefix: Seq<char>) -> bool {
    &&& prefix.len() <= s.len()
    &&& s.subrange(0, prefix.len() as int) == prefix
}

/// Whether `list` holds a string equal to `s`.
pub fn string_list_contains(list: &Vec<String>, s: &str) -> (r: bool)
    ensures
        r == list@.map_values(|x: String| x@).contains(s@),
{
    let ghost sq = list@.map_values(|x: String| x@);
    let n = list.len();
    for i in 0..n
        invariant
            sq == list@.map_values(|x: String| x@),
            n == list.len(),
            forall|k: int| 0 <= k < i ==> sq[k] != s@,
    {
        proof {
            assert(sq[i as int] == list@[i as int]@);
        }
        if str_eq(list[i].as_str(), s) {
            proof {
                assert(sq.contains(s@));
            }
            return true;
        }
    }
    proof {
        assert(forall|k: int| 0 <= k < sq.len() ==> sq[k] != s@);
        assert(!sq.contains(s@));
    }
    false
}

/// Whether the characters of `cs` starting at `at` spell out `sub`.
fn matches_at(cs: &Vec<char>, sub: &Vec<char>, at: usize) -> (r: bool)
    requires
        at + sub@.len() <= cs@.len(),
    ensures
        r == occurs_at(cs@, sub@, at as int),
{
    let m = sub.len();
    let n = cs.len();
    for j in 0..m
        invariant
            at + m <= n,
            n == cs@.len(),
            m == sub@.len(),
            cs@.subrange(at as int, at + j) =~= sub@.take(j as int),
    {
        if cs[at + j] != sub[j] {
            proof {
                assert(cs@.subrange(at as int, at + m)[j as int] == cs@[at + j]);
                assert(!occurs_at(cs@, sub@, at as int));
            }
            return false;
        }
        proof {
            assert(cs@.subrange(at as int, at + j + 1)
                =~= cs@.subrange(at as int, at + j).push(cs@[at + j]));
            assert(sub@.take(j + 1) =~= sub@.take(j as int).push(sub@[j as int]));
        }
    }
    proof {
        assert(sub@.take(m as int) =~= sub@);
    }
    true
}

/// Whether `sub` occurs as a contiguous run anywhere inside `cs`.
pub fn contains_chars(cs: &Vec<char>, sub: &Vec<char>) -> (r: bool)
    ensures
        r == spec_contains(cs@, sub@),
{
    let n = cs.len();
    let m = sub.len();
    if m > n {
        proof {
            assert(forall|at: int| !occurs_at(cs@, sub@, at));
        }
        return false;
    }
    if m == 0 {
        proof {
            assert(cs@.subrange(0, 0) =~= sub@);
            assert(occurs_at(cs@, sub@, 0));
        }
        return true;
    }
    let mut at: usize = 0;
    while at <= n - m
        invariant
            1 <= m <= n,
            n == cs@.len(),
            m == sub@.len(),
            at <= n - m + 1,
            forall|k: int| 0 <= k < at ==> !occurs_at(cs@, sub@, k),
        decreases n - m - at + 1,
    {
        if matches_at(cs, sub, at) {
            return true;
        }
        at = at + 1;
    }
    proof {
        assert(forall|k: int| occurs_at(cs@, sub@, k) ==> 0 <= k && k + m <= n);
    }
    false
}

/// Whether `sub` occurs as a contiguous run anywhere inside `s`.
pub fn str_contains(s: &str, sub: &str) -> (r: bool)
    ensures
        r == spec_contains(s@, sub@),
{
    let cs = chars_of(s);
    let cv = chars_of(sub);
    contains_chars(&cs, &cv)
}

/// Whether `s` ends with `suffix`.
pub fn str_ends_with(s: &str, suffix: &str) -> (r: bool)
    ensures
        r == spec_ends_with(s@, suffix@),
{
    let cs = chars_of(s);
    let cv = chars_of(suffix);
    if cv.len() > cs.len() {
        return false;
    }
    let at = cs.len() - cv.len();
    matches_at(&cs, &cv, at)
}

/// Whether `s` starts with `prefix`.
pub fn str_starts_with(s: &str, prefix: &str) -> (r: bool)
    ensures
        r == spec_starts_with(s@, prefix@),
{
    let cs = chars_of(s);
    let cv = chars_of(prefix);
    if cv.len() > cs.len() {
        return false;
    }
    matches_at(&cs, &cv, 0)
}

/// The Unicode scalar of `c` with an ASCII lowercase letter folded to its
/// uppercase counterpart.
pub open spec fn upper_scalar(c: char) -> u32 {
    if 'a' <= c && c <= 'z' {
        (c as u32 - 32) as u32
    } else {
        c as u32
    }
}

/// The case-folded image of a character sequence.
pub open spec fn spec_upper(s: Seq<char>) -> Seq<u32> {
    s.map_values(|c: char| upper_scalar(c))
}

/// Whether `a` and `b` are equal up to ASCII case.
pub fn eq_ignore_ascii_case(a: &str, b: &str) -> (r: bool)
    ensures
        r == (spec_upper(a@) == spec_upper(b@)),
{
    let ca = chars_of(a);
    let cb = chars_of(b);
    if ca.len() != cb.len() {
        proof {
            assert(spec_upper(a@).len() != spec_upper(b@).len());
        }
        return false;
    }
    let n = ca.len();
    for i in 0..n
        invariant
            n == ca@.len() == cb@.len(),
            ca@ == a@,
            cb@ == b@,
            spec_upper(a@).take(i as int) == spec_upper(b@).take(i as int),
    {
        let ua = fold_upper(ca[i]);
        let ub = fold_upper(cb[i]);
        if ua != ub {
            proof {
                assert(spec_upper(a@)[i as int] != spec_upper(b@)[i as int]);
            }
            return false;
        }
        proof {
            assert(spec_upper(a@).take(i + 1)
                =~= spec_upper(a@).take(i as int).push(upper_scalar(a@[i as int])));
            assert(spec_upper(b@).take(i + 1)
                =~= spec_upper(b@).take(i as int).push(upper_scalar(b@[i as int])));
        }
    }
    proof {
        assert(spec_upper(a@).take(n as int) =~= spec_upper(a@));
        assert(spec_upper(b@).take(n as int) =~= spec_upper(b@));
    }
    true
}

/// The scalar of `c` with ASCII lowercase folded to uppercase.
fn fold_upper(c: char) -> (r: u32)
    ensures
        r == upper_scalar(c),
{
    let u = c as u32;
    if 97 <= u && u <= 122 {
        u - 32
    } else {
        u
    }
}

// ---------------------------------------------------------------------------
// Trimming and comma-splitting
// ---------------------------------------------------------------------------

/// The views of a vector of strings.
pub open spec fn string_views(r: Seq<String>) -> Seq<Seq<char>> {
    r.map_values(|s: String| s@)
}

/// Whether `c` is an ASCII whitespace character.
pub open spec fn is_space(c: char) -> bool {
    c == ' ' || c == '\t' || c == '\n' || c == '\r'
}

/// `s` without its leading whitespace.
pub open spec fn trim_front(s: Seq<char>) -> Seq<char>
    decreases s.len(),
{
    if s.len() > 0 && is_space(s[0]) {
        trim_front(s.drop_first())
    } else {
        s
    }
}

/// `s` without its trailing whitespace.
pub open spec fn trim_back(s: Seq<char>) -> Seq<char>
    decreases s.len(),
{
    if s.len() > 0 && is_space(s.last()) {
        trim_back(s.drop_last())
    } else {
        s
    }
}

/// `s` without leading or trailing whitespace.
pub open spec fn spec_trim(s: Seq<char>) -> Seq<char> {
    trim_back(trim_front(s))
}

/// A comma character.
pub open spec fn p_comma() -> spec_fn(char) -> bool {
    |c: char| c == ','
}

/// `s` split at commas, each piece trimmed of surrounding whitespace.
pub open spec fn spec_split_trim(s: Seq<char>) -> Seq<Seq<char>>
    decreases s.len(),
    via spec_split_trim_decreases
{
    match crate::queries::first_index_where(s, p_comma()) {
        Some(i) => seq![spec_trim(s.take(i))] + spec_split_trim(s.skip(i + 1)),
        None => seq![spec_trim(s)],
    }
}

#[via_fn]
proof fn spec_split_trim_decreases(s: Seq<char>) {
    crate::queries::lemma_first_index_sound(s, p_comma());
}

/// Whether `c` is an ASCII whitespace character.
fn is_space_char(c: char) -> (r: bool)
    ensures
        r == is_space(c),
{
    c == ' ' || c == '\t' || c == '\n' || c == '\r'
}

/// The trimmed contents of `cs[from..to]`, as a string.
fn trim_range(cs: &Vec<char>, from: usize, to: usize) -> (r: String)
    requires
        from <= to <= cs@.len(),
    ensures
        r@ == spec_trim(cs@.subrange(from as int, to as int)),
{
    let mut a = from;
    while a < to && is_space_char(cs[a])
        invariant
            from <= a <= to <= cs@.len(),
            trim_front(cs@.subrange(a as int, to as int))
                == trim_front(cs@.subrange(from as int, to as int)),
        decreases to - a,
    {
        proof {
            assert(cs@.subrange(a as int, to as int).drop_first()
                =~= cs@.subrange(a + 1, to as int));
        }
        a = a + 1;
    }
    proof {
        assert(trim_front(cs@.subrange(a as int, to as int)) == cs@.subrange(a as int, to as int));
    }
    let mut b = to;
    while b > a && is_space_char(cs[b - 1])
        invariant
            from <= a <= b <= to <= cs@.len(),
            trim_front(cs@.subrange(from as int, to as int)) == cs@.subrange(a as int, to as int),
            trim_back(cs@.subrange(a as int, b as int))
                == trim_back(cs@.subrange(a as int, to as int)),
        decreases b,
    {
        proof {
            assert(cs@.subrange(a as int, b as int).drop_last()
                =~= cs@.subrange(a as int, b - 1));
            assert(cs@.subrange(a as int, b as int).last() == cs@[b - 1]);
        }
        b = b - 1;
    }
    proof {
        assert(trim_back(cs@.subrange(a as int, b as int)) == cs@.subrange(a as int, b as int));
    }
    string_from_range(cs, a, b)
}

/// `s` split at commas, each piece trimmed; used for comma-separated
/// metadata values such as mixin lists.
pub fn split_csv_trimmed(s: &str) -> (r: Vec<String>)
    ensures
        string_views(r@) == spec_split_trim(s@),
{
    let cs = chars_of(s);
    let mut r: Vec<String> = Vec::new();
    split_rec(&cs, 0, &mut r);
    proof {
        assert(cs@.skip(0) =~= cs@);
        assert(string_views(r@) =~= spec_split_trim(s@));
    }
    r
}

/// Splits `cs[start..]` at commas, pushing each trimmed piece onto `res`.
fn split_rec(cs: &Vec<char>, start: usize, res: &mut Vec<String>)
    requires
        start <= cs@.len(),
    ensures
        string_views(final(res)@) == string_views(old(res)@) + spec_split_trim(cs@.skip(start as int)),
    decreases cs@.len() - start,
{
    let ghost tail = cs@.skip(start as int);
    let n = cs.len();
    let mut j = start;
    while j < n && cs[j] != ','
        invariant
            start <= j <= n,
            n == cs@.len(),
            tail == cs@.skip(start as int),
            forall|k: int| 0 <= k < j - start ==> !(p_comma()(tail[k])),
        decreases n - j,
    {
        proof {
            assert(tail[j - start] == cs@[j as int]);
        }
        j = j + 1;
    }
    if j < n {
        proof {
            assert(tail[j - start] == cs@[j as int]);
            crate::queries::lemma_first_index_is(tail, p_comma(), j - start);
            assert(tail.take(j - start) =~= cs@.subrange(start as int, j as int));
            assert(tail.skip(j - start + 1) =~= cs@.skip(j + 1));
        }
        let piece = trim_range(cs, start, j);
        res.push(piece);
        proof {
            assert(string_views(res@) =~= string_views(old(res)@)
                + seq![spec_trim(tail.take(j - start))]);
        }
        split_rec(cs, j + 1, res);
        proof {
            assert(string_views(final(res)@) =~= string_views(old(res)@)
                + spec_split_trim(tail));
        }
    } else {
        proof {
            assert(forall|k: int| 0 <= k < tail.len() ==> !(p_comma()(tail[k])));
            crate::queries::lemma_first_index_none(tail, p_comma());
            assert(tail =~= cs@.subrange(start as int, n as int));
        }
        let piece = trim_range(cs, start, n);
        res.push(piece);
        proof {
            assert(string_views(final(res)@) =~= string_views(old(res)@)
                + spec_split_trim(tail));
        }
    }
}

// ---------------------------------------------------------------------------
// Resource-path normalization
// ---------------------------------------------------------------------------

/// The canonical image of one path character: brace- and angle-style
/// parameter delimiters become colon-style (`{` and `<` map to `:`; `}` and
/// `>` disappear); every other character stands for itself.
pub open spec fn canon_part(c: char) -> Seq<char> {
    if c == '{' || c == '<' {
        seq![':']
    } else if c == '}' || c == '>' {
        Seq::empty()
    } else {
        seq![c]
    }
}

/// The canonical form of the first `k` characters of a path.
pub open spec fn canon_upto(s: Seq<char>, k: int) -> Seq<char>
    decreases k,
{
    if k <= 0 {
        Seq::empty()
    } else {
        canon_upto(s, k - 1) + canon_part(s[k - 1])
    }
}

/// The canonical form of a resource path: parameter placeholders written as
/// `{x}` or `<x>` are rewritten to colon style `:x`, so that paths from
/// different frameworks compare; an empty name has no canonical form.
pub open spec fn spec_normalize(s: Seq<char>) -> Option<Seq<char>> {
    if s.len() == 0 {
        None
    } else {
        Some(canon_upto(s, s.len() as int))
    }
}

/// The canonical form of a resource path, if the name is non-empty.
pub fn normalize_backend_path(name: &str) -> (r: Option<String>)
    ensures
        match r {
            Some(p) => spec_normalize(name@) == Some(p@),
            None => spec_normalize(name@) is None,
        },
{
    let cs = chars_of(name);
    let n = cs.len();
    if n == 0 {
        return None;
    }
    let mut out: Vec<char> = Vec::new();
    for i in 0..n
        invariant
            n == cs@.len(),
            cs@ == name@,
            out@ =~= canon_upto(name@, i as int),
    {
        let c = cs[i];
        if c == '{' || c == '<' {
            out.push(':');
        } else if c == '}' || c == '>' {
        } else {
            out.push(c);
        }
        proof {
            assert(out@ =~= canon_upto(name@, i + 1));
        }
    }
    Some(string_of(&out))
}

} // verus!
