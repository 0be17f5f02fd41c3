//! Character-level text helpers with exact specifications.
//!
//! Strings are handled as sequences of Unicode scalar values. Every exec
//! helper here is proved against a spec function stated over `Seq<char>`.
use vstd::prelude::*;
use vstd::string::StringSliceAdditionalSpecFns;

verus! {

broadcast use vstd::std_specs::iter::group_iter_axioms;

// ---------------------------------------------------------------------------
// Specifications
// ---------------------------------------------------------------------------

/// Unicode `White_Space`, the property behind `char::is_whitespace`.
pub open spec fn is_ws(c: char) -> bool {
    let u = c as u32;
    (0x09 <= u && u <= 0x0D) || u == 0x20 || u == 0x85 || u == 0xA0 || u == 0x1680 || (0x2000
        <= u && u <= 0x200A) || u == 0x2028 || u == 0x2029 || u == 0x202F || u == 0x205F || u
        == 0x3000
}

/// Index of the first non-whitespace character at or after `i` (or `s.len()`).
pub open spec fn first_non_ws(s: Seq<char>, i: int) -> int
    decreases s.len() - i,
{
    if i < 0 || i >= s.len() {
        s.len() as int
    } else if !is_ws(s[i]) {
        i
    } else {
        first_non_ws(s, i + 1)
    }
}

/// Index of the first whitespace character at or after `i` (or `s.len()`).
pub open spec fn first_ws(s: Seq<char>, i: int) -> int
    decreases s.len() - i,
{
    if i < 0 || i >= s.len() {
        s.len() as int
    } else if is_ws(s[i]) {
        i
    } else {
        first_ws(s, i + 1)
    }
}

/// One past the last non-whitespace character before `j` (or 0).
pub open spec fn end_non_ws(s: Seq<char>, j: int) -> int
    decreases j,
{
    if j <= 0 || j > s.len() {
        0
    } else if !is_ws(s[j - 1]) {
        j
    } else {
        end_non_ws(s, j - 1)
    }
}

/// `str::trim`: leading and trailing whitespace removed.
pub open spec fn trim(s: Seq<char>) -> Seq<char> {
    let a = first_non_ws(s, 0);
    if a >= s.len() {
        Seq::empty()
    } else {
        s.subrange(a, end_non_ws(s, s.len() as int))
    }
}


/// `str::trim().is_empty()`.
pub open spec fn is_blank(s: Seq<char>) -> bool {
    first_non_ws(s, 0) == s.len()
}

pub open spec fn ascii_lower_char(c: char) -> char {
    if 'A' <= c && c <= 'Z' {
        (((c as u32) + 32) as u8) as char
    } else {
        c
    }
}

/// `str::to_ascii_lowercase`.
pub open spec fn ascii_lower(s: Seq<char>) -> Seq<char> {
    s.map_values(|c: char| ascii_lower_char(c))
}

pub open spec fn starts_with(s: Seq<char>, p: Seq<char>) -> bool {
    p.len() <= s.len() && s.subrange(0, p.len() as int) == p
}

pub open spec fn ends_with(s: Seq<char>, p: Seq<char>) -> bool {
    p.len() <= s.len() && s.subrange(s.len() - p.len(), s.len() as int) == p
}

/// Whether `p` occurs in `s` starting at index `i`.
pub open spec fn occurs_at(s: Seq<char>, p: Seq<char>, i: int) -> bool {
    0 <= i && i + p.len() <= s.len() && s.subrange(i, i + p.len()) == p
}

/// First index at or after `i` where `p` occurs, if any.
pub open spec fn find_from(s: Seq<char>, p: Seq<char>, i: int) -> Option<int>
    decreases s.len() + 1 - i,
{
    if i < 0 || i + p.len() > s.len() {
        None
    } else if occurs_at(s, p, i) {
        Some(i)
    } else {
        find_from(s, p, i + 1)
    }
}

/// `str::contains` for a string pattern.
pub open spec fn contains(s: Seq<char>, p: Seq<char>) -> bool {
    find_from(s, p, 0) is Some
}

/// Index of the first `c` at or after `i` (or `s.len()`).
pub open spec fn find_char(s: Seq<char>, c: char, i: int) -> int
    decreases s.len() - i,
{
    if i < 0 || i >= s.len() {
        s.len() as int
    } else if s[i] == c {
        i
    } else {
        find_char(s, c, i + 1)
    }
}

pub open spec fn strip_cr(line: Seq<char>) -> Seq<char> {
    if line.len() > 0 && line.last() == '\r' {
        line.drop_last()
    } else {
        line
    }
}

/// `str::lines` of the suffix of `s` starting at `i`.
pub open spec fn lines_from(s: Seq<char>, i: int) -> Seq<Seq<char>>
    decreases s.len() - i,
{
    if i < 0 || i >= s.len() {
        Seq::empty()
    } else {
        let n = find_char(s, '\n', i);
        if n >= s.len() || n < i {
            seq![s.subrange(i, s.len() as int)]
        } else {
            seq![strip_cr(s.subrange(i, n))] + lines_from(s, n + 1)
        }
    }
}

/// `str::lines`.
pub open spec fn lines(s: Seq<char>) -> Seq<Seq<char>> {
    lines_from(s, 0)
}

/// `str::split` on a non-empty string pattern, of the suffix starting at `i`.
pub open spec fn split_from(s: Seq<char>, p: Seq<char>, i: int) -> Seq<Seq<char>>
    decreases s.len() + 1 - i,
{
    if i < 0 || i > s.len() || p.len() == 0 {
        seq![]
    } else {
        match find_from(s, p, i) {
            Some(k) => if k >= i && k + p.len() <= s.len() {
                seq![s.subrange(i, k)] + split_from(s, p, k + p.len())
            } else {
                seq![]
            },
            None => seq![s.subrange(i, s.len() as int)],
        }
    }
}

/// `str::split` on a non-empty string pattern.
pub open spec fn split(s: Seq<char>, p: Seq<char>) -> Seq<Seq<char>> {
    split_from(s, p, 0)
}

/// `str::split_whitespace` of the suffix starting at `i`.
pub open spec fn words_from(s: Seq<char>, i: int) -> Seq<Seq<char>>
    decreases s.len() - i,
{
    let a = first_non_ws(s, i);
    if i < 0 || i > s.len() || a >= s.len() || a < i {
        Seq::empty()
    } else {
        let b = first_ws(s, a);
        if b <= a || b > s.len() {
            Seq::empty()
        } else {
            seq![s.subrange(a, b)] + words_from(s, b)
        }
    }
}

/// `str::split_whitespace`.
pub open spec fn words(s: Seq<char>) -> Seq<Seq<char>> {
    words_from(s, 0)
}

/// `Vec<String>::join(sep)`.
pub open spec fn join(parts: Seq<Seq<char>>, sep: Seq<char>) -> Seq<char>
    decreases parts.len(),
{
    if parts.len() == 0 {
        Seq::empty()
    } else if parts.len() == 1 {
        parts[0]
    } else {
        join(parts.drop_last(), sep) + sep + parts.last()
    }
}

/// The views of a sequence of character vectors.
pub open spec fn views(v: Seq<Vec<char>>) -> Seq<Seq<char>> {
    v.map_values(|x: Vec<char>| x@)
}

pub open spec fn digit_char(d: nat) -> char {
    if d == 0 {
        '0'
    } else if d == 1 {
        '1'
    } else if d == 2 {
        '2'
    } else if d == 3 {
        '3'
    } else if d == 4 {
        '4'
    } else if d == 5 {
        '5'
    } else if d == 6 {
        '6'
    } else if d == 7 {
        '7'
    } else if d == 8 {
        '8'
    } else {
        '9'
    }
}

/// Decimal rendering of a natural number, as `u64::to_string` writes it.
pub open spec fn decimal(n: nat) -> Seq<char>
    decreases n,
{
    if n < 10 {
        seq![digit_char(n)]
    } else {
        decimal(n / 10).push(digit_char(n % 10))
    }
}

/// `chars().take(max).collect()` followed by "..." when characters remain.
pub open spec fn truncate_with_ellipsis(s: Seq<char>, max: nat) -> Seq<char> {
    if s.len() > max {
        s.take(max as int) + seq!['.', '.', '.']
    } else {
        s
    }
}

// ---------------------------------------------------------------------------
// Lemmas
// ---------------------------------------------------------------------------

pub proof fn lemma_first_non_ws_bounds(s: Seq<char>, i: int)
    requires
        0 <= i <= s.len(),
    ensures
        i <= first_non_ws(s, i) <= s.len(),
        first_non_ws(s, i) < s.len() ==> !is_ws(s[first_non_ws(s, i)]),
        forall|k: int| i <= k < first_non_ws(s, i) ==> is_ws(#[trigger] s[k]),
    decreases s.len() - i,
{
    if i < s.len() && is_ws(s[i]) {
        lemma_first_non_ws_bounds(s, i + 1);
    }
}

pub proof fn lemma_first_ws_bounds(s: Seq<char>, i: int)
    requires
        0 <= i <= s.len(),
    ensures
        i <= first_ws(s, i) <= s.len(),
        first_ws(s, i) < s.len() ==> is_ws(s[first_ws(s, i)]),
        forall|k: int| i <= k < first_ws(s, i) ==> !is_ws(#[trigger] s[k]),
    decreases s.len() - i,
{
    if i < s.len() && !is_ws(s[i]) {
        lemma_first_ws_bounds(s, i + 1);
    }
}

pub proof fn lemma_end_non_ws_bounds(s: Seq<char>, j: int)
    requires
        0 <= j <= s.len(),
    ensures
        0 <= end_non_ws(s, j) <= j,
        end_non_ws(s, j) > 0 ==> !is_ws(s[end_non_ws(s, j) - 1]),
        forall|k: int| end_non_ws(s, j) <= k < j ==> is_ws(#[trigger] s[k]),
    decreases j,
{
    if j > 0 && is_ws(s[j - 1]) {
        lemma_end_non_ws_bounds(s, j - 1);
    }
}

/// The trimmed range is well formed.
pub proof fn lemma_trim_range(s: Seq<char>)
    ensures
        first_non_ws(s, 0) < s.len() ==> first_non_ws(s, 0) < end_non_ws(s, s.len() as int) <= s.len(),
{
    lemma_first_non_ws_bounds(s, 0);
    lemma_end_non_ws_bounds(s, s.len() as int);
    let a = first_non_ws(s, 0);
    let b = end_non_ws(s, s.len() as int);
    if a < s.len() && b <= a {
        assert(is_ws(s[a]));
    }
}

/// Joining a first part before at least one more puts the separator after it.
pub proof fn lemma_join_cons(a: Seq<char>, rest: Seq<Seq<char>>, sep: Seq<char>)
    requires
        rest.len() > 0,
    ensures
        join(seq![a] + rest, sep) == a + sep + join(rest, sep),
    decreases rest.len(),
{
    let all = seq![a] + rest;
    assert(all.len() >= 2);
    assert(all.drop_last() =~= seq![a] + rest.drop_last());
    assert(all.last() == rest.last());
    assert(join(all, sep) == join(all.drop_last(), sep) + sep + all.last());
    if rest.len() == 1 {
        assert(all.drop_last() =~= seq![a]);
        assert(join(seq![a], sep) == a);
        assert(join(rest, sep) == rest[0]);
        assert(rest.last() == rest[0]);
        assert(join(all, sep) =~= a + sep + join(rest, sep));
    } else {
        lemma_join_cons(a, rest.drop_last(), sep);
        assert(join(rest, sep) == join(rest.drop_last(), sep) + sep + rest.last());
        assert(join(all, sep) =~= a + sep + join(rest, sep));
    }
}

/// A character found in no part and not in the separator is not in the
/// joined text.
pub proof fn lemma_join_no_char(parts: Seq<Seq<char>>, sep: Seq<char>, c: char)
    requires
        forall|i: int, k: int| 0 <= i < parts.len() && 0 <= k < parts[i].len() ==> #[trigger] parts[i][k] != c,
        forall|k: int| 0 <= k < sep.len() ==> #[trigger] sep[k] != c,
    ensures
        forall|k: int| 0 <= k < join(parts, sep).len() ==> #[trigger] join(parts, sep)[k] != c,
    decreases parts.len(),
{
    if parts.len() > 1 {
        let p0 = parts.drop_last();
        assert forall|i: int, k: int| 0 <= i < p0.len() && 0 <= k < p0[i].len() implies #[trigger] p0[i][k] != c by {
            assert(p0[i] == parts[i]);
        }
        lemma_join_no_char(p0, sep, c);
        let j0 = join(p0, sep);
        let l = parts.last();
        assert forall|k: int| 0 <= k < join(parts, sep).len() implies #[trigger] join(parts, sep)[k] != c by {
            if k < j0.len() {
            } else if k < j0.len() + sep.len() {
                assert(join(parts, sep)[k] == sep[k - j0.len()]);
            } else {
                assert(join(parts, sep)[k] == l[k - j0.len() - sep.len()]);
                assert(parts[parts.len() - 1] == l);
            }
        }
    } else if parts.len() == 1 {
        assert(join(parts, sep) == parts[0]);
    }
}

/// Searching for a one-character pattern finds the first occurrence of the
/// character.
pub proof fn lemma_find_from_char(s: Seq<char>, c: char, i: int)
    requires
        0 <= i <= s.len(),
    ensures
        find_char(s, c, i) < s.len() ==> find_from(s, seq![c], i) == Some(find_char(s, c, i)),
        find_char(s, c, i) >= s.len() ==> find_from(s, seq![c], i) is None,
    decreases s.len() - i,
{
    if i < s.len() {
        assert(occurs_at(s, seq![c], i) <==> s[i] == c) by {
            assert(s.subrange(i, i + 1)[0] == s[i]);
            if s[i] == c {
                assert(s.subrange(i, i + 1) =~= seq![c]);
            }
        }
        if s[i] != c {
            lemma_find_from_char(s, c, i + 1);
        }
    }
}

/// Splitting on a one-character separator undoes joining parts that do not
/// hold it.
pub proof fn lemma_split_join_char(s: Seq<char>, parts: Seq<Seq<char>>, c: char, i: int)
    requires
        0 <= i <= s.len(),
        parts.len() > 0,
        s.subrange(i, s.len() as int) == join(parts, seq![c]),
        forall|j: int, k: int| 0 <= j < parts.len() && 0 <= k < parts[j].len() ==> #[trigger] parts[j][k] != c,
    ensures
        split_from(s, seq![c], i) == parts,
    decreases parts.len(),
{
    let sep = seq![c];
    let p0 = parts[0];
    let n = i + p0.len();
    if parts.len() == 1 {
        assert(join(parts, sep) == p0);
        assert forall|k: int| i <= k < s.len() implies #[trigger] s[k] != c by {
            assert(s[k] == s.subrange(i, s.len() as int)[k - i]);
            assert(parts[0][k - i] != c);
        }
        lemma_find_char_is(s, c, i, s.len() as int);
        lemma_find_from_char(s, c, i);
        assert(split_from(s, sep, i) =~= seq![s.subrange(i, s.len() as int)]);
    } else {
        let rest = parts.drop_first();
        assert(parts =~= seq![p0] + rest);
        lemma_join_cons(p0, rest, sep);
        let tail = s.subrange(i, s.len() as int);
        assert(tail =~= p0 + sep + join(rest, sep));
        assert forall|k: int| i <= k < n implies #[trigger] s[k] != c by {
            assert(s[k] == tail[k - i]);
            assert(parts[0][k - i] != c);
        }
        assert(s[n] == tail[n - i]);
        lemma_find_char_is(s, c, i, n);
        lemma_find_from_char(s, c, i);
        assert(s.subrange(i, n) =~= p0);
        assert(tail.len() == p0.len() + 1 + join(rest, sep).len());
        assert forall|k: int| 0 <= k < join(rest, sep).len() implies #[trigger] s.subrange(n + 1, s.len() as int)[k]
            == join(rest, sep)[k] by {
            assert(s[n + 1 + k] == tail[n + 1 + k - i]);
            assert(tail[p0.len() + 1 + k] == join(rest, sep)[k]);
        }
        assert(s.subrange(n + 1, s.len() as int) =~= join(rest, sep));
        assert forall|j: int, k: int| 0 <= j < rest.len() && 0 <= k < rest[j].len() implies #[trigger] rest[j][k] != c by {
            assert(rest[j] == parts[j + 1]);
        }
        lemma_split_join_char(s, rest, c, n + 1);
        assert(split_from(s, sep, i) =~= seq![p0] + rest);
    }
}

/// The first `c` at or after `i` is at `n` when none comes before `n` and
/// `n` holds one (or is the end).
pub proof fn lemma_find_char_is(s: Seq<char>, c: char, i: int, n: int)
    requires
        0 <= i <= n <= s.len(),
        forall|k: int| i <= k < n ==> #[trigger] s[k] != c,
        n == s.len() || s[n] == c,
    ensures
        find_char(s, c, i) == n,
{
    lemma_find_char_bounds(s, c, i);
    let f = find_char(s, c, i);
    if f < n {
        assert(s[f] == c);
    }
    if f > n {
        assert(s[n] != c);
    }
}

pub proof fn lemma_find_char_bounds(s: Seq<char>, c: char, i: int)
    requires
        0 <= i <= s.len(),
    ensures
        i <= find_char(s, c, i) <= s.len(),
        find_char(s, c, i) < s.len() ==> s[find_char(s, c, i)] == c,
        forall|k: int| i <= k < find_char(s, c, i) ==> #[trigger] s[k] != c,
    decreases s.len() - i,
{
    if i < s.len() && s[i] != c {
        lemma_find_char_bounds(s, c, i + 1);
    }
}

pub proof fn lemma_find_from_bounds(s: Seq<char>, p: Seq<char>, i: int)
    requires
        0 <= i,
    ensures
        find_from(s, p, i) matches Some(k) ==> i <= k && occurs_at(s, p, k),
        find_from(s, p, i) is None ==> forall|k: int| i <= k ==> !#[trigger] occurs_at(s, p, k),
    decreases s.len() + 1 - i,
{
    if i + p.len() <= s.len() && !occurs_at(s, p, i) {
        lemma_find_from_bounds(s, p, i + 1);
    }
}

// ---------------------------------------------------------------------------
// Exec helpers
// ---------------------------------------------------------------------------

/// The characters of a string slice, in order.
pub fn chars_of(s: &str) -> (r: Vec<char>)
    ensures
        r@ == s@,
{
    let mut r: Vec<char> = Vec::new();
    for c in it: s.chars()
        invariant
            r@ == it.seq().take(it.index() as int),
    {
        r.push(c);
    }
    r
}

/// `String::push` of the standard library.
#[verifier::external_body]
fn push_char(s: &mut String, c: char)
    ensures
        final(s)@ == old(s)@.push(c),
{
    s.push(c);
}

/// A string holding exactly the given characters.
pub fn string_from_chars(v: &Vec<char>) -> (r: String)
    ensures
        r@ == v@,
{
    let mut r = String::new();
    let mut i: usize = 0;
    while i < v.len()
        invariant
            i <= v.len(),
            r@ == v@.take(i as int),
        decreases v.len() - i,
    {
        push_char(&mut r, v[i]);
        assert(v@.take(i as int).push(v@[i as int]) =~= v@.take(i + 1));
        i += 1;
    }
    assert(v@.take(v.len() as int) =~= v@);
    r
}

/// Appends `src[from..to]` to `out`.
pub fn extend_range(out: &mut Vec<char>, src: &Vec<char>, from: usize, to: usize)
    requires
        from <= to <= src.len(),
    ensures
        final(out)@ == old(out)@ + src@.subrange(from as int, to as int),
{
    let mut i = from;
    while i < to
        invariant
            from <= i <= to <= src.len(),
            out@ == old(out)@ + src@.subrange(from as int, i as int),
        decreases to - i,
    {
        out.push(src[i]);
        assert(src@.subrange(from as int, i as int).push(src@[i as int]) =~= src@.subrange(
            from as int,
            i + 1,
        ));
        i += 1;
    }
}

/// Appends all of `src` to `out`.
pub fn extend(out: &mut Vec<char>, src: &Vec<char>)
    ensures
        final(out)@ == old(out)@ + src@,
{
    extend_range(out, src, 0, src.len());
    assert(src@.subrange(0, src.len() as int) =~= src@);
}

/// Appends the characters of a string slice to `out`.
pub fn push_str(out: &mut Vec<char>, s: &str)
    ensures
        final(out)@ == old(out)@ + s@,
{
    let cs = chars_of(s);
    extend(out, &cs);
}

/// A copy of `src[from..to]`.
pub fn slice_chars(src: &Vec<char>, from: usize, to: usize) -> (r: Vec<char>)
    requires
        from <= to <= src.len(),
    ensures
        r@ == src@.subrange(from as int, to as int),
{
    let mut r = Vec::new();
    extend_range(&mut r, src, from, to);
    r
}

pub fn is_whitespace(c: char) -> (b: bool)
    ensures
        b == is_ws(c),
{
    let u = c as u32;
    (0x09 <= u && u <= 0x0D) || u == 0x20 || u == 0x85 || u == 0xA0 || u == 0x1680 || (0x2000
        <= u && u <= 0x200A) || u == 0x2028 || u == 0x2029 || u == 0x202F || u == 0x205F || u
        == 0x3000
}

/// First non-whitespace index at or after `i`.
pub fn skip_ws(v: &Vec<char>, i: usize) -> (r: usize)
    requires
        i <= v.len(),
    ensures
        r == first_non_ws(v@, i as int),
{
    let mut k = i;
    while k < v.len() && is_whitespace(v[k])
        invariant
            i <= k <= v.len(),
            first_non_ws(v@, i as int) == first_non_ws(v@, k as int),
        decreases v.len() - k,
    {
        k += 1;
    }
    k
}

/// First whitespace index at or after `i`.
pub fn skip_non_ws(v: &Vec<char>, i: usize) -> (r: usize)
    requires
        i <= v.len(),
    ensures
        r == first_ws(v@, i as int),
{
    let mut k = i;
    while k < v.len() && !is_whitespace(v[k])
        invariant
            i <= k <= v.len(),
            first_ws(v@, i as int) == first_ws(v@, k as int),
        decreases v.len() - k,
    {
        k += 1;
    }
    k
}

/// One past the last non-whitespace index before `j`.
pub fn back_skip_ws(v: &Vec<char>, j: usize) -> (r: usize)
    requires
        j <= v.len(),
    ensures
        r == end_non_ws(v@, j as int),
{
    let mut k = j;
    while k > 0 && is_whitespace(v[k - 1])
        invariant
            k <= j <= v.len(),
            end_non_ws(v@, j as int) == end_non_ws(v@, k as int),
        decreases k,
    {
        k -= 1;
    }
    k
}

/// `str::trim` on characters.
pub fn trim_chars(v: &Vec<char>) -> (r: Vec<char>)
    ensures
        r@ == trim(v@),
{
    let a = skip_ws(v, 0);
    if a >= v.len() {
        return Vec::new();
    }
    let b = back_skip_ws(v, v.len());
    proof {
        lemma_trim_range(v@);
    }
    slice_chars(v, a, b)
}

/// `str::trim`.
pub fn trim_str(s: &str) -> (r: String)
    ensures
        r@ == trim(s@),
{
    let v = chars_of(s);
    let t = trim_chars(&v);
    string_from_chars(&t)
}

/// `str::trim().is_empty()` on characters.
pub fn is_blank_chars(v: &Vec<char>) -> (b: bool)
    ensures
        b == is_blank(v@),
{
    skip_ws(v, 0) == v.len()
}

/// `str::trim().is_empty()`.
pub fn is_blank_str(s: &str) -> (b: bool)
    ensures
        b == is_blank(s@),
{
    let v = chars_of(s);
    is_blank_chars(&v)
}

/// Character equality of two vectors.
pub fn eq_chars(a: &Vec<char>, b: &Vec<char>) -> (r: bool)
    ensures
        r == (a@ == b@),
{
    if a.len() != b.len() {
        return false;
    }
    let mut i: usize = 0;
    while i < a.len()
        invariant
            a.len() == b.len(),
            i <= a.len(),
            forall|k: int| 0 <= k < i ==> a@[k] == b@[k],
        decreases a.len() - i,
    {
        if a[i] != b[i] {
            return false;
        }
        i += 1;
    }
    assert(a@ =~= b@);
    true
}

/// Character equality of a vector and a string slice.
pub fn eq_str(a: &Vec<char>, s: &str) -> (r: bool)
    ensures
        r == (a@ == s@),
{
    let b = chars_of(s);
    eq_chars(a, &b)
}

/// Whether `p` occurs in `s` at index `i`.
pub fn occurs_at_exec(s: &Vec<char>, p: &Vec<char>, i: usize) -> (r: bool)
    ensures
        r == occurs_at(s@, p@, i as int),
{
    if p.len() > s.len() || i > s.len() - p.len() {
        return false;
    }
    let mut k: usize = 0;
    while k < p.len()
        invariant
            i + p.len() <= s.len(),
            k <= p.len(),
            forall|j: int| 0 <= j < k ==> s@[i + j] == p@[j],
        decreases p.len() - k,
    {
        if s[i + k] != p[k] {
            assert(s@.subrange(i as int, i + p.len())[k as int] != p@[k as int]);
            return false;
        }
        k += 1;
    }
    assert(s@.subrange(i as int, i + p.len()) =~= p@);
    true
}

/// `starts_with` on characters.
pub fn starts_with_chars(s: &Vec<char>, p: &Vec<char>) -> (r: bool)
    ensures
        r == starts_with(s@, p@),
{
    occurs_at_exec(s, p, 0)
}

/// `str::starts_with` for a string-slice prefix.
pub fn starts_with_str(s: &Vec<char>, p: &str) -> (r: bool)
    ensures
        r == starts_with(s@, p@),
{
    let pv = chars_of(p);
    starts_with_chars(s, &pv)
}

/// `ends_with` on characters.
pub fn ends_with_chars(s: &Vec<char>, p: &Vec<char>) -> (r: bool)
    ensures
        r == ends_with(s@, p@),
{
    if p.len() > s.len() {
        return false;
    }
    occurs_at_exec(s, p, s.len() - p.len())
}

/// First occurrence of `p` at or after `i`.
pub fn find_from_exec(s: &Vec<char>, p: &Vec<char>, i: usize) -> (r: Option<usize>)
    ensures
        r matches Some(k) ==> find_from(s@, p@, i as int) == Some(k as int),
        r is None ==> find_from(s@, p@, i as int) is None,
{
    if p.len() == 0 {
        if i <= s.len() {
            assert(s@.subrange(i as int, i as int) =~= p@);
            return Some(i);
        }
        return None;
    }
    let mut k = i;
    while p.len() <= s.len() && k <= s.len() - p.len()
        invariant
            i <= k,
            p.len() >= 1,
            find_from(s@, p@, i as int) == find_from(s@, p@, k as int),
        decreases s.len() + 1 - k,
    {
        if occurs_at_exec(s, p, k) {
            return Some(k);
        }
        k += 1;
    }
    None
}

/// `str::contains` on characters.
pub fn contains_chars(s: &Vec<char>, p: &Vec<char>) -> (r: bool)
    ensures
        r == contains(s@, p@),
{
    find_from_exec(s, p, 0).is_some()
}

/// First index of `c` at or after `i`.
pub fn find_char_exec(s: &Vec<char>, c: char, i: usize) -> (r: usize)
    requires
        i <= s.len(),
    ensures
        r == find_char(s@, c, i as int),
{
    let mut k = i;
    while k < s.len() && s[k] != c
        invariant
            i <= k <= s.len(),
            find_char(s@, c, i as int) == find_char(s@, c, k as int),
        decreases s.len() - k,
    {
        k += 1;
    }
    k
}

/// `str::lines`.
pub fn lines_exec(s: &Vec<char>) -> (r: Vec<Vec<char>>)
    ensures
        views(r@) == lines(s@),
{
    let mut r: Vec<Vec<char>> = Vec::new();
    let mut i: usize = 0;
    while i < s.len()
        invariant
            i <= s.len(),
            views(r@) + lines_from(s@, i as int) == lines(s@),
        decreases s.len() - i,
    {
        let ghost prev = r@;
        let n = find_char_exec(s, '\n', i);
        proof {
            lemma_find_char_bounds(s@, '\n', i as int);
        }
        if n >= s.len() {
            let piece = slice_chars(s, i, s.len());
            r.push(piece);
            assert(views(r@) =~= views(prev) + seq![s@.subrange(i as int, s.len() as int)]);
            assert(lines_from(s@, s.len() as int) =~= Seq::<Seq<char>>::empty());
            i = s.len();
        } else {
            let mut piece = slice_chars(s, i, n);
            if piece.len() > 0 && piece[piece.len() - 1] == '\r' {
                piece.pop();
            }
            assert(piece@ =~= strip_cr(s@.subrange(i as int, n as int)));
            r.push(piece);
            assert(views(r@) =~= views(prev) + seq![strip_cr(s@.subrange(i as int, n as int))]);
            i = n + 1;
        }
    }
    assert(lines_from(s@, i as int) =~= Seq::<Seq<char>>::empty());
    r
}

/// `str::split` on a non-empty pattern.
pub fn split_exec(s: &Vec<char>, p: &Vec<char>) -> (r: Vec<Vec<char>>)
    requires
        p.len() > 0,
    ensures
        views(r@) == split(s@, p@),
{
    let mut r: Vec<Vec<char>> = Vec::new();
    let mut i: usize = 0;
    let mut done = false;
    while !done
        invariant
            i <= s.len(),
            p.len() > 0,
            done ==> views(r@) == split(s@, p@),
            !done ==> views(r@) + split_from(s@, p@, i as int) == split(s@, p@),
        decreases (if done { 0 } else { s.len() + 1 - i }),
    {
        let ghost prev = r@;
        proof {
            lemma_find_from_bounds(s@, p@, i as int);
        }
        match find_from_exec(s, p, i) {
            Some(k) => {
                let piece = slice_chars(s, i, k);
                r.push(piece);
                assert(views(r@) =~= views(prev) + seq![s@.subrange(i as int, k as int)]);
                i = k + p.len();
            },
            None => {
                let piece = slice_chars(s, i, s.len());
                r.push(piece);
                assert(views(r@) =~= views(prev) + seq![s@.subrange(i as int, s.len() as int)]);
                done = true;
            },
        }
    }
    r
}

/// `str::split_whitespace`.
pub fn words_exec(s: &Vec<char>) -> (r: Vec<Vec<char>>)
    ensures
        views(r@) == words(s@),
{
    let mut r: Vec<Vec<char>> = Vec::new();
    let mut i: usize = 0;
    let mut done = false;
    while !done
        invariant
            i <= s.len(),
            done ==> views(r@) == words(s@),
            !done ==> views(r@) + words_from(s@, i as int) == words(s@),
        decreases (if done { 0 } else { s.len() + 1 - i }),
    {
        let ghost prev = r@;
        let a = skip_ws(s, i);
        proof {
            lemma_first_non_ws_bounds(s@, i as int);
        }
        if a >= s.len() {
            assert(words_from(s@, i as int) =~= Seq::<Seq<char>>::empty());
            done = true;
        } else {
            let b = skip_non_ws(s, a);
            proof {
                lemma_first_ws_bounds(s@, a as int);
            }
            let piece = slice_chars(s, a, b);
            r.push(piece);
            assert(views(r@) =~= views(prev) + seq![s@.subrange(a as int, b as int)]);
            i = b;
        }
    }
    r
}

/// `parts.join(sep)`.
pub fn join_exec(parts: &Vec<Vec<char>>, sep: &Vec<char>) -> (r: Vec<char>)
    ensures
        r@ == join(views(parts@), sep@),
{
    let mut out: Vec<char> = Vec::new();
    let mut i: usize = 0;
    while i < parts.len()
        invariant
            i <= parts.len(),
            out@ == join(views(parts@).take(i as int), sep@),
        decreases parts.len() - i,
    {
        let ghost t = views(parts@).take(i + 1);
        assert(t.drop_last() =~= views(parts@).take(i as int));
        if i > 0 {
            extend(&mut out, sep);
        }
        extend(&mut out, &parts[i]);
        if i == 0 {
            assert(out@ =~= join(t, sep@));
        }
        i += 1;
    }
    assert(views(parts@).take(parts.len() as int) =~= views(parts@));
    out
}

fn digit(d: u64) -> (c: char)
    requires
        d < 10,
    ensures
        c == digit_char(d as nat),
{
    if d == 0 {
        '0'
    } else if d == 1 {
        '1'
    } else if d == 2 {
        '2'
    } else if d == 3 {
        '3'
    } else if d == 4 {
        '4'
    } else if d == 5 {
        '5'
    } else if d == 6 {
        '6'
    } else if d == 7 {
        '7'
    } else if d == 8 {
        '8'
    } else {
        '9'
    }
}

/// Decimal digits of `n`, as `n.to_string()` writes them.
pub fn decimal_exec(n: u64) -> (r: Vec<char>)
    ensures
        r@ == decimal(n as nat),
    decreases n,
{
    if n < 10 {
        let mut v = Vec::new();
        v.push(digit(n));
        v
    } else {
        let mut v = decimal_exec(n / 10);
        v.push(digit(n % 10));
        v
    }
}

/// Appends the decimal digits of `n`.
pub fn push_decimal(out: &mut Vec<char>, n: u64)
    ensures
        final(out)@ == old(out)@ + decimal(n as nat),
{
    let d = decimal_exec(n);
    extend(out, &d);
}

/// `str::to_ascii_lowercase` on characters.
pub fn ascii_lower_exec(s: &Vec<char>) -> (r: Vec<char>)
    ensures
        r@ == ascii_lower(s@),
{
    let mut r: Vec<char> = Vec::new();
    let mut i: usize = 0;
    while i < s.len()
        invariant
            i <= s.len(),
            r@ == ascii_lower(s@).take(i as int),
        decreases s.len() - i,
    {
        let c = s[i];
        let l = if 'A' <= c && c <= 'Z' {
            (((c as u32) + 32) as u8) as char
        } else {
            c
        };
        r.push(l);
        assert(ascii_lower(s@).take(i + 1) =~= ascii_lower(s@).take(i as int).push(l));
        i += 1;
    }
    assert(ascii_lower(s@).take(s.len() as int) =~= ascii_lower(s@));
    r
}

/// The first `max` characters, followed by "..." when more characters remain.
pub fn truncate_with_ellipsis_exec(s: &Vec<char>, max: usize) -> (r: Vec<char>)
    ensures
        r@ == truncate_with_ellipsis(s@, max as nat),
{
    if s.len() > max {
        let mut r = slice_chars(s, 0, max);
        r.push('.');
        r.push('.');
        r.push('.');
        assert(r@ =~= s@.take(max as int) + seq!['.', '.', '.']);
        r
    } else {
        slice_chars(s, 0, s.len())
    }
}

// ---------------------------------------------------------------------------
// Ordering
// ---------------------------------------------------------------------------

/// Lexicographic comparison by code point, the order of `String` and `str`
/// (UTF-8 byte order coincides with code point order): -1, 0 or 1.
pub open spec fn lex_order(a: Seq<char>, b: Seq<char>) -> int
    decreases a.len(),
{
    if a.len() == 0 {
        if b.len() == 0 {
            0
        } else {
            -1
        }
    } else if b.len() == 0 {
        1
    } else if a[0] < b[0] {
        -1
    } else if a[0] > b[0] {
        1
    } else {
        lex_order(a.drop_first(), b.drop_first())
    }
}

pub open spec fn lex_lt(a: Seq<char>, b: Seq<char>) -> bool {
    lex_order(a, b) < 0
}

pub proof fn lemma_lex_order_props(a: Seq<char>, b: Seq<char>)
    ensures
        lex_order(a, b) == -1 || lex_order(a, b) == 0 || lex_order(a, b) == 1,
        (lex_order(a, b) == 0) == (a == b),
        lex_order(b, a) == -lex_order(a, b),
    decreases a.len(),
{
    if a.len() > 0 && b.len() > 0 {
        lemma_lex_order_props(a.drop_first(), b.drop_first());
        if a[0] == b[0] && a.drop_first() == b.drop_first() {
            assert(a =~= seq![a[0]] + a.drop_first());
            assert(b =~= seq![b[0]] + b.drop_first());
        }
        if a == b {
            assert(a.drop_first() == b.drop_first());
        }
    } else if a.len() == 0 && b.len() > 0 {
        assert(a != b);
    } else if a.len() > 0 && b.len() == 0 {
        assert(a != b);
    } else {
        assert(a =~= b);
    }
}

pub proof fn lemma_lex_lt_trans(a: Seq<char>, b: Seq<char>, c: Seq<char>)
    requires
        lex_lt(a, b),
        lex_lt(b, c),
    ensures
        lex_lt(a, c),
    decreases a.len(),
{
    if a.len() > 0 && b.len() > 0 && c.len() > 0 {
        if a[0] == b[0] && b[0] == c[0] {
            lemma_lex_lt_trans(a.drop_first(), b.drop_first(), c.drop_first());
        }
    }
}

/// The order of two character sequences, as -1, 0 or 1.
pub fn lex_order_exec(a: &Vec<char>, b: &Vec<char>) -> (r: i8)
    ensures
        r as int == lex_order(a@, b@),
{
    let mut i: usize = 0;
    assert(a@.skip(0) =~= a@);
    assert(b@.skip(0) =~= b@);
    while i < a.len() && i < b.len() && a[i] == b[i]
        invariant
            i <= a.len(),
            i <= b.len(),
            lex_order(a@, b@) == lex_order(a@.skip(i as int), b@.skip(i as int)),
        decreases a.len() - i,
    {
        assert(a@.skip(i as int).drop_first() =~= a@.skip(i + 1));
        assert(b@.skip(i as int).drop_first() =~= b@.skip(i + 1));
        i += 1;
    }
    if i == a.len() {
        if i == b.len() {
            0
        } else {
            -1
        }
    } else if i == b.len() {
        1
    } else if a[i] < b[i] {
        -1
    } else {
        1
    }
}

/// The order of two strings, as -1, 0 or 1.
pub fn lex_order_str(a: &str, b: &str) -> (r: i8)
    ensures
        r as int == lex_order(a@, b@),
{
    let av = chars_of(a);
    let bv = chars_of(b);
    lex_order_exec(&av, &bv)
}

/// A copy of an optional string.
pub fn copy_opt_string(o: &Option<String>) -> (r: Option<String>)
    ensures
        r == *o,
{
    match o {
        Some(s) => Some(s.clone()),
        None => None,
    }
}

/// A copy of a vector of strings.
pub fn copy_strings(v: &Vec<String>) -> (r: Vec<String>)
    ensures
        r@ == v@,
{
    let mut r: Vec<String> = Vec::new();
    let mut i: usize = 0;
    while i < v.len()
        invariant
            i <= v.len(),
            r@ == v@.take(i as int),
        decreases v.len() - i,
    {
        r.push(v[i].clone());
        assert(r@ =~= v@.take(i + 1));
        i += 1;
    }
    assert(v@.take(v.len() as int) =~= v@);
    r
}

/// The UTF-8 byte length of a character sequence (`str::len`).
pub open spec fn utf8_len(s: Seq<char>) -> nat {
    vstd::utf8::encode_utf8(s).len()
}

/// `str::len`: the UTF-8 byte length.
pub fn byte_len(s: &String) -> (n: usize)
    ensures
        n == utf8_len(s@),
{
    let b = s.as_str().as_bytes();
    b.len()
}

/// `str::to_lowercase`: the Unicode lower-case mapping of a string.
pub uninterp spec fn lowercase(s: Seq<char>) -> Seq<char>;

/// `str::to_lowercase` of the standard library (full Unicode case
/// mapping, which can change the length of a string). Its result is named
/// `lowercase` of the input.
#[verifier::external_body]
pub(crate) fn to_lowercase(s: &str) -> (r: String)
    ensures
        r@ == lowercase(s@),
{
    s.to_lowercase()
}

} // verus!
