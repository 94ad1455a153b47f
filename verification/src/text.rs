//! Character-level helpers shared by the parsers: searching, trimming,
//! case folding and decimal formatting, all over `Seq<char>` models.
use vstd::prelude::*;

verus! {

// ---------------------------------------------------------------------------
// Specifications
// ---------------------------------------------------------------------------

/// `pat` occurs in `s` at position `i`.
pub open spec fn matches_at(s: Seq<char>, pat: Seq<char>, i: int) -> bool {
    0 <= i && i + pat.len() <= s.len() && s.subrange(i, i + pat.len()) == pat
}

/// First position `>= i` at which `pat` occurs in `s`.
pub open spec fn find_from(s: Seq<char>, pat: Seq<char>, i: int) -> Option<int>
    decreases s.len() + 1 - i,
{
    if i < 0 || i + pat.len() > s.len() {
        None
    } else if matches_at(s, pat, i) {
        Some(i)
    } else {
        find_from(s, pat, i + 1)
    }
}

/// First occurrence of `pat` in `s`.
pub open spec fn find(s: Seq<char>, pat: Seq<char>) -> Option<int> {
    find_from(s, pat, 0)
}

/// `pat` occurs somewhere in `s`.
pub open spec fn contains(s: Seq<char>, pat: Seq<char>) -> bool {
    exists|i: int| matches_at(s, pat, i)
}

pub open spec fn starts_with(s: Seq<char>, pat: Seq<char>) -> bool {
    pat.len() <= s.len() && s.take(pat.len() as int) == pat
}

pub open spec fn ends_with(s: Seq<char>, pat: Seq<char>) -> bool {
    pat.len() <= s.len() && s.skip(s.len() - pat.len()) == pat
}

/// Last position of character `c` in `s`.
pub open spec fn rfind_char(s: Seq<char>, c: char) -> Option<int>
    decreases s.len(),
{
    if s.len() == 0 {
        None
    } else if s.last() == c {
        Some(s.len() - 1)
    } else {
        rfind_char(s.drop_last(), c)
    }
}

/// The Unicode `White_Space` characters (what `char::is_whitespace` accepts).
pub open spec fn is_ws(c: char) -> bool {
    let u = c as u32;
    ||| u == 0x20
    ||| 0x09 <= u <= 0x0D
    ||| u == 0x85
    ||| u == 0xA0
    ||| u == 0x1680
    ||| 0x2000 <= u <= 0x200A
    ||| u == 0x2028
    ||| u == 0x2029
    ||| u == 0x202F
    ||| u == 0x205F
    ||| u == 0x3000
}

/// Drops the leading characters that satisfy `p`.
pub open spec fn trim_start_by(s: Seq<char>, p: spec_fn(char) -> bool) -> Seq<char>
    decreases s.len(),
{
    if s.len() > 0 && p(s[0]) {
        trim_start_by(s.drop_first(), p)
    } else {
        s
    }
}

/// Drops the trailing characters that satisfy `p`.
pub open spec fn trim_end_by(s: Seq<char>, p: spec_fn(char) -> bool) -> Seq<char>
    decreases s.len(),
{
    if s.len() > 0 && p(s.last()) {
        trim_end_by(s.drop_last(), p)
    } else {
        s
    }
}

pub open spec fn trim_by(s: Seq<char>, p: spec_fn(char) -> bool) -> Seq<char> {
    trim_end_by(trim_start_by(s, p), p)
}

/// `str::trim`: strips leading and trailing white space.
pub open spec fn trim(s: Seq<char>) -> Seq<char> {
    trim_by(s, ws_pred())
}

pub open spec fn ws_pred() -> spec_fn(char) -> bool {
    |c: char| is_ws(c)
}

pub open spec fn eq_pred(c: char) -> spec_fn(char) -> bool {
    |x: char| x == c
}

/// `str::trim_matches(c)` for a single character.
pub open spec fn trim_char(s: Seq<char>, c: char) -> Seq<char> {
    trim_by(s, eq_pred(c))
}

/// `str::trim_start_matches(pat)`: removes every leading repetition of `pat`.
pub open spec fn strip_prefixes(s: Seq<char>, pat: Seq<char>) -> Seq<char>
    decreases s.len(),
{
    if pat.len() > 0 && starts_with(s, pat) {
        strip_prefixes(s.skip(pat.len() as int), pat)
    } else {
        s
    }
}

pub open spec fn is_ascii_upper(c: char) -> bool {
    'A' <= c && c <= 'Z'
}

/// `char::to_ascii_lowercase`.
pub open spec fn lower_char(c: char) -> char {
    if is_ascii_upper(c) {
        ((c as u32) + 32) as char
    } else {
        c
    }
}

/// `str::to_ascii_lowercase`.
pub open spec fn lower(s: Seq<char>) -> Seq<char> {
    s.map_values(|c: char| lower_char(c))
}

/// `char::to_ascii_uppercase`.
pub open spec fn upper_char(c: char) -> char {
    if 'a' <= c && c <= 'z' {
        ((c as u32) - 32) as char
    } else {
        c
    }
}

/// `str::to_ascii_uppercase`.
pub open spec fn upper(s: Seq<char>) -> Seq<char> {
    s.map_values(|c: char| upper_char(c))
}

/// Lower-casing forgets an upper-casing: ASCII case does not matter once
/// lowered.
pub proof fn lemma_lower_upper(s: Seq<char>)
    ensures
        lower(upper(s)) == lower(s),
{
    assert forall|i: int| 0 <= i < s.len() implies lower(upper(s))[i] == lower(s)[i] by {
        let c = s[i];
        if 'a' <= c && c <= 'z' {
            assert(lower_char(upper_char(c)) == c);
        }
    }
    assert(lower(upper(s)) =~= lower(s));
}

pub open spec fn is_ascii_alnum(c: char) -> bool {
    ('0' <= c && c <= '9') || ('A' <= c && c <= 'Z') || ('a' <= c && c <= 'z')
}

pub open spec fn digit(d: nat) -> char {
    ((d % 10) + 48) as char
}

/// Decimal notation of a natural number, without leading zeros.
pub open spec fn decimal(n: nat) -> Seq<char>
    decreases n,
{
    if n < 10 {
        seq![digit(n)]
    } else {
        decimal(n / 10).push(digit(n % 10))
    }
}

/// Decimal notation of an integer, with a leading `-` when negative.
pub open spec fn signed_decimal(i: int) -> Seq<char> {
    if i < 0 {
        seq!['-'] + decimal((-i) as nat)
    } else {
        decimal(i as nat)
    }
}

/// Two-digit zero-padded decimal (`{:02}`).
pub open spec fn decimal2(n: nat) -> Seq<char> {
    if n < 10 {
        seq!['0', digit(n)]
    } else {
        decimal(n)
    }
}

/// Pieces of `s` between occurrences of the character `c` (`str::split(c)`).
pub open spec fn split_char(s: Seq<char>, c: char) -> Seq<Seq<char>>
    decreases s.len(),
{
    if s.len() == 0 {
        seq![Seq::empty()]
    } else {
        let p = split_char(s.drop_last(), c);
        if s.last() == c {
            p.push(Seq::empty())
        } else {
            p.update(p.len() - 1, p.last().push(s.last()))
        }
    }
}

/// The text views of a sequence of strings.
pub open spec fn views(v: Seq<String>) -> Seq<Seq<char>> {
    v.map_values(|s: String| s@)
}

// ---------------------------------------------------------------------------
// Lemmas
// ---------------------------------------------------------------------------

/// `find_from` finds exactly the first occurrence at or after `i`.
pub proof fn lemma_find_from(s: Seq<char>, pat: Seq<char>, i: int)
    requires
        0 <= i,
    ensures
        match find_from(s, pat, i) {
            Some(k) => i <= k && matches_at(s, pat, k) && forall|j: int|
                i <= j < k ==> !matches_at(s, pat, j),
            None => forall|j: int| i <= j ==> !matches_at(s, pat, j),
        },
    decreases s.len() + 1 - i,
{
    if i + pat.len() > s.len() {
    } else if matches_at(s, pat, i) {
    } else {
        lemma_find_from(s, pat, i + 1);
    }
}

/// `find` succeeds exactly when the pattern occurs.
pub proof fn lemma_find_contains(s: Seq<char>, pat: Seq<char>)
    ensures
        find(s, pat) is Some <==> contains(s, pat),
        find(s, pat) matches Some(k) ==> matches_at(s, pat, k),
{
    lemma_find_from(s, pat, 0);
}

/// `rfind_char` finds the last occurrence of the character.
pub proof fn lemma_rfind_char(s: Seq<char>, c: char)
    ensures
        match rfind_char(s, c) {
            Some(i) => 0 <= i < s.len() && s[i] == c && forall|j: int| i < j < s.len() ==> s[j]
                != c,
            None => forall|j: int| 0 <= j < s.len() ==> s[j] != c,
        },
    decreases s.len(),
{
    if s.len() > 0 && s.last() != c {
        lemma_rfind_char(s.drop_last(), c);
        assert(forall|j: int| 0 <= j < s.len() - 1 ==> s.drop_last()[j] == s[j]);
    }
}

/// `split_char` always yields at least one piece.
pub proof fn lemma_split_char_len(s: Seq<char>, c: char)
    ensures
        split_char(s, c).len() >= 1,
    decreases s.len(),
{
    if s.len() > 0 {
        lemma_split_char_len(s.drop_last(), c);
    }
}

/// Growing the text by one character extends its last piece or opens a new one.
pub proof fn lemma_split_char_step(s: Seq<char>, c: char, i: int)
    requires
        0 <= i < s.len(),
    ensures
        split_char(s.take(i + 1), c) == if s[i] == c {
            split_char(s.take(i), c).push(Seq::empty())
        } else {
            let p = split_char(s.take(i), c);
            p.update(p.len() - 1, p.last().push(s[i]))
        },
{
    assert(s.take(i + 1).drop_last() =~= s.take(i));
}

/// Every piece of `split_char(s, c)` is free of `c` and made of characters
/// of `s`.
pub proof fn lemma_split_char_pieces(s: Seq<char>, c: char)
    ensures
        forall|k: int, j: int|
            0 <= k < split_char(s, c).len() && 0 <= j < split_char(s, c)[k].len() ==> (
            #[trigger] split_char(s, c)[k][j]) != c && s.contains(split_char(s, c)[k][j]),
    decreases s.len(),
{
    if s.len() > 0 {
        let d = s.drop_last();
        lemma_split_char_pieces(d, c);
        lemma_split_char_len(d, c);
        let p = split_char(d, c);
        assert forall|k: int, j: int|
            0 <= k < split_char(s, c).len() && 0 <= j < split_char(s, c)[k].len() implies (
            #[trigger] split_char(s, c)[k][j]) != c && s.contains(split_char(s, c)[k][j]) by {
            let x = split_char(s, c)[k][j];
            if s.last() != c && k == p.len() - 1 && j == p.last().len() {
                assert(x == s[s.len() - 1]);
            } else {
                assert(x == p[k][j]);
                let i = choose|i: int| 0 <= i < d.len() && d[i] == x;
                assert(s[i] == x);
            }
        }
    }
}

/// Appending a separator opens a new, empty piece.
pub proof fn lemma_split_char_sep(t: Seq<char>, c: char)
    ensures
        split_char(t + seq![c], c) == split_char(t, c).push(Seq::empty()),
{
    assert((t + seq![c]).drop_last() =~= t);
}

/// Appending text free of the separator extends the last piece.
pub proof fn lemma_split_char_free(t: Seq<char>, a: Seq<char>, c: char)
    requires
        forall|i: int| 0 <= i < a.len() ==> a[i] != c,
    ensures
        split_char(t + a, c) == split_char(t, c).update(
            split_char(t, c).len() - 1,
            split_char(t, c).last() + a,
        ),
    decreases a.len(),
{
    lemma_split_char_len(t, c);
    let p = split_char(t, c);
    if a.len() == 0 {
        assert(t + a =~= t);
        assert(p.last() + a =~= p.last());
        assert(p.update(p.len() - 1, p.last() + a) =~= p);
    } else {
        let a1 = a.drop_last();
        lemma_split_char_free(t, a1, c);
        assert((t + a).drop_last() =~= t + a1);
        assert((t + a).last() == a.last());
        assert((p.last() + a1).push(a.last()) =~= p.last() + a);
        assert(split_char(t + a, c) =~= p.update(p.len() - 1, p.last() + a));
    }
}

/// A text differing from `pat` at one of its positions does not start with it.
pub proof fn lemma_not_prefix(s: Seq<char>, pat: Seq<char>, i: int)
    requires
        0 <= i < pat.len(),
        i < s.len() ==> s[i] != pat[i],
    ensures
        !starts_with(s, pat),
{
    if starts_with(s, pat) {
        assert(s.take(pat.len() as int)[i] == s[i]);
    }
}

/// Nothing is stripped from a text that does not start with the pattern.
pub proof fn lemma_strip_absent(s: Seq<char>, pat: Seq<char>)
    requires
        !starts_with(s, pat),
    ensures
        strip_prefixes(s, pat) == s,
{
}

/// One leading pattern is stripped, and no more when the rest does not
/// start with it.
pub proof fn lemma_strip_once(pat: Seq<char>, t: Seq<char>)
    requires
        pat.len() > 0,
        !starts_with(t, pat),
    ensures
        strip_prefixes(pat + t, pat) == t,
{
    assert(strip_prefixes(t, pat) == t);
    assert((pat + t).take(pat.len() as int) =~= pat);
    assert(starts_with(pat + t, pat));
    assert((pat + t).skip(pat.len() as int) =~= t);
}

/// Trimming keeps a text whose ends are not trimmed.
pub proof fn lemma_trim_kept(s: Seq<char>, p: spec_fn(char) -> bool)
    requires
        s.len() > 0 ==> !p(s[0]) && !p(s.last()),
    ensures
        trim_by(s, p) == s,
{
}

// ---------------------------------------------------------------------------
// Executable helpers
// ---------------------------------------------------------------------------

/// The characters of a string slice, in order.
pub fn chars_of(s: &str) -> (v: Vec<char>)
    ensures
        v@ == s@,
{
    let mut v: Vec<char> = Vec::new();
    for c in it: s.chars()
        invariant
            v@ == it.seq().take(it.index() as int),
    {
        v.push(c);
    }
    v
}

/// A copy of a character slice.
pub fn copy_chars(s: &[char]) -> (v: Vec<char>)
    ensures
        v@ == s@,
{
    let mut v: Vec<char> = Vec::new();
    let mut i: usize = 0;
    while i < s.len()
        invariant
            i <= s@.len(),
            v@ == s@.take(i as int),
        decreases s@.len() - i,
    {
        v.push(s[i]);
        i = i + 1;
        assert(v@ =~= s@.take(i as int));
    }
    assert(s@.take(s@.len() as int) =~= s@);
    v
}

/// A copy of the characters `lo..hi` of a slice.
pub fn copy_range(s: &[char], lo: usize, hi: usize) -> (v: Vec<char>)
    requires
        lo <= hi <= s@.len(),
    ensures
        v@ == s@.subrange(lo as int, hi as int),
{
    let mut v: Vec<char> = Vec::new();
    let mut i = lo;
    while i < hi
        invariant
            lo <= i <= hi <= s@.len(),
            v@ == s@.subrange(lo as int, i as int),
        decreases hi - i,
    {
        v.push(s[i]);
        i = i + 1;
        assert(v@ =~= s@.subrange(lo as int, i as int));
    }
    v
}

/// `String::push` from std.
///
/// Trusted: the character is appended to the characters of the string, which
/// is all the documentation says it does.
#[verifier::external_body]
pub(crate) fn push_char(s: &mut String, c: char)
    ensures
        final(s)@ == old(s)@.push(c),
{
    s.push(c);
}

/// Appends characters to a string.
pub fn push_chars(s: &mut String, cs: &[char])
    ensures
        final(s)@ == old(s)@ + cs@,
{
    let ghost start = s@;
    let mut i: usize = 0;
    while i < cs.len()
        invariant
            i <= cs@.len(),
            s@ == start + cs@.take(i as int),
        decreases cs@.len() - i,
    {
        push_char(s, cs[i]);
        i = i + 1;
        assert(cs@.take(i as int) =~= cs@.take((i - 1) as int).push(cs@[i - 1]));
    }
    assert(cs@.take(cs@.len() as int) =~= cs@);
}

/// Appends a string slice to a string.
pub fn push_str(s: &mut String, t: &str)
    ensures
        final(s)@ == old(s)@ + t@,
{
    let cs = chars_of(t);
    push_chars(s, cs.as_slice());
}

/// A fresh string holding the given characters.
pub fn string_of(cs: &[char]) -> (r: String)
    ensures
        r@ == cs@,
{
    let mut r = String::new();
    push_chars(&mut r, cs);
    assert(r@ =~= cs@);
    r
}

/// Characters `lo..hi` of `cs` as a string.
pub fn string_of_range(cs: &[char], lo: usize, hi: usize) -> (r: String)
    requires
        lo <= hi <= cs@.len(),
    ensures
        r@ == cs@.subrange(lo as int, hi as int),
{
    let mut r = String::new();
    let mut i = lo;
    while i < hi
        invariant
            lo <= i <= hi <= cs@.len(),
            r@ == cs@.subrange(lo as int, i as int),
        decreases hi - i,
    {
        push_char(&mut r, cs[i]);
        i = i + 1;
        assert(r@ =~= cs@.subrange(lo as int, i as int));
    }
    r
}

/// Does `pat` occur in `s` at `i`?
pub fn matches_at_exec(s: &[char], pat: &[char], i: usize) -> (b: bool)
    ensures
        b == matches_at(s@, pat@, i as int),
{
    if pat.len() > s.len() || i > s.len() - pat.len() {
        return false;
    }
    let n = s.len();
    let mut k: usize = 0;
    while k < pat.len()
        invariant
            k <= pat@.len(),
            n == s@.len(),
            i + pat@.len() <= n,
            forall|j: int| 0 <= j < k ==> s@[i + j] == pat@[j],
        decreases pat@.len() - k,
    {
        if s[i + k] != pat[k] {
            assert(s@.subrange(i as int, i + pat@.len())[k as int] != pat@[k as int]);
            return false;
        }
        k = k + 1;
    }
    assert(s@.subrange(i as int, i + pat@.len()) =~= pat@);
    true
}

/// First occurrence of `pat` in `s` at or after `from`.
pub fn find_exec(s: &[char], pat: &[char], from: usize) -> (r: Option<usize>)
    ensures
        r is None <==> find_from(s@, pat@, from as int) is None,
        r matches Some(k) ==> find_from(s@, pat@, from as int) == Some(k as int) && k
            <= usize::MAX - pat@.len(),
{
    if pat.len() > s.len() {
        return None;
    }
    let last = s.len() - pat.len();
    let mut i = from;
    while i <= last
        invariant
            from <= i,
            last + pat@.len() == s@.len(),
            s@.len() <= usize::MAX,
            find_from(s@, pat@, from as int) == find_from(s@, pat@, i as int),
        decreases last + 1 - i,
    {
        if matches_at_exec(s, pat, i) {
            return Some(i);
        }
        if i == last {
            assert(find_from(s@, pat@, i + 1) is None);
            return None;
        }
        i = i + 1;
    }
    None
}

/// Does `pat` occur in `s`?
pub fn contains_exec(s: &[char], pat: &[char]) -> (b: bool)
    ensures
        b == contains(s@, pat@),
{
    proof { lemma_find_contains(s@, pat@); }
    find_exec(s, pat, 0).is_some()
}

pub fn starts_with_exec(s: &[char], pat: &[char]) -> (b: bool)
    ensures
        b == starts_with(s@, pat@),
{
    let b = matches_at_exec(s, pat, 0);
    proof {
        if b {
            assert(s@.take(pat@.len() as int) =~= s@.subrange(0, pat@.len() as int));
        } else if pat@.len() <= s@.len() {
            assert(s@.take(pat@.len() as int) =~= s@.subrange(0, pat@.len() as int));
        }
    }
    b
}

pub fn ends_with_exec(s: &[char], pat: &[char]) -> (b: bool)
    ensures
        b == ends_with(s@, pat@),
{
    if pat.len() > s.len() {
        return false;
    }
    let b = matches_at_exec(s, pat, s.len() - pat.len());
    proof {
        assert(s@.skip(s@.len() - pat@.len()) =~= s@.subrange(
            s@.len() - pat@.len(),
            s@.len() as int,
        ));
    }
    b
}

/// Last position of `c` in `s`.
pub fn rfind_char_exec(s: &[char], c: char) -> (r: Option<usize>)
    ensures
        r is None <==> rfind_char(s@, c) is None,
        r matches Some(k) ==> rfind_char(s@, c) == Some(k as int),
{
    let mut i = s.len();
    assert(s@.take(i as int) =~= s@);
    while i > 0
        invariant
            i <= s@.len(),
            rfind_char(s@, c) == rfind_char(s@.take(i as int), c),
        decreases i,
    {
        assert(s@.take(i as int).drop_last() =~= s@.take(i - 1));
        if s[i - 1] == c {
            return Some(i - 1);
        }
        i = i - 1;
    }
    None
}

pub fn is_ws_exec(c: char) -> (b: bool)
    ensures
        b == is_ws(c),
{
    let u = c as u32;
    u == 0x20 || (0x09 <= u && u <= 0x0D) || u == 0x85 || u == 0xA0 || u == 0x1680 || (0x2000
        <= u && u <= 0x200A) || u == 0x2028 || u == 0x2029 || u == 0x202F || u == 0x205F || u
        == 0x3000
}

proof fn lemma_trim_start_step(s: Seq<char>, p: spec_fn(char) -> bool, i: int)
    requires
        0 <= i < s.len(),
        p(s[i]),
    ensures
        trim_start_by(s.skip(i), p) == trim_start_by(s.skip(i + 1), p),
{
    assert(s.skip(i).drop_first() =~= s.skip(i + 1));
}

/// Bounds of `trim_by(s, p)` inside `s`, for a predicate the caller evaluates.
proof fn lemma_trim_bounds(s: Seq<char>, p: spec_fn(char) -> bool, lo: int, hi: int)
    requires
        0 <= lo <= hi <= s.len(),
        trim_start_by(s, p) == s.skip(lo),
        hi == lo || !p(s[hi - 1]),
        forall|j: int| hi <= j < s.len() ==> p(s[j]),
        lo < s.len() ==> !p(s[lo]),
        lo == s.len() ==> hi == lo,
    ensures
        trim_by(s, p) == s.subrange(lo, hi),
    decreases s.len() - hi,
{
    let t = s.skip(lo);
    // trim_end_by over the suffix, peeling trailing characters one at a time.
    lemma_trim_end_suffix(t, p, hi - lo);
    assert(t.take(hi - lo) =~= s.subrange(lo, hi));
}

proof fn lemma_trim_end_suffix(t: Seq<char>, p: spec_fn(char) -> bool, k: int)
    requires
        0 <= k <= t.len(),
        forall|j: int| k <= j < t.len() ==> p(t[j]),
        k == 0 || !p(t[k - 1]),
    ensures
        trim_end_by(t, p) == t.take(k),
    decreases t.len() - k,
{
    if k == t.len() {
        assert(t.take(k) =~= t);
        if k > 0 {
        } else {
            assert(t.len() == 0);
        }
    } else {
        let t2 = t.drop_last();
        lemma_trim_end_suffix(t2, p, k);
        assert(t2.take(k) =~= t.take(k));
    }
}

/// Where `trim_start_by` starts: the first character it keeps.
proof fn lemma_trim_start_shape(s: Seq<char>, p: spec_fn(char) -> bool) -> (k: int)
    ensures
        0 <= k <= s.len(),
        trim_start_by(s, p) == s.skip(k),
        k < s.len() ==> !p(s[k]),
    decreases s.len(),
{
    if s.len() > 0 && p(s[0]) {
        let k1 = lemma_trim_start_shape(s.drop_first(), p);
        assert(s.drop_first().skip(k1) =~= s.skip(k1 + 1));
        k1 + 1
    } else {
        assert(s.skip(0) =~= s);
        0
    }
}

/// Where `trim_end_by` stops: just after the last character it keeps.
proof fn lemma_trim_end_shape(s: Seq<char>, p: spec_fn(char) -> bool) -> (k: int)
    ensures
        0 <= k <= s.len(),
        trim_end_by(s, p) == s.take(k),
        k > 0 ==> !p(s[k - 1]),
    decreases s.len(),
{
    if s.len() > 0 && p(s.last()) {
        let k1 = lemma_trim_end_shape(s.drop_last(), p);
        assert(s.drop_last().take(k1) =~= s.take(k1));
        k1
    } else {
        assert(s.take(s.len() as int) =~= s);
        s.len() as int
    }
}

/// Trimming keeps a contiguous part `[lo, hi)` of the text, and leaves no
/// trimmed character at either end.
pub proof fn lemma_trim_by_shape(s: Seq<char>, p: spec_fn(char) -> bool) -> (r: (int, int))
    ensures
        0 <= r.0 <= r.1 <= s.len(),
        trim_by(s, p) == s.subrange(r.0, r.1),
        trim_by(s, p).len() > 0 ==> !p(trim_by(s, p)[0]) && !p(trim_by(s, p).last()),
{
    let lo = lemma_trim_start_shape(s, p);
    let t = s.skip(lo);
    let m = lemma_trim_end_shape(t, p);
    assert(t.take(m) =~= s.subrange(lo, lo + m));
    if m > 0 {
        assert(t[0] == s[lo]);
    }
    (lo, lo + m)
}

/// `str::trim`.
pub fn trim_exec(s: &[char]) -> (r: Vec<char>)
    ensures
        r@ == trim(s@),
{
    let ghost p = ws_pred();
    let mut lo: usize = 0;
    assert(s@.skip(0) =~= s@);
    while lo < s.len() && is_ws_exec(s[lo])
        invariant
            lo <= s@.len(),
            p == ws_pred(),
            trim_start_by(s@, p) == trim_start_by(s@.skip(lo as int), p),
        decreases s@.len() - lo,
    {
        proof { lemma_trim_start_step(s@, p, lo as int); }
        lo = lo + 1;
    }
    proof {
        if lo < s@.len() {
            assert(s@.skip(lo as int)[0] == s@[lo as int]);
        } else {
            assert(s@.skip(lo as int).len() == 0);
        }
    }
    let mut hi = s.len();
    while hi > lo && is_ws_exec(s[hi - 1])
        invariant
            lo <= hi <= s@.len(),
            p == ws_pred(),
            forall|j: int| hi <= j < s@.len() ==> p(s@[j]),
        decreases hi,
    {
        hi = hi - 1;
    }
    proof { lemma_trim_bounds(s@, p, lo as int, hi as int); }
    let mut r: Vec<char> = Vec::new();
    let mut i = lo;
    while i < hi
        invariant
            lo <= i <= hi <= s@.len(),
            r@ == s@.subrange(lo as int, i as int),
        decreases hi - i,
    {
        r.push(s[i]);
        i = i + 1;
        assert(r@ =~= s@.subrange(lo as int, i as int));
    }
    r
}

/// `str::trim_matches(c)` for a single character.
pub fn trim_char_exec(s: &[char], c: char) -> (r: Vec<char>)
    ensures
        r@ == trim_char(s@, c),
{
    let ghost p = eq_pred(c);
    let mut lo: usize = 0;
    assert(s@.skip(0) =~= s@);
    while lo < s.len() && s[lo] == c
        invariant
            lo <= s@.len(),
            p == eq_pred(c),
            trim_start_by(s@, p) == trim_start_by(s@.skip(lo as int), p),
        decreases s@.len() - lo,
    {
        proof { lemma_trim_start_step(s@, p, lo as int); }
        lo = lo + 1;
    }
    proof {
        if lo < s@.len() {
            assert(s@.skip(lo as int)[0] == s@[lo as int]);
        } else {
            assert(s@.skip(lo as int).len() == 0);
        }
    }
    let mut hi = s.len();
    while hi > lo && s[hi - 1] == c
        invariant
            lo <= hi <= s@.len(),
            p == eq_pred(c),
            forall|j: int| hi <= j < s@.len() ==> p(s@[j]),
        decreases hi,
    {
        hi = hi - 1;
    }
    proof { lemma_trim_bounds(s@, p, lo as int, hi as int); }
    let mut r: Vec<char> = Vec::new();
    let mut i = lo;
    while i < hi
        invariant
            lo <= i <= hi <= s@.len(),
            r@ == s@.subrange(lo as int, i as int),
        decreases hi - i,
    {
        r.push(s[i]);
        i = i + 1;
        assert(r@ =~= s@.subrange(lo as int, i as int));
    }
    r
}

pub fn lower_char_exec(c: char) -> (r: char)
    ensures
        r == lower_char(c),
{
    if 'A' <= c && c <= 'Z' {
        let u = (c as u32) + 32;
        let b = u as u8;
        b as char
    } else {
        c
    }
}

/// `str::to_ascii_lowercase`.
pub fn lower_exec(s: &[char]) -> (r: Vec<char>)
    ensures
        r@ == lower(s@),
{
    let mut r: Vec<char> = Vec::new();
    let mut i: usize = 0;
    while i < s.len()
        invariant
            i <= s@.len(),
            r@ == lower(s@.take(i as int)),
        decreases s@.len() - i,
    {
        r.push(lower_char_exec(s[i]));
        i = i + 1;
        assert(r@ =~= lower(s@.take(i as int)));
    }
    assert(s@.take(s@.len() as int) =~= s@);
    r
}

pub fn is_ascii_alnum_exec(c: char) -> (b: bool)
    ensures
        b == is_ascii_alnum(c),
{
    ('0' <= c && c <= '9') || ('A' <= c && c <= 'Z') || ('a' <= c && c <= 'z')
}

pub fn digit_exec(d: u64) -> (c: char)
    requires
        d < 10,
    ensures
        c == digit(d as nat),
{
    let b = (d as u8) + 48;
    b as char
}

/// Appends the decimal notation of `n`.
pub fn push_decimal(s: &mut String, n: u64)
    ensures
        final(s)@ == old(s)@ + decimal(n as nat),
    decreases n,
{
    if n >= 10 {
        push_decimal(s, n / 10);
    }
    push_char(s, digit_exec(n % 10));
    proof {
        if n >= 10 {
            assert(decimal(n as nat) == decimal((n / 10) as nat).push(digit((n % 10) as nat)));
        }
    }
}

/// Appends the two-digit zero-padded notation of `n` (`{:02}`).
pub fn push_decimal2(s: &mut String, n: u64)
    ensures
        final(s)@ == old(s)@ + decimal2(n as nat),
{
    if n < 10 {
        push_char(s, '0');
        push_char(s, digit_exec(n));
        proof { assert(decimal2(n as nat) == seq!['0', digit(n as nat)]); }
    } else {
        push_decimal(s, n);
    }
}

/// Appends the decimal notation of a signed integer (`i64::to_string`).
pub fn push_signed_decimal(s: &mut String, i: i64)
    ensures
        final(s)@ == old(s)@ + signed_decimal(i as int),
{
    if i < 0 {
        push_char(s, '-');
        let m: u64 = (-(i as i128)) as u64;
        push_decimal(s, m);
    } else {
        push_decimal(s, i as u64);
    }
}

/// Does the string literal `lit` occur in `s`?
pub fn contains_str(s: &[char], lit: &str) -> (b: bool)
    ensures
        b == contains(s@, lit@),
{
    let p = chars_of(lit);
    contains_exec(s, p.as_slice())
}

/// Does `s` end with the string literal `lit`?
pub fn ends_with_str(s: &[char], lit: &str) -> (b: bool)
    ensures
        b == ends_with(s@, lit@),
{
    let p = chars_of(lit);
    ends_with_exec(s, p.as_slice())
}

/// `str::trim_start_matches(pat)` for a non-empty string pattern.
pub fn strip_prefixes_exec(s: &[char], pat: &str) -> (r: Vec<char>)
    ensures
        r@ == strip_prefixes(s@, pat@),
{
    let p = chars_of(pat);
    if p.len() == 0 {
        return copy_chars(s);
    }
    let mut i: usize = 0;
    assert(s@.skip(0) =~= s@);
    while i <= s.len() && p.len() <= s.len() - i && matches_at_exec(s, p.as_slice(), i)
        invariant
            p@ == pat@,
            p@.len() > 0,
            i <= s@.len(),
            strip_prefixes(s@, pat@) == strip_prefixes(s@.skip(i as int), pat@),
        decreases s@.len() - i,
    {
        proof {
            let t = s@.skip(i as int);
            assert(t.take(p@.len() as int) =~= s@.subrange(i as int, i + p@.len()));
            assert(t.skip(p@.len() as int) =~= s@.skip(i + p@.len()));
        }
        i = i + p.len();
    }
    proof {
        let t = s@.skip(i as int);
        if p@.len() <= t.len() && starts_with(t, p@) {
            assert(t.take(p@.len() as int) =~= s@.subrange(i as int, i + p@.len()));
        }
    }
    copy_range(s, i, s.len())
}

} // verus!
