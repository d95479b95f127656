//! Character-level text handling shared by every module that reads or writes strings.
//!
//! Strings are modelled by their view, a `Seq<char>`. The executable helpers work on
//! `Vec<char>` copies so that indexing is constant time and every step has a contract.
use vstd::prelude::*;

verus! {

broadcast use vstd::string::group_string_axioms;

// ---------------------------------------------------------------------------------------
// Characters
// ---------------------------------------------------------------------------------------

/// Unicode `White_Space`, the set `char::is_whitespace` answers for.
pub open spec fn is_ws(c: char) -> bool {
    let n = c as u32;
    ||| 0x09 <= n <= 0x0d
    ||| n == 0x20
    ||| n == 0x85
    ||| n == 0xa0
    ||| n == 0x1680
    ||| 0x2000 <= n <= 0x200a
    ||| n == 0x2028
    ||| n == 0x2029
    ||| n == 0x202f
    ||| n == 0x205f
    ||| n == 0x3000
}

pub open spec fn is_ascii_upper(c: char) -> bool {
    'A' <= c <= 'Z'
}

pub open spec fn is_ascii_lower(c: char) -> bool {
    'a' <= c <= 'z'
}

pub open spec fn is_ascii_alpha(c: char) -> bool {
    is_ascii_upper(c) || is_ascii_lower(c)
}

pub open spec fn is_ascii_digit(c: char) -> bool {
    '0' <= c <= '9'
}

pub open spec fn is_ascii_alnum(c: char) -> bool {
    is_ascii_alpha(c) || is_ascii_digit(c)
}

/// `char::to_ascii_lowercase`: only `A`..=`Z` change.
pub open spec fn lower(c: char) -> char {
    if is_ascii_upper(c) {
        ((c as u32) + 32) as char
    } else {
        c
    }
}

/// `str::to_ascii_lowercase`.
pub open spec fn lower_seq(s: Seq<char>) -> Seq<char> {
    s.map_values(|c: char| lower(c))
}

pub open spec fn upper(c: char) -> char {
    if is_ascii_lower(c) {
        ((c as u32) - 32) as char
    } else {
        c
    }
}

/// `str::to_ascii_uppercase`.
pub open spec fn upper_seq(s: Seq<char>) -> Seq<char> {
    s.map_values(|c: char| upper(c))
}

/// Uppercasing first does not change what lowercasing gives.
pub proof fn lemma_lower_of_upper(s: Seq<char>)
    ensures
        lower_seq(upper_seq(s)) == lower_seq(s),
{
    assert forall|i: int| 0 <= i < s.len() implies #[trigger] lower(upper(s[i])) == lower(s[i]) by {
        let c = s[i];
        if is_ascii_lower(c) {
            assert((c as u32) - 32 >= 0x41);
            assert(((c as u32) - 32) as char <= 'Z');
            assert((((((c as u32) - 32) as char) as u32) + 32) as char == c);
        }
    }
    assert(lower_seq(upper_seq(s)) =~= lower_seq(s));
}

/// Lowercasing twice is lowercasing once.
pub proof fn lemma_lower_seq_idempotent(s: Seq<char>)
    ensures
        lower_seq(lower_seq(s)) == lower_seq(s),
{
    assert forall|i: int| 0 <= i < s.len() implies #[trigger] lower(lower(s[i])) == lower(s[i]) by {
        let c = s[i];
        if is_ascii_upper(c) {
            assert((c as u32) + 32 <= 0x7a);
            assert('a' <= ((c as u32) + 32) as char);
        }
    }
    assert(lower_seq(lower_seq(s)) =~= lower_seq(s));
}

pub fn is_whitespace(c: char) -> (b: bool)
    ensures
        b == is_ws(c),
{
    let n = c as u32;
    (0x09 <= n && n <= 0x0d) || n == 0x20 || n == 0x85 || n == 0xa0 || n == 0x1680 || (0x2000
        <= n && n <= 0x200a) || n == 0x2028 || n == 0x2029 || n == 0x202f || n == 0x205f || n
        == 0x3000
}

pub fn is_alpha(c: char) -> (b: bool)
    ensures
        b == is_ascii_alpha(c),
{
    ('A' <= c && c <= 'Z') || ('a' <= c && c <= 'z')
}

pub fn is_digit(c: char) -> (b: bool)
    ensures
        b == is_ascii_digit(c),
{
    '0' <= c && c <= '9'
}

pub fn to_lower(c: char) -> (l: char)
    ensures
        l == lower(c),
{
    if 'A' <= c && c <= 'Z' {
        let b = (c as u8) + 32;
        b as char
    } else {
        c
    }
}

// ---------------------------------------------------------------------------------------
// Converting between `str`, `String` and `Vec<char>`
// ---------------------------------------------------------------------------------------

/// The characters of a string slice.
pub fn chars_of(s: &str) -> (v: Vec<char>)
    ensures
        v@ == s@,
{
    let mut v: Vec<char> = Vec::new();
    for c in it: s.chars()
        invariant
            v@ == it.seq().take(it.index() as int),
    {
        v.push(c);
    }
    v
}

/// `String::push`.
#[verifier::external_body]
pub fn push_char(s: &mut String, c: char)
    ensures
        final(s)@ == old(s)@.push(c),
{
    s.push(c);
}

/// Append a run of characters to a string.
pub fn push_chars(s: &mut String, v: &Vec<char>, from: usize, to: usize)
    requires
        from <= to <= v@.len(),
    ensures
        final(s)@ == old(s)@ + v@.subrange(from as int, to as int),
{
    let mut i = from;
    while i < to
        invariant
            from <= i <= to <= v@.len(),
            s@ == old(s)@ + v@.subrange(from as int, i as int),
        decreases to - i,
    {
        push_char(s, v[i]);
        assert(v@.subrange(from as int, i + 1) == v@.subrange(from as int, i as int).push(v@[i as int]));
        i = i + 1;
    }
}

/// A string holding exactly the given characters.
pub fn string_of(v: &Vec<char>) -> (s: String)
    ensures
        s@ == v@,
{
    let mut s = String::new();
    push_chars(&mut s, v, 0, v.len());
    assert(v@.subrange(0, v@.len() as int) == v@);
    s
}

/// The characters `v[from..to]` as a string.
pub fn string_of_range(v: &Vec<char>, from: usize, to: usize) -> (s: String)
    requires
        from <= to <= v@.len(),
    ensures
        s@ == v@.subrange(from as int, to as int),
{
    let mut s = String::new();
    push_chars(&mut s, v, from, to);
    s
}

/// Append a string slice.
pub fn push_str(s: &mut String, t: &str)
    ensures
        final(s)@ == old(s)@ + t@,
{
    s.append(t);
}

/// The view of an optional string.
pub open spec fn opt_view(o: Option<String>) -> Option<Seq<char>> {
    match o {
        Some(s) => Some(s@),
        None => None,
    }
}

/// A copy of a string.
pub fn copy_string(s: &String) -> (c: String)
    ensures
        c@ == s@,
{
    s.clone()
}

/// A copy of an optional string.
pub fn copy_opt(o: &Option<String>) -> (c: Option<String>)
    ensures
        opt_view(c) == opt_view(*o),
{
    match o {
        Some(s) => Some(s.clone()),
        None => None,
    }
}

// ---------------------------------------------------------------------------------------
// Lowercasing, trimming, blankness
// ---------------------------------------------------------------------------------------

pub fn lowercase(v: &Vec<char>) -> (l: Vec<char>)
    ensures
        l@ == lower_seq(v@),
{
    let mut l: Vec<char> = Vec::new();
    for i in 0..v.len()
        invariant
            l@ == lower_seq(v@.take(i as int)),
    {
        l.push(to_lower(v[i]));
        assert(v@.take(i + 1) == v@.take(i as int).push(v@[i as int]));
        assert(lower_seq(v@.take(i + 1)) =~= lower_seq(v@.take(i as int)).push(lower(v@[i as int])));
    }
    assert(v@.take(v@.len() as int) == v@);
    l
}

/// `str::trim_start`.
pub open spec fn trim_start(s: Seq<char>) -> Seq<char>
    decreases s.len(),
{
    if s.len() > 0 && is_ws(s[0]) {
        trim_start(s.drop_first())
    } else {
        s
    }
}

/// `str::trim_end`.
pub open spec fn trim_end(s: Seq<char>) -> Seq<char>
    decreases s.len(),
{
    if s.len() > 0 && is_ws(s.last()) {
        trim_end(s.drop_last())
    } else {
        s
    }
}

/// `str::trim`.
pub open spec fn trim(s: Seq<char>) -> Seq<char> {
    trim_end(trim_start(s))
}

/// Appending a non-whitespace character commutes with trimming the start.
pub proof fn lemma_trim_start_push(a: Seq<char>, c: char)
    requires
        !is_ws(c),
    ensures
        trim_start(a.push(c)) == trim_start(a).push(c),
    decreases a.len(),
{
    if a.len() > 0 && is_ws(a[0]) {
        assert(a.push(c)[0] == a[0]);
        assert(a.push(c).drop_first() =~= a.drop_first().push(c));
        lemma_trim_start_push(a.drop_first(), c);
    } else if a.len() == 0 {
        assert(a.push(c)[0] == c);
    } else {
        assert(a.push(c)[0] == a[0]);
    }
}

/// What is left after trimming the start is a suffix.
pub proof fn lemma_trim_start_suffix(a: Seq<char>)
    ensures
        trim_start(a).len() <= a.len(),
        trim_start(a) == a.skip(a.len() - trim_start(a).len()),
    decreases a.len(),
{
    if a.len() > 0 && is_ws(a[0]) {
        lemma_trim_start_suffix(a.drop_first());
        assert(a.drop_first().skip(a.drop_first().len() - trim_start(a).len()) =~= a.skip(
            a.len() - trim_start(a).len(),
        ));
    } else {
        assert(a.skip(0) =~= a);
    }
}

/// Nothing but whitespace: `s.trim().is_empty()`.
pub open spec fn blank(s: Seq<char>) -> bool {
    forall|i: int| 0 <= i < s.len() ==> is_ws(#[trigger] s[i])
}

/// The bounds of `v[from..to]` with surrounding whitespace removed.
pub fn trim_bounds(v: &Vec<char>, from: usize, to: usize) -> (r: (usize, usize))
    requires
        from <= to <= v@.len(),
    ensures
        from <= r.0 <= r.1 <= to,
        v@.subrange(r.0 as int, r.1 as int) == trim(v@.subrange(from as int, to as int)),
{
    let ghost s = v@.subrange(from as int, to as int);
    let mut a = from;
    while a < to && is_whitespace(v[a])
        invariant
            from <= a <= to <= v@.len(),
            s == v@.subrange(from as int, to as int),
            trim_start(s) == trim_start(v@.subrange(a as int, to as int)),
        decreases to - a,
    {
        assert(v@.subrange(a as int, to as int).drop_first() == v@.subrange(a + 1, to as int));
        a = a + 1;
    }
    assert(trim_start(s) == v@.subrange(a as int, to as int));
    let mut b = to;
    while b > a && is_whitespace(v[b - 1])
        invariant
            from <= a <= b <= to <= v@.len(),
            trim_end(v@.subrange(a as int, to as int)) == trim_end(v@.subrange(a as int, b as int)),
        decreases b - a,
    {
        assert(v@.subrange(a as int, b as int).drop_last() == v@.subrange(a as int, b - 1));
        b = b - 1;
    }
    (a, b)
}

/// Does `v[from..to]` hold only whitespace?
pub fn is_blank_range(v: &Vec<char>, from: usize, to: usize) -> (b: bool)
    requires
        from <= to <= v@.len(),
    ensures
        b == blank(v@.subrange(from as int, to as int)),
{
    let mut i = from;
    while i < to
        invariant
            from <= i <= to <= v@.len(),
            forall|k: int| from <= k < i ==> is_ws(#[trigger] v@[k]),
        decreases to - i,
    {
        if !is_whitespace(v[i]) {
            assert(v@.subrange(from as int, to as int)[i - from] == v@[i as int]);
            return false;
        }
        i = i + 1;
    }
    assert forall|k: int| 0 <= k < to - from implies is_ws(
        #[trigger] v@.subrange(from as int, to as int)[k],
    ) by {
        assert(v@.subrange(from as int, to as int)[k] == v@[from + k]);
    }
    true
}

pub fn is_blank(v: &Vec<char>) -> (b: bool)
    ensures
        b == blank(v@),
{
    let b = is_blank_range(v, 0, v.len());
    assert(v@.subrange(0, v@.len() as int) == v@);
    b
}

pub fn str_is_blank(s: &str) -> (b: bool)
    ensures
        b == blank(s@),
{
    let v = chars_of(s);
    is_blank(&v)
}

// ---------------------------------------------------------------------------------------
// Prefixes, suffixes and searching
// ---------------------------------------------------------------------------------------

pub open spec fn starts_with(s: Seq<char>, p: Seq<char>) -> bool {
    p.len() <= s.len() && s.take(p.len() as int) == p
}

pub open spec fn ends_with(s: Seq<char>, p: Seq<char>) -> bool {
    p.len() <= s.len() && s.skip(s.len() - p.len()) == p
}

/// `p` occurs in `s` starting at index `i`.
pub open spec fn occurs_at(s: Seq<char>, p: Seq<char>, i: int) -> bool {
    0 <= i && i + p.len() <= s.len() && s.subrange(i, i + p.len()) == p
}

/// The first occurrence of `p` in `s` at or after `i`.
pub open spec fn find_from(s: Seq<char>, p: Seq<char>, i: int) -> Option<int>
    decreases s.len() + 1 - i,
{
    if i < 0 || i + p.len() > s.len() {
        None
    } else if occurs_at(s, p, i) {
        Some(i)
    } else {
        find_from(s, p, i + 1)
    }
}

/// `str::find`: the first occurrence of `p` in `s`.
pub open spec fn find(s: Seq<char>, p: Seq<char>) -> Option<int> {
    find_from(s, p, 0)
}

/// `str::contains`.
pub open spec fn contains(s: Seq<char>, p: Seq<char>) -> bool {
    find(s, p) is Some
}

pub proof fn lemma_find_from(s: Seq<char>, p: Seq<char>, i: int)
    requires
        0 <= i,
    ensures
        find_from(s, p, i) matches Some(k) ==> i <= k && occurs_at(s, p, k) && forall|j: int|
            i <= j < k ==> !occurs_at(s, p, j),
        find_from(s, p, i) is None ==> forall|j: int| i <= j ==> !occurs_at(s, p, j),
    decreases s.len() + 1 - i,
{
    if i + p.len() > s.len() {
    } else if occurs_at(s, p, i) {
    } else {
        lemma_find_from(s, p, i + 1);
    }
}

/// `p` occurs somewhere in `s` exactly when `find` has an answer.
pub proof fn lemma_contains(s: Seq<char>, p: Seq<char>)
    ensures
        contains(s, p) <==> exists|j: int| occurs_at(s, p, j),
        find(s, p) matches Some(k) ==> occurs_at(s, p, k) && forall|j: int|
            0 <= j < k ==> !occurs_at(s, p, j),
{
    lemma_find_from(s, p, 0);
    if find(s, p) is None {
        assert forall|j: int| !occurs_at(s, p, j) by {
            if j >= 0 {
            }
        }
    }
}

/// The first occurrence of `p` is at `k` when `p` occurs there and nowhere earlier.
pub proof fn lemma_find_is(s: Seq<char>, p: Seq<char>, k: int)
    requires
        occurs_at(s, p, k),
        forall|j: int| 0 <= j < k ==> !occurs_at(s, p, j),
    ensures
        find(s, p) == Some(k),
{
    lemma_contains(s, p);
    assert(contains(s, p));
}

/// `p` occurs nowhere in `s`.
pub proof fn lemma_find_absent(s: Seq<char>, p: Seq<char>)
    requires
        forall|j: int| !occurs_at(s, p, j),
    ensures
        find(s, p) is None,
{
    lemma_contains(s, p);
}

/// Does `p` occur in `v` at index `i`?
pub fn matches_at(v: &Vec<char>, p: &Vec<char>, i: usize) -> (b: bool)
    ensures
        b == occurs_at(v@, p@, i as int),
{
    if i > v.len() || p.len() > v.len() - i {
        return false;
    }
    let n = v.len();
    let mut k: usize = 0;
    while k < p.len()
        invariant
            n == v@.len(),
            i + p@.len() <= n,
            0 <= k <= p@.len(),
            forall|j: int| 0 <= j < k ==> v@[i + j] == p@[j],
        decreases p@.len() - k,
    {
        assert(i + k < v@.len());
        if v[i + k] != p[k] {
            assert(v@.subrange(i as int, i + p@.len())[k as int] != p@[k as int]);
            return false;
        }
        k = k + 1;
    }
    assert(v@.subrange(i as int, i + p@.len()) =~= p@);
    true
}

/// The first occurrence of `p` in `v`, searching from `from`.
pub fn find_from_exec(v: &Vec<char>, p: &Vec<char>, from: usize) -> (r: Option<usize>)
    ensures
        r matches Some(k) ==> find_from(v@, p@, from as int) == Some(k as int),
        r is None ==> find_from(v@, p@, from as int) is None,
{
    let n = v.len();
    let m = p.len();
    if from > n || m > n - from {
        return None;
    }
    let last = n - m;
    let mut i = from;
    loop
        invariant
            n == v@.len(),
            m == p@.len(),
            last == n - m,
            from <= i <= last,
            find_from(v@, p@, from as int) == find_from(v@, p@, i as int),
        decreases last - i,
    {
        if matches_at(v, p, i) {
            return Some(i);
        }
        if i == last {
            assert(find_from(v@, p@, i + 1) is None);
            return None;
        }
        i = i + 1;
    }
}

pub fn find_exec(v: &Vec<char>, p: &Vec<char>) -> (r: Option<usize>)
    ensures
        r matches Some(k) ==> find(v@, p@) == Some(k as int),
        r is None ==> find(v@, p@) is None,
{
    find_from_exec(v, p, 0)
}

pub fn contains_exec(v: &Vec<char>, p: &Vec<char>) -> (b: bool)
    ensures
        b == contains(v@, p@),
{
    find_exec(v, p).is_some()
}

pub fn starts_with_exec(v: &Vec<char>, p: &Vec<char>) -> (b: bool)
    ensures
        b == starts_with(v@, p@),
{
    let b = matches_at(v, p, 0);
    proof {
        if b {
            assert(v@.take(p@.len() as int) == v@.subrange(0, p@.len() as int));
        }
        if starts_with(v@, p@) {
            assert(v@.take(p@.len() as int) == v@.subrange(0, p@.len() as int));
        }
    }
    b
}

pub fn ends_with_exec(v: &Vec<char>, p: &Vec<char>) -> (b: bool)
    ensures
        b == ends_with(v@, p@),
{
    if p.len() > v.len() {
        return false;
    }
    let b = matches_at(v, p, v.len() - p.len());
    proof {
        assert(v@.skip(v@.len() - p@.len()) == v@.subrange(v@.len() - p@.len(), v@.len() as int));
    }
    b
}

/// The first index of the character `c`.
pub open spec fn char_pos(s: Seq<char>, c: char) -> Option<int> {
    find(s, seq![c])
}

pub proof fn lemma_char_pos(s: Seq<char>, c: char)
    ensures
        char_pos(s, c) matches Some(k) ==> 0 <= k < s.len() && s[k] == c && forall|j: int|
            0 <= j < k ==> s[j] != c,
        char_pos(s, c) is None ==> forall|j: int| 0 <= j < s.len() ==> s[j] != c,
{
    lemma_contains(s, seq![c]);
    lemma_find_from(s, seq![c], 0);
    if let Some(k) = char_pos(s, c) {
        assert(s.subrange(k, k + 1)[0] == s[k]);
        assert forall|j: int| 0 <= j < k implies s[j] != c by {
            if s[j] == c {
                assert(s.subrange(j, j + 1) =~= seq![c]);
                assert(occurs_at(s, seq![c], j));
            }
        }
    } else {
        assert forall|j: int| 0 <= j < s.len() implies s[j] != c by {
            if s[j] == c {
                assert(s.subrange(j, j + 1) =~= seq![c]);
                assert(occurs_at(s, seq![c], j));
            }
        }
    }
}

/// The first index of `c` in `v`.
pub fn char_pos_exec(v: &Vec<char>, c: char) -> (r: Option<usize>)
    ensures
        r matches Some(k) ==> char_pos(v@, c) == Some(k as int),
        r is None ==> char_pos(v@, c) is None,
{
    let p = vec![c];
    assert(p@ =~= seq![c]);
    find_exec(v, &p)
}

/// Does `c` occur in `s`?
pub open spec fn has_char(s: Seq<char>, c: char) -> bool {
    exists|i: int| 0 <= i < s.len() && s[i] == c
}

pub fn has_char_exec(v: &Vec<char>, c: char) -> (b: bool)
    ensures
        b == has_char(v@, c),
{
    let r = char_pos_exec(v, c);
    proof {
        lemma_char_pos(v@, c);
    }
    r.is_some()
}

/// The last index of `c`.
pub open spec fn last_char_pos(s: Seq<char>, c: char) -> Option<int>
    decreases s.len(),
{
    if s.len() == 0 {
        None
    } else if s.last() == c {
        Some(s.len() - 1)
    } else {
        last_char_pos(s.drop_last(), c)
    }
}

pub proof fn lemma_last_char_pos(s: Seq<char>, c: char)
    ensures
        last_char_pos(s, c) matches Some(k) ==> 0 <= k < s.len() && s[k] == c && forall|j: int|
            k < j < s.len() ==> s[j] != c,
        last_char_pos(s, c) is None ==> forall|j: int| 0 <= j < s.len() ==> s[j] != c,
    decreases s.len(),
{
    if s.len() > 0 && s.last() != c {
        lemma_last_char_pos(s.drop_last(), c);
        assert forall|j: int| 0 <= j < s.len() - 1 implies s.drop_last()[j] == s[j] by {}
    }
}

/// The first `c` in `s` is at `k` when `s[k]` is `c` and nothing before it is.
pub proof fn lemma_char_pos_is(s: Seq<char>, c: char, k: int)
    requires
        0 <= k < s.len(),
        s[k] == c,
        forall|j: int| 0 <= j < k ==> s[j] != c,
    ensures
        char_pos(s, c) == Some(k),
{
    lemma_char_pos(s, c);
    if let Some(first) = char_pos(s, c) {
        if first < k {
            assert(s[first] != c);
        }
    }
}

/// The last `c` in `s` is at `k` when `s[k]` is `c` and nothing after it is.
pub proof fn lemma_last_char_pos_is(s: Seq<char>, c: char, k: int)
    requires
        0 <= k < s.len(),
        s[k] == c,
        forall|j: int| k < j < s.len() ==> s[j] != c,
    ensures
        last_char_pos(s, c) == Some(k),
{
    lemma_last_char_pos(s, c);
    if let Some(last) = last_char_pos(s, c) {
        if last > k {
            assert(s[last] != c);
        }
    }
}

pub fn last_char_pos_exec(v: &Vec<char>, c: char) -> (r: Option<usize>)
    ensures
        r matches Some(k) ==> last_char_pos(v@, c) == Some(k as int),
        r is None ==> last_char_pos(v@, c) is None,
{
    let mut i = v.len();
    assert(v@.take(i as int) == v@);
    while i > 0
        invariant
            i <= v@.len(),
            last_char_pos(v@, c) == last_char_pos(v@.take(i as int), c),
        decreases i,
    {
        assert(v@.take(i as int).last() == v@[i - 1]);
        if v[i - 1] == c {
            return Some(i - 1);
        }
        assert(v@.take(i as int).drop_last() == v@.take(i - 1));
        i = i - 1;
    }
    None
}

/// A copy of `v[from..to]`.
pub fn sub_vec(v: &Vec<char>, from: usize, to: usize) -> (r: Vec<char>)
    requires
        from <= to <= v@.len(),
    ensures
        r@ == v@.subrange(from as int, to as int),
{
    let mut r: Vec<char> = Vec::new();
    let mut i = from;
    while i < to
        invariant
            from <= i <= to <= v@.len(),
            r@ == v@.subrange(from as int, i as int),
        decreases to - i,
    {
        r.push(v[i]);
        assert(v@.subrange(from as int, i + 1) == v@.subrange(from as int, i as int).push(v@[i as int]));
        i = i + 1;
    }
    r
}

/// Character-wise equality.
pub fn eq_chars(a: &Vec<char>, b: &Vec<char>) -> (e: bool)
    ensures
        e == (a@ == b@),
{
    if a.len() != b.len() {
        return false;
    }
    let n = a.len();
    let mut i: usize = 0;
    while i < n
        invariant
            n == a@.len(),
            n == b@.len(),
            i <= n,
            forall|k: int| 0 <= k < i ==> a@[k] == b@[k],
        decreases n - i,
    {
        if a[i] != b[i] {
            return false;
        }
        i = i + 1;
    }
    assert(a@ =~= b@);
    true
}

/// `s.split_once(c)`: the parts before and after the first `c`.
pub open spec fn split_once(s: Seq<char>, c: char) -> Option<(Seq<char>, Seq<char>)> {
    match char_pos(s, c) {
        Some(k) => Some((s.take(k), s.skip(k + 1))),
        None => None,
    }
}

/// `s.rsplit_once(c)`: the parts before and after the last `c`.
pub open spec fn rsplit_once(s: Seq<char>, c: char) -> Option<(Seq<char>, Seq<char>)> {
    match last_char_pos(s, c) {
        Some(k) => Some((s.take(k), s.skip(k + 1))),
        None => None,
    }
}

pub fn split_once_exec(v: &Vec<char>, c: char) -> (r: Option<(Vec<char>, Vec<char>)>)
    ensures
        r matches Some(p) ==> split_once(v@, c) == Some((p.0@, p.1@)),
        r is None ==> split_once(v@, c) is None,
{
    proof {
        lemma_char_pos(v@, c);
    }
    let n = v.len();
    match char_pos_exec(v, c) {
        Some(k) => {
            assert(k < n);
            Some((sub_vec(v, 0, k), sub_vec(v, k + 1, n)))
        },
        None => None,
    }
}

pub fn rsplit_once_exec(v: &Vec<char>, c: char) -> (r: Option<(Vec<char>, Vec<char>)>)
    ensures
        r matches Some(p) ==> rsplit_once(v@, c) == Some((p.0@, p.1@)),
        r is None ==> rsplit_once(v@, c) is None,
{
    proof {
        lemma_last_char_pos(v@, c);
    }
    let n = v.len();
    match last_char_pos_exec(v, c) {
        Some(k) => {
            assert(k < n);
            Some((sub_vec(v, 0, k), sub_vec(v, k + 1, n)))
        },
        None => None,
    }
}

/// Remove every leading `c`: `str::trim_start_matches`.
pub open spec fn strip_leading(s: Seq<char>, c: char) -> Seq<char>
    decreases s.len(),
{
    if s.len() > 0 && s[0] == c {
        strip_leading(s.drop_first(), c)
    } else {
        s
    }
}

/// Appending a character commutes with removing leading `c`s, unless everything would be
/// removed.
pub proof fn lemma_strip_leading_push(a: Seq<char>, c: char, x: char)
    requires
        strip_leading(a, c).len() > 0 || x != c,
    ensures
        strip_leading(a.push(x), c) == strip_leading(a, c).push(x),
    decreases a.len(),
{
    if a.len() > 0 && a[0] == c {
        assert(a.push(x)[0] == c);
        assert(a.push(x).drop_first() =~= a.drop_first().push(x));
        lemma_strip_leading_push(a.drop_first(), c, x);
    } else if a.len() == 0 {
        assert(a.push(x)[0] == x);
        assert(a.push(x).drop_first() =~= Seq::<char>::empty());
    } else {
        assert(a.push(x)[0] == a[0]);
    }
}

/// Remove every trailing `c`: `str::trim_end_matches`.
pub open spec fn strip_trailing(s: Seq<char>, c: char) -> Seq<char>
    decreases s.len(),
{
    if s.len() > 0 && s.last() == c {
        strip_trailing(s.drop_last(), c)
    } else {
        s
    }
}

/// The bounds of `v[from..to]` with every leading and trailing `c` removed.
pub fn strip_bounds(v: &Vec<char>, from: usize, to: usize, c: char, lead: bool, trail: bool) -> (r: (
    usize,
    usize,
))
    requires
        from <= to <= v@.len(),
    ensures
        from <= r.0 <= r.1 <= to,
        ({
            let s = v@.subrange(from as int, to as int);
            let s1 = if lead { strip_leading(s, c) } else { s };
            let s2 = if trail { strip_trailing(s1, c) } else { s1 };
            v@.subrange(r.0 as int, r.1 as int) == s2
        }),
{
    let ghost s = v@.subrange(from as int, to as int);
    let mut a = from;
    if lead {
        while a < to && v[a] == c
            invariant
                from <= a <= to <= v@.len(),
                s == v@.subrange(from as int, to as int),
                strip_leading(s, c) == strip_leading(v@.subrange(a as int, to as int), c),
            decreases to - a,
        {
            assert(v@.subrange(a as int, to as int).drop_first() == v@.subrange(a + 1, to as int));
            a = a + 1;
        }
    }
    let mut b = to;
    if trail {
        while b > a && v[b - 1] == c
            invariant
                from <= a <= b <= to <= v@.len(),
                strip_trailing(v@.subrange(a as int, to as int), c) == strip_trailing(
                    v@.subrange(a as int, b as int),
                    c,
                ),
            decreases b - a,
        {
            assert(v@.subrange(a as int, b as int).drop_last() == v@.subrange(a as int, b - 1));
            b = b - 1;
        }
    }
    (a, b)
}

/// Lexicographic order by code point, which is also the order of the UTF-8 bytes: how
/// `String`s compare.
pub open spec fn seq_lt(a: Seq<char>, b: Seq<char>) -> bool
    decreases a.len(),
{
    if a.len() == 0 {
        b.len() > 0
    } else if b.len() == 0 {
        false
    } else if a[0] != b[0] {
        a[0] < b[0]
    } else {
        seq_lt(a.drop_first(), b.drop_first())
    }
}

/// Is `a` ordered strictly before `b`?
pub fn lt_chars(a: &Vec<char>, b: &Vec<char>) -> (r: bool)
    ensures
        r == seq_lt(a@, b@),
{
    let mut i: usize = 0;
    assert(a@.skip(0) == a@ && b@.skip(0) == b@);
    loop
        invariant
            i <= a@.len(),
            i <= b@.len(),
            seq_lt(a@, b@) == seq_lt(a@.skip(i as int), b@.skip(i as int)),
        decreases a@.len() - i,
    {
        if i == a.len() {
            return i < b.len();
        }
        if i == b.len() {
            return false;
        }
        if a[i] != b[i] {
            return a[i] < b[i];
        }
        assert(a@.skip(i as int).drop_first() == a@.skip(i + 1));
        assert(b@.skip(i as int).drop_first() == b@.skip(i + 1));
        i = i + 1;
    }
}

/// Where `v[from..to]` ends once trailing whitespace is removed.
pub fn trim_end_bound(v: &Vec<char>, from: usize, to: usize) -> (e: usize)
    requires
        from <= to <= v@.len(),
    ensures
        from <= e <= to,
        v@.subrange(from as int, e as int) == trim_end(v@.subrange(from as int, to as int)),
{
    let mut b = to;
    while b > from && is_whitespace(v[b - 1])
        invariant
            from <= b <= to <= v@.len(),
            trim_end(v@.subrange(from as int, to as int)) == trim_end(v@.subrange(from as int, b as int)),
        decreases b - from,
    {
        assert(v@.subrange(from as int, b as int).drop_last() == v@.subrange(from as int, b - 1));
        b = b - 1;
    }
    b
}

// ---------------------------------------------------------------------------------------
// Splitting and joining
// ---------------------------------------------------------------------------------------

/// What separates the pieces of a split.
#[derive(Clone, Copy, PartialEq, Eq)]
pub enum Sep {
    /// One particular character.
    Char(char),
    /// `'\n'` or `'\r'`.
    LineBreak,
    /// Any Unicode whitespace.
    Whitespace,
}

pub open spec fn is_sep(sep: Sep, c: char) -> bool {
    match sep {
        Sep::Char(d) => c == d,
        Sep::LineBreak => c == '\n' || c == '\r',
        Sep::Whitespace => is_ws(c),
    }
}

pub fn is_sep_exec(sep: Sep, c: char) -> (b: bool)
    ensures
        b == is_sep(sep, c),
{
    match sep {
        Sep::Char(d) => c == d,
        Sep::LineBreak => c == '\n' || c == '\r',
        Sep::Whitespace => is_whitespace(c),
    }
}

/// `str::split` on a separator: the pieces between separators, empty ones included. There is
/// always at least one piece.
pub open spec fn split(s: Seq<char>, sep: Sep) -> Seq<Seq<char>>
    decreases s.len(),
{
    if s.len() == 0 {
        seq![Seq::<char>::empty()]
    } else {
        let pieces = split(s.drop_last(), sep);
        if is_sep(sep, s.last()) {
            pieces.push(Seq::<char>::empty())
        } else {
            pieces.update(pieces.len() - 1, pieces.last().push(s.last()))
        }
    }
}

/// Splitting at a character and joining again with it gives the text back.
pub proof fn lemma_join_split(s: Seq<char>, c: char)
    ensures
        join(split(s, Sep::Char(c)), seq![c]) == s,
    decreases s.len(),
{
    let sep = Sep::Char(c);
    if s.len() > 0 {
        let t = s.drop_last();
        lemma_join_split(t, c);
        lemma_split_nonempty(t, sep);
        let p = split(t, sep);
        if s.last() == c {
            assert(split(s, sep).drop_last() =~= p);
            assert(s =~= join(p, seq![c]) + seq![c] + Seq::<char>::empty());
        } else {
            let q = split(s, sep);
            if p.len() == 1 {
                assert(q[0] =~= p[0].push(s.last()));
                assert(s =~= t.push(s.last()));
            } else {
                assert(q.drop_last() =~= p.drop_last());
                assert(q.last() == p.last().push(s.last()));
                assert(join(p, seq![c]) == join(p.drop_last(), seq![c]) + seq![c] + p.last());
                assert(join(q, seq![c]) == join(q.drop_last(), seq![c]) + seq![c] + q.last());
                assert(s =~= t.push(s.last()));
                assert(t == join(p.drop_last(), seq![c]) + seq![c] + p.last());
                assert((join(p.drop_last(), seq![c]) + seq![c] + p.last()).push(s.last()) =~= join(
                    p.drop_last(),
                    seq![c],
                ) + seq![c] + p.last().push(s.last()));
            }
        }
    }
}

/// A text that starts with the separator splits into an empty first piece and more.
pub proof fn lemma_split_leading_sep(s: Seq<char>, c: char)
    requires
        s.len() > 0,
        s[0] == c,
    ensures
        split(s, Sep::Char(c)).len() >= 2,
        split(s, Sep::Char(c))[0].len() == 0,
    decreases s.len(),
{
    let sep = Sep::Char(c);
    if s.len() > 1 {
        assert(s.drop_last()[0] == c);
        lemma_split_leading_sep(s.drop_last(), c);
        let p = split(s.drop_last(), sep);
        if is_sep(sep, s.last()) {
            assert(split(s, sep) == p.push(Seq::<char>::empty()));
        } else {
            assert(split(s, sep) == p.update(p.len() - 1, p.last().push(s.last())));
        }
    } else {
        assert(s.drop_last().len() == 0);
        assert(s.last() == c);
        assert(split(s.drop_last(), sep) == seq![Seq::<char>::empty()]);
        assert(split(s, sep) == seq![Seq::<char>::empty()].push(Seq::<char>::empty()));
    }
}

pub proof fn lemma_split_nonempty(s: Seq<char>, sep: Sep)
    ensures
        split(s, sep).len() >= 1,
    decreases s.len(),
{
    if s.len() > 0 {
        lemma_split_nonempty(s.drop_last(), sep);
    }
}

/// The view of a vector of character vectors.
pub open spec fn views(v: Seq<Vec<char>>) -> Seq<Seq<char>> {
    v.map_values(|x: Vec<char>| x@)
}

/// Split `v` at every separator.
pub fn split_exec(v: &Vec<char>, sep: Sep) -> (pieces: Vec<Vec<char>>)
    ensures
        views(pieces@) == split(v@, sep),
{
    let mut done: Vec<Vec<char>> = Vec::new();
    let mut cur: Vec<char> = Vec::new();
    for i in 0..v.len()
        invariant
            views(done@).push(cur@) == split(v@.take(i as int), sep),
    {
        let ghost before = v@.take(i as int);
        assert(v@.take(i + 1).drop_last() == before);
        assert(v@.take(i + 1).last() == v@[i as int]);
        proof {
            lemma_split_nonempty(before, sep);
        }
        if is_sep_exec(sep, v[i]) {
            let finished = cur;
            done.push(finished);
            cur = Vec::new();
            assert(views(done@) =~= views(done@.drop_last()).push(finished@));
            assert(views(done@).push(cur@) =~= split(before, sep).push(Seq::<char>::empty()));
        } else {
            let ghost old_cur = cur@;
            cur.push(v[i]);
            assert(views(done@).push(cur@) =~= split(before, sep).update(
                split(before, sep).len() - 1,
                old_cur.push(v@[i as int]),
            ));
        }
    }
    done.push(cur);
    assert(v@.take(v@.len() as int) == v@);
    assert(views(done@) =~= views(done@.drop_last()).push(done@.last()@));
    done
}

/// `lines` joined with `sep` between them.
pub open spec fn join(lines: Seq<Seq<char>>, sep: Seq<char>) -> Seq<char>
    decreases lines.len(),
{
    if lines.len() == 0 {
        Seq::<char>::empty()
    } else if lines.len() == 1 {
        lines[0]
    } else {
        join(lines.drop_last(), sep) + sep + lines.last()
    }
}

/// `s` without one trailing `'\r'`.
pub open spec fn strip_cr(s: Seq<char>) -> Seq<char> {
    if s.len() > 0 && s.last() == '\r' {
        s.drop_last()
    } else {
        s
    }
}

/// `str::lines`: split on `'\n'`; a line that ended in `"\r\n"` loses its `'\r'`; the empty
/// piece after a final newline is not a line.
pub open spec fn lines(s: Seq<char>) -> Seq<Seq<char>> {
    let pieces = split(s, Sep::Char('\n'));
    let n = pieces.len();
    let kept: int = if n > 0 && pieces.last().len() == 0 {
        n - 1
    } else {
        n as int
    };
    Seq::new(
        kept as nat,
        |i: int|
            if i < n - 1 {
                strip_cr(pieces[i])
            } else {
                pieces[i]
            },
    )
}

/// The lines of `text`, as `str::lines` yields them.
pub fn lines_exec(text: &Vec<char>) -> (ls: Vec<Vec<char>>)
    ensures
        views(ls@) == lines(text@),
{
    let pieces = split_exec(text, Sep::Char('\n'));
    proof {
        lemma_split_nonempty(text@, Sep::Char('\n'));
    }
    let n = pieces.len();
    let keep = if n > 0 && pieces[n - 1].len() == 0 {
        n - 1
    } else {
        n
    };
    let ghost want = lines(text@);
    assert(want.len() == keep);
    let mut ls: Vec<Vec<char>> = Vec::new();
    for i in 0..keep
        invariant
            want == lines(text@),
            views(pieces@) == split(text@, Sep::Char('\n')),
            n == pieces@.len(),
            want.len() == keep,
            keep <= n,
            ls@.len() == i,
            forall|j: int| 0 <= j < i ==> #[trigger] ls@[j]@ == want[j],
    {
        let p = &pieces[i];
        let end = if i + 1 < n && p.len() > 0 && p[p.len() - 1] == '\r' {
            p.len() - 1
        } else {
            p.len()
        };
        ls.push(sub_vec(p, 0, end));
        proof {
            assert(p@ == split(text@, Sep::Char('\n'))[i as int]);
            if i + 1 < n && p@.len() > 0 && p@.last() == '\r' {
                assert(p@.subrange(0, end as int) == p@.drop_last());
            } else {
                assert(p@.subrange(0, end as int) == p@);
            }
        }
    }
    assert(views(ls@) =~= want);
    ls
}

// ---------------------------------------------------------------------------------------
// Numbers
// ---------------------------------------------------------------------------------------

pub open spec fn digit_char(d: nat) -> char {
    if d == 0 { '0' }
    else if d == 1 { '1' }
    else if d == 2 { '2' }
    else if d == 3 { '3' }
    else if d == 4 { '4' }
    else if d == 5 { '5' }
    else if d == 6 { '6' }
    else if d == 7 { '7' }
    else if d == 8 { '8' }
    else { '9' }
}

/// The decimal rendering of a natural number, as `Display` writes it.
pub open spec fn decimal(n: nat) -> Seq<char>
    decreases n,
{
    if n < 10 {
        seq![digit_char(n)]
    } else {
        decimal(n / 10).push(digit_char(n % 10))
    }
}

fn digit_exec(d: u64) -> (c: char)
    requires
        d < 10,
    ensures
        c == digit_char(d as nat),
{
    if d == 0 { '0' }
    else if d == 1 { '1' }
    else if d == 2 { '2' }
    else if d == 3 { '3' }
    else if d == 4 { '4' }
    else if d == 5 { '5' }
    else if d == 6 { '6' }
    else if d == 7 { '7' }
    else if d == 8 { '8' }
    else { '9' }
}

fn decimal_chars(n: u64) -> (v: Vec<char>)
    ensures
        v@ == decimal(n as nat),
    decreases n,
{
    if n < 10 {
        let v = vec![digit_exec(n)];
        assert(v@ =~= seq![digit_char(n as nat)]);
        v
    } else {
        let mut v = decimal_chars(n / 10);
        v.push(digit_exec(n % 10));
        v
    }
}

/// Append the decimal rendering of `n`.
pub fn push_decimal(s: &mut String, n: u64)
    ensures
        final(s)@ == old(s)@ + decimal(n as nat),
{
    let v = decimal_chars(n);
    push_chars(s, &v, 0, v.len());
    assert(v@.subrange(0, v@.len() as int) == v@);
}

/// A signed number in decimal.
pub open spec fn signed_decimal(n: int) -> Seq<char> {
    if n < 0 {
        "-"@ + decimal((-n) as nat)
    } else {
        decimal(n as nat)
    }
}

/// Append the decimal form of a signed number.
pub fn push_signed_decimal(s: &mut String, n: i32)
    ensures
        final(s)@ == old(s)@ + signed_decimal(n as int),
{
    if n < 0 {
        push_str(s, "-");
        let m: i64 = -(n as i64);
        push_decimal(s, m as u64);
    } else {
        push_decimal(s, n as u64);
    }
}

} // verus!
