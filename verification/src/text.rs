//! Character-level string helpers with exact specifications.
//!
//! Every helper here is specified over `Seq<char>`, the view of `str` and
//! `String`, so that callers can state what they compute about text.

use vstd::prelude::*;
use vstd::string::*;
use vstd::std_specs::iter::IteratorSpec;

verus! {

broadcast use vstd::string::group_string_axioms;

// ── Specifications ───────────────────────────────────────────────────────────

/// Unicode `White_Space`, the set that `char::is_whitespace` and `str::trim` use.
pub open spec fn is_ws(c: char) -> bool {
    let u = c as u32;
    ||| (0x09 <= u && u <= 0x0d)
    ||| u == 0x20
    ||| u == 0x85
    ||| u == 0xa0
    ||| u == 0x1680
    ||| (0x2000 <= u && u <= 0x200a)
    ||| u == 0x2028
    ||| u == 0x2029
    ||| u == 0x202f
    ||| u == 0x205f
    ||| u == 0x3000
}

/// `s` with leading white space removed.
pub open spec fn trim_start(s: Seq<char>) -> Seq<char>
    decreases s.len(),
{
    if s.len() > 0 && is_ws(s[0]) {
        trim_start(s.drop_first())
    } else {
        s
    }
}

/// `s` with trailing white space removed.
pub open spec fn trim_end(s: Seq<char>) -> Seq<char>
    decreases s.len(),
{
    if s.len() > 0 && is_ws(s.last()) {
        trim_end(s.drop_last())
    } else {
        s
    }
}

/// `s` with leading and trailing white space removed, as `str::trim` returns it.
pub open spec fn trimmed(s: Seq<char>) -> Seq<char> {
    trim_end(trim_start(s))
}

/// `p` is a prefix of `s`.
pub open spec fn has_prefix(s: Seq<char>, p: Seq<char>) -> bool {
    p.len() <= s.len() && s.subrange(0, p.len() as int) == p
}

/// `n` occurs in `s` starting at position `i`.
pub open spec fn occurs_at(s: Seq<char>, n: Seq<char>, i: int) -> bool {
    0 <= i && i + n.len() <= s.len() && s.subrange(i, i + n.len()) == n
}

/// `n` occurs somewhere in `s` (the empty sequence occurs everywhere).
pub open spec fn has_infix(s: Seq<char>, n: Seq<char>) -> bool {
    exists|i: int| occurs_at(s, n, i)
}

/// The decimal digit character for `d` (`0 <= d < 10`).
pub open spec fn digit_char(d: nat) -> char {
    ((d + 48) as u32) as char
}

/// The decimal representation of `n`, without leading zeros.
pub open spec fn decimal(n: nat) -> Seq<char>
    decreases n,
{
    if n < 10 {
        seq![digit_char(n)]
    } else {
        decimal(n / 10).push(digit_char(n % 10))
    }
}


/// `l` without one trailing carriage return.
pub open spec fn without_cr(l: Seq<char>) -> Seq<char> {
    if l.len() > 0 && l.last() == '\r' {
        l.drop_last()
    } else {
        l
    }
}

/// The lines of `s` from position `i` on, the current line having begun at
/// `start`: lines end at `\n`, a line ended by `\r\n` loses the `\r`, and
/// a final line without `\n` is kept only when it is not empty.
pub open spec fn lines_from(s: Seq<char>, start: int, i: int) -> Seq<Seq<char>>
    decreases s.len() - i,
{
    if i >= s.len() {
        if 0 <= start < s.len() {
            seq![s.subrange(start, s.len() as int)]
        } else {
            Seq::empty()
        }
    } else if s[i] == '\n' {
        seq![without_cr(s.subrange(start, i))] + lines_from(s, i + 1, i + 1)
    } else {
        lines_from(s, start, i + 1)
    }
}

/// The lines of `s`, as `str::lines` yields them.
pub open spec fn lines_of(s: Seq<char>) -> Seq<Seq<char>> {
    lines_from(s, 0, 0)
}


/// The words of `s` from position `i` on, the current word having begun at
/// `start`: maximal runs of characters that are not white space.
pub open spec fn words_from(s: Seq<char>, start: int, i: int) -> Seq<Seq<char>>
    decreases s.len() - i,
{
    if i >= s.len() {
        if 0 <= start < s.len() {
            seq![s.subrange(start, s.len() as int)]
        } else {
            Seq::empty()
        }
    } else if is_ws(s[i]) {
        (if start < i {
            seq![s.subrange(start, i)]
        } else {
            Seq::empty()
        }) + words_from(s, i + 1, i + 1)
    } else {
        words_from(s, start, i + 1)
    }
}

/// The words of `s`, as `str::split_whitespace` yields them.
pub open spec fn words_of(s: Seq<char>) -> Seq<Seq<char>> {
    words_from(s, 0, 0)
}

/// The position of the first `c` in `s` at or after `i`, if any.
pub open spec fn find_char_from(s: Seq<char>, c: char, i: int) -> Option<int>
    decreases s.len() - i,
{
    if i < 0 || i >= s.len() {
        None
    } else if s[i] == c {
        Some(i)
    } else {
        find_char_from(s, c, i + 1)
    }
}

/// `s` without its leading characters equal to `c`.
pub open spec fn strip_start_all(s: Seq<char>, c: char) -> Seq<char>
    decreases s.len(),
{
    if s.len() > 0 && s[0] == c {
        strip_start_all(s.drop_first(), c)
    } else {
        s
    }
}

/// `s` without its trailing characters equal to `c`.
pub open spec fn strip_end_all(s: Seq<char>, c: char) -> Seq<char>
    decreases s.len(),
{
    if s.len() > 0 && s.last() == c {
        strip_end_all(s.drop_last(), c)
    } else {
        s
    }
}

/// `s` without leading and trailing `c`, as `str::trim_matches(c)`.
pub open spec fn strip_all(s: Seq<char>, c: char) -> Seq<char> {
    strip_end_all(strip_start_all(s, c), c)
}

/// The value of the decimal digits `d`.
pub open spec fn digits_value(d: Seq<char>) -> int
    decreases d.len(),
{
    if d.len() == 0 {
        0
    } else {
        digits_value(d.drop_last()) * 10 + (d.last() as int - 48)
    }
}

/// Every character of `d` is an ASCII digit.
pub open spec fn all_digits(d: Seq<char>) -> bool {
    forall|i: int| 0 <= i < d.len() ==> '0' <= #[trigger] d[i] <= '9'
}

/// What `str::parse::<u64>` returns for `s`: an optional `+`, then at least
/// one ASCII digit and nothing else, denoting at most `u64::MAX`.
pub open spec fn parsed_u64(s: Seq<char>) -> Option<u64> {
    let d = if s.len() > 0 && s[0] == '+' { s.drop_first() } else { s };
    if d.len() > 0 && all_digits(d) && digits_value(d) <= u64::MAX {
        Some(digits_value(d) as u64)
    } else {
        None
    }
}

/// What `str::parse::<u32>` returns for `s`: an optional `+`, then at least
/// one ASCII digit and nothing else, denoting at most `u32::MAX`.
pub open spec fn parsed_u32(s: Seq<char>) -> Option<u32> {
    let d = if s.len() > 0 && s[0] == '+' { s.drop_first() } else { s };
    if d.len() > 0 && all_digits(d) && digits_value(d) <= u32::MAX {
        Some(digits_value(d) as u32)
    } else {
        None
    }
}

/// The result of Unicode lower-casing `s`, as `str::to_lowercase` defines it.
pub uninterp spec fn lowercase_of(s: Seq<char>) -> Seq<char>;

/// The result of Unicode upper-casing `s`, as `str::to_uppercase` defines it.
pub uninterp spec fn uppercase_of(s: Seq<char>) -> Seq<char>;

/// The ASCII lower-case form of `c`: `A` to `Z` become `a` to `z`, every
/// other character stays.
pub open spec fn ascii_lower_char(c: char) -> char {
    if 'A' <= c <= 'Z' {
        ((c as u32) + 32) as char
    } else {
        c
    }
}

/// The ASCII upper-case form of `c`: `a` to `z` become `A` to `Z`, every
/// other character stays.
pub open spec fn ascii_upper_char(c: char) -> char {
    if 'a' <= c <= 'z' {
        ((c as u32) - 32) as char
    } else {
        c
    }
}

/// `s` with each character in its ASCII lower-case form.
pub open spec fn ascii_lower(s: Seq<char>) -> Seq<char> {
    s.map_values(|c: char| ascii_lower_char(c))
}

/// `s` with each character in its ASCII upper-case form.
pub open spec fn ascii_upper(s: Seq<char>) -> Seq<char> {
    s.map_values(|c: char| ascii_upper_char(c))
}

/// The `Debug` text of the string `s`: `s` in double quotes with the
/// escapes of `char::escape_debug`.
pub uninterp spec fn debug_text_of(s: Seq<char>) -> Seq<char>;

// ── Trusted std calls ────────────────────────────────────────────────────────

/// Calls `str::to_lowercase`. Its result is named `lowercase_of` of the input
/// characters: the Unicode lower-case mapping depends on the characters alone.
/// On ASCII text it is the ASCII mapping (`A` to `Z` become `a` to `z`), as
/// std documents beside `str::to_ascii_lowercase`.
#[verifier::external_body]
pub(crate) fn lowercase(s: &str) -> (r: String)
    ensures
        r@ == lowercase_of(s@),
        vstd::utf8::is_ascii_chars(s@) ==> r@ == ascii_lower(s@),
{
    s.to_lowercase()
}

/// Calls `str::to_uppercase`. Its result is named `uppercase_of` of the input
/// characters: the Unicode upper-case mapping depends on the characters alone.
/// On ASCII text it is the ASCII mapping (`a` to `z` become `A` to `Z`), as
/// std documents beside `str::to_ascii_uppercase`.
#[verifier::external_body]
pub(crate) fn uppercase(s: &str) -> (r: String)
    ensures
        r@ == uppercase_of(s@),
        vstd::utf8::is_ascii_chars(s@) ==> r@ == ascii_upper(s@),
{
    s.to_uppercase()
}

/// Formats `s` with `{:?}`, the `Debug` implementation of `str`. The escape
/// rules of `char::escape_debug` depend on Unicode tables, so the result is
/// named `debug_text_of` of the characters.
#[verifier::external_body]
pub(crate) fn debug_text(s: &str) -> (r: String)
    ensures
        r@ == debug_text_of(s@),
{
    format!("{:?}", s)
}

/// Calls `String::push`, which appends one character.
#[verifier::external_body]
pub(crate) fn push_char(s: &mut String, c: char)
    ensures
        final(s)@ == old(s)@.push(c),
{
    s.push(c)
}

// ── Helpers ──────────────────────────────────────────────────────────────────

/// The characters of `s`, in order.
pub fn chars_of(s: &str) -> (v: Vec<char>)
    ensures
        v@ == s@,
{
    let mut v: Vec<char> = Vec::new();
    for c in it: s.chars()
        invariant
            it.seq() == s@,
            v@ == it.seq().take(it.index() as int),
    {
        v.push(c);
    }
    v
}

/// A `String` holding `s`.
pub fn owned(s: &str) -> (r: String)
    ensures
        r@ == s@,
{
    s.to_owned()
}

/// Appends `t` to `s`.
pub fn append(s: &mut String, t: &str)
    ensures
        final(s)@ == old(s)@ + t@,
{
    let cs = chars_of(t);
    let ghost start = s@;
    let mut i: usize = 0;
    while i < cs.len()
        invariant
            0 <= i <= cs.len(),
            cs@ == t@,
            s@ == start + cs@.take(i as int),
        decreases cs.len() - i,
    {
        push_char(s, cs[i]);
        assert(cs@.take(i + 1) == cs@.take(i as int).push(cs@[i as int]));
        i = i + 1;
    }
    assert(cs@.take(cs.len() as int) == cs@);
}

/// The concatenation `a + b`.
pub fn concat(a: &str, b: &str) -> (r: String)
    ensures
        r@ == a@ + b@,
{
    let mut r = owned(a);
    append(&mut r, b);
    r
}

/// A `String` holding the characters of `v`.
pub fn string_from_chars(v: &[char]) -> (r: String)
    ensures
        r@ == v@,
{
    let mut r = String::new();
    let mut i: usize = 0;
    while i < v.len()
        invariant
            0 <= i <= v.len(),
            r@ == v@.take(i as int),
        decreases v.len() - i,
    {
        push_char(&mut r, v[i]);
        assert(v@.take(i + 1) == v@.take(i as int).push(v@[i as int]));
        i = i + 1;
    }
    assert(v@.take(v.len() as int) == v@);
    r
}

/// A `String` holding the characters of `v` from `from` up to `to`.
pub fn string_from_range(v: &[char], from: usize, to: usize) -> (r: String)
    requires
        from <= to <= v@.len(),
    ensures
        r@ == v@.subrange(from as int, to as int),
{
    let mut r = String::new();
    let mut i: usize = from;
    while i < to
        invariant
            from <= i <= to <= v@.len(),
            r@ == v@.subrange(from as int, i as int),
        decreases to - i,
    {
        push_char(&mut r, v[i]);
        assert(v@.subrange(from as int, i + 1) =~= v@.subrange(from as int, i as int).push(v@[i as int]));
        i = i + 1;
    }
    r
}

/// Whether two character sequences are equal.
pub fn chars_eq(a: &[char], b: &[char]) -> (r: bool)
    ensures
        r == (a@ == b@),
{
    if a.len() != b.len() {
        return false;
    }
    let mut i: usize = 0;
    while i < a.len()
        invariant
            a.len() == b.len(),
            0 <= i <= a.len(),
            forall|k: int| 0 <= k < i ==> a@[k] == b@[k],
        decreases a.len() - i,
    {
        if a[i] != b[i] {
            return false;
        }
        i = i + 1;
    }
    assert(a@ =~= b@);
    true
}

/// Whether two strings hold the same characters.
pub fn str_eq(a: &str, b: &str) -> (r: bool)
    ensures
        r == (a@ == b@),
{
    let ca = chars_of(a);
    let cb = chars_of(b);
    chars_eq(ca.as_slice(), cb.as_slice())
}

/// Whether `n` occurs in `s` at position `i`.
pub fn chars_occur_at(s: &[char], n: &[char], i: usize) -> (r: bool)
    ensures
        r == occurs_at(s@, n@, i as int),
{
    if i > s.len() || n.len() > s.len() - i {
        return false;
    }
    let mut k: usize = 0;
    while k < n.len()
        invariant
            i + n.len() <= s.len(),
            0 <= k <= n.len(),
            forall|j: int| 0 <= j < k ==> s@[i + j] == n@[j],
        decreases n.len() - k,
    {
        if s[i + k] != n[k] {
            assert(s@.subrange(i as int, i + n.len())[k as int] != n@[k as int]);
            return false;
        }
        k = k + 1;
    }
    assert(s@.subrange(i as int, i + n.len()) =~= n@);
    true
}

/// Whether `n` occurs anywhere in `s`.
pub fn chars_contain(s: &[char], n: &[char]) -> (r: bool)
    ensures
        r == has_infix(s@, n@),
{
    if n.len() > s.len() {
        assert forall|i: int| !occurs_at(s@, n@, i) by {}
        return false;
    }
    let limit = s.len() - n.len();
    let mut i: usize = 0;
    loop
        invariant
            n.len() <= s.len(),
            limit == s.len() - n.len(),
            0 <= i <= limit,
            forall|j: int| 0 <= j < i ==> !occurs_at(s@, n@, j),
        ensures
            forall|j: int| 0 <= j <= limit ==> !occurs_at(s@, n@, j),
        decreases limit - i,
    {
        if chars_occur_at(s, n, i) {
            return true;
        }
        if i == limit {
            break;
        }
        i = i + 1;
    }
    assert forall|j: int| !occurs_at(s@, n@, j) by {
        if 0 <= j <= limit {
        }
    }
    false
}

/// Whether `n` occurs anywhere in `s`, as `str::contains` with a `&str` pattern.
pub fn str_contains(s: &str, n: &str) -> (r: bool)
    ensures
        r == has_infix(s@, n@),
{
    let cs = chars_of(s);
    let cn = chars_of(n);
    chars_contain(cs.as_slice(), cn.as_slice())
}

/// Whether `s` starts with `p`, as `str::starts_with` with a `&str` pattern.
pub fn str_starts_with(s: &str, p: &str) -> (r: bool)
    ensures
        r == has_prefix(s@, p@),
{
    let cs = chars_of(s);
    let cp = chars_of(p);
    let r = chars_occur_at(cs.as_slice(), cp.as_slice(), 0);
    proof {
        if r {
            assert(occurs_at(cs@, cp@, 0));
        }
    }
    r
}

/// Whether `c` is white space, as `char::is_whitespace`.
pub fn is_whitespace(c: char) -> (r: bool)
    ensures
        r == is_ws(c),
{
    let u = c as u32;
    (0x09 <= u && u <= 0x0d) || u == 0x20 || u == 0x85 || u == 0xa0 || u == 0x1680 || (0x2000
        <= u && u <= 0x200a) || u == 0x2028 || u == 0x2029 || u == 0x202f || u == 0x205f || u
        == 0x3000
}

proof fn lemma_trim_start_skip(s: Seq<char>, a: int)
    requires
        0 <= a < s.len(),
        is_ws(s[a]),
    ensures
        trim_start(s.subrange(a, s.len() as int)) == trim_start(s.subrange(a + 1, s.len() as int)),
{
    assert(s.subrange(a, s.len() as int).drop_first() =~= s.subrange(a + 1, s.len() as int));
}

proof fn lemma_trim_end_of_trimmed_start(s: Seq<char>, a: int, b: int)
    requires
        0 <= a <= b <= s.len(),
        a < s.len() ==> !is_ws(s[a]),
        forall|k: int| b <= k < s.len() ==> is_ws(s[k]),
        b > a ==> !is_ws(s[b - 1]),
    ensures
        trim_end(s.subrange(a, s.len() as int)) == s.subrange(a, b),
    decreases s.len() - b,
{
    let t = s.subrange(a, s.len() as int);
    if b == s.len() {
        if t.len() > 0 {
            assert(t.last() == s[b - 1]);
        }
    } else {
        assert(t.last() == s[s.len() - 1]);
        let s2 = s.subrange(0, s.len() - 1);
        assert(s2.subrange(a, s2.len() as int) =~= t.drop_last());
        lemma_trim_end_of_trimmed_start(s2, a, b);
        assert(s2.subrange(a, b) =~= s.subrange(a, b));
    }
}

/// Removes leading and trailing white space, as `str::trim`.
pub fn trim(s: &str) -> (r: &str)
    ensures
        r@ == trimmed(s@),
{
    let cs = chars_of(s);
    let n = cs.len();
    let mut a: usize = 0;
    assert(s@.subrange(0, n as int) =~= s@);
    while a < n && is_whitespace(cs[a])
        invariant
            cs@ == s@,
            n == cs.len(),
            0 <= a <= n,
            trim_start(s@) == trim_start(s@.subrange(a as int, n as int)),
            forall|k: int| 0 <= k < a ==> is_ws(s@[k]),
        decreases n - a,
    {
        proof {
            lemma_trim_start_skip(s@, a as int);
        }
        a = a + 1;
    }
    assert(trim_start(s@.subrange(a as int, n as int)) == s@.subrange(a as int, n as int)) by {
        let t = s@.subrange(a as int, n as int);
        if t.len() > 0 {
            assert(t[0] == s@[a as int]);
        }
    }
    let mut b: usize = n;
    while b > a && is_whitespace(cs[b - 1])
        invariant
            cs@ == s@,
            n == cs.len(),
            0 <= a <= b <= n,
            forall|k: int| b <= k < n ==> is_ws(s@[k]),
            a < n ==> !is_ws(s@[a as int]),
        decreases b - a,
    {
        b = b - 1;
    }
    proof {
        lemma_trim_end_of_trimmed_start(s@, a as int, b as int);
    }
    s.substring_char(a, b)
}


/// The lines of `s`, as `str::lines` yields them.
pub fn split_lines(s: &str) -> (r: Vec<String>)
    ensures
        r@.len() == lines_of(s@).len(),
        forall|k: int| 0 <= k < r@.len() ==> (#[trigger] r@[k])@ == lines_of(s@)[k],
{
    let cs = chars_of(s);
    let ghost t = s@;
    let mut out: Vec<String> = Vec::new();
    let mut cur: Vec<char> = Vec::new();
    let mut start: usize = 0;
    let mut i: usize = 0;
    while i < cs.len()
        invariant
            cs@ == t,
            0 <= start <= i <= cs.len(),
            cur@ == t.subrange(start as int, i as int),
            out@.map_values(|x: String| x@) + lines_from(t, start as int, i as int) == lines_of(t),
        decreases cs.len() - i,
    {
        let c = cs[i];
        if c == '\n' {
            let ghost before = out@.map_values(|x: String| x@);
            let ghost line = without_cr(t.subrange(start as int, i as int));
            if cur.len() > 0 && cur[cur.len() - 1] == '\r' {
                cur.pop();
            }
            assert(cur@ =~= line);
            let l = string_from_chars(cur.as_slice());
            out.push(l);
            assert(out@.map_values(|x: String| x@) =~= before.push(line));
            assert(before.push(line) + lines_from(t, i + 1, i + 1) =~= before + (seq![line]
                + lines_from(t, i + 1, i + 1)));
            cur = Vec::new();
            start = i + 1;
            assert(cur@ =~= t.subrange(start as int, (i + 1) as int));
        } else {
            cur.push(c);
            assert(cur@ =~= t.subrange(start as int, (i + 1) as int));
        }
        i = i + 1;
    }
    let ghost before = out@.map_values(|x: String| x@);
    if start < cs.len() {
        let l = string_from_chars(cur.as_slice());
        out.push(l);
        assert(out@.map_values(|x: String| x@) =~= before + seq![t.subrange(start as int, t.len() as int)]);
    } else {
        assert(before + lines_from(t, start as int, i as int) =~= before);
    }
    assert forall|k: int| 0 <= k < out@.len() implies (#[trigger] out@[k])@ == lines_of(s@)[k] by {
        assert(out@.map_values(|x: String| x@)[k] == out@[k]@);
    }
    out
}


/// The words of `s`, as `str::split_whitespace` yields them.
pub fn split_words(s: &str) -> (r: Vec<String>)
    ensures
        r@.len() == words_of(s@).len(),
        forall|k: int| 0 <= k < r@.len() ==> (#[trigger] r@[k])@ == words_of(s@)[k],
{
    let cs = chars_of(s);
    let ghost t = s@;
    let mut out: Vec<String> = Vec::new();
    let mut cur: Vec<char> = Vec::new();
    let mut start: usize = 0;
    let mut i: usize = 0;
    while i < cs.len()
        invariant
            cs@ == t,
            0 <= start <= i <= cs.len(),
            cur@ == t.subrange(start as int, i as int),
            out@.map_values(|x: String| x@) + words_from(t, start as int, i as int) == words_of(t),
        decreases cs.len() - i,
    {
        let c = cs[i];
        if is_whitespace(c) {
            let ghost before = out@.map_values(|x: String| x@);
            if start < i {
                let w = string_from_chars(cur.as_slice());
                out.push(w);
                assert(out@.map_values(|x: String| x@) =~= before.push(t.subrange(start as int, i as int)));
                assert(before.push(t.subrange(start as int, i as int)) + words_from(t, i + 1, i + 1)
                    =~= before + (seq![t.subrange(start as int, i as int)] + words_from(t, i + 1, i + 1)));
            } else {
                assert(before + (Seq::<Seq<char>>::empty() + words_from(t, i + 1, i + 1)) =~= before
                    + words_from(t, i + 1, i + 1));
            }
            cur = Vec::new();
            start = i + 1;
            assert(cur@ =~= t.subrange(start as int, (i + 1) as int));
        } else {
            cur.push(c);
            assert(cur@ =~= t.subrange(start as int, (i + 1) as int));
        }
        i = i + 1;
    }
    let ghost before = out@.map_values(|x: String| x@);
    if start < cs.len() {
        let w = string_from_chars(cur.as_slice());
        out.push(w);
        assert(out@.map_values(|x: String| x@) =~= before + seq![t.subrange(start as int, t.len() as int)]);
    } else {
        assert(before + words_from(t, start as int, i as int) =~= before);
    }
    assert forall|k: int| 0 <= k < out@.len() implies (#[trigger] out@[k])@ == words_of(s@)[k] by {
        assert(out@.map_values(|x: String| x@)[k] == out@[k]@);
    }
    out
}

/// The position of the first `c` in `s`, if any.
pub fn find_char(s: &[char], c: char) -> (r: Option<usize>)
    ensures
        match r {
            None => find_char_from(s@, c, 0) is None,
            Some(p) => find_char_from(s@, c, 0) == Some(p as int) && p < s@.len(),
        },
{
    let mut i: usize = 0;
    while i < s.len()
        invariant
            0 <= i <= s.len(),
            find_char_from(s@, c, 0) == find_char_from(s@, c, i as int),
        decreases s.len() - i,
    {
        if s[i] == c {
            return Some(i);
        }
        i = i + 1;
    }
    None
}

/// `s` without leading and trailing `c`, as `str::trim_matches(c)`.
pub fn trim_matches_char(s: &str, c: char) -> (r: String)
    ensures
        r@ == strip_all(s@, c),
{
    let cs = chars_of(s);
    let n = cs.len();
    let mut a: usize = 0;
    assert(s@.subrange(0, n as int) =~= s@);
    while a < n && cs[a] == c
        invariant
            cs@ == s@,
            n == cs.len(),
            0 <= a <= n,
            strip_start_all(s@, c) == strip_start_all(s@.subrange(a as int, n as int), c),
        decreases n - a,
    {
        assert(s@.subrange(a as int, n as int).drop_first() =~= s@.subrange(a + 1, n as int));
        a = a + 1;
    }
    let ghost mid = s@.subrange(a as int, n as int);
    assert(strip_start_all(mid, c) == mid) by {
        if mid.len() > 0 {
            assert(mid[0] == cs@[a as int]);
        }
    }
    let mut b: usize = n;
    while b > a && cs[b - 1] == c
        invariant
            cs@ == s@,
            n == cs.len(),
            0 <= a <= b <= n,
            mid == s@.subrange(a as int, n as int),
            strip_end_all(mid, c) == strip_end_all(s@.subrange(a as int, b as int), c),
        decreases b - a,
    {
        assert(s@.subrange(a as int, b as int).drop_last() =~= s@.subrange(a as int, b - 1));
        b = b - 1;
    }
    let ghost out = s@.subrange(a as int, b as int);
    assert(strip_end_all(out, c) == out) by {
        if out.len() > 0 {
            assert(out.last() == cs@[b - 1]);
        }
    }
    let mut r = String::new();
    let mut i: usize = a;
    while i < b
        invariant
            cs@ == s@,
            0 <= a <= i <= b <= cs.len(),
            r@ == s@.subrange(a as int, i as int),
        decreases b - i,
    {
        push_char(&mut r, cs[i]);
        assert(s@.subrange(a as int, i + 1) =~= s@.subrange(a as int, i as int).push(cs@[i as int]));
        i = i + 1;
    }
    r
}

/// `str::parse::<u32>` of `s`, or `None` where it fails.
pub fn parse_u32(s: &str) -> (r: Option<u32>)
    ensures
        r == parsed_u32(s@),
{
    let cs = chars_of(s);
    let mut i: usize = 0;
    if cs.len() > 0 && cs[0] == '+' {
        i = 1;
    }
    let ghost d = if s@.len() > 0 && s@[0] == '+' { s@.drop_first() } else { s@ };
    assert(d =~= s@.subrange(i as int, s@.len() as int));
    if i >= cs.len() {
        return None;
    }
    let mut v: u64 = 0;
    let start = i;
    while i < cs.len()
        invariant
            cs@ == s@,
            1 <= start + 1 <= i + 1,
            start <= i <= cs.len(),
            d == s@.subrange(start as int, s@.len() as int),
            d == (if s@.len() > 0 && s@[0] == '+' { s@.drop_first() } else { s@ }),
            all_digits(s@.subrange(start as int, i as int)),
            v == digits_value(s@.subrange(start as int, i as int)),
            v <= u32::MAX,
        decreases cs.len() - i,
    {
        let c = cs[i];
        if c < '0' || c > '9' {
            proof {
                let j = i - start;
                assert(d[j] == s@[i as int]);
                assert(!('0' <= d[j] <= '9'));
                assert(!all_digits(d));
            }
            return None;
        }
        let digit = (c as u32 - 48) as u64;
        assert(s@.subrange(start as int, i + 1).drop_last() =~= s@.subrange(start as int, i as int));
        assert(s@.subrange(start as int, i + 1).last() == c);
        assert(v * 10 <= 0xffff_ffff * 10) by (nonlinear_arith)
            requires
                v <= 0xffff_ffff,
        ;
        v = v * 10 + digit;
        assert(v == digits_value(s@.subrange(start as int, i + 1)));
        assert(all_digits(s@.subrange(start as int, i + 1))) by {
            assert forall|j: int| 0 <= j < i + 1 - start implies '0' <= #[trigger] s@.subrange(
                start as int,
                i + 1,
            )[j] <= '9' by {
                if j < i - start {
                    assert(s@.subrange(start as int, i + 1)[j] == s@.subrange(start as int, i as int)[j]);
                }
            }
        }
        if v > 0xffff_ffff {
            proof {
                assert(s@.subrange(start as int, i + 1) =~= d.subrange(0, i + 1 - start));
                if all_digits(d) {
                    lemma_digits_prefix_le(d, i + 1 - start);
                }
            }
            return None;
        }
        i = i + 1;
    }
    assert(s@.subrange(start as int, i as int) =~= d);
    Some(v as u32)
}

/// `str::parse::<u64>` of `s`, or `None` where it fails.
pub fn parse_u64(s: &str) -> (r: Option<u64>)
    ensures
        r == parsed_u64(s@),
{
    let cs = chars_of(s);
    let mut i: usize = 0;
    if cs.len() > 0 && cs[0] == '+' {
        i = 1;
    }
    let ghost d = if s@.len() > 0 && s@[0] == '+' { s@.drop_first() } else { s@ };
    assert(d =~= s@.subrange(i as int, s@.len() as int));
    if i >= cs.len() {
        return None;
    }
    let mut v: u128 = 0;
    let start = i;
    while i < cs.len()
        invariant
            cs@ == s@,
            1 <= start + 1 <= i + 1,
            start <= i <= cs.len(),
            d == s@.subrange(start as int, s@.len() as int),
            d == (if s@.len() > 0 && s@[0] == '+' { s@.drop_first() } else { s@ }),
            all_digits(s@.subrange(start as int, i as int)),
            v == digits_value(s@.subrange(start as int, i as int)),
            v <= u64::MAX,
        decreases cs.len() - i,
    {
        let c = cs[i];
        if c < '0' || c > '9' {
            proof {
                let j = i - start;
                assert(d[j] == s@[i as int]);
                assert(!('0' <= d[j] <= '9'));
                assert(!all_digits(d));
            }
            return None;
        }
        let digit = (c as u32 - 48) as u128;
        assert(s@.subrange(start as int, i + 1).drop_last() =~= s@.subrange(start as int, i as int));
        assert(s@.subrange(start as int, i + 1).last() == c);
        assert(v * 10 <= 0xffff_ffff_ffff_ffff * 10) by (nonlinear_arith)
            requires
                v <= 0xffff_ffff_ffff_ffff,
        ;
        v = v * 10 + digit;
        assert(v == digits_value(s@.subrange(start as int, i + 1)));
        assert(all_digits(s@.subrange(start as int, i + 1))) by {
            assert forall|j: int| 0 <= j < i + 1 - start implies '0' <= #[trigger] s@.subrange(
                start as int,
                i + 1,
            )[j] <= '9' by {
                if j < i - start {
                    assert(s@.subrange(start as int, i + 1)[j] == s@.subrange(start as int, i as int)[j]);
                }
            }
        }
        if v > 0xffff_ffff_ffff_ffff {
            proof {
                assert(s@.subrange(start as int, i + 1) =~= d.subrange(0, i + 1 - start));
                if all_digits(d) {
                    lemma_digits_prefix_le(d, i + 1 - start);
                }
            }
            return None;
        }
        i = i + 1;
    }
    assert(s@.subrange(start as int, i as int) =~= d);
    Some(v as u64)
}

proof fn lemma_digits_nonneg(d: Seq<char>)
    requires
        all_digits(d),
    ensures
        digits_value(d) >= 0,
    decreases d.len(),
{
    if d.len() > 0 {
        assert(all_digits(d.drop_last())) by {
            assert forall|j: int| 0 <= j < d.drop_last().len() implies '0' <= #[trigger] d.drop_last()[j] <= '9' by {
                assert(d.drop_last()[j] == d[j]);
            }
        }
        lemma_digits_nonneg(d.drop_last());
    }
}

proof fn lemma_digits_prefix_le(d: Seq<char>, k: int)
    requires
        all_digits(d),
        0 <= k <= d.len(),
    ensures
        digits_value(d.subrange(0, k)) <= digits_value(d),
    decreases d.len() - k,
{
    if k == d.len() {
        assert(d.subrange(0, k) =~= d);
    } else {
        lemma_digits_prefix_le(d, k + 1);
        let p = d.subrange(0, k + 1);
        assert(p.drop_last() =~= d.subrange(0, k));
        assert(all_digits(d.subrange(0, k))) by {
            assert forall|j: int| 0 <= j < k implies '0' <= #[trigger] d.subrange(0, k)[j] <= '9' by {
                assert(d.subrange(0, k)[j] == d[j]);
            }
        }
        lemma_digits_nonneg(d.subrange(0, k));
        assert(p.last() == d[k]);
    }
}

/// The decimal representation of `n`.
pub fn decimal_string(n: u64) -> (r: String)
    ensures
        r@ == decimal(n as nat),
    decreases n,
{
    if n < 10 {
        let mut r = String::new();
        push_char(&mut r, char_of_digit(n));
        r
    } else {
        let mut r = decimal_string(n / 10);
        push_char(&mut r, char_of_digit(n % 10));
        r
    }
}

fn char_of_digit(d: u64) -> (c: char)
    requires
        d < 10,
    ensures
        c == digit_char(d as nat),
{
    if d == 0 { '0' } else if d == 1 { '1' } else if d == 2 { '2' } else if d == 3 { '3' }
    else if d == 4 { '4' } else if d == 5 { '5' } else if d == 6 { '6' } else if d == 7 { '7' }
    else if d == 8 { '8' } else { '9' }
}

/// The decimal representation of `n`, with a leading `-` when negative.
pub open spec fn signed_decimal(n: int) -> Seq<char> {
    if n < 0 {
        seq!['-'] + decimal((-n) as nat)
    } else {
        decimal(n as nat)
    }
}

/// The decimal representation of `n`, as `Display` writes an integer.
pub fn signed_decimal_string(n: i128) -> (r: String)
    requires
        -0x1_0000_0000_0000_0000 < n < 0x1_0000_0000_0000_0000,
    ensures
        r@ == signed_decimal(n as int),
{
    if n < 0 {
        let m = (0 - n) as u64;
        let digits = decimal_string(m);
        let mut r = String::new();
        push_char(&mut r, '-');
        append(&mut r, digits.as_str());
        proof {
            assert(r@ =~= seq!['-'] + decimal((-n) as nat));
        }
        r
    } else {
        decimal_string(n as u64)
    }
}

} // verus!
