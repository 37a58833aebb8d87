//! Character-sequence helpers shared by the rest of the library: decimal
//! rendering of integers, building strings from characters, comparison and
//! search-and-replace over `Seq<char>` models.

use vstd::prelude::*;

verus! {

/// Appends one character to a string (`String::push`).
#[verifier::external_body]
pub fn push_char(s: &mut String, c: char)
    ensures
        final(s)@ == old(s)@.push(c),
{
    s.push(c);
}

/// The ASCII digit for `d` (`0 <= d < 10`).
pub open spec fn digit_char(d: int) -> char {
    (48 + d) as char
}

/// The decimal representation of `n`, most significant digit first, with no
/// sign and no leading zeros (zero is `"0"`).
pub open spec fn decimal_chars(n: nat) -> Seq<char>
    decreases n,
{
    if n < 10 {
        seq![digit_char(n as int)]
    } else {
        decimal_chars(n / 10).push(digit_char((n % 10) as int))
    }
}

/// Appends the decimal representation of `n` to `s`.
pub fn push_decimal(s: &mut String, n: u64)
    ensures
        final(s)@ == old(s)@ + decimal_chars(n as nat),
    decreases n,
{
    if n >= 10 {
        push_decimal(s, n / 10);
    }
    let d: u8 = (n % 10) as u8;
    let c: char = (48u8 + d) as char;
    assert(c == digit_char((n % 10) as int));
    push_char(s, c);
}

/// The decimal representation of `n` as a new string.
pub fn decimal_string(n: u64) -> (s: String)
    ensures
        s@ == decimal_chars(n as nat),
{
    let mut s = String::new();
    push_decimal(&mut s, n);
    s
}

/// The characters of `s`, in order.
pub fn chars_of(s: &str) -> (v: Vec<char>)
    ensures
        v@ == s@,
{
    let mut v: Vec<char> = Vec::new();
    let n = s.unicode_len();
    let mut i: usize = 0;
    while i < n
        invariant
            n == s@.len(),
            i <= n,
            v@ == s@.subrange(0, i as int),
        decreases n - i,
    {
        let c = s.get_char(i);
        v.push(c);
        i = i + 1;
    }
    v
}

/// A string holding exactly the characters of `v`.
pub fn string_of(v: &Vec<char>) -> (s: String)
    ensures
        s@ == v@,
{
    let mut s = String::new();
    let mut i: usize = 0;
    while i < v.len()
        invariant
            i <= v.len(),
            s@ == v@.subrange(0, i as int),
        decreases v.len() - i,
    {
        push_char(&mut s, v[i]);
        i = i + 1;
    }
    s
}

/// A new string equal to `s`.
pub fn owned(s: &str) -> (r: String)
    ensures
        r@ == s@,
{
    s.to_owned()
}

/// Appends all of `t` to `s`.
pub fn push_str(s: &mut String, t: &str)
    ensures
        final(s)@ == old(s)@ + t@,
{
    s.append(t);
}

/// Whether `a` and `b` hold the same characters.
pub fn str_eq(a: &str, b: &str) -> (r: bool)
    ensures
        r == (a@ == b@),
{
    let n = a.unicode_len();
    let m = b.unicode_len();
    if n != m {
        return false;
    }
    let mut i: usize = 0;
    while i < n
        invariant
            n == a@.len(),
            m == b@.len(),
            n == m,
            i <= n,
            forall|j: int| 0 <= j < i ==> a@[j] == b@[j],
        decreases n - i,
    {
        if a.get_char(i) != b.get_char(i) {
            return false;
        }
        i = i + 1;
    }
    assert(a@ =~= b@);
    true
}

} // verus!

verus! {

/// An optional string viewed as an optional character sequence.
pub open spec fn opt_view(o: Option<String>) -> Option<Seq<char>> {
    match o {
        Some(s) => Some(s@),
        None => None,
    }
}

/// The number of UTF-8 bytes that encode `c`.
pub open spec fn char_utf8_len(c: char) -> nat {
    if (c as u32) < 0x80 {
        1
    } else if (c as u32) < 0x800 {
        2
    } else if (c as u32) < 0x10000 {
        3
    } else {
        4
    }
}

/// The number of UTF-8 bytes that encode `cs` (what `str::len` reports).
pub open spec fn utf8_len(cs: Seq<char>) -> nat
    decreases cs.len(),
{
    if cs.len() == 0 {
        0
    } else {
        utf8_len(cs.drop_last()) + char_utf8_len(cs.last())
    }
}

/// Whether byte offset `k` of the UTF-8 encoding of `cs` falls between two
/// characters.
pub open spec fn is_byte_boundary(cs: Seq<char>, k: nat) -> bool {
    exists|i: int| 0 <= i <= cs.len() && #[trigger] utf8_len(cs.take(i)) == k
}

/// Whether every character of `cs` is ASCII.
pub open spec fn all_ascii(cs: Seq<char>) -> bool {
    forall|i: int| 0 <= i < cs.len() ==> (cs[i] as u32) < 0x80
}

/// Whether `s` is encoded in exactly `k` UTF-8 bytes.
pub fn utf8_len_is(s: &str, k: usize) -> (b: bool)
    ensures
        b == (utf8_len(s@) == k),
{
    let m = s.unicode_len();
    let mut i: usize = 0;
    let mut n: usize = 0;
    while i < m
        invariant
            m == s@.len(),
            i <= m,
            n == utf8_len(s@.take(i as int)),
            n <= k,
        decreases m - i,
    {
        let c = s.get_char(i);
        let u = c as u32;
        let w: usize = if u < 0x80 {
            1
        } else if u < 0x800 {
            2
        } else if u < 0x10000 {
            3
        } else {
            4
        };
        assert(s@.take(i + 1).drop_last() =~= s@.take(i as int));
        if w > k - n {
            proof {
                assert(utf8_len(s@.take(i + 1)) == n + w);
                lemma_utf8_len_prefix_le(s@, i + 1);
            }
            return false;
        }
        n = n + w;
        i = i + 1;
    }
    assert(s@.take(m as int) =~= s@);
    n == k
}

/// The byte length of a prefix never exceeds that of the whole sequence.
pub proof fn lemma_utf8_len_prefix_le(cs: Seq<char>, i: int)
    requires
        0 <= i <= cs.len(),
    ensures
        utf8_len(cs.take(i)) <= utf8_len(cs),
    decreases cs.len() - i,
{
    if i < cs.len() {
        lemma_utf8_len_prefix_le(cs, i + 1);
        assert(cs.take(i + 1).drop_last() =~= cs.take(i));
    } else {
        assert(cs.take(i) =~= cs);
    }
}

/// Whether every character of `s` is ASCII.
pub fn is_all_ascii(s: &str) -> (b: bool)
    ensures
        b == all_ascii(s@),
{
    let m = s.unicode_len();
    let mut i: usize = 0;
    while i < m
        invariant
            m == s@.len(),
            i <= m,
            forall|j: int| 0 <= j < i ==> (s@[j] as u32) < 0x80,
        decreases m - i,
    {
        if (s.get_char(i) as u32) >= 0x80 {
            return false;
        }
        i = i + 1;
    }
    true
}

/// Whether `s` begins with `p`.
pub fn starts_with(s: &str, p: &str) -> (b: bool)
    ensures
        b == (p@.len() <= s@.len() && s@.take(p@.len() as int) == p@),
{
    let n = s.unicode_len();
    let m = p.unicode_len();
    if m > n {
        return false;
    }
    let mut i: usize = 0;
    while i < m
        invariant
            n == s@.len(),
            m == p@.len(),
            m <= n,
            i <= m,
            forall|j: int| 0 <= j < i ==> s@[j] == p@[j],
        decreases m - i,
    {
        if s.get_char(i) != p.get_char(i) {
            assert(s@.take(m as int)[i as int] != p@[i as int]);
            return false;
        }
        i = i + 1;
    }
    assert(s@.take(m as int) =~= p@);
    true
}

/// Whether `s` ends with `p`.
pub fn ends_with(s: &str, p: &str) -> (b: bool)
    ensures
        b == (p@.len() <= s@.len() && s@.skip(s@.len() - p@.len()) == p@),
{
    let n = s.unicode_len();
    let m = p.unicode_len();
    if m > n {
        return false;
    }
    let off = n - m;
    let mut i: usize = 0;
    while i < m
        invariant
            n == s@.len(),
            m == p@.len(),
            m <= n,
            off == n - m,
            i <= m,
            forall|j: int| 0 <= j < i ==> s@[off + j] == p@[j],
        decreases m - i,
    {
        if s.get_char(off + i) != p.get_char(i) {
            assert(s@.skip(off as int)[i as int] != p@[i as int]);
            return false;
        }
        i = i + 1;
    }
    assert(s@.skip(off as int) =~= p@);
    true
}

/// The characters of `s` from index `from` (inclusive) to `to` (exclusive).
pub fn substring(s: &str, from: usize, to: usize) -> (r: String)
    requires
        from <= to <= s@.len(),
    ensures
        r@ == s@.subrange(from as int, to as int),
{
    owned(s.substring_char(from, to))
}

} // verus!

verus! {

/// The full Unicode lowercase mapping of a string, as `str::to_lowercase`
/// computes it.
pub uninterp spec fn unicode_lowercase(s: Seq<char>) -> Seq<char>;

/// `c` with `A`–`Z` mapped to `a`–`z`.
pub open spec fn ascii_lower_char(c: char) -> char {
    if 'A' <= c && c <= 'Z' {
        ((c as u32) + 32) as char
    } else {
        c
    }
}

/// `s` with `A`–`Z` mapped to `a`–`z`.
pub open spec fn ascii_lowercase(s: Seq<char>) -> Seq<char> {
    s.map_values(|c: char| ascii_lower_char(c))
}

/// `str::to_lowercase`. Its result is named `unicode_lowercase`; on ASCII
/// input the documentation of `to_lowercase` gives it as the ASCII mapping
/// of `A`–`Z` to `a`–`z`. Nothing else about non-ASCII input is stated.
#[verifier::external_body]
pub fn to_lowercase(s: &str) -> (r: String)
    ensures
        r@ == unicode_lowercase(s@),
        all_ascii(s@) ==> r@ == ascii_lowercase(s@),
{
    s.to_lowercase()
}

/// Whether byte offset `k` of `s` falls between two characters.
pub fn byte_boundary(s: &str, k: usize) -> (b: bool)
    ensures
        b == is_byte_boundary(s@, k as nat),
{
    let m = s.unicode_len();
    let mut i: usize = 0;
    let mut n: usize = 0;
    while i <= m
        invariant
            m == s@.len(),
            i <= m + 1,
            i <= m ==> n == utf8_len(s@.take(i as int)),
            n <= k,
            forall|j: int| 0 <= j < i ==> #[trigger] utf8_len(s@.take(j)) < k,
        decreases m + 1 - i,
    {
        if n == k {
            assert(utf8_len(s@.take(i as int)) == k);
            return true;
        }
        if i == m {
            proof {
                assert forall|j: int| 0 <= j <= s@.len() implies #[trigger] utf8_len(s@.take(j))
                    != k by {
                    assert(utf8_len(s@.take(j)) < k);
                }
            }
            return false;
        }
        let c = s.get_char(i);
        let u = c as u32;
        let w: usize = if u < 0x80 {
            1
        } else if u < 0x800 {
            2
        } else if u < 0x10000 {
            3
        } else {
            4
        };
        assert(s@.take(i + 1).drop_last() =~= s@.take(i as int));
        if w > k - n {
            proof {
                let i1 = i + 1;
                assert(utf8_len(s@.take(i1)) == n + w);
                assert forall|j: int| 0 <= j <= s@.len() implies #[trigger] utf8_len(s@.take(j))
                    != k by {
                    if j >= i1 {
                        assert(s@.take(j).take(i1) =~= s@.take(i1));
                        lemma_utf8_len_prefix_le(s@.take(j), i1);
                    }
                }
            }
            return false;
        }
        n = n + w;
        i = i + 1;
    }
    false
}

} // verus!

verus! {

/// `n` spaces.
pub open spec fn spaces(n: nat) -> Seq<char> {
    Seq::new(n, |i: int| ' ')
}

/// Appends `n` spaces to `s`.
pub fn push_spaces(s: &mut String, n: usize)
    ensures
        final(s)@ == old(s)@ + spaces(n as nat),
{
    let mut i: usize = 0;
    while i < n
        invariant
            i <= n,
            s@ == old(s)@ + spaces(i as nat),
        decreases n - i,
    {
        push_char(s, ' ');
        i = i + 1;
        assert(s@ =~= old(s)@ + spaces(i as nat));
    }
}

} // verus!

verus! {

/// `s` with every occurrence of `pat` replaced by `rep`, occurrences found
/// from left to right without overlapping (an empty pattern replaces
/// nothing here).
pub open spec fn replace_spec(s: Seq<char>, pat: Seq<char>, rep: Seq<char>) -> Seq<char>
    decreases s.len(),
{
    if pat.len() == 0 || s.len() < pat.len() {
        s
    } else if s.take(pat.len() as int) == pat {
        rep + replace_spec(s.skip(pat.len() as int), pat, rep)
    } else {
        seq![s[0]] + replace_spec(s.skip(1), pat, rep)
    }
}

/// Whether `c` occurs nowhere in `s`.
pub open spec fn lacks(s: Seq<char>, c: char) -> bool {
    forall|k: int| 0 <= k < s.len() ==> s[k] != c
}

/// Replacing a one-character pattern by text without `d`, in text where `d`
/// occurs only as that pattern, leaves no `d`.
pub proof fn lemma_replace_leaves_none(s: Seq<char>, pat: Seq<char>, rep: Seq<char>, d: char)
    requires
        pat.len() == 1,
        forall|k: int| 0 <= k < s.len() && s[k] == d ==> pat[0] == d,
        lacks(rep, d),
    ensures
        lacks(replace_spec(s, pat, rep), d),
    decreases s.len(),
{
    if s.len() < 1 {
    } else if s.take(1) == pat {
        let t = s.skip(1);
        assert forall|k: int| 0 <= k < t.len() && t[k] == d implies pat[0] == d by {
            assert(t[k] == s[k + 1]);
        }
        lemma_replace_leaves_none(t, pat, rep, d);
        let r = replace_spec(t, pat, rep);
        assert(replace_spec(s, pat, rep) == rep + r);
        assert forall|k: int| 0 <= k < (rep + r).len() implies (rep + r)[k] != d by {
            if k >= rep.len() {
                assert((rep + r)[k] == r[k - rep.len()]);
            }
        }
    } else {
        let t = s.skip(1);
        assert forall|k: int| 0 <= k < t.len() && t[k] == d implies pat[0] == d by {
            assert(t[k] == s[k + 1]);
        }
        lemma_replace_leaves_none(t, pat, rep, d);
        let r = replace_spec(t, pat, rep);
        if s[0] == pat[0] {
            assert(s.take(1) =~= pat);
        }
        assert(replace_spec(s, pat, rep) == seq![s[0]] + r);
        assert forall|k: int| 0 <= k < (seq![s[0]] + r).len() implies (seq![s[0]] + r)[k] != d by {
            if k >= 1 {
                assert((seq![s[0]] + r)[k] == r[k - 1]);
            }
        }
    }
}

/// Whether `pat` occurs in `s` starting at index `k`.
pub open spec fn occurs_at(s: Seq<char>, pat: Seq<char>, k: int) -> bool {
    0 <= k && k + pat.len() <= s.len() && s.subrange(k, k + pat.len()) == pat
}

/// Whether `pat` occurs anywhere in `s`.
pub open spec fn contains_spec(s: Seq<char>, pat: Seq<char>) -> bool {
    exists|k: int| #[trigger] occurs_at(s, pat, k)
}

/// Whether `p` occurs in `v` starting at index `i`.
fn matches_at(v: &Vec<char>, i: usize, p: &Vec<char>) -> (b: bool)
    requires
        i <= v.len(),
    ensures
        b == occurs_at(v@, p@, i as int),
{
    let m = p.len();
    if m > v.len() - i {
        return false;
    }
    let mut j: usize = 0;
    while j < m
        invariant
            m == p.len(),
            i + m <= v.len(),
            j <= m,
            forall|t: int| 0 <= t < j ==> v@[i + t] == p@[t],
        decreases m - j,
    {
        if v[i + j] != p[j] {
            assert(v@.subrange(i as int, i + m)[j as int] != p@[j as int]);
            return false;
        }
        j = j + 1;
    }
    assert(v@.subrange(i as int, i + m) =~= p@);
    true
}

/// `s` with every occurrence of `pat` replaced by `rep`, scanning from the
/// left (`str::replace`).
pub fn replace_all(s: &str, pat: &str, rep: &str) -> (r: String)
    ensures
        r@ == replace_spec(s@, pat@, rep@),
{
    let v = chars_of(s);
    let p = chars_of(pat);
    let n = v.len();
    let m = p.len();
    if m == 0 {
        return owned(s);
    }
    let mut out = String::new();
    let mut i: usize = 0;
    assert(v@.skip(0) =~= v@);
    while i < n
        invariant
            v@ == s@,
            p@ == pat@,
            n == v.len(),
            m == p.len(),
            m > 0,
            i <= n,
            out@ + replace_spec(v@.skip(i as int), p@, rep@) == replace_spec(v@, p@, rep@),
        decreases n - i,
    {
        let ghost rest = v@.skip(i as int);
        if matches_at(&v, i, &p) {
            assert(rest.take(m as int) =~= v@.subrange(i as int, i + m));
            assert(rest.skip(m as int) =~= v@.skip(i + m));
            push_str(&mut out, rep);
            i = i + m;
            assert(out@ + replace_spec(v@.skip(i as int), p@, rep@) =~= replace_spec(
                v@,
                p@,
                rep@,
            ));
        } else {
            assert(rest.len() >= m ==> rest.take(m as int) =~= v@.subrange(i as int, i + m));
            assert(rest[0] == v@[i as int]);
            assert(rest.skip(1) =~= v@.skip(i + 1));
            push_char(&mut out, v[i]);
            i = i + 1;
            assert(out@ + replace_spec(v@.skip(i as int), p@, rep@) =~= replace_spec(
                v@,
                p@,
                rep@,
            ));
        }
    }
    assert(v@.skip(n as int) =~= Seq::<char>::empty());
    assert(out@ =~= replace_spec(v@, p@, rep@));
    out
}

/// Whether `pat` occurs in `s` (`str::contains`).
pub fn contains_str(s: &str, pat: &str) -> (b: bool)
    ensures
        b == contains_spec(s@, pat@),
{
    let v = chars_of(s);
    let p = chars_of(pat);
    let n = v.len();
    let m = p.len();
    if m > n {
        assert forall|k: int| !#[trigger] occurs_at(s@, pat@, k) by {}
        return false;
    }
    let last = n - m;
    let mut i: usize = 0;
    while i < last
        invariant
            v@ == s@,
            p@ == pat@,
            n == v.len(),
            m == p.len(),
            last == n - m,
            i <= last,
            forall|k: int| 0 <= k < i ==> !#[trigger] occurs_at(v@, p@, k),
        decreases last - i,
    {
        if matches_at(&v, i, &p) {
            assert(occurs_at(s@, pat@, i as int));
            return true;
        }
        i = i + 1;
    }
    if matches_at(&v, last, &p) {
        assert(occurs_at(s@, pat@, last as int));
        return true;
    }
    assert forall|k: int| !#[trigger] occurs_at(s@, pat@, k) by {
        if 0 <= k && k < i {
        }
    }
    false
}

} // verus!

verus! {

/// `cs` without one trailing carriage return, if it has one.
pub open spec fn strip_cr(cs: Seq<char>) -> Seq<char> {
    if cs.len() > 0 && cs.last() == '\r' {
        cs.drop_last()
    } else {
        cs
    }
}

/// The lines `str::lines` yields from the rest `cs` of a text, given the
/// line being read (`cur`) and the lines already read: a `\n` ends a line
/// (dropping a `\r` just before it), and a last line is only yielded when
/// it is not empty.
pub open spec fn lines_from(cs: Seq<char>, cur: Seq<char>, acc: Seq<Seq<char>>) -> Seq<Seq<char>>
    decreases cs.len(),
{
    if cs.len() == 0 {
        if cur.len() > 0 {
            acc.push(cur)
        } else {
            acc
        }
    } else if cs[0] == '\n' {
        lines_from(cs.drop_first(), seq![], acc.push(strip_cr(cur)))
    } else {
        lines_from(cs.drop_first(), cur.push(cs[0]), acc)
    }
}

/// The lines of `cs`, as `str::lines` yields them.
pub open spec fn lines_spec(cs: Seq<char>) -> Seq<Seq<char>> {
    lines_from(cs, seq![], seq![])
}

/// `v` with `cr` removed from its end if it is there.
fn pop_cr(v: &mut Vec<char>)
    ensures
        final(v)@ == strip_cr(old(v)@),
{
    let n = v.len();
    if n > 0 && v[n - 1] == '\r' {
        v.pop();
        assert(v@ =~= strip_cr(old(v)@));
    }
}

/// The lines of `s` (`str::lines`).
pub fn split_lines(s: &str) -> (r: Vec<String>)
    ensures
        r@.map_values(|l: String| l@) == lines_spec(s@),
{
    let n = s.unicode_len();
    let mut out: Vec<String> = Vec::new();
    let mut cur: Vec<char> = Vec::new();
    let mut i: usize = 0;
    assert(s@.skip(0) =~= s@);
    assert(out@.map_values(|l: String| l@) =~= Seq::<Seq<char>>::empty());
    while i < n
        invariant
            n == s@.len(),
            i <= n,
            lines_from(s@.skip(i as int), cur@, out@.map_values(|l: String| l@)) == lines_spec(s@),
        decreases n - i,
    {
        let c = s.get_char(i);
        let ghost rest = s@.skip(i as int);
        let ghost before = out@.map_values(|l: String| l@);
        assert(rest[0] == c);
        assert(rest.drop_first() =~= s@.skip(i + 1));
        if c == '\n' {
            let ghost cur0 = cur@;
            pop_cr(&mut cur);
            let line = string_of(&cur);
            out.push(line);
            cur = Vec::new();
            assert(out@.map_values(|l: String| l@) =~= before.push(strip_cr(cur0)));
        } else {
            cur.push(c);
        }
        i = i + 1;
    }
    if cur.len() > 0 {
        let ghost before = out@.map_values(|l: String| l@);
        let line = string_of(&cur);
        out.push(line);
        assert(out@.map_values(|l: String| l@) =~= before.push(cur@));
    }
    out
}

} // verus!

verus! {

/// `parts` joined with `sep` between neighbours.
pub open spec fn join_with(parts: Seq<Seq<char>>, sep: Seq<char>) -> Seq<char>
    decreases parts.len(),
{
    if parts.len() == 0 {
        seq![]
    } else if parts.len() == 1 {
        parts[0]
    } else {
        join_with(parts.drop_last(), sep) + sep + parts.last()
    }
}

/// The views of a list of strings.
pub open spec fn views(v: Seq<String>) -> Seq<Seq<char>> {
    v.map_values(|s: String| s@)
}

/// `parts` joined with `sep` between neighbours (`[String]::join`).
pub fn join_strings(parts: &Vec<String>, sep: &str) -> (r: String)
    ensures
        r@ == join_with(views(parts@), sep@),
{
    let mut s = String::new();
    let mut i: usize = 0;
    while i < parts.len()
        invariant
            i <= parts.len(),
            s@ == join_with(views(parts@).take(i as int), sep@),
        decreases parts.len() - i,
    {
        let ghost pv = views(parts@);
        assert(pv.take(i + 1).drop_last() =~= pv.take(i as int));
        if i > 0 {
            push_str(&mut s, sep);
        } else {
            assert(pv.take(0) =~= Seq::<Seq<char>>::empty());
        }
        push_str(&mut s, parts[i].as_str());
        i = i + 1;
        assert(s@ =~= join_with(pv.take(i as int), sep@));
    }
    assert(views(parts@).take(parts.len() as int) =~= views(parts@));
    s
}

} // verus!
