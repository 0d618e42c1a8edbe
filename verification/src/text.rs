//! Character-level helpers on strings, each with its meaning stated over `Seq<char>`.
use vstd::prelude::*;

verus! {

/// `t` occurs in `s` as a contiguous run of characters.
pub open spec fn has_infix(s: Seq<char>, t: Seq<char>) -> bool {
    exists|i: int| 0 <= i && i + t.len() <= s.len() && #[trigger] s.subrange(i, i + t.len()) == t
}

/// `s` begins with `p`.
pub open spec fn has_prefix(s: Seq<char>, p: Seq<char>) -> bool {
    p.len() <= s.len() && s.subrange(0, p.len() as int) == p
}

/// `s` ends with `p`.
pub open spec fn has_suffix(s: Seq<char>, p: Seq<char>) -> bool {
    p.len() <= s.len() && s.subrange(s.len() - p.len(), s.len() as int) == p
}

/// The characters of `s`, in order.
pub fn chars_of(s: &str) -> (r: Vec<char>)
    ensures
        r@ == s@,
{
    let mut v: Vec<char> = Vec::new();
    for c in it: s.chars()
        invariant
            v@ == it.seq().take(it.index() as int),
    {
        v.push(c);
    }
    v
}

/// Appends one character to a string (`String::push`).
#[verifier::external_body]
pub(crate) fn push_char(s: &mut String, c: char)
    ensures
        final(s)@ == old(s)@.push(c),
{
    s.push(c);
}

/// The string made of the characters `cs`.
pub fn string_from_chars(cs: &[char]) -> (r: String)
    ensures
        r@ == cs@,
{
    let mut r = String::new();
    let mut i: usize = 0;
    while i < cs.len()
        invariant
            i <= cs.len(),
            r@ == cs@.subrange(0, i as int),
        decreases cs.len() - i,
    {
        push_char(&mut r, cs[i]);
        assert(cs@.subrange(0, i as int).push(cs@[i as int]) =~= cs@.subrange(0, i + 1));
        i = i + 1;
    }
    assert(cs@.subrange(0, cs.len() as int) =~= cs@);
    r
}

/// An owned copy of `s`.
pub fn owned(s: &str) -> (r: String)
    ensures
        r@ == s@,
{
    string_from_chars(chars_of(s).as_slice())
}

/// The concatenation of `a` and `b`.
pub fn concat(a: &str, b: &str) -> (r: String)
    ensures
        r@ == a@ + b@,
{
    let mut r = owned(a);
    r.append(b);
    r
}

/// Whether the two character sequences are equal.
pub fn chars_eq(a: &[char], b: &[char]) -> (r: bool)
    ensures
        r == (a@ == b@),
{
    if a.len() != b.len() {
        return false;
    }
    let mut i: usize = 0;
    while i < a.len()
        invariant
            a.len() == b.len(),
            i <= a.len(),
            forall|k: int| 0 <= k < i ==> a@[k] == b@[k],
        decreases a.len() - i,
    {
        if a[i] != b[i] {
            return false;
        }
        i = i + 1;
    }
    assert(a@ =~= b@);
    true
}

/// Whether the two strings hold the same characters.
pub fn str_eq(a: &str, b: &str) -> (r: bool)
    ensures
        r == (a@ == b@),
{
    let av = chars_of(a);
    let bv = chars_of(b);
    chars_eq(av.as_slice(), bv.as_slice())
}

/// Whether `c` occurs in `s`.
pub fn contains_char(s: &str, c: char) -> (r: bool)
    ensures
        r == s@.contains(c),
{
    let v = chars_of(s);
    let mut i: usize = 0;
    while i < v.len()
        invariant
            v@ == s@,
            i <= v.len(),
            forall|k: int| 0 <= k < i ==> v@[k] != c,
        decreases v.len() - i,
    {
        if v[i] == c {
            assert(s@[i as int] == c);
            return true;
        }
        i = i + 1;
    }
    false
}

/// Whether `p` is a prefix of `s`, on character vectors.
pub fn chars_have_prefix_at(s: &[char], at: usize, p: &[char]) -> (r: bool)
    requires
        at <= s.len(),
    ensures
        r == (at + p.len() <= s.len() && s@.subrange(at as int, at + p.len()) == p@),
{
    if p.len() > s.len() - at {
        return false;
    }
    let mut i: usize = 0;
    while i < p.len()
        invariant
            at + p.len() <= s.len(),
            i <= p.len(),
            forall|k: int| 0 <= k < i ==> s@[at + k] == p@[k],
        decreases p.len() - i,
    {
        if s[at + i] != p[i] {
            assert(s@.subrange(at as int, at + p.len())[i as int] != p@[i as int]);
            return false;
        }
        i = i + 1;
    }
    assert(s@.subrange(at as int, at + p.len()) =~= p@);
    true
}

/// Whether `t` occurs in `s`, on character vectors.
pub fn chars_contain(s: &[char], t: &[char]) -> (r: bool)
    ensures
        r == has_infix(s@, t@),
{
    if t.len() > s.len() {
        return false;
    }
    let last = s.len() - t.len();
    let mut i: usize = 0;
    loop
        invariant
            last == s.len() - t.len(),
            i <= last,
            forall|k: int| 0 <= k < i ==> #[trigger] s@.subrange(k, k + t.len()) != t@,
        decreases last - i,
    {
        if chars_have_prefix_at(s, i, t) {
            return true;
        }
        if i == last {
            return false;
        }
        i = i + 1;
    }
}

/// Whether `t` occurs in `s`.
pub fn contains_str(s: &str, t: &str) -> (r: bool)
    ensures
        r == has_infix(s@, t@),
{
    let sv = chars_of(s);
    let tv = chars_of(t);
    chars_contain(sv.as_slice(), tv.as_slice())
}

/// Whether `s` begins with `p`.
pub fn starts_with(s: &str, p: &str) -> (r: bool)
    ensures
        r == has_prefix(s@, p@),
{
    let sv = chars_of(s);
    let pv = chars_of(p);
    chars_have_prefix_at(sv.as_slice(), 0, pv.as_slice())
}

/// Whether `s` ends with `p`.
pub fn ends_with(s: &str, p: &str) -> (r: bool)
    ensures
        r == has_suffix(s@, p@),
{
    let sv = chars_of(s);
    let pv = chars_of(p);
    if pv.len() > sv.len() {
        return false;
    }
    chars_have_prefix_at(sv.as_slice(), sv.len() - pv.len(), pv.as_slice())
}

/// The characters that `char::is_whitespace` accepts: those with the Unicode
/// `White_Space` property.
pub open spec fn is_white(c: char) -> bool {
    ||| ('\u{9}' <= c && c <= '\u{d}')
    ||| c == ' '
    ||| c == '\u{85}'
    ||| c == '\u{a0}'
    ||| c == '\u{1680}'
    ||| ('\u{2000}' <= c && c <= '\u{200a}')
    ||| c == '\u{2028}'
    ||| c == '\u{2029}'
    ||| c == '\u{202f}'
    ||| c == '\u{205f}'
    ||| c == '\u{3000}'
}

/// Whether `c` is white space (`char::is_whitespace`).
pub fn is_whitespace(c: char) -> (r: bool)
    ensures
        r == is_white(c),
{
    ('\u{9}' <= c && c <= '\u{d}') || c == ' ' || c == '\u{85}' || c == '\u{a0}' || c
        == '\u{1680}' || ('\u{2000}' <= c && c <= '\u{200a}') || c == '\u{2028}' || c
        == '\u{2029}' || c == '\u{202f}' || c == '\u{205f}' || c == '\u{3000}'
}

/// The index of the first character at or after `k` that is not white space,
/// or the length of `s` if there is none.
pub open spec fn first_solid_from(s: Seq<char>, k: int) -> int
    decreases s.len() - k,
{
    if k >= s.len() {
        s.len() as int
    } else if !is_white(s[k]) {
        k
    } else {
        first_solid_from(s, k + 1)
    }
}

/// One past the index of the last character before `k` that is not white
/// space, or 0 if there is none.
pub open spec fn end_solid_before(s: Seq<char>, k: int) -> int
    decreases k,
{
    if k <= 0 {
        0
    } else if !is_white(s[k - 1]) {
        k
    } else {
        end_solid_before(s, k - 1)
    }
}

/// `s` without its leading and trailing white space (`str::trim`).
pub open spec fn trim_spec(s: Seq<char>) -> Seq<char> {
    let start = first_solid_from(s, 0);
    if start == s.len() {
        Seq::empty()
    } else {
        s.subrange(start, end_solid_before(s, s.len() as int))
    }
}



proof fn lemma_first_solid(s: Seq<char>, k: int)
    requires
        0 <= k <= s.len(),
    ensures
        k <= first_solid_from(s, k) <= s.len(),
        first_solid_from(s, k) < s.len() ==> !is_white(s[first_solid_from(s, k)]),
    decreases s.len() - k,
{
    if k < s.len() && is_white(s[k]) {
        lemma_first_solid(s, k + 1);
    }
}

proof fn lemma_end_solid(s: Seq<char>, k: int, start: int)
    requires
        0 <= start < k <= s.len(),
        !is_white(s[start]),
    ensures
        start < end_solid_before(s, k) <= k,
        !is_white(s[end_solid_before(s, k) - 1]),
    decreases k,
{
    if is_white(s[k - 1]) {
        lemma_end_solid(s, k - 1, start);
    }
}

/// Trimmed text neither begins nor ends with white space.
pub proof fn law_trim_leaves_no_outer_white(s: Seq<char>)
    ensures
        trim_spec(s).len() == 0 || (!is_white(trim_spec(s)[0]) && !is_white(trim_spec(s).last())),
{
    lemma_first_solid(s, 0);
    let start = first_solid_from(s, 0);
    if start < s.len() {
        lemma_end_solid(s, s.len() as int, start);
    }
}

/// `s` without its leading and trailing white space (`str::trim`).
pub fn trim(s: &str) -> (r: String)
    ensures
        r@ == trim_spec(s@),
{
    let v = chars_of(s);
    let n = v.len();
    let mut i: usize = 0;
    while i < n && is_whitespace(v[i])
        invariant
            v@ == s@,
            n == v.len(),
            i <= n,
            first_solid_from(s@, 0) == first_solid_from(s@, i as int),
        decreases n - i,
    {
        i = i + 1;
    }
    if i == n {
        return String::new();
    }
    assert(first_solid_from(s@, i as int) == i);
    let mut j: usize = n;
    while j > i && is_whitespace(v[j - 1])
        invariant
            v@ == s@,
            n == v.len(),
            i < j <= n,
            !is_white(s@[i as int]),
            end_solid_before(s@, n as int) == end_solid_before(s@, j as int),
        decreases j,
    {
        j = j - 1;
    }
    assert(j > i);
    assert(!is_white(s@[j - 1]));
    assert(end_solid_before(s@, j as int) == j);
    string_from_chars(&v.as_slice()[i..j])
}

/// The decimal digit character for `d < 10`.
pub open spec fn digit_char(d: nat) -> char {
    if d == 0 { '0' }
    else if d == 1 { '1' }
    else if d == 2 { '2' }
    else if d == 3 { '3' }
    else if d == 4 { '4' }
    else if d == 5 { '5' }
    else if d == 6 { '6' }
    else if d == 7 { '7' }
    else if d == 8 { '8' }
    else { '9' }
}

/// The decimal numeral of `n`, without leading zeros (`n.to_string()`).
pub open spec fn decimal(n: nat) -> Seq<char>
    decreases n,
{
    if n < 10 {
        seq![digit_char(n)]
    } else {
        decimal(n / 10).push(digit_char(n % 10))
    }
}

fn digit_of(d: u64) -> (c: char)
    requires
        d < 10,
    ensures
        c == digit_char(d as nat),
{
    if d == 0 { '0' }
    else if d == 1 { '1' }
    else if d == 2 { '2' }
    else if d == 3 { '3' }
    else if d == 4 { '4' }
    else if d == 5 { '5' }
    else if d == 6 { '6' }
    else if d == 7 { '7' }
    else if d == 8 { '8' }
    else { '9' }
}

/// The decimal numeral of `n` (`n.to_string()`).
pub fn decimal_string(n: u64) -> (r: String)
    ensures
        r@ == decimal(n as nat),
{
    let mut m: u64 = n;
    let mut suffix: Vec<char> = Vec::new();
    while m >= 10
        invariant
            decimal(n as nat) == decimal(m as nat) + suffix@,
        decreases m,
    {
        let d = digit_of(m % 10);
        assert(decimal(m as nat) == decimal((m / 10) as nat).push(d));
        assert(decimal((m / 10) as nat).push(d) + suffix@ =~= decimal((m / 10) as nat) + (seq![d]
            + suffix@));
        suffix.insert(0, d);
        m = m / 10;
    }
    let mut r = String::new();
    push_char(&mut r, digit_of(m));
    let tail = string_from_chars(suffix.as_slice());
    r.append(tail.as_str());
    r
}

/// The value of the ASCII digit `c`, if it is one.
pub open spec fn digit_value(c: char) -> Option<nat> {
    if '0' <= c && c <= '9' {
        Some((c as nat - '0' as nat) as nat)
    } else {
        None
    }
}

/// Whether every character of `s` is an ASCII digit.
pub open spec fn all_digits(s: Seq<char>) -> bool {
    forall|i: int| 0 <= i < s.len() ==> '0' <= #[trigger] s[i] && s[i] <= '9'
}

/// The number that the ASCII digits `s` spell, most significant first.
pub open spec fn digits_value(s: Seq<char>) -> nat
    decreases s.len(),
{
    if s.len() == 0 {
        0
    } else {
        digits_value(s.drop_last()) * 10 + (s.last() as nat - '0' as nat) as nat
    }
}

/// What `str::parse` gives for an unsigned integer type whose largest value is
/// `max`: an optional `+`, then one or more ASCII digits, whose value is at
/// most `max`.
pub open spec fn parse_unsigned_spec(s: Seq<char>, max: nat) -> Option<nat> {
    let digits = if s.len() > 0 && s[0] == '+' { s.drop_first() } else { s };
    if digits.len() > 0 && all_digits(digits) && digits_value(digits) <= max {
        Some(digits_value(digits))
    } else {
        None
    }
}

proof fn lemma_digits_value_monotone(s: Seq<char>, k: int)
    requires
        0 <= k <= s.len(),
        all_digits(s),
    ensures
        digits_value(s.subrange(0, k)) <= digits_value(s),
    decreases s.len() - k,
{
    if k < s.len() {
        lemma_digits_value_monotone(s, k + 1);
        let p = s.subrange(0, k + 1);
        assert(p.drop_last() =~= s.subrange(0, k));
        assert('0' <= s[k] && s[k] <= '9');
    } else {
        assert(s.subrange(0, k) =~= s);
    }
}

/// Parses `s` as an unsigned integer no larger than `max`, as `str::parse`
/// does for the unsigned integer type whose largest value is `max`.
pub fn parse_unsigned(s: &str, max: u64) -> (r: Option<u64>)
    ensures
        match parse_unsigned_spec(s@, max as nat) {
            Some(v) => r == Some(v as u64),
            None => r.is_none(),
        },
{
    let v = chars_of(s);
    let start: usize = if v.len() > 0 && v[0] == '+' { 1 } else { 0 };
    let ghost digits = if s@.len() > 0 && s@[0] == '+' { s@.drop_first() } else { s@ };
    assert(digits =~= s@.subrange(start as int, s@.len() as int));
    if start >= v.len() {
        return None;
    }
    let mut acc: u64 = 0;
    let mut i: usize = start;
    while i < v.len()
        invariant
            v@ == s@,
            start <= i <= v.len(),
            digits =~= s@.subrange(start as int, s@.len() as int),
            digits == (if s@.len() > 0 && s@[0] == '+' { s@.drop_first() } else { s@ }),
            all_digits(digits.subrange(0, i - start)),
            acc as nat == digits_value(digits.subrange(0, i - start)),
            acc <= max,
        decreases v.len() - i,
    {
        let c = v[i];
        if !('0' <= c && c <= '9') {
            assert(digits[i - start] == c);
            assert(!all_digits(digits));
            return None;
        }
        let d = (c as u32 - '0' as u32) as u64;
        let ghost next = digits.subrange(0, i + 1 - start);
        assert(next.drop_last() =~= digits.subrange(0, i - start));
        assert(next.last() == c);
        if d > max || acc > (max - d) / 10 {
            proof {
                assert(digits_value(next) == acc * 10 + d);
                assert(acc * 10 + d > max) by (nonlinear_arith)
                    requires
                        d > max || acc > (max - d) / 10,
                        d <= 9,
                {
                }
                if all_digits(digits) {
                    lemma_digits_value_monotone(digits, i + 1 - start);
                }
            }
            return None;
        }
        proof {
            assert(acc * 10 + d <= max) by (nonlinear_arith)
                requires
                    acc <= (max - d) / 10,
                    d <= max,
            {
            }
        }
        acc = acc * 10 + d;
        assert(all_digits(next));
        i = i + 1;
    }
    assert(digits.subrange(0, v.len() - start) =~= digits);
    Some(acc)
}

/// The parts of `p` between its `sep` separators, empty ones included
/// (`str::split(sep)`).
pub open spec fn split_parts(p: Seq<char>, sep: char) -> Seq<Seq<char>>
    decreases p.len(),
{
    if p.len() == 0 {
        seq![Seq::<char>::empty()]
    } else {
        let init = split_parts(p.drop_last(), sep);
        if p.last() == sep {
            init.push(Seq::empty())
        } else {
            init.update(init.len() - 1, init.last().push(p.last()))
        }
    }
}

pub proof fn lemma_split_parts_nonempty(p: Seq<char>, sep: char)
    ensures
        split_parts(p, sep).len() > 0,
    decreases p.len(),
{
    if p.len() > 0 {
        lemma_split_parts_nonempty(p.drop_last(), sep);
    }
}

/// The parts of `p` between its `sep` separators (`str::split(sep)`).
pub fn split_chars(p: &[char], sep: char) -> (r: Vec<Vec<char>>)
    ensures
        r@.map_values(|v: Vec<char>| v@) == split_parts(p@, sep),
{
    let mut parts: Vec<Vec<char>> = Vec::new();
    parts.push(Vec::new());
    let mut i: usize = 0;
    proof {
        assert(p@.subrange(0, 0) =~= Seq::<char>::empty());
        assert(parts@.map_values(|v: Vec<char>| v@) =~= split_parts(Seq::<char>::empty(), sep));
    }
    while i < p.len()
        invariant
            i <= p.len(),
            parts@.map_values(|v: Vec<char>| v@) == split_parts(p@.subrange(0, i as int), sep),
        decreases p.len() - i,
    {
        let ghost pre = p@.subrange(0, i as int);
        let ghost next = p@.subrange(0, i + 1);
        proof {
            assert(next.drop_last() =~= pre);
            lemma_split_parts_nonempty(pre, sep);
        }
        let c = p[i];
        if c == sep {
            parts.push(Vec::new());
            proof {
                assert(parts@.map_values(|v: Vec<char>| v@) =~= split_parts(pre, sep).push(Seq::empty()));
            }
        } else {
            let last = parts.len() - 1;
            let mut cur: Vec<char> = Vec::new();
            std::mem::swap(&mut cur, &mut parts[last]);
            cur.push(c);
            parts.set(last, cur);
            proof {
                let sp = split_parts(pre, sep);
                assert(parts@.map_values(|v: Vec<char>| v@) =~= sp.update(sp.len() - 1, sp.last().push(c)));
            }
        }
        i = i + 1;
    }
    proof {
        assert(p@.subrange(0, p.len() as int) =~= p@);
    }
    parts
}

/// The texts `parts` joined by `sep`.
pub open spec fn joined(parts: Seq<Seq<char>>, sep: Seq<char>) -> Seq<char>
    decreases parts.len(),
{
    if parts.len() == 0 {
        Seq::empty()
    } else if parts.len() == 1 {
        parts[0]
    } else {
        joined(parts.drop_last(), sep) + sep + parts.last()
    }
}

} // verus!
