//! Character-level text handling: the parts of `str` that the rest of the
//! crate relies on (`trim`, `lines`, `split_whitespace`, decimal printing and
//! parsing, prefix and infix tests), each stated as a spec function over
//! `Seq<char>` and implemented by a verified function.
use vstd::prelude::*;
use vstd::string::StringExecFns;

verus! {

broadcast use vstd::string::group_string_axioms;

// ---------------------------------------------------------------------------
// Specifications
// ---------------------------------------------------------------------------
/// The Unicode `White_Space` property, which is what `char::is_whitespace`
/// tests.
pub open spec fn is_white_space(c: char) -> bool {
    let u = c as u32;
    ||| 0x9 <= u <= 0xd
    ||| u == 0x20
    ||| u == 0x85
    ||| u == 0xa0
    ||| u == 0x1680
    ||| 0x2000 <= u <= 0x200a
    ||| u == 0x2028
    ||| u == 0x2029
    ||| u == 0x202f
    ||| u == 0x205f
    ||| u == 0x3000
}

/// `s` without its leading white space.
pub open spec fn trim_start(s: Seq<char>) -> Seq<char>
    decreases s.len(),
{
    if s.len() > 0 && is_white_space(s[0]) {
        trim_start(s.drop_first())
    } else {
        s
    }
}

/// `s` without its trailing white space.
pub open spec fn trim_end(s: Seq<char>) -> Seq<char>
    decreases s.len(),
{
    if s.len() > 0 && is_white_space(s.last()) {
        trim_end(s.drop_last())
    } else {
        s
    }
}

/// `str::trim`: white space removed from both ends.
pub open spec fn trim(s: Seq<char>) -> Seq<char> {
    trim_end(trim_start(s))
}

/// A line as `str::lines` yields it: a final `'\r'` before the line feed is
/// dropped.
pub open spec fn strip_cr(line: Seq<char>) -> Seq<char> {
    if line.len() > 0 && line.last() == '\r' {
        line.drop_last()
    } else {
        line
    }
}

/// The lines of `s`, given that `cur` has been read of the current line.
/// A line feed ends a line; a last line without a line feed counts only
/// when it is not empty.
pub open spec fn lines_from(s: Seq<char>, cur: Seq<char>) -> Seq<Seq<char>>
    decreases s.len(),
{
    if s.len() == 0 {
        if cur.len() > 0 {
            seq![cur]
        } else {
            seq![]
        }
    } else if s[0] == '\n' {
        seq![strip_cr(cur)] + lines_from(s.drop_first(), seq![])
    } else {
        lines_from(s.drop_first(), cur.push(s[0]))
    }
}

/// `str::lines`.
pub open spec fn lines(s: Seq<char>) -> Seq<Seq<char>> {
    lines_from(s, seq![])
}

/// The white-space separated words of `s`, given that `cur` has been read
/// of the current word.
pub open spec fn words_from(s: Seq<char>, cur: Seq<char>) -> Seq<Seq<char>>
    decreases s.len(),
{
    if s.len() == 0 {
        if cur.len() > 0 {
            seq![cur]
        } else {
            seq![]
        }
    } else if is_white_space(s[0]) {
        if cur.len() > 0 {
            seq![cur] + words_from(s.drop_first(), seq![])
        } else {
            words_from(s.drop_first(), seq![])
        }
    } else {
        words_from(s.drop_first(), cur.push(s[0]))
    }
}

/// `str::split_whitespace`.
pub open spec fn words(s: Seq<char>) -> Seq<Seq<char>> {
    words_from(s, seq![])
}

/// `str::starts_with` for a character sequence.
pub open spec fn has_prefix(s: Seq<char>, p: Seq<char>) -> bool {
    p.len() <= s.len() && s.take(p.len() as int) == p
}

/// `str::ends_with` for a character sequence.
pub open spec fn has_suffix(s: Seq<char>, p: Seq<char>) -> bool {
    p.len() <= s.len() && s.skip(s.len() - p.len()) == p
}

/// `str::contains` for a character sequence.
pub open spec fn has_infix(s: Seq<char>, p: Seq<char>) -> bool {
    exists|i: int| 0 <= i <= s.len() - p.len() && #[trigger] s.subrange(i, i + p.len()) == p
}

/// The character of a decimal digit.
pub open spec fn digit_char(d: nat) -> char {
    (d + 48) as char
}

/// The decimal notation of `n`, as `Display` prints an unsigned integer.
pub open spec fn decimal(n: nat) -> Seq<char>
    decreases n,
{
    if n < 10 {
        seq![digit_char(n)]
    } else {
        decimal(n / 10).push(digit_char(n % 10))
    }
}

pub open spec fn is_ascii_digit(c: char) -> bool {
    '0' <= c <= '9'
}

pub open spec fn all_ascii_digits(s: Seq<char>) -> bool {
    forall|i: int| 0 <= i < s.len() ==> is_ascii_digit(#[trigger] s[i])
}

/// The number that a string of decimal digits denotes.
pub open spec fn digits_value(s: Seq<char>) -> nat
    decreases s.len(),
{
    if s.len() == 0 {
        0
    } else {
        digits_value(s.drop_last()) * 10 + ((s.last() as u32) - 48) as nat
    }
}

/// The digits that `u16::from_str` reads: one leading `'+'` is skipped.
pub open spec fn unsigned_digits(s: Seq<char>) -> Seq<char> {
    if s.len() > 0 && s[0] == '+' {
        s.drop_first()
    } else {
        s
    }
}

/// `s.parse::<u16>()`: an optional `'+'`, then at least one ASCII digit,
/// denoting a value that fits in 16 bits.
pub open spec fn parse_u16_spec(s: Seq<char>) -> Option<u16> {
    let d = unsigned_digits(s);
    if d.len() > 0 && all_ascii_digits(d) && digits_value(d) <= 0xffff {
        Some(digits_value(d) as u16)
    } else {
        None
    }
}

/// `char::to_ascii_lowercase`.
pub open spec fn ascii_lower(c: char) -> char {
    if 'A' <= c <= 'Z' {
        ((c as u32) + 32) as char
    } else {
        c
    }
}

/// `s` with its ASCII capitals made small.
pub open spec fn ascii_lower_seq(s: Seq<char>) -> Seq<char> {
    Seq::new(s.len(), |i: int| ascii_lower(s[i]))
}

/// The views of a sequence of strings.
pub open spec fn views(v: Seq<String>) -> Seq<Seq<char>> {
    Seq::new(v.len(), |i: int| v[i]@)
}

// ---------------------------------------------------------------------------
// Building strings
// ---------------------------------------------------------------------------
/// `String::push`: appends one character.
#[verifier::external_body]
fn push_char(s: &mut String, c: char)
    ensures
        final(s)@ == old(s)@.push(c),
{
    s.push(c);
}

/// The characters of a string slice.
pub fn chars_of(s: &str) -> (v: Vec<char>)
    ensures
        v@ == s@,
{
    let mut v: Vec<char> = Vec::new();
    for c in it: s.chars()
        invariant
            v@ == it.seq().take(it.index() as int),
    {
        v.push(c);
    }
    v
}

/// The string made of the characters `v[from..to]`.
pub fn string_of(v: &Vec<char>, from: usize, to: usize) -> (s: String)
    requires
        from <= to <= v.len(),
    ensures
        s@ == v@.subrange(from as int, to as int),
{
    let mut s = String::new();
    let mut i = from;
    while i < to
        invariant
            from <= i <= to <= v.len(),
            s@ == v@.subrange(from as int, i as int),
        decreases to - i,
    {
        push_char(&mut s, v[i]);
        i = i + 1;
    }
    s
}

/// The string made of all the characters of `v`.
pub fn string_of_all(v: &Vec<char>) -> (s: String)
    ensures
        s@ == v@,
{
    let s = string_of(v, 0, v.len());
    assert(v@.subrange(0, v@.len() as int) == v@);
    s
}

/// `a` followed by `b`.
pub fn concat_str(a: &str, b: &str) -> (s: String)
    ensures
        s@ == a@ + b@,
{
    let mut s = String::from_str(a);
    s.append(b);
    s
}

/// A copy of a literal or borrowed text as an owned string.
pub fn owned(a: &str) -> (s: String)
    ensures
        s@ == a@,
{
    String::from_str(a)
}

/// Appends the decimal notation of `n` to `out`.
pub fn push_decimal(out: &mut Vec<char>, n: u64)
    ensures
        final(out)@ == old(out)@ + decimal(n as nat),
    decreases n,
{
    if n >= 10 {
        push_decimal(out, n / 10);
    }
    let d: u8 = (n % 10) as u8;
    let c: char = (d + 48u8) as char;
    out.push(c);
    proof {
        assert(c == digit_char((n % 10) as nat));
        if n >= 10 {
            assert(decimal(n as nat) == decimal((n / 10) as nat).push(digit_char((n % 10) as nat)));
        }
    }
}

/// `text` followed by the decimal notation of `n`.
pub fn with_decimal(text: &str, n: u64) -> (s: String)
    ensures
        s@ == text@ + decimal(n as nat),
{
    let mut v = chars_of(text);
    push_decimal(&mut v, n);
    string_of_all(&v)
}

// ---------------------------------------------------------------------------
// Reading strings
// ---------------------------------------------------------------------------
/// Whether `c` has the Unicode `White_Space` property.
pub fn is_white_space_char(c: char) -> (b: bool)
    ensures
        b == is_white_space(c),
{
    let u = c as u32;
    (0x9 <= u && u <= 0xd) || u == 0x20 || u == 0x85 || u == 0xa0 || u == 0x1680 || (0x2000 <= u
        && u <= 0x200a) || u == 0x2028 || u == 0x2029 || u == 0x202f || u == 0x205f || u == 0x3000
}

proof fn lemma_trim_start_skip(s: Seq<char>, i: int)
    requires
        0 <= i <= s.len(),
        forall|j: int| 0 <= j < i ==> is_white_space(#[trigger] s[j]),
    ensures
        trim_start(s) == trim_start(s.skip(i)),
    decreases i,
{
    if i > 0 {
        lemma_trim_start_skip(s.drop_first(), i - 1);
        assert(s.drop_first().skip(i - 1) == s.skip(i));
    } else {
        assert(s.skip(0) == s);
    }
}

proof fn lemma_trim_end_take(s: Seq<char>, i: int)
    requires
        0 <= i <= s.len(),
        forall|j: int| i <= j < s.len() ==> is_white_space(#[trigger] s[j]),
    ensures
        trim_end(s) == trim_end(s.take(i)),
    decreases s.len() - i,
{
    if i < s.len() {
        lemma_trim_end_take(s.drop_last(), i);
        assert(s.drop_last().take(i) == s.take(i));
    } else {
        assert(s.take(i) == s);
    }
}

/// The bounds `(a, b)` of `trim(v)` inside `v`.
pub fn trim_bounds(v: &Vec<char>) -> (r: (usize, usize))
    ensures
        r.0 <= r.1 <= v.len(),
        v@.subrange(r.0 as int, r.1 as int) == trim(v@),
{
    let mut a: usize = 0;
    while a < v.len() && is_white_space_char(v[a])
        invariant
            a <= v.len(),
            forall|j: int| 0 <= j < a ==> is_white_space(#[trigger] v@[j]),
        decreases v.len() - a,
    {
        a = a + 1;
    }
    proof {
        lemma_trim_start_skip(v@, a as int);
        if a < v.len() {
            assert(!is_white_space(v@.skip(a as int)[0]));
        }
        assert(trim_start(v@) == v@.skip(a as int));
    }
    let mut b: usize = v.len();
    while b > a && is_white_space_char(v[b - 1])
        invariant
            a <= b <= v.len(),
            forall|j: int| b <= j < v.len() ==> is_white_space(#[trigger] v@[j]),
        decreases b - a,
    {
        b = b - 1;
    }
    proof {
        let t = v@.skip(a as int);
        lemma_trim_end_take(t, b - a);
        assert(t.take(b - a) == v@.subrange(a as int, b as int));
        if b > a {
            assert(t.take(b - a).last() == v@[b - 1]);
        } else {
            assert(t.take(b - a).len() == 0);
        }
    }
    (a, b)
}

/// `trim(s)` as a vector of characters.
pub fn trimmed_chars(s: &str) -> (v: Vec<char>)
    ensures
        v@ == trim(s@),
{
    let all = chars_of(s);
    let (a, b) = trim_bounds(&all);
    let mut v: Vec<char> = Vec::new();
    let mut i = a;
    while i < b
        invariant
            a <= i <= b <= all.len(),
            v@ == all@.subrange(a as int, i as int),
        decreases b - i,
    {
        v.push(all[i]);
        i = i + 1;
    }
    v
}

/// `s.trim().to_string()`.
pub fn trimmed(s: &str) -> (t: String)
    ensures
        t@ == trim(s@),
{
    let v = trimmed_chars(s);
    string_of_all(&v)
}

/// Whether `s[at..]` starts with `p`.
pub fn matches_at(s: &Vec<char>, at: usize, p: &Vec<char>) -> (b: bool)
    requires
        at <= s.len(),
    ensures
        b == (at + p.len() <= s.len() && s@.subrange(at as int, at + p.len()) == p@),
{
    if p.len() > s.len() - at {
        return false;
    }
    let mut k: usize = 0;
    while k < p.len()
        invariant
            at + p.len() <= s.len(),
            k <= p.len(),
            forall|j: int| 0 <= j < k ==> s@[at + j] == p@[j],
        decreases p.len() - k,
    {
        if s[at + k] != p[k] {
            assert(s@.subrange(at as int, at + p.len())[k as int] != p@[k as int]);
            return false;
        }
        k = k + 1;
    }
    assert(s@.subrange(at as int, at + p.len()) == p@);
    true
}

/// Whether `a` and `b` hold the same characters.
pub fn chars_equal(a: &Vec<char>, b: &Vec<char>) -> (r: bool)
    ensures
        r == (a@ == b@),
{
    if a.len() != b.len() {
        return false;
    }
    let r = matches_at(a, 0, b);
    assert(a@.subrange(0, b@.len() as int) == a@);
    r
}

/// Whether `s` starts with `p`.
pub fn starts_with_chars(s: &Vec<char>, p: &Vec<char>) -> (b: bool)
    ensures
        b == has_prefix(s@, p@),
{
    let b = matches_at(s, 0, p);
    assert(s@.take(p@.len() as int) == s@.subrange(0, p@.len() as int));
    b
}

/// Whether `s` contains `p`.
pub fn contains_chars(s: &Vec<char>, p: &Vec<char>) -> (b: bool)
    ensures
        b == has_infix(s@, p@),
{
    if p.len() > s.len() {
        return false;
    }
    let last = s.len() - p.len();
    let mut i: usize = 0;
    loop
        invariant
            p.len() <= s.len(),
            last == s.len() - p.len(),
            i <= last,
            forall|j: int| 0 <= j < i ==> #[trigger] s@.subrange(j, j + p.len()) != p@,
        decreases last - i,
    {
        if matches_at(s, i, p) {
            return true;
        }
        if i == last {
            return false;
        }
        i = i + 1;
    }
}

/// `s` with its ASCII capitals made small.
pub fn ascii_lowercase(s: &Vec<char>) -> (t: Vec<char>)
    ensures
        t@ == ascii_lower_seq(s@),
{
    let mut t: Vec<char> = Vec::new();
    let mut i: usize = 0;
    while i < s.len()
        invariant
            i <= s.len(),
            t@.len() == i,
            forall|j: int| 0 <= j < i ==> t@[j] == ascii_lower(s@[j]),
        decreases s.len() - i,
    {
        let c = s[i];
        let l = if 'A' <= c && c <= 'Z' {
            let b: u8 = c as u8;
            assert(b as u32 == c as u32);
            (b + 32) as char
        } else {
            c
        };
        t.push(l);
        i = i + 1;
    }
    assert(t@ == ascii_lower_seq(s@));
    t
}

/// The lines of `s`, as `str::lines` splits them.
pub fn split_lines(s: &Vec<char>) -> (r: Vec<Vec<char>>)
    ensures
        r@.len() == lines(s@).len(),
        forall|i: int| 0 <= i < r@.len() ==> #[trigger] r@[i]@ == lines(s@)[i],
{
    let mut r: Vec<Vec<char>> = Vec::new();
    let mut cur: Vec<char> = Vec::new();
    let mut i: usize = 0;
    let ghost done: Seq<Seq<char>> = seq![];
    assert(s@.skip(0) == s@);
    assert(done + lines_from(s@.skip(0), cur@) == lines(s@));
    while i < s.len()
        invariant
            i <= s.len(),
            r@.len() == done.len(),
            forall|k: int| 0 <= k < r@.len() ==> #[trigger] r@[k]@ == done[k],
            done + lines_from(s@.skip(i as int), cur@) == lines(s@),
        decreases s.len() - i,
    {
        let c = s[i];
        proof {
            assert(s@.skip(i as int)[0] == c);
            assert(s@.skip(i as int).drop_first() == s@.skip(i + 1));
        }
        if c == '\n' {
            let mut line = cur;
            if line.len() > 0 && line[line.len() - 1] == '\r' {
                line.pop();
            }
            proof {
                assert(line@ == strip_cr(cur@));
                assert(done.push(line@) + lines_from(s@.skip(i + 1), seq![]) == done + (seq![
                    strip_cr(cur@),
                ] + lines_from(s@.skip(i + 1), seq![])));
                done = done.push(line@);
            }
            r.push(line);
            cur = Vec::new();
        } else {
            let ghost old_cur = cur@;
            cur.push(c);
            assert(lines_from(s@.skip(i as int), old_cur) == lines_from(s@.skip(i + 1), cur@));
        }
        i = i + 1;
    }
    proof {
        assert(s@.skip(i as int).len() == 0);
    }
    if cur.len() > 0 {
        proof {
            done = done.push(cur@);
        }
        r.push(cur);
    } else {
        assert(done + seq![] == done);
    }
    r
}

/// The white-space separated words of `s`, as `str::split_whitespace`
/// splits them.
pub fn split_words(s: &Vec<char>) -> (r: Vec<Vec<char>>)
    ensures
        r@.len() == words(s@).len(),
        forall|i: int| 0 <= i < r@.len() ==> #[trigger] r@[i]@ == words(s@)[i],
{
    let mut r: Vec<Vec<char>> = Vec::new();
    let mut cur: Vec<char> = Vec::new();
    let mut i: usize = 0;
    let ghost done: Seq<Seq<char>> = seq![];
    assert(s@.skip(0) == s@);
    assert(done + words_from(s@.skip(0), cur@) == words(s@));
    while i < s.len()
        invariant
            i <= s.len(),
            r@.len() == done.len(),
            forall|k: int| 0 <= k < r@.len() ==> #[trigger] r@[k]@ == done[k],
            done + words_from(s@.skip(i as int), cur@) == words(s@),
        decreases s.len() - i,
    {
        let c = s[i];
        proof {
            assert(s@.skip(i as int)[0] == c);
            assert(s@.skip(i as int).drop_first() == s@.skip(i + 1));
        }
        if is_white_space_char(c) {
            if cur.len() > 0 {
                proof {
                    assert(done.push(cur@) + words_from(s@.skip(i + 1), seq![]) == done + (seq![
                        cur@,
                    ] + words_from(s@.skip(i + 1), seq![])));
                    done = done.push(cur@);
                }
                assert(words_from(s@.skip(i as int), cur@) == seq![cur@] + words_from(s@.skip(i + 1), seq![]));
                r.push(cur);
                cur = Vec::new();
            } else {
                assert(cur@ =~= seq![]);
                assert(words_from(s@.skip(i as int), cur@) == words_from(s@.skip(i + 1), cur@));
            }
        } else {
            let ghost old_cur = cur@;
            cur.push(c);
            assert(words_from(s@.skip(i as int), old_cur) == words_from(s@.skip(i + 1), cur@));
        }
        i = i + 1;
    }
    proof {
        assert(s@.skip(i as int).len() == 0);
    }
    if cur.len() > 0 {
        proof {
            done = done.push(cur@);
        }
        r.push(cur);
    } else {
        assert(done + seq![] == done);
    }
    r
}

/// `s.parse::<u16>().ok()`.
pub fn parse_u16(s: &Vec<char>) -> (r: Option<u16>)
    ensures
        r == parse_u16_spec(s@),
{
    let start: usize = if s.len() > 0 && s[0] == '+' {
        1
    } else {
        0
    };
    let ghost d = unsigned_digits(s@);
    assert(d == s@.skip(start as int));
    if start >= s.len() {
        assert(d.len() == 0);
        return None;
    }
    let mut value: u32 = 0;
    let mut i: usize = start;
    while i < s.len()
        invariant
            start <= i <= s.len(),
            d == s@.skip(start as int),
            d == unsigned_digits(s@),
            all_ascii_digits(s@.subrange(start as int, i as int)),
            value == digits_value(s@.subrange(start as int, i as int)),
            value <= 0xffff,
        decreases s.len() - i,
    {
        let c = s[i];
        let ghost prefix = s@.subrange(start as int, i + 1);
        assert(prefix.drop_last() == s@.subrange(start as int, i as int));
        if !('0' <= c && c <= '9') {
            assert(d[i - start] == c);
            assert(!is_ascii_digit(d[i - start]));
            assert(!all_ascii_digits(d));
            assert(parse_u16_spec(s@) is None);
            return None;
        }
        let digit: u32 = (c as u32) - 48;
        let next: u32 = value * 10 + digit;
        assert(next == digits_value(prefix));
        if next > 0xffff {
            proof {
                if all_ascii_digits(d) {
                    lemma_digits_value_prefix(d, prefix.len());
                    assert(d.take(prefix.len() as int) == prefix);
                    assert(digits_value(d) > 0xffff);
                }
                assert(parse_u16_spec(s@) is None);
            }
            return None;
        }
        value = next;
        i = i + 1;
    }
    assert(s@.subrange(start as int, s.len() as int) == d);
    Some(value as u16)
}

/// The decimal notation of `n` is a non-empty string of digits that reads
/// back as `n`.
pub proof fn lemma_decimal_value(n: nat)
    ensures
        decimal(n).len() > 0,
        all_ascii_digits(decimal(n)),
        digits_value(decimal(n)) == n,
    decreases n,
{
    let d = (n % 10) as nat;
    assert(digit_char(d) as u32 == d + 48);
    if n >= 10 {
        lemma_decimal_value(n / 10);
        let s = decimal(n);
        assert(s.drop_last() == decimal(n / 10));
        assert forall|i: int| 0 <= i < s.len() implies is_ascii_digit(#[trigger] s[i]) by {
            if i < s.len() - 1 {
                assert(s[i] == decimal(n / 10)[i]);
            }
        }
        assert(s.last() == digit_char(d));
        assert(digits_value(s) == digits_value(decimal(n / 10)) * 10 + d);
        assert(n == (n / 10) * 10 + n % 10);
    } else {
        let s = decimal(n);
        assert(s.drop_last() =~= Seq::<char>::empty());
        assert(digits_value(s) == digits_value(s.drop_last()) * 10 + d);
    }
}

/// Two numbers with the same decimal notation are equal.
pub proof fn lemma_decimal_injective(a: nat, b: nat)
    requires
        decimal(a) == decimal(b),
    ensures
        a == b,
{
    lemma_decimal_value(a);
    lemma_decimal_value(b);
}

/// Whether every character of `s` is white space.
pub open spec fn all_white_space(s: Seq<char>) -> bool {
    forall|i: int| 0 <= i < s.len() ==> is_white_space(#[trigger] s[i])
}

proof fn lemma_trim_start_after_white(ws: Seq<char>, x: Seq<char>)
    requires
        all_white_space(ws),
    ensures
        trim_start(ws + x) == trim_start(x),
    decreases ws.len(),
{
    if ws.len() > 0 {
        assert((ws + x)[0] == ws[0]);
        assert((ws + x).drop_first() =~= ws.drop_first() + x);
        lemma_trim_start_after_white(ws.drop_first(), x);
    } else {
        assert(ws + x =~= x);
    }
}

proof fn lemma_trim_end_before_white(x: Seq<char>, ws: Seq<char>)
    requires
        all_white_space(ws),
    ensures
        trim_end(x + ws) == trim_end(x),
    decreases ws.len(),
{
    if ws.len() > 0 {
        assert((x + ws).last() == ws.last());
        assert((x + ws).drop_last() =~= x + ws.drop_last());
        lemma_trim_end_before_white(x, ws.drop_last());
    } else {
        assert(x + ws =~= x);
    }
}

proof fn lemma_trim_start_concat(x: Seq<char>, y: Seq<char>)
    ensures
        trim_start(x + y) == (if trim_start(x).len() > 0 {
            trim_start(x) + y
        } else {
            trim_start(y)
        }),
    decreases x.len(),
{
    if x.len() == 0 {
        assert(x + y =~= y);
    } else {
        assert((x + y)[0] == x[0]);
        if is_white_space(x[0]) {
            assert((x + y).drop_first() =~= x.drop_first() + y);
            lemma_trim_start_concat(x.drop_first(), y);
        }
    }
}

/// White space around a text does not change it once trimmed.
pub proof fn lemma_trim_ignores_surrounding_white(ws1: Seq<char>, s: Seq<char>, ws2: Seq<char>)
    requires
        all_white_space(ws1),
        all_white_space(ws2),
    ensures
        trim(ws1 + s + ws2) == trim(s),
{
    assert(ws1 + s + ws2 =~= ws1 + (s + ws2));
    lemma_trim_start_after_white(ws1, s + ws2);
    lemma_trim_start_concat(s, ws2);
    if trim_start(s).len() > 0 {
        lemma_trim_end_before_white(trim_start(s), ws2);
    } else {
        lemma_trim_start_after_white(ws2, seq![]);
        assert(ws2 + Seq::<char>::empty() =~= ws2);
    }
}

proof fn lemma_fold_keeps_white_space(a: char, b: char)
    requires
        ascii_lower(a) == ascii_lower(b),
    ensures
        is_white_space(a) == is_white_space(b),
{
    if 'A' <= a <= 'Z' {
        assert(((a as u32) + 32) as char as u32 == (a as u32) + 32);
    }
    if 'A' <= b <= 'Z' {
        assert(((b as u32) + 32) as char as u32 == (b as u32) + 32);
    }
}

proof fn lemma_trim_start_same_fold(s: Seq<char>, t: Seq<char>)
    requires
        ascii_lower_seq(s) == ascii_lower_seq(t),
    ensures
        ascii_lower_seq(trim_start(s)) == ascii_lower_seq(trim_start(t)),
    decreases s.len(),
{
    assert(s.len() == ascii_lower_seq(s).len() && t.len() == ascii_lower_seq(t).len());
    if s.len() > 0 {
        assert(ascii_lower_seq(s)[0] == ascii_lower(s[0]));
        assert(ascii_lower_seq(t)[0] == ascii_lower(t[0]));
        lemma_fold_keeps_white_space(s[0], t[0]);
        if is_white_space(s[0]) {
            assert(ascii_lower_seq(s.drop_first()) =~= ascii_lower_seq(s).drop_first());
            assert(ascii_lower_seq(t.drop_first()) =~= ascii_lower_seq(t).drop_first());
            lemma_trim_start_same_fold(s.drop_first(), t.drop_first());
        }
    }
}

proof fn lemma_trim_end_same_fold(s: Seq<char>, t: Seq<char>)
    requires
        ascii_lower_seq(s) == ascii_lower_seq(t),
    ensures
        ascii_lower_seq(trim_end(s)) == ascii_lower_seq(trim_end(t)),
    decreases s.len(),
{
    assert(s.len() == ascii_lower_seq(s).len() && t.len() == ascii_lower_seq(t).len());
    if s.len() > 0 {
        assert(ascii_lower_seq(s)[s.len() - 1] == ascii_lower(s.last()));
        assert(ascii_lower_seq(t)[t.len() - 1] == ascii_lower(t.last()));
        lemma_fold_keeps_white_space(s.last(), t.last());
        if is_white_space(s.last()) {
            assert(ascii_lower_seq(s.drop_last()) =~= ascii_lower_seq(s).drop_last());
            assert(ascii_lower_seq(t.drop_last()) =~= ascii_lower_seq(t).drop_last());
            lemma_trim_end_same_fold(s.drop_last(), t.drop_last());
        }
    }
}

/// Texts that differ only in the case of ASCII letters still do once
/// trimmed.
pub proof fn lemma_trim_keeps_same_fold(s: Seq<char>, t: Seq<char>)
    requires
        ascii_lower_seq(s) == ascii_lower_seq(t),
    ensures
        ascii_lower_seq(trim(s)) == ascii_lower_seq(trim(t)),
{
    lemma_trim_start_same_fold(s, t);
    lemma_trim_end_same_fold(trim_start(s), trim_start(t));
}

proof fn lemma_digits_value_prefix(d: Seq<char>, n: nat)
    requires
        n <= d.len(),
        all_ascii_digits(d),
    ensures
        digits_value(d) >= digits_value(d.take(n as int)),
    decreases d.len() - n,
{
    if n < d.len() {
        lemma_digits_value_prefix(d.drop_last(), n);
        assert(d.drop_last().take(n as int) == d.take(n as int));
    } else {
        assert(d.take(n as int) == d);
    }
}

} // verus!
