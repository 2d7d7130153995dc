//! Text as sequences of characters: trimming, decimal numerals, joining and splitting.

use vstd::prelude::*;
use vstd::string::*;

verus! {

broadcast use vstd::seq::group_seq_axioms;

/// `String::push` of std appends one character.
pub assume_specification[ String::push ](s: &mut String, c: char)
    ensures
        final(s)@ == old(s)@.push(c),
;

/// The characters with Unicode's `White_Space` property.
pub open spec fn white_space(c: char) -> bool {
    let n = c as u32;
    ||| 0x09 <= n <= 0x0D
    ||| n == 0x20
    ||| n == 0x85
    ||| n == 0xA0
    ||| n == 0x1680
    ||| 0x2000 <= n <= 0x200A
    ||| n == 0x2028
    ||| n == 0x2029
    ||| n == 0x202F
    ||| n == 0x205F
    ||| n == 0x3000
}

/// `char::is_whitespace` of std: whether the character has Unicode's `White_Space` property, which
/// is the list that [`white_space`] writes out.
pub assume_specification[ char::is_whitespace ](c: char) -> (b: bool)
    ensures
        b == white_space(c),
;

/// `s` without the white space it starts with.
pub open spec fn trimmed_start(s: Seq<char>) -> Seq<char>
    decreases s.len(),
{
    if s.len() > 0 && white_space(s[0]) {
        trimmed_start(s.skip(1))
    } else {
        s
    }
}

/// `s` without the white space it ends with.
pub open spec fn trimmed_end(s: Seq<char>) -> Seq<char>
    decreases s.len(),
{
    if s.len() > 0 && white_space(s.last()) {
        trimmed_end(s.drop_last())
    } else {
        s
    }
}

/// `s` without the white space at either end.
pub open spec fn trimmed(s: Seq<char>) -> Seq<char> {
    trimmed_end(trimmed_start(s))
}

/// What is left of `s` once the white space at both ends is gone.
pub fn trim(s: &str) -> (r: &str)
    ensures
        r@ == trimmed(s@),
{
    let n: usize = s.unicode_len();
    let mut from: usize = 0;
    assert(s@.skip(0) =~= s@);
    while from < n && s.get_char(from).is_whitespace()
        invariant
            from <= n,
            n == s@.len(),
            trimmed_start(s@) == trimmed_start(s@.skip(from as int)),
        decreases n - from,
    {
        assert(s@.skip(from as int).skip(1) =~= s@.skip(from + 1));
        from = from + 1;
    }
    let ghost rest = s@.skip(from as int);
    assert(trimmed_start(s@) == rest);
    let mut to: usize = n;
    assert(rest.take((to - from) as int) =~= rest);
    while to > from && s.get_char(to - 1).is_whitespace()
        invariant
            from <= to <= n,
            n == s@.len(),
            rest == s@.skip(from as int),
            trimmed_end(rest) == trimmed_end(rest.take((to - from) as int)),
        decreases to - from,
    {
        let ghost cut = rest.take((to - from) as int);
        assert(cut.last() == s@[to - 1]);
        assert(cut.drop_last() =~= rest.take((to - from - 1) as int));
        to = to - 1;
    }
    let ghost cut = rest.take((to - from) as int);
    proof {
        if to > from {
            assert(cut.last() == s@[to - 1]);
        }
        assert(cut =~= s@.subrange(from as int, to as int));
    }
    s.substring_char(from, to)
}

/// Whether two texts hold the same characters.
pub fn same_text(a: &str, b: &str) -> (r: bool)
    ensures
        r == (a@ == b@),
{
    let x = a.as_bytes();
    let y = b.as_bytes();
    proof {
        vstd::utf8::encode_utf8_decode_utf8(a@);
        vstd::utf8::encode_utf8_decode_utf8(b@);
    }
    same_bytes(x, y)
}

/// Whether two byte strings are equal.
pub fn same_bytes(a: &[u8], b: &[u8]) -> (r: bool)
    ensures
        r == (a@ == b@),
{
    if a.len() != b.len() {
        return false;
    }
    let n: usize = a.len();
    let mut i: usize = 0;
    while i < n
        invariant
            i <= n,
            n == a@.len(),
            n == b@.len(),
            forall|j: int| 0 <= j < i ==> a@[j] == b@[j],
        decreases n - i,
    {
        if a[i] != b[i] {
            return false;
        }
        i = i + 1;
    }
    assert(a@ =~= b@);
    true
}

/// The decimal digit of `d`.
pub open spec fn digit_char(d: nat) -> char {
    (48 + d) as char
}

/// The decimal numeral of `n`, without leading zeros.
pub open spec fn decimal(n: nat) -> Seq<char>
    decreases n,
{
    if n < 10 {
        seq![digit_char(n)]
    } else {
        decimal(n / 10).push(digit_char(n % 10))
    }
}

/// The decimal numeral of `n`, with a minus sign in front of a negative number.
pub open spec fn signed_decimal(n: int) -> Seq<char> {
    if n < 0 {
        seq!['-'] + decimal((-n) as nat)
    } else {
        decimal(n as nat)
    }
}

fn push_digit(out: &mut String, d: u64)
    requires
        d < 10,
    ensures
        final(out)@ == old(out)@.push(digit_char(d as nat)),
{
    let c: char = ((48 + d) as u8) as char;
    out.push(c);
}

/// Appends the decimal numeral of `n`.
pub fn push_decimal(out: &mut String, n: u64)
    ensures
        final(out)@ == old(out)@ + decimal(n as nat),
    decreases n,
{
    if n >= 10 {
        push_decimal(out, n / 10);
    }
    push_digit(out, n % 10);
    assert(out@ =~= old(out)@ + decimal(n as nat));
}

/// Appends the decimal numeral of `n`, signed.
pub fn push_signed(out: &mut String, n: i64)
    ensures
        final(out)@ == old(out)@ + signed_decimal(n as int),
{
    if n < 0 {
        out.push('-');
        let ghost mid = out@;
        let m: u64 = ((-(n as i128)) as u64);
        push_decimal(out, m);
        assert(out@ =~= old(out)@ + signed_decimal(n as int));
    } else {
        push_decimal(out, n as u64);
    }
}

/// The decimal numeral of `n` as a text of its own.
pub fn decimal_text(n: u64) -> (r: String)
    ensures
        r@ == decimal(n as nat),
{
    let mut out = String::new();
    push_decimal(&mut out, n);
    assert(out@ =~= decimal(n as nat));
    out
}

/// The texts of `parts` one after another with `sep` between them.
pub open spec fn joined(parts: Seq<Seq<char>>, sep: Seq<char>) -> Seq<char>
    decreases parts.len(),
{
    if parts.len() == 0 {
        Seq::empty()
    } else if parts.len() == 1 {
        parts[0]
    } else {
        joined(parts.drop_last(), sep) + sep + parts.last()
    }
}

/// A text that may be missing, which is then empty.
pub open spec fn or_empty(s: Option<Seq<char>>) -> Seq<char> {
    match s {
        Some(t) => t,
        None => Seq::empty(),
    }
}

/// `intro` with what is behind it, if there is anything.
pub fn explained(intro: &str, cause: Option<String>) -> (r: String)
    ensures
        r@ == intro@ + or_empty(
            match cause {
                Some(t) => Some(t@),
                None => None,
            },
        ),
{
    let mut out = intro.to_owned();
    match cause {
        Some(t) => {
            out.append(t.as_str());
        },
        None => {
            assert(out@ =~= intro@ + Seq::<char>::empty());
        },
    }
    out
}

/// Joins `parts` with `sep`.
pub fn join(parts: &Vec<String>, sep: &str) -> (r: String)
    ensures
        r@ == joined(parts.deep_view(), sep@),
{
    let mut out = String::new();
    let mut i: usize = 0;
    while i < parts.len()
        invariant
            i <= parts.len(),
            out@ == joined(parts.deep_view().take(i as int), sep@),
        decreases parts.len() - i,
    {
        let ghost before = parts.deep_view().take(i as int);
        let ghost after = parts.deep_view().take(i + 1);
        assert(after.drop_last() =~= before);
        assert(after.last() == parts[i as int]@);
        if i > 0 {
            out.append(sep);
        }
        out.append(parts[i].as_str());
        assert(out@ =~= joined(after, sep@));
        i = i + 1;
    }
    assert(parts.deep_view().take(i as int) =~= parts.deep_view());
    out
}

/// Whether `s` begins with `prefix`.
pub open spec fn has_prefix(s: Seq<char>, prefix: Seq<char>) -> bool {
    prefix.len() <= s.len() && s.take(prefix.len() as int) == prefix
}

/// Whether `s` begins with `prefix`.
pub fn starts_with(s: &str, prefix: &str) -> (r: bool)
    ensures
        r == has_prefix(s@, prefix@),
{
    let n: usize = prefix.unicode_len();
    if s.unicode_len() < n {
        return false;
    }
    let head = s.substring_char(0, n);
    assert(head@ =~= s@.take(n as int));
    same_text(head, prefix)
}

/// Whether `part` occurs in `s`.
pub open spec fn occurs(s: Seq<char>, part: Seq<char>) -> bool {
    exists|i: int|
        0 <= i && i + part.len() <= s.len() && #[trigger] s.subrange(i, i + part.len()) == part
}

/// Whether `part` occurs in `s`.
pub fn contains(s: &str, part: &str) -> (r: bool)
    ensures
        r == occurs(s@, part@),
{
    let n: usize = s.unicode_len();
    let k: usize = part.unicode_len();
    if k > n {
        return false;
    }
    let mut i: usize = 0;
    while i <= n - k
        invariant
            n == s@.len(),
            k == part@.len(),
            k <= n,
            i <= n - k + 1,
            forall|j: int| 0 <= j < i ==> #[trigger] s@.subrange(j, j + k) != part@,
        decreases n - k + 1 - i,
    {
        if same_text(s.substring_char(i, i + k), part) {
            return true;
        }
        if i == n - k {
            return false;
        }
        i = i + 1;
    }
    false
}

/// Where each of the pieces that `sep` cuts `s` into stands: the pieces, in order, of which there
/// is always at least one.
pub open spec fn pieces(s: Seq<char>, sep: char) -> Seq<Seq<char>>
    decreases s.len(),
{
    if s.len() == 0 {
        seq![Seq::empty()]
    } else {
        let before = pieces(s.drop_last(), sep);
        if s.last() == sep {
            before.push(Seq::empty())
        } else {
            before.drop_last().push(before.last().push(s.last()))
        }
    }
}

/// Cuts `s` at every `sep`.
pub fn split(s: &str, sep: char) -> (r: Vec<String>)
    ensures
        r.deep_view() == pieces(s@, sep),
        r@.len() >= 1,
{
    let mut done: Vec<String> = Vec::new();
    let mut cur = String::new();
    assert(done.deep_view().push(cur@) =~= pieces(s@.take(0), sep));
    for c in it: s.chars()
        invariant
            it.seq() == s@,
            done.deep_view().push(cur@) == pieces(s@.take(it.index()), sep),
    {
        let ghost i = it.index();
        let ghost done0 = done.deep_view();
        let ghost cur0 = cur@;
        assert(s@.take(i + 1).drop_last() =~= s@.take(i));
        assert(done0.push(cur0).drop_last() =~= done0);
        if c == sep {
            let mut piece = String::new();
            core::mem::swap(&mut piece, &mut cur);
            done.push(piece);
            assert(done.deep_view() =~= done0.push(cur0));
        } else {
            cur.push(c);
        }
    }
    assert(s@.take(s@.len() as int) =~= s@);
    let ghost done0 = done.deep_view();
    let ghost last = cur@;
    done.push(cur);
    assert(done.deep_view() =~= done0.push(last));
    done
}

/// Whether `a` comes before `b` in the order of their characters, or is `b`.
pub open spec fn text_le(a: Seq<char>, b: Seq<char>) -> bool
    decreases a.len(),
{
    ||| a.len() == 0
    ||| b.len() > 0 && (a[0] < b[0] || (a[0] == b[0] && text_le(a.skip(1), b.skip(1))))
}

/// Whether `a` comes before `b` in the order of their characters, or is `b`.
pub fn is_text_le(a: &str, b: &str) -> (r: bool)
    ensures
        r == text_le(a@, b@),
{
    let n: usize = a.unicode_len();
    let m: usize = b.unicode_len();
    let mut i: usize = 0;
    assert(a@.skip(0) =~= a@);
    assert(b@.skip(0) =~= b@);
    while i < n
        invariant
            i <= n,
            i <= m,
            n == a@.len(),
            m == b@.len(),
            text_le(a@, b@) == text_le(a@.skip(i as int), b@.skip(i as int)),
        decreases n - i,
    {
        if i >= m {
            return false;
        }
        let x = a.get_char(i);
        let y = b.get_char(i);
        assert(a@.skip(i as int).skip(1) =~= a@.skip(i + 1));
        assert(b@.skip(i as int).skip(1) =~= b@.skip(i + 1));
        if x < y {
            return true;
        }
        if x > y {
            return false;
        }
        i = i + 1;
    }
    true
}

/// The order of texts is a total one.
pub proof fn lemma_text_order(a: Seq<char>, b: Seq<char>, c: Seq<char>)
    ensures
        text_le(a, a),
        text_le(a, b) || text_le(b, a),
        text_le(a, b) && text_le(b, c) ==> text_le(a, c),
        text_le(a, b) && text_le(b, a) ==> a == b,
    decreases a.len() + b.len() + c.len(),
{
    let a1 = a.skip(1);
    let b1 = b.skip(1);
    let c1 = c.skip(1);
    if a.len() > 0 && b.len() > 0 && c.len() > 0 {
        lemma_text_order(a1, b1, c1);
    } else if a.len() > 0 && b.len() > 0 {
        lemma_text_order(a1, b1, c);
    } else if a.len() > 0 {
        lemma_text_order(a1, b, c);
    }
    if a.len() > 0 && b.len() > 0 && a[0] == b[0] && a1 == b1 {
        assert(a =~= seq![a[0]] + a1);
        assert(b =~= seq![b[0]] + b1);
    }
    if a.len() == 0 && b.len() == 0 {
        assert(a =~= b);
    }
}

/// The texts of `parts` one after another, each with `end` behind it.
pub open spec fn ended(parts: Seq<Seq<char>>, end: Seq<char>) -> Seq<char>
    decreases parts.len(),
{
    if parts.len() == 0 {
        Seq::empty()
    } else {
        ended(parts.drop_last(), end) + parts.last() + end
    }
}

/// Where `c` first stands in `s`; the length of `s` where it does not.
pub open spec fn first_at(s: Seq<char>, c: char) -> nat
    decreases s.len(),
{
    if s.len() == 0 || s[0] == c {
        0
    } else {
        1 + first_at(s.skip(1), c)
    }
}

/// What stands before the first `c`: all of `s` where there is none.
pub open spec fn before_first(s: Seq<char>, c: char) -> Seq<char> {
    s.take(first_at(s, c) as int)
}

/// What stands behind the first `c`: all of `s` where there is none.
pub open spec fn after_first(s: Seq<char>, c: char) -> Seq<char> {
    if first_at(s, c) < s.len() {
        s.skip(first_at(s, c) as int + 1)
    } else {
        s
    }
}

/// Where `c` first stands in `s`.
pub fn position(s: &str, c: char) -> (r: usize)
    ensures
        r == first_at(s@, c),
        r <= s@.len(),
        r < s@.len() ==> s@[r as int] == c,
{
    let n: usize = s.unicode_len();
    let mut i: usize = 0;
    assert(s@.skip(0) =~= s@);
    while i < n && s.get_char(i) != c
        invariant
            i <= n,
            n == s@.len(),
            first_at(s@, c) == i + first_at(s@.skip(i as int), c),
        decreases n - i,
    {
        assert(s@.skip(i as int).skip(1) =~= s@.skip(i + 1));
        i = i + 1;
    }
    i
}

/// What stands before the first `c`.
pub fn until(s: &str, c: char) -> (r: &str)
    ensures
        r@ == before_first(s@, c),
{
    let at: usize = position(s, c);
    assert(s@.subrange(0, at as int) =~= s@.take(at as int));
    s.substring_char(0, at)
}

/// What stands behind the first `c`.
pub fn behind(s: &str, c: char) -> (r: &str)
    ensures
        r@ == after_first(s@, c),
{
    let n: usize = s.unicode_len();
    let at: usize = position(s, c);
    if at < n {
        assert(s@.subrange(at + 1, n as int) =~= s@.skip(at + 1));
        s.substring_char(at + 1, n)
    } else {
        s
    }
}

/// Whether `c` is one of `0` to `9`.
pub open spec fn is_digit(c: char) -> bool {
    '0' <= c && c <= '9'
}

/// Whether `c` is an ASCII hexadecimal digit.
pub open spec fn is_hex_digit(c: char) -> bool {
    is_digit(c) || ('a' <= c && c <= 'f') || ('A' <= c && c <= 'F')
}

/// Whether `s` is exactly `n` hexadecimal digits.
pub open spec fn is_hex_of_len(s: Seq<char>, n: nat) -> bool {
    s.len() == n && forall|i: int| 0 <= i < s.len() ==> is_hex_digit(#[trigger] s[i])
}

/// Whether `s` is exactly `n` hexadecimal digits.
pub fn hex_of_len(s: &str, n: usize) -> (r: bool)
    ensures
        r == is_hex_of_len(s@, n as nat),
{
    if s.unicode_len() != n {
        return false;
    }
    let mut i: usize = 0;
    while i < n
        invariant
            i <= n,
            n == s@.len(),
            forall|j: int| 0 <= j < i ==> is_hex_digit(#[trigger] s@[j]),
        decreases n - i,
    {
        let c = s.get_char(i);
        let hex = ('0' <= c && c <= '9') || ('a' <= c && c <= 'f') || ('A' <= c && c <= 'F');
        if !hex {
            return false;
        }
        i = i + 1;
    }
    true
}

/// The number that a run of decimal digits writes, if `s` is one.
pub open spec fn digits_value(s: Seq<char>) -> Option<nat>
    decreases s.len(),
{
    if s.len() == 0 || !is_digit(s.last()) {
        None
    } else {
        let d = (s.last() as u32 - 48) as nat;
        if s.len() == 1 {
            Some(d)
        } else {
            match digits_value(s.drop_last()) {
                Some(v) => Some(v * 10 + d),
                None => None,
            }
        }
    }
}

/// Every number is read back from its numeral, so different numbers have different numerals.
pub proof fn law_a_numeral_is_read_back(n: nat)
    ensures
        digits_value(decimal(n)) == Some(n),
    decreases n,
{
    if n >= 10 {
        law_a_numeral_is_read_back(n / 10);
        assert(decimal(n).drop_last() =~= decimal(n / 10));
        lemma_numeral_is_digits(n / 10);
    }
}

/// A numeral is one or more digits.
pub proof fn lemma_numeral_is_digits(n: nat)
    ensures
        decimal(n).len() > 0,
        forall|i: int| 0 <= i < decimal(n).len() ==> is_digit(#[trigger] decimal(n)[i]),
    decreases n,
{
    if n >= 10 {
        lemma_numeral_is_digits(n / 10);
    }
}

/// Two texts that are equal up to a character which neither has before are equal before and behind
/// it.
pub proof fn lemma_same_up_to(
    a: Seq<char>,
    x: Seq<char>,
    b: Seq<char>,
    y: Seq<char>,
    c: char,
)
    requires
        !a.contains(c),
        !b.contains(c),
        a + (seq![c] + x) == b + (seq![c] + y),
    ensures
        a == b,
        x == y,
{
    let left = a + (seq![c] + x);
    let right = b + (seq![c] + y);
    assert(left[a.len() as int] == c);
    assert(right[b.len() as int] == c);
    if a.len() < b.len() {
        assert(b[a.len() as int] == right[a.len() as int]);
    } else if b.len() < a.len() {
        assert(a[b.len() as int] == left[b.len() as int]);
    }
    assert(a =~= left.take(a.len() as int));
    assert(b =~= right.take(b.len() as int));
    assert(x =~= left.skip(a.len() as int + 1));
    assert(y =~= right.skip(b.len() as int + 1));
}

/// The number that `s` writes as an unsigned integer of at most `max`: a run of decimal digits
/// with at most a plus sign before it.
pub open spec fn parsed_unsigned(s: Seq<char>, max: nat) -> Option<nat> {
    let digits = if s.len() > 0 && s[0] == '+' {
        s.skip(1)
    } else {
        s
    };
    match digits_value(digits) {
        Some(v) => if v <= max {
            Some(v)
        } else {
            None
        },
        None => None,
    }
}

/// Reads `s` as an unsigned integer of at most `max`.
pub fn parse_unsigned(s: &str, max: u64) -> (r: Option<u64>)
    ensures
        match r {
            Some(v) => parsed_unsigned(s@, max as nat) == Some(v as nat),
            None => parsed_unsigned(s@, max as nat) is None,
        },
{
    let n: usize = s.unicode_len();
    let start: usize = if n > 0 && s.get_char(0) == '+' {
        1
    } else {
        0
    };
    let ghost digits = s@.skip(start as int);
    proof {
        assert(s@.skip(0) =~= s@);
    }
    if start == n {
        return None;
    }
    let mut acc: Option<u64> = Some(0);
    let mut i: usize = start;
    while i < n
        invariant
            n == s@.len(),
            start <= i <= n,
            start < n,
            digits == s@.skip(start as int),
            i == start ==> acc == Some(0u64),
            i > start ==> match acc {
                Some(v) => v <= max && digits_value(digits.take(i - start)) == Some(v as nat),
                None => match digits_value(digits.take(i - start)) {
                    Some(v) => v > max,
                    None => true,
                },
            },
        decreases n - i,
    {
        let c = s.get_char(i);
        let ghost now = digits.take(i + 1 - start);
        assert(now.last() == c);
        assert(now.drop_last() =~= digits.take(i - start));
        if '0' <= c && c <= '9' {
            let d: u64 = (c as u32 - 48) as u64;
            acc = match acc {
                Some(v) => {
                    let wide: u128 = v as u128 * 10 + d as u128;
                    if wide <= max as u128 {
                        Some(wide as u64)
                    } else {
                        None
                    }
                },
                None => None,
            };
        } else {
            acc = None;
        }
        i = i + 1;
    }
    assert(digits.take(n - start) =~= digits);
    acc
}

/// The number that `s` writes as a signed 64-bit integer: a run of decimal digits with at most a
/// sign before it.
pub open spec fn parsed_i64(s: Seq<char>) -> Option<int> {
    if s.len() > 0 && s[0] == '-' {
        match digits_value(s.skip(1)) {
            Some(v) => if v <= 0x8000_0000_0000_0000 {
                Some(-(v as int))
            } else {
                None
            },
            None => None,
        }
    } else {
        match parsed_unsigned(s, 0x7fff_ffff_ffff_ffff) {
            Some(v) => Some(v as int),
            None => None,
        }
    }
}

/// Reads `s` as a signed 64-bit integer.
pub fn parse_i64(s: &str) -> (r: Option<i64>)
    ensures
        match r {
            Some(v) => parsed_i64(s@) == Some(v as int),
            None => parsed_i64(s@) is None,
        },
{
    let n: usize = s.unicode_len();
    if n > 0 && s.get_char(0) == '-' {
        let rest = s.substring_char(1, n);
        assert(rest@ =~= s@.skip(1));
        if n > 1 && rest.get_char(0) == '+' {
            assert(!is_digit('+'));
            proof {
                lemma_plus_is_no_numeral(rest@);
            }
            return None;
        }
        match parse_unsigned(rest, 0x8000_0000_0000_0000) {
            Some(v) => Some((-(v as i128)) as i64),
            None => None,
        }
    } else {
        match parse_unsigned(s, 0x7fff_ffff_ffff_ffff) {
            Some(v) => Some(v as i64),
            None => None,
        }
    }
}

proof fn lemma_plus_is_no_numeral(s: Seq<char>)
    requires
        s.len() > 0,
        s[0] == '+',
    ensures
        digits_value(s) is None,
    decreases s.len(),
{
    if s.len() > 1 {
        lemma_plus_is_no_numeral(s.drop_last());
    }
}

/// The ASCII lower case of `c`; other characters stay.
pub open spec fn ascii_lower(c: char) -> char {
    if 'A' <= c && c <= 'Z' {
        (c as u32 + 32) as char
    } else {
        c
    }
}

/// The ASCII upper case of `c`; other characters stay.
pub open spec fn ascii_upper(c: char) -> char {
    if 'a' <= c && c <= 'z' {
        (c as u32 - 32) as char
    } else {
        c
    }
}

/// The Unicode lower case of a text.
pub uninterp spec fn lowercase(s: Seq<char>) -> Seq<char>;

/// `str::to_lowercase` of std: the Unicode lower case, named [`lowercase`]. On ASCII text that is
/// the lower case of each letter.
pub assume_specification[ str::to_lowercase ](s: &str) -> (r: String)
    ensures
        r@ == lowercase(s@),
        vstd::utf8::is_ascii_chars(s@) ==> r@ == s@.map_values(|c: char| ascii_lower(c)),
;

/// The Unicode upper case of a text.
pub uninterp spec fn uppercase(s: Seq<char>) -> Seq<char>;

/// `str::to_uppercase` of std: the Unicode upper case, named [`uppercase`]. On ASCII text that is
/// the upper case of each letter.
pub assume_specification[ str::to_uppercase ](s: &str) -> (r: String)
    ensures
        r@ == uppercase(s@),
        vstd::utf8::is_ascii_chars(s@) ==> r@ == s@.map_values(|c: char| ascii_upper(c)),
;

/// A text between double quotes with its special characters escaped, as std's `Debug` writes it.
pub uninterp spec fn quoted(s: Seq<char>) -> Seq<char>;

/// `<str as Debug>::fmt` of std by way of `format!`: the quoted and escaped text, named
/// [`quoted`]. A line break is escaped, so there is none in it.
#[verifier::external_body]
pub(crate) fn quote(s: &str) -> (r: String)
    ensures
        r@ == quoted(s@),
        forall|i: int| 0 <= i < r@.len() ==> #[trigger] r@[i] != '\n',
{
    format!("{:?}", s)
}

/// A sequence that is one longer contains what it contained and what was added.
pub(crate) proof fn lemma_contains_pushed<A>(s: Seq<A>, a: A, x: A)
    ensures
        s.push(a).contains(x) <==> s.contains(x) || a == x,
{
    if s.contains(x) {
        let i = choose|i: int| 0 <= i < s.len() && s[i] == x;
        assert(s.push(a)[i] == x);
    }
    if a == x {
        assert(s.push(a)[s.len() as int] == x);
    }
    if s.push(a).contains(x) {
        let i = choose|i: int| 0 <= i < s.push(a).len() && s.push(a)[i] == x;
        if i < s.len() {
            assert(s[i] == x);
        }
    }
}

/// What a text is trimmed to is in it, starts and ends with no white space, and leaves only white space
/// out: what is before it and what is after it.
pub proof fn law_trimming_takes_white_space_off_both_ends(s: Seq<char>)
    ensures
        trimmed(s).len() > 0 ==> !white_space(trimmed(s)[0]) && !white_space(trimmed(s).last()),
        exists|from: int, to: int|
            #![trigger s.subrange(from, to)]
            0 <= from <= to <= s.len() && trimmed(s) == s.subrange(from, to) && (forall|i: int|
                0 <= i < from || to <= i < s.len() ==> white_space(#[trigger] s[i])),
{
    let rest = trimmed_start(s);
    let from = lemma_trimmed_start(s);
    let to = lemma_trimmed_end(rest);
    assert(s.subrange(from, from + to) =~= trimmed(s));
    assert forall|i: int| 0 <= i < from || from + to <= i < s.len() implies white_space(
        #[trigger] s[i],
    ) by {
        if i >= from {
            assert(rest[i - from] == s[i]);
        }
    }
    if trimmed(s).len() > 0 {
        assert(trimmed(s)[0] == rest[0]);
    }
}

proof fn lemma_trimmed_start(s: Seq<char>) -> (from: int)
    ensures
        0 <= from <= s.len(),
        trimmed_start(s) == s.skip(from),
        forall|i: int| 0 <= i < from ==> white_space(#[trigger] s[i]),
        from < s.len() ==> !white_space(s[from]),
    decreases s.len(),
{
    if s.len() > 0 && white_space(s[0]) {
        let rest = s.skip(1);
        let k = lemma_trimmed_start(rest);
        assert(rest.skip(k) =~= s.skip(k + 1));
        assert forall|i: int| 0 <= i < k + 1 implies white_space(#[trigger] s[i]) by {
            if i > 0 {
                assert(rest[i - 1] == s[i]);
            }
        }
        if k + 1 < s.len() {
            assert(rest[k] == s[k + 1]);
        }
        k + 1
    } else {
        assert(s.skip(0) =~= s);
        0
    }
}

proof fn lemma_trimmed_end(s: Seq<char>) -> (to: int)
    ensures
        0 <= to <= s.len(),
        trimmed_end(s) == s.take(to),
        forall|i: int| to <= i < s.len() ==> white_space(#[trigger] s[i]),
        to > 0 ==> !white_space(s[to - 1]),
    decreases s.len(),
{
    if s.len() > 0 && white_space(s.last()) {
        let rest = s.drop_last();
        let k = lemma_trimmed_end(rest);
        assert(rest.take(k) =~= s.take(k));
        assert forall|i: int| k <= i < s.len() implies white_space(#[trigger] s[i]) by {
            if i < rest.len() {
                assert(rest[i] == s[i]);
            }
        }
        if k > 0 {
            assert(rest[k - 1] == s[k - 1]);
        }
        k
    } else {
        assert(s.take(s.len() as int) =~= s);
        s.len() as int
    }
}

/// Each part of a list is in the text that the parts are joined to, whatever stands between them.
pub proof fn law_each_part_is_in_the_joined_text(parts: Seq<Seq<char>>, sep: Seq<char>, i: int)
    requires
        0 <= i < parts.len(),
    ensures
        occurs(joined(parts, sep), parts[i]),
    decreases parts.len(),
{
    let all = joined(parts, sep);
    if parts.len() == 1 {
        assert(all.subrange(0int, 0int + parts[i].len()) =~= parts[i]);
    } else {
        let before = joined(parts.drop_last(), sep);
        if i == parts.len() - 1 {
            let at = (before + sep).len() as int;
            assert(all.subrange(at, at + parts[i].len()) =~= parts[i]);
        } else {
            law_each_part_is_in_the_joined_text(parts.drop_last(), sep, i);
            let at = choose|at: int|
                0 <= at && at + parts[i].len() <= before.len() && #[trigger] before.subrange(
                    at,
                    at + parts[i].len(),
                ) == parts[i];
            assert(all.subrange(at, at + parts[i].len()) =~= before.subrange(
                at,
                at + parts[i].len(),
            ));
        }
    }
}

/// A part that occurs in one of two texts occurs in the two of them, one after the other.
pub(crate) proof fn lemma_occurs_beside(a: Seq<char>, b: Seq<char>, part: Seq<char>)
    ensures
        occurs(a, part) ==> occurs(a + b, part),
        occurs(b, part) ==> occurs(a + b, part),
{
    if occurs(a, part) {
        let i = choose|i: int|
            0 <= i && i + part.len() <= a.len() && #[trigger] a.subrange(i, i + part.len()) == part;
        assert((a + b).subrange(i, i + part.len()) =~= part);
    }
    if occurs(b, part) {
        let i = choose|i: int|
            0 <= i && i + part.len() <= b.len() && #[trigger] b.subrange(i, i + part.len()) == part;
        assert((a + b).subrange(a.len() + i, a.len() + i + part.len()) =~= part);
    }
}

/// A text occurs in itself.
pub(crate) proof fn lemma_occurs_in_itself(a: Seq<char>)
    ensures
        occurs(a, a),
{
    assert(a.subrange(0int, 0int + a.len()) =~= a);
}

/// The pieces of what parts are joined to by a character that is in none of them are the parts.
pub proof fn law_what_is_joined_is_taken_apart_again(parts: Seq<Seq<char>>, c: char)
    requires
        parts.len() > 0,
        forall|i: int| 0 <= i < parts.len() ==> !(#[trigger] parts[i]).contains(c),
    ensures
        pieces(joined(parts, seq![c]), c) == parts,
    decreases parts.len(),
{
    let before = parts.drop_last();
    assert(!parts.last().contains(c)) by {
        assert(parts[parts.len() - 1] == parts.last());
    }
    if parts.len() == 1 {
        lemma_pieces_of_one_more(Seq::empty(), parts[0], c);
        assert(Seq::<char>::empty() + parts[0] =~= parts[0]);
        assert(pieces(Seq::empty(), c) =~= seq![Seq::<char>::empty()]);
        assert(pieces(parts[0], c) =~= parts);
    } else {
        assert forall|i: int| 0 <= i < before.len() implies !(#[trigger] before[i]).contains(c) by {
            assert(before[i] == parts[i]);
        }
        law_what_is_joined_is_taken_apart_again(before, c);
        let first = joined(before, seq![c]) + seq![c];
        assert(first.drop_last() =~= joined(before, seq![c]));
        assert(pieces(first, c) == before.push(Seq::empty()));
        lemma_pieces_of_one_more(first, parts.last(), c);
        assert(pieces(joined(parts, seq![c]), c) =~= parts);
    }
}

proof fn lemma_pieces_of_one_more(s: Seq<char>, more: Seq<char>, c: char)
    requires
        !more.contains(c),
    ensures
        pieces(s, c).len() > 0,
        pieces(s + more, c) == pieces(s, c).drop_last().push(pieces(s, c).last() + more),
    decreases s.len() + more.len(), more.len(),
{
    if more.len() == 0 {
        assert(s + more =~= s);
        if s.len() > 0 {
            lemma_pieces_of_one_more(s.drop_last(), Seq::empty(), c);
        }
        assert(pieces(s, c).last() + more =~= pieces(s, c).last());
        assert(pieces(s, c).drop_last().push(pieces(s, c).last()) =~= pieces(s, c));
    } else {
        let less = more.drop_last();
        assert(!less.contains(c)) by {
            if less.contains(c) {
                let i = choose|i: int| 0 <= i < less.len() && less[i] == c;
                assert(more[i] == c);
            }
        }
        assert(more.last() != c) by {
            assert(more[more.len() - 1] == more.last());
        }
        lemma_pieces_of_one_more(s, less, c);
        assert((s + more).drop_last() =~= s + less);
        assert((s + more).last() == more.last());
        let one = pieces(s, c).drop_last().push(pieces(s, c).last() + less);
        assert(one.drop_last() =~= pieces(s, c).drop_last());
        assert((pieces(s, c).last() + less).push(more.last()) =~= pieces(s, c).last() + more);
    }
}

/// A text is cut at the first place of a character: what is before it has none, and before it, the
/// character and after it make up the text. A text without the character is not cut.
pub proof fn law_a_text_is_cut_at_the_first_place(s: Seq<char>, c: char)
    ensures
        !before_first(s, c).contains(c),
        s.contains(c) ==> before_first(s, c) + seq![c] + after_first(s, c) == s,
        !s.contains(c) ==> before_first(s, c) == s && after_first(s, c) == s,
    decreases s.len(),
{
    lemma_first_at(s, c);
    let k = first_at(s, c) as int;
    if before_first(s, c).contains(c) {
        let i = choose|i: int| 0 <= i < k && s.take(k)[i] == c;
        assert(s[i] == c);
    }
    if k < s.len() {
        assert(s.contains(c)) by {
            assert(s[k] == c);
        }
        assert(before_first(s, c) + seq![c] + after_first(s, c) =~= s);
    } else {
        if s.contains(c) {
            let i = choose|i: int| 0 <= i < s.len() && s[i] == c;
            assert(s[i] != c);
        }
        assert(before_first(s, c) =~= s);
    }
}

proof fn lemma_first_at(s: Seq<char>, c: char)
    ensures
        first_at(s, c) <= s.len(),
        first_at(s, c) < s.len() ==> s[first_at(s, c) as int] == c,
        forall|i: int| 0 <= i < first_at(s, c) ==> #[trigger] s[i] != c,
    decreases s.len(),
{
    if s.len() > 0 && s[0] != c {
        let rest = s.skip(1);
        lemma_first_at(rest, c);
        let k = first_at(rest, c);
        if k < rest.len() {
            assert(rest[k as int] == s[k as int + 1]);
        }
        assert forall|i: int| 0 <= i < first_at(s, c) implies #[trigger] s[i] != c by {
            if i > 0 {
                assert(rest[i - 1] == s[i]);
            }
        }
    }
}

/// A number within the limit is read as itself from its numeral, and one above it is refused; a
/// negative one is read back as well.
pub proof fn law_a_number_within_the_limit_is_read(n: nat, max: nat)
    ensures
        n <= max ==> parsed_unsigned(decimal(n), max) == Some(n),
        n > max ==> parsed_unsigned(decimal(n), max) is None,
        n <= 0x7fff_ffff_ffff_ffff ==> parsed_i64(decimal(n)) == Some(n as int),
        0 < n <= 0x8000_0000_0000_0000 ==> parsed_i64(signed_decimal(-(n as int))) == Some(
            -(n as int),
        ),
        n > 0x8000_0000_0000_0000 ==> parsed_i64(signed_decimal(-(n as int))) is None,
{
    law_a_numeral_is_read_back(n);
    lemma_numeral_is_digits(n);
    let t = decimal(n);
    assert(t.len() > 0);
    assert(is_digit(t[0]));
    if n > 0 {
        let s = signed_decimal(-(n as int));
        assert(s.skip(1) =~= decimal(n));
    }
}

/// A text made of a part, a character that is not in it, and a rest is cut into the part and the rest.
pub proof fn law_a_cut_text_is_put_together_again(a: Seq<char>, c: char, b: Seq<char>)
    requires
        !a.contains(c),
    ensures
        first_at(a + seq![c] + b, c) == a.len(),
        before_first(a + seq![c] + b, c) == a,
        after_first(a + seq![c] + b, c) == b,
{
    let s = a + seq![c] + b;
    lemma_first_at(s, c);
    let k = first_at(s, c) as int;
    if k < a.len() {
        assert(a[k] == c);
    } else if k > a.len() {
        assert(s[a.len() as int] == c);
    }
    assert(before_first(s, c) =~= a);
    assert(after_first(s, c) =~= b);
}

/// Each part of a list is in the text of the parts, each with the same end.
pub proof fn law_each_part_is_in_the_ended_text(parts: Seq<Seq<char>>, end: Seq<char>, i: int)
    requires
        0 <= i < parts.len(),
    ensures
        occurs(ended(parts, end), parts[i]),
    decreases parts.len(),
{
    let before = ended(parts.drop_last(), end);
    if i < parts.len() - 1 {
        law_each_part_is_in_the_ended_text(parts.drop_last(), end, i);
        lemma_occurs_beside(before, parts.last(), parts[i]);
        lemma_occurs_beside(before + parts.last(), end, parts[i]);
    } else {
        lemma_occurs_in_itself(parts[i]);
        lemma_occurs_beside(before, parts[i], parts[i]);
        lemma_occurs_beside(before + parts[i], end, parts[i]);
    }
}

/// Texts are ordered by the first character in which they differ, and a text comes before any that goes on
/// from it.
pub proof fn law_texts_are_ordered_by_their_first_difference(
    same: Seq<char>,
    a: Seq<char>,
    b: Seq<char>,
)
    ensures
        text_le(same, same + b),
        a.len() > 0 && b.len() > 0 && a[0] < b[0] ==> text_le(same + a, same + b) && !text_le(
            same + b,
            same + a,
        ),
        b.len() > 0 ==> !text_le(same + b, same),
    decreases same.len(),
{
    if same.len() > 0 {
        let rest = same.skip(1);
        law_texts_are_ordered_by_their_first_difference(rest, a, b);
        assert((same + a).skip(1) =~= rest + a);
        assert((same + b).skip(1) =~= rest + b);
    } else {
        assert(same + a =~= a);
        assert(same + b =~= b);
    }
}

/// Only the letters from A to Z change with their case, each into its counterpart.
pub proof fn law_only_letters_have_a_case(c: char)
    ensures
        'A' <= c && c <= 'Z' ==> ascii_lower(c) as u32 == c as u32 + 32 && ascii_upper(ascii_lower(c))
            == c,
        !('A' <= c && c <= 'Z') ==> ascii_lower(c) == c,
        !('a' <= c && c <= 'z') ==> ascii_upper(c) == c,
{
}

/// A numeral has no sign and no leading zero, and each step to the left is worth ten times as much.
pub proof fn law_each_digit_is_worth_ten_times_the_next(n: nat, d: nat)
    requires
        n > 0,
        d < 10,
    ensures
        decimal(10 * n + d) == decimal(n).push((48 + d) as char),
        d > 0 ==> decimal(d) == seq![(48 + d) as char],
{
    assert((10 * n + d) / 10 == n);
    assert((10 * n + d) % 10 == d);
}

/// A part that stands before another text stands in the two of them.
pub(crate) broadcast proof fn lemma_occurs_before(a: Seq<char>, b: Seq<char>, part: Seq<char>)
    requires
        occurs(a, part),
    ensures
        #[trigger] occurs(a + b, part),
{
    lemma_occurs_beside(a, b, part);
}

/// A part that stands behind another text stands in the two of them.
pub(crate) broadcast proof fn lemma_occurs_behind(a: Seq<char>, b: Seq<char>, part: Seq<char>)
    requires
        occurs(b, part),
    ensures
        #[trigger] occurs(a + b, part),
{
    lemma_occurs_beside(a, b, part);
}


/// The last two of three texts, one after the other, stand in the three of them.
pub(crate) proof fn lemma_occurs_at_the_end(a: Seq<char>, b: Seq<char>, c: Seq<char>)
    ensures
        occurs(a + b + c, b + c),
{
    assert((a + b + c).subrange(a.len() as int, a.len() as int + (b + c).len()) =~= b + c);
}

}
