//! Character-level helpers on strings, with their specifications.
use vstd::prelude::*;

verus! {

/// `String::push` appends one character at the end of the string.
pub assume_specification[ String::push ](s: &mut String, ch: char)
    ensures
        final(s)@ == old(s)@.push(ch),
;

/// `p` occurs in `s` starting at position `i`.
pub open spec fn occurs_at(s: Seq<char>, p: Seq<char>, i: int) -> bool {
    &&& 0 <= i
    &&& i + p.len() <= s.len()
    &&& s.subrange(i, i + p.len()) == p
}

/// The greatest position below `n` at which `p` occurs in `s`.
pub open spec fn rfind_below(s: Seq<char>, p: Seq<char>, n: nat) -> Option<int>
    decreases n,
{
    if n == 0 {
        None
    } else if occurs_at(s, p, n - 1) {
        Some(n - 1)
    } else {
        rfind_below(s, p, (n - 1) as nat)
    }
}

/// The start of the last occurrence of `p` in `s`, if there is one.
pub open spec fn last_occurrence(s: Seq<char>, p: Seq<char>) -> Option<int> {
    if p.len() > s.len() {
        None
    } else {
        rfind_below(s, p, (s.len() - p.len() + 1) as nat)
    }
}

proof fn lemma_rfind_below(s: Seq<char>, p: Seq<char>, n: nat)
    ensures
        match rfind_below(s, p, n) {
            Some(i) => 0 <= i < n && occurs_at(s, p, i) && forall|j: int|
                i < j < n ==> !#[trigger] occurs_at(s, p, j),
            None => forall|j: int| 0 <= j < n ==> !#[trigger] occurs_at(s, p, j),
        },
    decreases n,
{
    if n > 0 && !occurs_at(s, p, n - 1) {
        lemma_rfind_below(s, p, (n - 1) as nat);
    }
}

/// `last_occurrence` finds an occurrence, and no later one exists; when it
/// finds none, `p` occurs nowhere in `s`.
pub proof fn lemma_last_occurrence(s: Seq<char>, p: Seq<char>)
    ensures
        match last_occurrence(s, p) {
            Some(i) => occurs_at(s, p, i) && forall|j: int|
                j > i ==> !#[trigger] occurs_at(s, p, j),
            None => forall|j: int| !#[trigger] occurs_at(s, p, j),
        },
{
    if p.len() <= s.len() {
        lemma_rfind_below(s, p, (s.len() - p.len() + 1) as nat);
    }
}

/// The characters of `s`, in order.
pub fn chars_of(s: &str) -> (v: Vec<char>)
    ensures
        v@ == s@,
{
    let mut v: Vec<char> = Vec::new();
    for c in it: s.chars()
        invariant
            v@ == it.seq().take(it.index() as int),
            it.seq() == s@,
    {
        v.push(c);
    }
    v
}

/// Appends `v[from..to]` to `out`.
pub fn push_range(out: &mut String, v: &Vec<char>, from: usize, to: usize)
    requires
        from <= to <= v.len(),
    ensures
        final(out)@ == old(out)@ + v@.subrange(from as int, to as int),
{
    let mut i = from;
    while i < to
        invariant
            from <= i <= to <= v.len(),
            out@ == old(out)@ + v@.subrange(from as int, i as int),
        decreases to - i,
    {
        out.push(v[i]);
        i = i + 1;
        assert(v@.subrange(from as int, i as int) == v@.subrange(from as int, i - 1).push(
            v@[i - 1],
        ));
    }
}

/// Whether `p` occurs in `s` at position `i`.
pub fn occurs_at_exec(s: &Vec<char>, p: &Vec<char>, i: usize) -> (r: bool)
    ensures
        r == occurs_at(s@, p@, i as int),
{
    if i > s.len() || p.len() > s.len() - i {
        return false;
    }
    let mut k: usize = 0;
    while k < p.len()
        invariant
            i + p.len() <= s.len(),
            k <= p.len(),
            forall|j: int| 0 <= j < k ==> s@[i + j] == p@[j],
        decreases p.len() - k,
    {
        if s[i + k] != p[k] {
            assert(s@.subrange(i as int, i + p.len())[k as int] != p@[k as int]);
            return false;
        }
        k = k + 1;
    }
    assert(s@.subrange(i as int, i + p.len()) =~= p@);
    true
}

/// The start of the last occurrence of `p` in `s`.
pub fn rfind(s: &Vec<char>, p: &Vec<char>) -> (r: Option<usize>)
    ensures
        r matches Some(i) ==> last_occurrence(s@, p@) == Some(i as int),
        r is None ==> last_occurrence(s@, p@) is None,
{
    if p.len() > s.len() {
        return None;
    }
    let mut n: usize = s.len() - p.len();
    loop
        invariant
            p.len() <= s.len(),
            n <= s.len() - p.len(),
            rfind_below(s@, p@, (s.len() - p.len() + 1) as nat) == rfind_below(
                s@,
                p@,
                (n + 1) as nat,
            ),
        decreases n,
    {
        if occurs_at_exec(s, p, n) {
            return Some(n);
        }
        if n == 0 {
            assert(rfind_below(s@, p@, 0) is None);
            return None;
        }
        n = n - 1;
    }
}

/// The character of decimal digit `d`.
pub open spec fn digit_char(d: nat) -> char {
    (48 + d) as char
}

/// The decimal notation of `n`, without leading zeros.
pub open spec fn decimal(n: nat) -> Seq<char>
    decreases n,
{
    if n < 10 {
        seq![digit_char(n)]
    } else {
        decimal(n / 10).push(digit_char(n % 10))
    }
}

/// Appends the decimal notation of `n` to `out`.
pub fn push_decimal(out: &mut String, n: u64)
    ensures
        final(out)@ == old(out)@ + decimal(n as nat),
    decreases n,
{
    if n >= 10 {
        push_decimal(out, n / 10);
    }
    let d: u8 = (n % 10) as u8;
    let c: char = (48u8 + d) as char;
    out.push(c);
    proof {
        assert(c == digit_char((n % 10) as nat));
        if n >= 10 {
            assert(decimal(n as nat) == decimal((n / 10) as nat).push(digit_char((n % 10) as nat)));
        }
        assert(final(out)@ =~= old(out)@ + decimal(n as nat));
    }
}

/// Whether `a` and `b` hold the same text.
pub fn same_text(a: &str, b: &str) -> (r: bool)
    ensures
        r == (a@ == b@),
{
    let va = chars_of(a);
    let vb = chars_of(b);
    if va.len() != vb.len() {
        return false;
    }
    let mut i: usize = 0;
    while i < va.len()
        invariant
            va@ == a@,
            vb@ == b@,
            va.len() == vb.len(),
            i <= va.len(),
            forall|j: int| 0 <= j < i ==> va@[j] == vb@[j],
        decreases va.len() - i,
    {
        if va[i] != vb[i] {
            assert(va@[i as int] != vb@[i as int]);
            return false;
        }
        i = i + 1;
    }
    proof {
        assert(va@ =~= vb@);
    }
    true
}

/// `c` is an ASCII decimal digit.
pub open spec fn is_digit(c: char) -> bool {
    '0' <= c <= '9'
}

/// Every character of `s` is an ASCII decimal digit.
pub open spec fn all_digits(s: Seq<char>) -> bool {
    forall|i: int| 0 <= i < s.len() ==> #[trigger] is_digit(s[i])
}

/// The value of the decimal digits `s`.
pub open spec fn digits_value(s: Seq<char>) -> int
    decreases s.len(),
{
    if s.len() == 0 {
        0
    } else {
        digits_value(s.drop_last()) * 10 + (s.last() as int - 48)
    }
}

/// The digits of an unsigned number: `s` without one leading `+`.
pub open spec fn unsigned_digits(s: Seq<char>) -> Seq<char> {
    if s.len() > 0 && s[0] == '+' {
        s.skip(1)
    } else {
        s
    }
}

/// The value of `s` read as an unsigned decimal number the way Rust's
/// `FromStr` for unsigned integers reads it (an optional `+`, then one or
/// more ASCII digits), before any range check.
pub open spec fn parse_unsigned(s: Seq<char>) -> Option<int> {
    let d = unsigned_digits(s);
    if d.len() > 0 && all_digits(d) {
        Some(digits_value(d))
    } else {
        None
    }
}

/// The value of `s` read as a signed decimal number the way Rust's `FromStr`
/// for signed integers reads it (an optional `+` or `-`, then one or more
/// ASCII digits), before any range check.
pub open spec fn parse_signed(s: Seq<char>) -> Option<int> {
    if s.len() > 0 && s[0] == '-' {
        let d = s.skip(1);
        if d.len() > 0 && all_digits(d) {
            Some(-digits_value(d))
        } else {
            None
        }
    } else {
        parse_unsigned(s)
    }
}

/// `v` when it lies in `lo..=hi`.
pub open spec fn within(v: Option<int>, lo: int, hi: int) -> Option<int> {
    match v {
        Some(x) => if lo <= x <= hi {
            Some(x)
        } else {
            None
        },
        None => None,
    }
}

proof fn lemma_digits_value_nonneg(s: Seq<char>)
    requires
        all_digits(s),
    ensures
        digits_value(s) >= 0,
    decreases s.len(),
{
    if s.len() > 0 {
        assert(all_digits(s.drop_last())) by {
            assert forall|i: int| 0 <= i < s.drop_last().len() implies #[trigger] is_digit(
                s.drop_last()[i],
            ) by {
                assert(is_digit(s[i]));
            }
        }
        lemma_digits_value_nonneg(s.drop_last());
        assert(is_digit(s[s.len() - 1]));
    }
}

proof fn lemma_digits_prefix(s: Seq<char>, k: int)
    requires
        all_digits(s),
        0 <= k <= s.len(),
    ensures
        digits_value(s.take(k)) <= digits_value(s),
    decreases s.len() - k,
{
    if k < s.len() {
        let t = s.take(k + 1);
        assert(all_digits(t)) by {
            assert forall|i: int| 0 <= i < t.len() implies #[trigger] is_digit(t[i]) by {
                assert(is_digit(s[i]));
            }
        }
        lemma_digits_prefix(s, k + 1);
        assert(t.drop_last() =~= s.take(k));
        lemma_digits_value_nonneg(t.drop_last());
        assert(is_digit(t[k]));
        assert(digits_value(t) == digits_value(s.take(k)) * 10 + (t[k] as int - 48));
    } else {
        assert(s.take(k) =~= s);
    }
}

/// The value of the digits `v[from..]` when they are one or more ASCII
/// digits whose value is at most `bound`.
fn digits_up_to(v: &Vec<char>, from: usize, bound: u64) -> (r: Option<u64>)
    requires
        from <= v.len(),
    ensures
        r matches Some(x) ==> x as int == digits_value(v@.skip(from as int)),
        r is Some <==> {
            &&& v.len() > from
            &&& all_digits(v@.skip(from as int))
            &&& digits_value(v@.skip(from as int)) <= bound
        },
{
    if from == v.len() {
        return None;
    }
    let ghost d = v@.skip(from as int);
    let mut acc: u64 = 0;
    let mut i: usize = from;
    proof {
        assert(d.take(0) =~= Seq::<char>::empty());
    }
    while i < v.len()
        invariant
            from < v.len(),
            d == v@.skip(from as int),
            from <= i <= v.len(),
            acc <= bound,
            acc as int == digits_value(d.take(i - from)),
            all_digits(d.take(i - from)),
        decreases v.len() - i,
    {
        let c = v[i];
        if !('0' <= c && c <= '9') {
            proof {
                assert(!is_digit(d[i - from]));
            }
            return None;
        }
        let digit: u64 = ((c as u32) - 48) as u64;
        let ghost k = i - from;
        proof {
            assert(d.take(k + 1).drop_last() =~= d.take(k));
            assert(d.take(k + 1).last() == c);
            assert(all_digits(d.take(k + 1))) by {
                assert forall|j: int| 0 <= j < k + 1 implies #[trigger] is_digit(d.take(k + 1)[j]) by {
                    if j < k {
                        assert(is_digit(d.take(k)[j]));
                    }
                }
            }
        }
        if digit > bound || acc > (bound - digit) / 10 {
            proof {
                assert(acc * 10 + digit > bound) by (nonlinear_arith)
                    requires
                        digit > bound || acc > (bound - digit) / 10,
                        digit <= 9,
                ;
                if all_digits(d) {
                    lemma_digits_prefix(d, k + 1);
                }
            }
            return None;
        }
        proof {
            assert(acc * 10 + digit <= bound) by (nonlinear_arith)
                requires
                    digit <= bound,
                    acc <= (bound - digit) / 10,
            ;
        }
        acc = acc * 10 + digit;
        i = i + 1;
    }
    proof {
        assert(d.take(i - from) =~= d);
    }
    Some(acc)
}

/// `s` read as a `u16`, as `s.parse::<u16>().ok()` reads it.
pub fn parse_u16(s: &str) -> (r: Option<u16>)
    ensures
        r matches Some(x) ==> within(parse_unsigned(s@), 0, 65535) == Some(x as int),
        r is None ==> within(parse_unsigned(s@), 0, 65535) is None,
{
    let v = chars_of(s);
    let from: usize = if v.len() > 0 && v[0] == '+' { 1 } else { 0 };
    proof {
        assert(unsigned_digits(s@) == v@.skip(from as int));
    }
    match digits_up_to(&v, from, 65535) {
        Some(x) => Some(x as u16),
        None => None,
    }
}

/// `s` read as a `usize`, as `s.parse::<usize>().ok()` reads it.
pub fn parse_usize(s: &str) -> (r: Option<usize>)
    ensures
        r matches Some(x) ==> within(parse_unsigned(s@), 0, usize::MAX as int) == Some(x as int),
        r is None ==> within(parse_unsigned(s@), 0, usize::MAX as int) is None,
{
    let v = chars_of(s);
    let from: usize = if v.len() > 0 && v[0] == '+' { 1 } else { 0 };
    proof {
        assert(unsigned_digits(s@) == v@.skip(from as int));
    }
    match digits_up_to(&v, from, usize::MAX as u64) {
        Some(x) => Some(x as usize),
        None => None,
    }
}

/// `s` read as an `i32`, as `s.parse::<i32>().ok()` reads it.
pub fn parse_i32(s: &str) -> (r: Option<i32>)
    ensures
        r matches Some(x) ==> within(parse_signed(s@), i32::MIN as int, i32::MAX as int) == Some(
            x as int,
        ),
        r is None ==> within(parse_signed(s@), i32::MIN as int, i32::MAX as int) is None,
{
    let v = chars_of(s);
    if v.len() > 0 && v[0] == '-' {
        match digits_up_to(&v, 1, 2147483648) {
            Some(x) => {
                let neg: i64 = -(x as i64);
                Some(neg as i32)
            },
            None => {
                proof {
                    if v@.skip(1).len() > 0 && all_digits(v@.skip(1)) {
                        lemma_digits_value_nonneg(v@.skip(1));
                    }
                }
                None
            },
        }
    } else {
        let from: usize = if v.len() > 0 && v[0] == '+' { 1 } else { 0 };
        proof {
            assert(unsigned_digits(s@) == v@.skip(from as int));
            if v@.skip(from as int).len() > 0 && all_digits(v@.skip(from as int)) {
                lemma_digits_value_nonneg(v@.skip(from as int));
            }
        }
        match digits_up_to(&v, from, 2147483647) {
            Some(x) => Some(x as i32),
            None => None,
        }
    }
}

/// `c` has the Unicode `White_Space` property, which is what
/// `char::is_whitespace` and `str::trim` test.
pub open spec fn is_whitespace(c: char) -> bool {
    ||| '\u{9}' <= c <= '\u{d}'
    ||| c == ' '
    ||| c == '\u{85}'
    ||| c == '\u{a0}'
    ||| c == '\u{1680}'
    ||| '\u{2000}' <= c <= '\u{200a}'
    ||| c == '\u{2028}'
    ||| c == '\u{2029}'
    ||| c == '\u{202f}'
    ||| c == '\u{205f}'
    ||| c == '\u{3000}'
}

/// `s` without its leading whitespace.
pub open spec fn trim_start(s: Seq<char>) -> Seq<char>
    decreases s.len(),
{
    if s.len() > 0 && is_whitespace(s[0]) {
        trim_start(s.skip(1))
    } else {
        s
    }
}

/// `s` without its trailing whitespace.
pub open spec fn trim_end(s: Seq<char>) -> Seq<char>
    decreases s.len(),
{
    if s.len() > 0 && is_whitespace(s.last()) {
        trim_end(s.drop_last())
    } else {
        s
    }
}

/// `s` without leading and trailing whitespace, as `str::trim` gives it.
pub open spec fn trim(s: Seq<char>) -> Seq<char> {
    trim_end(trim_start(s))
}

/// Whether `c` is whitespace.
pub fn is_whitespace_char(c: char) -> (r: bool)
    ensures
        r == is_whitespace(c),
{
    ('\u{9}' <= c && c <= '\u{d}') || c == ' ' || c == '\u{85}' || c == '\u{a0}' || c
        == '\u{1680}' || ('\u{2000}' <= c && c <= '\u{200a}') || c == '\u{2028}' || c
        == '\u{2029}' || c == '\u{202f}' || c == '\u{205f}' || c == '\u{3000}'
}

/// `s` with leading and trailing whitespace removed.
pub fn trimmed(s: &str) -> (r: String)
    ensures
        r@ == trim(s@),
{
    let v = chars_of(s);
    let mut i: usize = 0;
    proof {
        assert(v@.skip(0) =~= v@);
    }
    while i < v.len() && is_whitespace_char(v[i])
        invariant
            i <= v.len(),
            trim_start(v@) == trim_start(v@.skip(i as int)),
        decreases v.len() - i,
    {
        proof {
            assert(v@.skip(i as int).skip(1) =~= v@.skip(i + 1));
        }
        i = i + 1;
    }
    let mut j: usize = v.len();
    proof {
        assert(trim_start(v@) == v@.subrange(i as int, j as int));
    }
    while j > i && is_whitespace_char(v[j - 1])
        invariant
            i <= j <= v.len(),
            trim(v@) == trim_end(v@.subrange(i as int, j as int)),
        decreases j,
    {
        proof {
            assert(v@.subrange(i as int, j as int).drop_last() =~= v@.subrange(i as int, j - 1));
        }
        j = j - 1;
    }
    let mut out = String::new();
    push_range(&mut out, &v, i, j);
    proof {
        assert(out@ =~= v@.subrange(i as int, j as int));
    }
    out
}

proof fn lemma_trim_start(s: Seq<char>)
    ensures
        trim_start(s).len() > 0 ==> !is_whitespace(trim_start(s)[0]),
    decreases s.len(),
{
    if s.len() > 0 && is_whitespace(s[0]) {
        lemma_trim_start(s.skip(1));
    }
}

proof fn lemma_trim_end(s: Seq<char>)
    ensures
        trim_end(s).len() <= s.len(),
        trim_end(s) == s.take(trim_end(s).len() as int),
        trim_end(s).len() > 0 ==> !is_whitespace(trim_end(s).last()),
    decreases s.len(),
{
    if s.len() > 0 && is_whitespace(s.last()) {
        lemma_trim_end(s.drop_last());
        assert(s.drop_last().take(trim_end(s).len() as int) =~= s.take(trim_end(s).len() as int));
    } else {
        assert(s.take(s.len() as int) =~= s);
    }
}

/// A trimmed string starts and ends with a character that is not
/// whitespace.
pub proof fn law_trimmed_has_no_outer_whitespace(s: Seq<char>)
    ensures
        trim(s).len() > 0 ==> !is_whitespace(trim(s)[0]) && !is_whitespace(trim(s).last()),
{
    lemma_trim_start(s);
    lemma_trim_end(trim_start(s));
    if trim(s).len() > 0 {
        assert(trim(s)[0] == trim_start(s)[0]);
    }
}

/// Trimming a trimmed string changes nothing.
pub proof fn law_trim_is_idempotent(s: Seq<char>)
    ensures
        trim(trim(s)) == trim(s),
{
    let t = trim(s);
    law_trimmed_has_no_outer_whitespace(s);
    assert(trim_start(t) == t);
    assert(trim_end(t) == t);
}

/// The value of decimal digits grows digit by digit: no digits are worth 0,
/// and appending digit `c` to `s` gives ten times the value of `s` plus the
/// digit's value.
pub proof fn law_digits_value_by_digit(s: Seq<char>, c: char)
    ensures
        digits_value(Seq::<char>::empty()) == 0,
        digits_value(s.push(c)) == digits_value(s) * 10 + (c as int - 48),
        digits_value(seq![c]) == c as int - 48,
{
    assert(s.push(c).drop_last() =~= s);
    assert(seq![c].drop_last() =~= Seq::<char>::empty());
}

/// `decimal(n)` is the base-10 notation of `n`: one or more ASCII digits
/// that read back as `n`, with no leading zero unless `n` is 0.
pub proof fn law_decimal_is_base_ten(n: nat)
    ensures
        decimal(n).len() > 0,
        all_digits(decimal(n)),
        digits_value(decimal(n)) == n,
        decimal(n)[0] == '0' ==> n == 0,
        n < 10 ==> decimal(n).len() == 1,
        n >= 10 ==> decimal(n) == decimal(n / 10).push(decimal(n % 10)[0]),
    decreases n,
{
    let d = digit_char(n % 10);
    assert((d as int) == 48 + n % 10);
    if n < 10 {
        assert(decimal(n) == seq![d]);
        assert(seq![d].drop_last() =~= Seq::<char>::empty());
        assert(digits_value(Seq::<char>::empty()) == 0);
        assert(digits_value(seq![d]) == digits_value(seq![d].drop_last()) * 10 + (d as int - 48));
        assert(is_digit(decimal(n)[0]));
        if decimal(n)[0] == '0' {
            assert(d as int == '0' as int);
            assert(n == 0);
        }
    } else {
        law_decimal_is_base_ten(n / 10);
        let p = decimal(n / 10);
        assert(decimal(n) == p.push(d));
        assert(p.push(d).drop_last() =~= p);
        assert(all_digits(p.push(d))) by {
            assert forall|i: int| 0 <= i < p.push(d).len() implies #[trigger] is_digit(
                p.push(d)[i],
            ) by {
                if i < p.len() {
                    assert(is_digit(p[i]));
                }
            }
        }
        assert(digits_value(p.push(d)) == digits_value(p) * 10 + (d as int - 48));
        assert((n / 10) * 10 + n % 10 == n);
        assert(n / 10 > 0);
        assert(decimal(n)[0] == p[0]);
        assert(decimal(n)[0] != '0');
        assert(decimal((n % 10) as nat) == seq![d]);
    }
}

/// Reading the decimal notation of `n` gives `n` back, with or without a
/// leading `+`, and with a leading `-` gives `-n`.
pub proof fn law_parse_reads_decimal(n: nat)
    ensures
        parse_unsigned(decimal(n)) == Some(n as int),
        parse_unsigned(seq!['+'] + decimal(n)) == Some(n as int),
        parse_signed(decimal(n)) == Some(n as int),
        parse_signed(seq!['+'] + decimal(n)) == Some(n as int),
        parse_signed(seq!['-'] + decimal(n)) == Some(-n),
        parse_unsigned(seq!['-'] + decimal(n)) is None,
{
    law_decimal_is_base_ten(n);
    let d = decimal(n);
    assert(is_digit(d[0]));
    assert((seq!['+'] + d).skip(1) =~= d);
    assert((seq!['-'] + d).skip(1) =~= d);
    assert(!is_digit((seq!['-'] + d)[0]));
}

/// A number is read only from digits: whatever `parse_unsigned` accepts is,
/// after at most one leading `+`, a non-empty run of ASCII digits with that
/// value, and its value is never negative.
pub proof fn law_parse_unsigned_reads_digits(s: Seq<char>)
    ensures
        parse_unsigned(s) is Some <==> unsigned_digits(s).len() > 0 && all_digits(unsigned_digits(s)),
        parse_unsigned(s) matches Some(v) ==> v == digits_value(unsigned_digits(s)) && v >= 0,
        unsigned_digits(s) == if s.len() > 0 && s[0] == '+' {
            s.skip(1)
        } else {
            s
        },
{
    if parse_unsigned(s) is Some {
        lemma_digits_value_nonneg(unsigned_digits(s));
    }
}

/// Trimming removes only surrounding whitespace: the result is a stretch of
/// `s` with nothing but whitespace before and after it.
pub proof fn law_trim_removes_only_outer_whitespace(s: Seq<char>)
    ensures
        exists|i: int, j: int|
            0 <= i <= j <= s.len() && trim(s) == s.subrange(i, j) && (forall|k: int|
                0 <= k < i ==> is_whitespace(#[trigger] s[k])) && (forall|k: int|
                j <= k < s.len() ==> is_whitespace(#[trigger] s[k])),
{
    let (i, t) = lemma_trim_start_range(s);
    let j = lemma_trim_end_range(t);
    assert(trim(s) == s.subrange(i, i + j)) by {
        assert(t.subrange(0, j) =~= s.subrange(i, i + j));
    }
    assert forall|k: int| i + j <= k < s.len() implies is_whitespace(#[trigger] s[k]) by {
        assert(s[k] == t[k - i]);
    }
}

proof fn lemma_trim_start_range(s: Seq<char>) -> (r: (int, Seq<char>))
    ensures
        0 <= r.0 <= s.len(),
        r.1 == s.skip(r.0),
        trim_start(s) == r.1,
        forall|k: int| 0 <= k < r.0 ==> is_whitespace(#[trigger] s[k]),
    decreases s.len(),
{
    if s.len() > 0 && is_whitespace(s[0]) {
        let (i, t) = lemma_trim_start_range(s.skip(1));
        assert(s.skip(1).skip(i) =~= s.skip(i + 1));
        assert forall|k: int| 0 <= k < i + 1 implies is_whitespace(#[trigger] s[k]) by {
            if k > 0 {
                assert(s[k] == s.skip(1)[k - 1]);
            }
        }
        (i + 1, t)
    } else {
        assert(s.skip(0) =~= s);
        (0, s)
    }
}

proof fn lemma_trim_end_range(s: Seq<char>) -> (j: int)
    ensures
        0 <= j <= s.len(),
        trim_end(s) == s.subrange(0, j),
        forall|k: int| j <= k < s.len() ==> is_whitespace(#[trigger] s[k]),
    decreases s.len(),
{
    if s.len() > 0 && is_whitespace(s.last()) {
        let j = lemma_trim_end_range(s.drop_last());
        assert(s.drop_last().subrange(0, j) =~= s.subrange(0, j));
        assert forall|k: int| j <= k < s.len() implies is_whitespace(#[trigger] s[k]) by {
            if k < s.len() - 1 {
                assert(s[k] == s.drop_last()[k]);
            }
        }
        j
    } else {
        assert(s.subrange(0, s.len() as int) =~= s);
        s.len() as int
    }
}

} // verus!
