//! Character-level text handling: splitting, trimming, decimal numbers.

use vstd::prelude::*;
use vstd::utf8::is_ascii_chars;

verus! {

/// Appends one character to a string (`String::push`).
#[verifier::external_body]
pub(crate) fn push_char(s: &mut String, c: char)
    ensures
        final(s)@ == old(s)@.push(c),
{
    s.push(c);
}

/// The texts of a list of strings.
pub open spec fn spec_strs(v: Seq<String>) -> Seq<Seq<char>> {
    Seq::new(v.len(), |i: int| v[i]@)
}

/// Appends a string to a list of strings.
pub fn push_str_item(v: &mut Vec<String>, s: String)
    ensures
        spec_strs(final(v)@) == spec_strs(old(v)@).push(s@),
{
    v.push(s);
    assert(spec_strs(v@) =~= spec_strs(old(v)@).push(s@));
}

/// The pieces of a list joined with a separator between them.
pub open spec fn spec_join(parts: Seq<Seq<char>>, sep: Seq<char>) -> Seq<char>
    decreases parts.len(),
{
    if parts.len() == 0 {
        Seq::empty()
    } else if parts.len() == 1 {
        parts[0]
    } else {
        spec_join(parts.drop_last(), sep) + sep + parts.last()
    }
}

/// Joins a list of strings with a separator between them (`join`).
pub fn join_strs(parts: &Vec<String>, sep: &str) -> (r: String)
    ensures
        r@ == spec_join(spec_strs(parts@), sep@),
{
    let mut r = String::new();
    let mut i: usize = 0;
    assert(spec_strs(parts@).take(0) =~= Seq::<Seq<char>>::empty());
    while i < parts.len()
        invariant
            i <= parts@.len(),
            r@ == spec_join(spec_strs(parts@).take(i as int), sep@),
        decreases parts.len() - i,
    {
        let ghost before = spec_strs(parts@).take(i as int);
        let ghost after = spec_strs(parts@).take(i + 1);
        assert(after.drop_last() =~= before);
        assert(after.last() == parts@[i as int]@);
        if i > 0 {
            r.append(sep);
        } else {
            assert(r@ =~= Seq::<char>::empty());
        }
        r.append(parts[i].as_str());
        proof {
            if i == 0 {
                assert(r@ =~= after[0]);
            }
        }
        i = i + 1;
    }
    assert(spec_strs(parts@).take(parts@.len() as int) =~= spec_strs(parts@));
    r
}

/// The characters of a string slice, in order.
pub fn chars_of(s: &str) -> (cs: Vec<char>)
    ensures
        cs@ == s@,
{
    let n = s.unicode_len();
    let mut cs: Vec<char> = Vec::new();
    let mut i: usize = 0;
    while i < n
        invariant
            n == s@.len(),
            i <= n,
            cs@ == s@.take(i as int),
        decreases n - i,
    {
        let c = s.get_char(i);
        cs.push(c);
        i = i + 1;
        assert(cs@ =~= s@.take(i as int));
    }
    assert(cs@ =~= s@);
    cs
}

/// A string holding exactly the given characters.
pub fn string_of(cs: &Vec<char>) -> (s: String)
    ensures
        s@ == cs@,
{
    let mut s = String::new();
    let mut i: usize = 0;
    while i < cs.len()
        invariant
            i <= cs.len(),
            s@ == cs@.take(i as int),
        decreases cs.len() - i,
    {
        push_char(&mut s, cs[i]);
        i = i + 1;
        assert(s@ =~= cs@.take(i as int));
    }
    assert(s@ =~= cs@);
    s
}

/// Whether two character sequences are equal.
pub fn chars_equal(a: &Vec<char>, b: &Vec<char>) -> (r: bool)
    ensures
        r == (a@ == b@),
{
    if a.len() != b.len() {
        return false;
    }
    let mut i: usize = 0;
    while i < a.len()
        invariant
            a.len() == b.len(),
            i <= a.len(),
            a@.take(i as int) == b@.take(i as int),
        decreases a.len() - i,
    {
        if a[i] != b[i] {
            assert(a@[i as int] != b@[i as int]);
            return false;
        }
        i = i + 1;
        assert(a@.take(i as int) =~= b@.take(i as int));
    }
    assert(a@ =~= a@.take(a.len() as int));
    assert(b@ =~= b@.take(b.len() as int));
    true
}

/// Unicode `White_Space`, the set that `char::is_whitespace` tests.
pub open spec fn spec_is_whitespace(c: char) -> bool {
    let u = c as u32;
    ||| 0x09 <= u <= 0x0D
    ||| u == 0x20
    ||| u == 0x85
    ||| u == 0xA0
    ||| u == 0x1680
    ||| 0x2000 <= u <= 0x200A
    ||| u == 0x2028
    ||| u == 0x2029
    ||| u == 0x202F
    ||| u == 0x205F
    ||| u == 0x3000
}

/// Whether `c` is Unicode white space.
pub fn is_whitespace(c: char) -> (r: bool)
    ensures
        r == spec_is_whitespace(c),
{
    let u = c as u32;
    (0x09 <= u && u <= 0x0D) || u == 0x20 || u == 0x85 || u == 0xA0 || u == 0x1680 || (0x2000 <= u
        && u <= 0x200A) || u == 0x2028 || u == 0x2029 || u == 0x202F || u == 0x205F || u == 0x3000
}

/// `s` without its leading white space.
pub open spec fn spec_trim_start(s: Seq<char>) -> Seq<char>
    decreases s.len(),
{
    if s.len() > 0 && spec_is_whitespace(s[0]) {
        spec_trim_start(s.drop_first())
    } else {
        s
    }
}

/// `s` without its trailing white space.
pub open spec fn spec_trim_end(s: Seq<char>) -> Seq<char>
    decreases s.len(),
{
    if s.len() > 0 && spec_is_whitespace(s.last()) {
        spec_trim_end(s.drop_last())
    } else {
        s
    }
}

/// `s` without leading and trailing white space (`str::trim`).
pub open spec fn spec_trim(s: Seq<char>) -> Seq<char> {
    spec_trim_end(spec_trim_start(s))
}

/// The character range `[start, end)` of `s` that is left after trimming white space.
pub fn trim_bounds(s: &Vec<char>) -> (r: (usize, usize))
    ensures
        r.0 <= r.1 <= s.len(),
        s@.subrange(r.0 as int, r.1 as int) == spec_trim(s@),
{
    let n = s.len();
    let mut i: usize = 0;
    assert(s@.skip(0) =~= s@);
    while i < n && is_whitespace(s[i])
        invariant
            n == s.len(),
            i <= n,
            spec_trim_start(s@) == spec_trim_start(s@.skip(i as int)),
        decreases n - i,
    {
        assert(s@.skip(i as int).drop_first() =~= s@.skip(i + 1));
        i = i + 1;
    }
    assert(spec_trim_start(s@.skip(i as int)) == s@.skip(i as int));
    assert(s@.skip(i as int) =~= s@.subrange(i as int, n as int));
    let mut j: usize = n;
    while j > i && is_whitespace(s[j - 1])
        invariant
            n == s.len(),
            i <= j <= n,
            spec_trim(s@) == spec_trim_end(s@.subrange(i as int, j as int)),
        decreases j - i,
    {
        assert(s@.subrange(i as int, j as int).drop_last() =~= s@.subrange(i as int, j - 1));
        j = j - 1;
    }
    (i, j)
}

/// Splits `s` at every `sep` (`str::split` with a character), reading left to right:
/// a separator closes the current piece and opens an empty one.
pub open spec fn spec_split(s: Seq<char>, sep: char) -> Seq<Seq<char>>
    decreases s.len(),
{
    if s.len() == 0 {
        seq![Seq::<char>::empty()]
    } else {
        let parts = spec_split(s.drop_last(), sep);
        if s.last() == sep {
            parts.push(Seq::<char>::empty())
        } else {
            parts.update(parts.len() - 1, parts.last().push(s.last()))
        }
    }
}

/// A split always yields at least one piece.
pub proof fn lemma_split_nonempty(s: Seq<char>, sep: char)
    ensures
        spec_split(s, sep).len() >= 1,
    decreases s.len(),
{
    if s.len() > 0 {
        lemma_split_nonempty(s.drop_last(), sep);
    }
}

/// The character sequences held by a list of character vectors.
pub open spec fn spec_views(v: Seq<Vec<char>>) -> Seq<Seq<char>> {
    Seq::new(v.len(), |i: int| v[i]@)
}

/// The pieces of `s` between the separators `sep`, in order.
pub fn split_on(s: &Vec<char>, sep: char) -> (parts: Vec<Vec<char>>)
    ensures
        spec_views(parts@) == spec_split(s@, sep),
{
    let mut done: Vec<Vec<char>> = Vec::new();
    let mut cur: Vec<char> = Vec::new();
    let mut i: usize = 0;
    assert(s@.take(0) =~= Seq::<char>::empty());
    assert(spec_views(done@).push(cur@) =~= spec_split(s@.take(0), sep));
    while i < s.len()
        invariant
            i <= s.len(),
            spec_views(done@).push(cur@) == spec_split(s@.take(i as int), sep),
        decreases s.len() - i,
    {
        let c = s[i];
        let ghost prev = s@.take(i as int);
        assert(s@.take(i + 1).drop_last() =~= prev);
        assert(s@.take(i + 1).last() == c);
        if c == sep {
            let ghost old_dv = spec_views(done@);
            let ghost old_cur = cur@;
            let finished = cur;
            done.push(finished);
            cur = Vec::new();
            assert(spec_views(done@) =~= old_dv.push(old_cur));
            assert(spec_views(done@).push(cur@) =~= spec_split(prev, sep).push(Seq::<char>::empty()));
        } else {
            let ghost before = spec_views(done@);
            cur.push(c);
            assert(spec_views(done@).push(cur@) =~= spec_split(prev, sep).update(
                spec_split(prev, sep).len() - 1,
                spec_split(prev, sep).last().push(c),
            ));
        }
        i = i + 1;
    }
    assert(s@.take(s.len() as int) =~= s@);
    let ghost old_dv = spec_views(done@);
    let ghost old_cur = cur@;
    done.push(cur);
    assert(spec_views(done@) =~= old_dv.push(old_cur));
    done
}

/// The index of the first `c` in `s`, if any.
pub open spec fn spec_find(s: Seq<char>, c: char) -> Option<int>
    decreases s.len(),
{
    if s.len() == 0 {
        None
    } else if s[0] == c {
        Some(0)
    } else {
        match spec_find(s.drop_first(), c) {
            Some(i) => Some(i + 1),
            None => None,
        }
    }
}

/// `spec_find` gives the first occurrence.
pub proof fn lemma_find(s: Seq<char>, c: char)
    ensures
        match spec_find(s, c) {
            Some(i) => 0 <= i < s.len() && s[i] == c && forall|j: int| 0 <= j < i ==> s[j] != c,
            None => forall|j: int| 0 <= j < s.len() ==> s[j] != c,
        },
    decreases s.len(),
{
    if s.len() > 0 {
        lemma_find(s.drop_first(), c);
        if s[0] != c {
            match spec_find(s.drop_first(), c) {
                Some(i) => {
                    assert forall|j: int| 0 <= j < i + 1 implies s[j] != c by {
                        if j > 0 {
                            assert(s[j] == s.drop_first()[j - 1]);
                        }
                    }
                },
                None => {
                    assert forall|j: int| 0 <= j < s.len() implies s[j] != c by {
                        if j > 0 {
                            assert(s[j] == s.drop_first()[j - 1]);
                        }
                    }
                },
            }
        }
    }
}

/// The index of the first `c` in `s`, if any.
pub fn find_char(s: &Vec<char>, c: char) -> (r: Option<usize>)
    ensures
        match r {
            Some(i) => spec_find(s@, c) == Some(i as int),
            None => spec_find(s@, c) is None,
        },
{
    let mut i: usize = 0;
    while i < s.len()
        invariant
            i <= s.len(),
            forall|j: int| 0 <= j < i ==> s@[j] != c,
        decreases s.len() - i,
    {
        if s[i] == c {
            proof {
                lemma_find(s@, c);
            }
            return Some(i);
        }
        i = i + 1;
    }
    proof {
        lemma_find(s@, c);
    }
    None
}

/// Whether `c` is an ASCII decimal digit.
pub open spec fn spec_is_digit(c: char) -> bool {
    '0' <= c <= '9'
}

/// The value of a decimal digit.
pub open spec fn spec_digit_value(c: char) -> int {
    c as int - '0' as int
}

/// The number that a run of decimal digits denotes (read left to right).
pub open spec fn spec_digits_value(s: Seq<char>) -> int
    decreases s.len(),
{
    if s.len() == 0 {
        0
    } else {
        spec_digits_value(s.drop_last()) * 10 + spec_digit_value(s.last())
    }
}

/// Whether every character of `s` is a decimal digit.
pub open spec fn spec_all_digits(s: Seq<char>) -> bool {
    forall|i: int| 0 <= i < s.len() ==> spec_is_digit(#[trigger] s[i])
}

/// What `str::parse::<i64>` gives: an optional `+` or `-`, then at least one decimal digit
/// and nothing else, denoting a number in the range of `i64`.
pub open spec fn spec_parse_i64(s: Seq<char>) -> Option<int> {
    if s.len() == 0 {
        None
    } else {
        let negative = s[0] == '-';
        let digits = if s[0] == '-' || s[0] == '+' { s.drop_first() } else { s };
        if digits.len() == 0 || !spec_all_digits(digits) {
            None
        } else {
            let v = if negative { -spec_digits_value(digits) } else { spec_digits_value(digits) };
            if i64::MIN <= v <= i64::MAX { Some(v) } else { None }
        }
    }
}

/// A run of digits denotes a number no smaller than any of its prefixes does.
pub proof fn lemma_digits_prefix(s: Seq<char>, k: int)
    requires
        spec_all_digits(s),
        0 <= k <= s.len(),
    ensures
        0 <= spec_digits_value(s.take(k)) <= spec_digits_value(s),
    decreases s.len(),
{
    if s.len() > 0 {
        assert(spec_all_digits(s.drop_last()));
        assert(spec_is_digit(s[s.len() - 1]));
        if k == s.len() {
            assert(s.take(k) =~= s);
            lemma_digits_prefix(s.drop_last(), k - 1);
        } else {
            assert(s.take(k) =~= s.drop_last().take(k));
            lemma_digits_prefix(s.drop_last(), k);
        }
    } else {
        assert(s.take(k) =~= s);
    }
}

/// The number denoted by the digits `s[start..]`, when it is at most 2^63.
fn digits_up_to_bound(s: &Vec<char>, start: usize) -> (r: Option<u64>)
    requires
        start <= s.len(),
        spec_all_digits(s@.skip(start as int)),
    ensures
        match r {
            Some(v) => v == spec_digits_value(s@.skip(start as int)) && v <= 9223372036854775808u64,
            None => spec_digits_value(s@.skip(start as int)) > 9223372036854775808u64,
        },
{
    let ghost digits = s@.skip(start as int);
    let limit: u128 = 9223372036854775808;
    let mut acc: u128 = 0;
    let mut k: usize = start;
    assert(digits.take(0) =~= Seq::<char>::empty());
    while k < s.len()
        invariant
            start <= k <= s.len(),
            digits == s@.skip(start as int),
            spec_all_digits(digits),
            acc == spec_digits_value(digits.take(k - start)),
            acc <= limit,
            limit == 9223372036854775808u128,
        decreases s.len() - k,
    {
        let d = s[k];
        assert(digits[k - start] == d);
        assert(spec_is_digit(digits[k - start]));
        let dv = (d as u32 - '0' as u32) as u128;
        assert(dv <= 9);
        assert(acc * 10 + dv <= limit * 10 + 9) by (nonlinear_arith)
            requires
                acc <= limit,
                dv <= 9,
        ;
        assert(digits.take(k + 1 - start).drop_last() =~= digits.take(k - start));
        assert(digits.take(k + 1 - start).last() == d);
        acc = acc * 10 + dv;
        if acc > limit {
            proof {
                lemma_digits_prefix(digits, k + 1 - start);
            }
            return None;
        }
        k = k + 1;
    }
    assert(digits.take(s.len() - start) =~= digits);
    Some(acc as u64)
}

/// Parses a decimal `i64` as `str::parse::<i64>` does.
pub fn parse_i64(s: &Vec<char>) -> (r: Option<i64>)
    ensures
        match r {
            Some(v) => spec_parse_i64(s@) == Some(v as int),
            None => spec_parse_i64(s@) is None,
        },
{
    if s.len() == 0 {
        return None;
    }
    let negative = s[0] == '-';
    let start: usize = if s[0] == '-' || s[0] == '+' { 1 } else { 0 };
    let ghost digits = if s@[0] == '-' || s@[0] == '+' { s@.drop_first() } else { s@ };
    assert(digits =~= s@.skip(start as int));
    if start == s.len() {
        assert(digits.len() == 0);
        return None;
    }
    let mut k: usize = start;
    while k < s.len()
        invariant
            start <= k <= s.len(),
            forall|j: int| start <= j < k ==> spec_is_digit(#[trigger] s@[j]),
        ensures
            start <= k <= s.len(),
            forall|j: int| start <= j < k ==> spec_is_digit(#[trigger] s@[j]),
            k < s.len() ==> !spec_is_digit(s@[k as int]),
        decreases s.len() - k,
    {
        if !('0' <= s[k] && s[k] <= '9') {
            break;
        }
        k = k + 1;
    }
    if k < s.len() {
        assert(s@[k as int] == digits[k - start]);
        assert(!spec_all_digits(digits));
        return None;
    }
    assert(spec_all_digits(digits)) by {
        assert forall|i: int| 0 <= i < digits.len() implies spec_is_digit(#[trigger] digits[i]) by {
            assert(digits[i] == s@[i + start]);
        }
    }
    match digits_up_to_bound(s, start) {
        None => None,
        Some(m) => {
            if negative {
                if m == 9223372036854775808u64 {
                    Some(i64::MIN)
                } else {
                    Some(-(m as i64))
                }
            } else {
                if m == 9223372036854775808u64 {
                    None
                } else {
                    Some(m as i64)
                }
            }
        },
    }
}

/// The decimal character of a digit value.
pub open spec fn spec_digit_char(d: int) -> char {
    (d + '0' as int) as char
}

/// The decimal notation of a natural number, without leading zeros.
pub open spec fn spec_decimal_nat(n: nat) -> Seq<char>
    decreases n,
{
    if n < 10 {
        seq![spec_digit_char(n as int)]
    } else {
        spec_decimal_nat(n / 10).push(spec_digit_char((n % 10) as int))
    }
}

/// The decimal notation of an integer as `Display` writes it: a `-` before negative numbers.
pub open spec fn spec_decimal(n: int) -> Seq<char> {
    if n < 0 {
        seq!['-'] + spec_decimal_nat((-n) as nat)
    } else {
        spec_decimal_nat(n as nat)
    }
}

/// The decimal notation of a natural number is a non-empty run of digits denoting it.
proof fn lemma_decimal_nat_digits(n: nat)
    ensures
        spec_decimal_nat(n).len() > 0,
        spec_all_digits(spec_decimal_nat(n)),
        spec_digits_value(spec_decimal_nat(n)) == n,
    decreases n,
{
    if n < 10 {
        let d = spec_decimal_nat(n);
        assert(d =~= seq![spec_digit_char(n as int)]);
        assert(d.drop_last() =~= Seq::<char>::empty());
        assert(spec_digits_value(d.drop_last()) == 0);
        assert(spec_digit_value(spec_digit_char(n as int)) == n);
    } else {
        lemma_decimal_nat_digits(n / 10);
        let prefix = spec_decimal_nat(n / 10);
        let d = spec_decimal_nat(n);
        assert(d == prefix.push(spec_digit_char((n % 10) as int)));
        assert(d.drop_last() =~= prefix);
        assert(spec_all_digits(d)) by {
            assert forall|i: int| 0 <= i < d.len() implies spec_is_digit(#[trigger] d[i]) by {
                if i < prefix.len() {
                    assert(d[i] == prefix[i]);
                }
            }
        }
        assert((n / 10) * 10 + n % 10 == n) by (nonlinear_arith);
        assert(spec_digit_value(spec_digit_char((n % 10) as int)) == n % 10);
    }
}

/// Reading the decimal notation of a number back gives the number: the timestamp that a
/// signed payload writes in decimal is the one a signature header carrying that text
/// denotes.
pub proof fn law_decimal_parses_back(n: int)
    requires
        i64::MIN <= n <= i64::MAX,
    ensures
        spec_parse_i64(spec_decimal(n)) == Some(n),
{
    let m: nat = if n < 0 { (-n) as nat } else { n as nat };
    lemma_decimal_nat_digits(m);
    let digits = spec_decimal_nat(m);
    assert(spec_is_digit(digits[0]));
    if n < 0 {
        let s = seq!['-'] + digits;
        assert(s.drop_first() =~= digits);
        assert(s[0] == '-');
    } else {
        assert(digits[0] != '-' && digits[0] != '+');
    }
}

/// Appends the decimal notation of `n` to `out`.
pub fn push_decimal_u64(out: &mut String, n: u64)
    ensures
        final(out)@ == old(out)@ + spec_decimal_nat(n as nat),
    decreases n,
{
    if n >= 10 {
        push_decimal_u64(out, n / 10);
    }
    let d: u8 = (n % 10) as u8;
    let c: char = (d + 48u8) as char;
    assert(c == spec_digit_char((n % 10) as int));
    push_char(out, c);
    proof {
        if n >= 10 {
            assert(old(out)@ + spec_decimal_nat(n as nat) =~= old(out)@ + spec_decimal_nat((n / 10) as nat) + seq![c]);
        }
    }
}

/// The decimal notation of `n` (`n.to_string()`).
pub fn i64_to_string(n: i64) -> (s: String)
    ensures
        s@ == spec_decimal(n as int),
{
    let mut s = String::new();
    if n < 0 {
        push_char(&mut s, '-');
        let m: u64 = (-(n as i128)) as u64;
        push_decimal_u64(&mut s, m);
        assert(s@ =~= seq!['-'] + spec_decimal_nat((-n) as nat));
    } else {
        push_decimal_u64(&mut s, n as u64);
        assert(s@ =~= spec_decimal_nat(n as nat));
    }
    s
}

} // verus!

verus! {

/// Whether two string slices hold the same characters.
pub fn str_eq(a: &str, b: &str) -> (r: bool)
    ensures
        r == (a@ == b@),
{
    let ca = chars_of(a);
    let cb = chars_of(b);
    chars_equal(&ca, &cb)
}

/// ASCII upper case of one character (`char::to_ascii_uppercase`).
pub open spec fn spec_ascii_upper(c: char) -> char {
    if 'a' <= c <= 'z' {
        ((c as int) - 32) as char
    } else {
        c
    }
}

/// ASCII upper case of every character (`str::make_ascii_uppercase`).
pub open spec fn spec_ascii_uppercase(s: Seq<char>) -> Seq<char> {
    Seq::new(s.len(), |i: int| spec_ascii_upper(s[i]))
}

/// The string with its ASCII letters in upper case.
pub fn ascii_uppercase(s: &str) -> (r: String)
    ensures
        r@ == spec_ascii_uppercase(s@),
{
    let cs = chars_of(s);
    let mut out: Vec<char> = Vec::new();
    let mut i: usize = 0;
    while i < cs.len()
        invariant
            i <= cs.len(),
            out@ == spec_ascii_uppercase(cs@.take(i as int)),
        decreases cs.len() - i,
    {
        let c = cs[i];
        let u: char = if 'a' <= c && c <= 'z' {
            ((c as u32) - 32) as u8 as char
        } else {
            c
        };
        out.push(u);
        i = i + 1;
        assert(out@ =~= spec_ascii_uppercase(cs@.take(i as int)));
    }
    assert(cs@.take(cs.len() as int) =~= cs@);
    string_of(&out)
}

} // verus!

verus! {

/// The characters `v[lo..hi]`.
pub fn sub_chars(v: &Vec<char>, lo: usize, hi: usize) -> (r: Vec<char>)
    requires
        lo <= hi <= v.len(),
    ensures
        r@ == v@.subrange(lo as int, hi as int),
{
    let mut r: Vec<char> = Vec::new();
    let mut i: usize = lo;
    while i < hi
        invariant
            lo <= i <= hi,
            hi <= v.len(),
            r@ == v@.subrange(lo as int, i as int),
        decreases hi - i,
    {
        r.push(v[i]);
        i = i + 1;
        assert(r@ =~= v@.subrange(lo as int, i as int));
    }
    r
}

/// The Unicode lower case of a text (`str::to_lowercase`).
pub uninterp spec fn unicode_lowercase(s: Seq<char>) -> Seq<char>;

/// ASCII lower case of one character (`char::to_ascii_lowercase`).
pub open spec fn spec_ascii_lower(c: char) -> char {
    if 'A' <= c <= 'Z' {
        ((c as int) + 32) as char
    } else {
        c
    }
}

/// ASCII lower case of every character.
pub open spec fn spec_ascii_lowercase(s: Seq<char>) -> Seq<char> {
    Seq::new(s.len(), |i: int| spec_ascii_lower(s[i]))
}

/// `str::to_lowercase`: the Unicode lower case of a text. The claim: the result is a
/// function of the text alone, and on an ASCII text the Unicode mapping lowers the
/// letters `A` to `Z` one for one and keeps every other character.
#[verifier::external_body]
pub(crate) fn to_lowercase(s: &str) -> (r: String)
    ensures
        r@ == unicode_lowercase(s@),
        is_ascii_chars(s@) ==> r@ == spec_ascii_lowercase(s@),
{
    s.to_lowercase()
}

/// The Unicode upper case of a text (`str::to_uppercase`).
pub uninterp spec fn unicode_uppercase(s: Seq<char>) -> Seq<char>;

/// `str::to_uppercase`: the Unicode upper case of a text. The claim: the result is a
/// function of the text alone, and on an ASCII text the Unicode mapping raises the
/// letters `a` to `z` one for one and keeps every other character.
#[verifier::external_body]
pub(crate) fn to_uppercase(s: &str) -> (r: String)
    ensures
        r@ == unicode_uppercase(s@),
        is_ascii_chars(s@) ==> r@ == spec_ascii_uppercase(s@),
{
    s.to_uppercase()
}

} // verus!
