use vstd::prelude::*;

verus! {

/// The characters of `s`, in order.
pub fn chars_of(s: &str) -> (r: Vec<char>)
    ensures
        r@ == s@,
{
    broadcast use vstd::string::group_string_axioms;
    let mut out: Vec<char> = Vec::new();
    for c in it: s.chars()
        invariant
            it.seq() == s@,
            out@ == s@.take(it.index()),
    {
        out.push(c);
    }
    assert(out@ =~= s@);
    out
}

/// `needle` occurs in `hay` starting at `i`.
pub open spec fn occurs_at(hay: Seq<char>, needle: Seq<char>, i: int) -> bool {
    0 <= i && i + needle.len() <= hay.len() && hay.subrange(i, i + needle.len()) == needle
}

pub open spec fn contains(hay: Seq<char>, needle: Seq<char>) -> bool {
    exists|i: int| occurs_at(hay, needle, i)
}

pub open spec fn ends_with(s: Seq<char>, suffix: Seq<char>) -> bool {
    suffix.len() <= s.len() && s.subrange(s.len() - suffix.len(), s.len() as int) == suffix
}

pub open spec fn starts_with(s: Seq<char>, prefix: Seq<char>) -> bool {
    prefix.len() <= s.len() && s.subrange(0, prefix.len() as int) == prefix
}

/// What `str::to_lowercase` makes of a text.
pub uninterp spec fn lower_of(s: Seq<char>) -> Seq<char>;

/// Relies on str::to_lowercase: the result depends on the characters alone.
#[verifier::external_body]
pub(crate) fn lowercase(s: &str) -> (r: String)
    ensures
        r@ == lower_of(s@),
{
    s.to_lowercase()
}

fn matches_at(hay: &Vec<char>, needle: &Vec<char>, i: usize) -> (r: bool)
    requires
        i + needle@.len() <= hay@.len(),
    ensures
        r == (hay@.subrange(i as int, i + needle@.len()) == needle@),
{
    let mut q: usize = 0;
    while q < needle.len()
        invariant
            i + needle@.len() <= hay@.len(),
            q <= needle.len(),
            forall|t: int| 0 <= t < q ==> hay@[i + t] == needle@[t],
        decreases needle.len() - q,
    {
        assert(i + q < hay.len());
        if hay[i + q] != needle[q] {
            assert(hay@.subrange(i as int, i + needle@.len())[q as int] != needle@[q as int]);
            return false;
        }
        q = q + 1;
    }
    assert(hay@.subrange(i as int, i + needle@.len()) =~= needle@);
    true
}

/// Whether `needle` occurs in `hay`.
pub fn contains_text(hay: &str, needle: &str) -> (r: bool)
    ensures
        r == contains(hay@, needle@),
{
    let h = chars_of(hay);
    let n = chars_of(needle);
    if n.len() > h.len() {
        return false;
    }
    let last = h.len() - n.len();
    let mut i: usize = 0;
    loop
        invariant
            h@ == hay@,
            n@ == needle@,
            last + n@.len() == h@.len(),
            i <= last,
            forall|j: int| 0 <= j < i ==> !occurs_at(hay@, needle@, j),
        ensures
            forall|j: int| 0 <= j <= last ==> !occurs_at(hay@, needle@, j),
        decreases last - i,
    {
        if matches_at(&h, &n, i) {
            assert(occurs_at(hay@, needle@, i as int));
            return true;
        }
        if i == last {
            break;
        }
        i = i + 1;
    }
    assert forall|j: int| !occurs_at(hay@, needle@, j) by {
        if 0 <= j && j + needle@.len() <= hay@.len() {
            assert(j <= last);
        }
    }
    false
}

/// Whether `s` ends with `suffix`.
pub fn ends_with_text(s: &str, suffix: &str) -> (r: bool)
    ensures
        r == ends_with(s@, suffix@),
{
    let h = chars_of(s);
    let n = chars_of(suffix);
    if n.len() > h.len() {
        return false;
    }
    matches_at(&h, &n, h.len() - n.len())
}

/// `s` without `prefix`, if it starts with it.
pub fn strip_prefix_text(s: &str, prefix: &str) -> (r: Option<String>)
    ensures
        r matches Some(t) ==> starts_with(s@, prefix@) && t@ == s@.skip(prefix@.len() as int),
        r is None ==> !starts_with(s@, prefix@),
{
    let h = chars_of(s);
    let n = chars_of(prefix);
    if n.len() > h.len() {
        return None;
    }
    if matches_at(&h, &n, 0) {
        let rest = s.substring_char(n.len(), h.len());
        assert(rest@ =~= s@.skip(prefix@.len() as int));
        Some(rest.to_string())
    } else {
        None
    }
}

/// `a` followed by `b`.
pub fn concat2(a: &str, b: &str) -> (r: String)
    ensures
        r@ == a@ + b@,
{
    let mut s = String::from_str(a);
    s.append(b);
    s
}

/// `a`, `b` and `c` in a row.
pub fn concat3(a: &str, b: &str, c: &str) -> (r: String)
    ensures
        r@ == a@ + b@ + c@,
{
    let mut s = String::from_str(a);
    s.append(b);
    s.append(c);
    s
}

/// Unicode `White_Space`, which `char::is_whitespace` tests.
pub open spec fn is_white(c: char) -> bool {
    ||| '\u{9}' <= c <= '\u{d}'
    ||| c == ' '
    ||| c == '\u{85}'
    ||| c == '\u{a0}'
    ||| c == '\u{1680}'
    ||| '\u{2000}' <= c <= '\u{200a}'
    ||| c == '\u{2028}'
    ||| c == '\u{2029}'
    ||| c == '\u{202f}'
    ||| c == '\u{205f}'
    ||| c == '\u{3000}'
}

pub fn is_white_char(c: char) -> (r: bool)
    ensures
        r == is_white(c),
{
    ('\u{9}' <= c && c <= '\u{d}') || c == ' ' || c == '\u{85}' || c == '\u{a0}' || c == '\u{1680}'
        || ('\u{2000}' <= c && c <= '\u{200a}') || c == '\u{2028}' || c == '\u{2029}' || c
        == '\u{202f}' || c == '\u{205f}' || c == '\u{3000}'
}

/// `s` with leading and trailing white space removed: `s[a..b]` with
/// `a..b` the widest range free of white space at both ends.
pub open spec fn is_trim_range(s: Seq<char>, a: int, b: int) -> bool {
    &&& 0 <= a <= b <= s.len()
    &&& forall|i: int| 0 <= i < a ==> is_white(s[i])
    &&& forall|i: int| b <= i < s.len() ==> is_white(s[i])
    &&& a < b ==> !is_white(s[a]) && !is_white(s[b - 1])
}

pub open spec fn trimmed(s: Seq<char>) -> Seq<char> {
    let (a, b) = choose|a: int, b: int| is_trim_range(s, a, b);
    s.subrange(a, b)
}

pub open spec fn is_digit(c: char) -> bool {
    '0' <= c <= '9'
}

pub open spec fn all_digits(s: Seq<char>) -> bool {
    forall|i: int| 0 <= i < s.len() ==> is_digit(#[trigger] s[i])
}

/// The value of a string of decimal digits.
pub open spec fn digits_value(s: Seq<char>) -> nat
    decreases s.len(),
{
    if s.len() == 0 {
        0
    } else {
        10 * digits_value(s.drop_last()) + (s.last() as nat - '0' as nat) as nat
    }
}

/// What `str::parse::<usize>` accepts: an optional `+`, then one or more
/// decimal digits of a value that fits.
pub open spec fn parsed_usize(s: Seq<char>) -> Option<usize> {
    let d = if s.len() > 0 && s[0] == '+' { s.skip(1) } else { s };
    if d.len() > 0 && all_digits(d) && digits_value(d) <= usize::MAX {
        Some(digits_value(d) as usize)
    } else {
        None
    }
}

/// What `str::parse::<i32>` accepts: an optional sign, then one or more
/// decimal digits of a value that fits.
pub open spec fn parsed_i32(s: Seq<char>) -> Option<i32> {
    let neg = s.len() > 0 && s[0] == '-';
    let d = if s.len() > 0 && (s[0] == '+' || s[0] == '-') { s.skip(1) } else { s };
    let v: int = if neg { -digits_value(d) } else { digits_value(d) as int };
    if d.len() > 0 && all_digits(d) && i32::MIN <= v <= i32::MAX {
        Some(v as i32)
    } else {
        None
    }
}

/// The value of the digits `d[from..]`, or `None` once it passes `limit`.
fn digits_up_to(d: &Vec<char>, from: usize, limit: u64) -> (r: Option<u64>)
    requires
        from <= d@.len(),
        all_digits(d@.skip(from as int)),
    ensures
        r matches Some(v) ==> v == digits_value(d@.skip(from as int)) && v <= limit,
        r is None ==> digits_value(d@.skip(from as int)) > limit,
{
    let mut v: u64 = 0;
    let mut i = from;
    while i < d.len()
        invariant
            from <= i <= d@.len(),
            all_digits(d@.skip(from as int)),
            v == digits_value(d@.subrange(from as int, i as int)),
            v <= limit,
        decreases d.len() - i,
    {
        let ghost pre = d@.subrange(from as int, i as int);
        assert(d@.subrange(from as int, i + 1).drop_last() =~= pre);
        assert(d@[i as int] == d@.skip(from as int)[i - from]);
        let c = d[i];
        let digit = (c as u32 - '0' as u32) as u64;
        assert(digits_value(d@.subrange(from as int, i + 1)) == 10 * v + digit);
        if digit > limit || v > (limit - digit) / 10 {
            proof {
                if digit <= limit {
                    assert(10 * v + digit > limit) by (nonlinear_arith)
                        requires
                            v > (limit - digit) / 10,
                            digit <= limit,
                    ;
                }
                lemma_digits_monotone(d@.skip(from as int), i + 1 - from);
                assert(d@.skip(from as int).take(i + 1 - from) =~= d@.subrange(from as int, i + 1));
            }
            return None;
        }
        assert(v * 10 + digit <= limit) by (nonlinear_arith)
            requires
                v <= (limit - digit) / 10,
                digit <= limit,
        ;
        v = v * 10 + digit;
        i = i + 1;
    }
    assert(d@.subrange(from as int, i as int) =~= d@.skip(from as int));
    Some(v)
}

proof fn lemma_digits_monotone(s: Seq<char>, n: int)
    requires
        0 <= n <= s.len(),
        all_digits(s),
    ensures
        digits_value(s.take(n)) <= digits_value(s),
    decreases s.len(),
{
    if n < s.len() {
        assert(s.drop_last().take(n) =~= s.take(n));
        lemma_digits_monotone(s.drop_last(), n);
        assert(all_digits(s.drop_last()));
    } else {
        assert(s.take(n) =~= s);
    }
}

/// Parses an unsigned decimal number as `str::parse::<usize>` does.
pub fn parse_usize(s: &str) -> (r: Option<usize>)
    ensures
        r == parsed_usize(s@),
{
    let d = chars_of(s);
    let from: usize = if d.len() > 0 && d[0] == '+' { 1 } else { 0 };
    let ghost dd = if s@.len() > 0 && s@[0] == '+' { s@.skip(1) } else { s@ };
    assert(d@.skip(from as int) == dd);
    if from >= d.len() {
        return None;
    }
    let mut i = from;
    while i < d.len()
        invariant
            d@ == s@,
            d@.skip(from as int) == dd,
            dd == (if s@.len() > 0 && s@[0] == '+' { s@.skip(1) } else { s@ }),
            from <= i <= d@.len(),
            forall|j: int| from <= j < i ==> is_digit(d@[j]),
        decreases d.len() - i,
    {
        if !(d[i] >= '0' && d[i] <= '9') {
            assert(!is_digit(d@.skip(from as int)[i - from]));
            assert(!all_digits(d@.skip(from as int)));
            return None;
        }
        i = i + 1;
    }
    assert(all_digits(d@.skip(from as int)));
    match digits_up_to(&d, from, usize::MAX as u64) {
        Some(v) => Some(v as usize),
        None => None,
    }
}

/// Parses a signed decimal number as `str::parse::<i32>` does.
pub fn parse_i32(s: &str) -> (r: Option<i32>)
    ensures
        r == parsed_i32(s@),
{
    let d = chars_of(s);
    let neg = d.len() > 0 && d[0] == '-';
    let from: usize = if d.len() > 0 && (d[0] == '+' || d[0] == '-') { 1 } else { 0 };
    let ghost dd = if s@.len() > 0 && (s@[0] == '+' || s@[0] == '-') { s@.skip(1) } else { s@ };
    assert(d@.skip(from as int) == dd);
    if from >= d.len() {
        return None;
    }
    let mut i = from;
    while i < d.len()
        invariant
            d@ == s@,
            d@.skip(from as int) == dd,
            dd == (if s@.len() > 0 && (s@[0] == '+' || s@[0] == '-') { s@.skip(1) } else { s@ }),
            from <= i <= d@.len(),
            forall|j: int| from <= j < i ==> is_digit(d@[j]),
        decreases d.len() - i,
    {
        if !(d[i] >= '0' && d[i] <= '9') {
            assert(!is_digit(d@.skip(from as int)[i - from]));
            assert(!all_digits(d@.skip(from as int)));
            return None;
        }
        i = i + 1;
    }
    assert(all_digits(d@.skip(from as int)));
    let limit: u64 = if neg { 2147483648 } else { 2147483647 };
    match digits_up_to(&d, from, limit) {
        Some(v) => {
            if neg {
                Some((0 - v as i64) as i32)
            } else {
                Some(v as i32)
            }
        },
        None => None,
    }
}

/// `s` without leading and trailing white space.
pub fn trim_text(s: &str) -> (r: String)
    ensures
        r@ == trimmed(s@),
{
    let d = chars_of(s);
    let mut a: usize = 0;
    while a < d.len() && is_white_char(d[a])
        invariant
            d@ == s@,
            a <= d@.len(),
            forall|i: int| 0 <= i < a ==> is_white(s@[i]),
        decreases d.len() - a,
    {
        a = a + 1;
    }
    let mut b: usize = d.len();
    while b > a && is_white_char(d[b - 1])
        invariant
            d@ == s@,
            a <= b <= d@.len(),
            forall|i: int| b <= i < s@.len() ==> is_white(s@[i]),
        decreases b,
    {
        b = b - 1;
    }
    proof {
        assert(is_trim_range(s@, a as int, b as int));
        let (x, y) = choose|x: int, y: int| is_trim_range(s@, x, y);
        assert(is_trim_range(s@, x, y));
        if a < b {
            if x < a {
                assert(is_white(s@[x]));
                assert(x == y);
                assert(is_white(s@[a as int]));
            }
            if x > a {
                assert(is_white(s@[a as int]));
            }
            if y < b {
                assert(is_white(s@[b - 1]));
            }
            if y > b {
                assert(is_white(s@[y - 1]));
            }
            assert(x == a && y == b);
        } else {
            if x < y {
                if x < a {
                    assert(is_white(s@[x]));
                } else {
                    assert(is_white(s@[x]));
                }
            }
            assert(s@.subrange(x, y) =~= s@.subrange(a as int, b as int));
        }
    }
    String::from_str(s.substring_char(a, b))
}

pub open spec fn digit_char(d: nat) -> char {
    ('0' as nat + d) as char
}

/// The decimal numeral of `n`, without leading zeros.
pub open spec fn decimal_of(n: nat) -> Seq<char>
    decreases n,
{
    if n < 10 {
        seq![digit_char(n)]
    } else {
        decimal_of(n / 10).push(digit_char(n % 10))
    }
}

/// The decimal numeral of `n`.
pub fn decimal_text(n: usize) -> (r: String)
    ensures
        r@ == decimal_of(n as nat),
    decreases n,
{
    let digits = "0123456789";
    proof {
        reveal_strlit("0123456789");
    }
    let mut out = if n < 10 {
        String::new()
    } else {
        decimal_text(n / 10)
    };
    let d = n % 10;
    let one = digits.substring_char(d, d + 1);
    assert(one@ =~= seq![digit_char(d as nat)]);
    out.append(one);
    if n < 10 {
        assert(out@ =~= decimal_of(n as nat));
    } else {
        assert(out@ =~= decimal_of(n as nat));
    }
    out
}

} // verus!
