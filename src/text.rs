use vstd::prelude::*;
use vstd::string::*;

verus! {

/// `s` wrapped in double quotes: how an identifier is quoted in SQL.
pub open spec fn quote_ident(s: Seq<char>) -> Seq<char> {
    seq!['"'] + s + seq!['"']
}

/// The items of `fs` joined with `sep` between neighbours.
pub open spec fn join(fs: Seq<Seq<char>>, sep: Seq<char>) -> Seq<char>
    decreases fs.len(),
{
    if fs.len() == 0 {
        Seq::empty()
    } else if fs.len() == 1 {
        fs[0]
    } else {
        join(fs.drop_last(), sep) + sep + fs.last()
    }
}

pub proof fn lemma_join_push(fs: Seq<Seq<char>>, sep: Seq<char>, x: Seq<char>)
    ensures
        join(fs.push(x), sep) == if fs.len() == 0 { x } else { join(fs, sep) + sep + x },
{
    assert(fs.push(x).drop_last() == fs);
}

pub open spec fn is_digit(c: char) -> bool {
    '0' <= c && c <= '9'
}

pub open spec fn all_digits(s: Seq<char>) -> bool {
    forall|i: int| 0 <= i < s.len() ==> is_digit(#[trigger] s[i])
}

/// `s` without one leading `+` or `-`.
pub open spec fn unsigned(s: Seq<char>) -> Seq<char> {
    if s.len() > 0 && (s[0] == '+' || s[0] == '-') {
        s.drop_first()
    } else {
        s
    }
}

/// The first index at or after `i` that holds `a` or `b`, or the length.
pub open spec fn find2(s: Seq<char>, i: int, a: char, b: char) -> int
    decreases s.len() - i,
{
    if i < 0 || i >= s.len() {
        s.len() as int
    } else if s[i] == a || s[i] == b {
        i
    } else {
        find2(s, i + 1, a, b)
    }
}

/// `s` equals `lower` letter by letter, each letter in either case.
pub open spec fn ci_match(s: Seq<char>, lower: Seq<char>, upper: Seq<char>) -> bool {
    s.len() == lower.len() && forall|i: int|
        0 <= i < s.len() ==> (#[trigger] s[i] == lower[i] || s[i] == upper[i])
}

/// The digits of a float mantissa: digits, with at most one `.` among them.
pub open spec fn mantissa_text(m: Seq<char>) -> bool {
    let d = find2(m, 0, '.', '.');
    if d == m.len() {
        m.len() > 0 && all_digits(m)
    } else {
        m.len() > 1 && all_digits(m.subrange(0, d)) && all_digits(m.subrange(d + 1, m.len() as int))
    }
}

pub open spec fn exponent_text(x: Seq<char>) -> bool {
    unsigned(x).len() > 0 && all_digits(unsigned(x))
}

pub open spec fn number_text(t: Seq<char>) -> bool {
    let e = find2(t, 0, 'e', 'E');
    mantissa_text(t.subrange(0, e)) && (e == t.len() || exponent_text(
        t.subrange(e + 1, t.len() as int),
    ))
}

/// The texts that Rust reads as an `f64`: an optional sign, then `inf`, `infinity`
/// or `nan` in any case, or a decimal number with an optional exponent.
pub open spec fn float_text(s: Seq<char>) -> bool {
    let t = unsigned(s);
    ci_match(t, "inf"@, "INF"@) || ci_match(t, "infinity"@, "INFINITY"@) || ci_match(
        t,
        "nan"@,
        "NAN"@,
    ) || number_text(t)
}

/// The value of a run of decimal digits.
pub open spec fn digits_value(s: Seq<char>) -> int
    decreases s.len(),
{
    if s.len() == 0 {
        0
    } else {
        digits_value(s.drop_last()) * 10 + (s.last() as int - '0' as int)
    }
}

/// What Rust's `i64` parser returns: an optional sign and at least one digit,
/// whose value fits in an `i64`.
pub open spec fn parse_i64(s: Seq<char>) -> Option<i64> {
    let neg = s.len() > 0 && s[0] == '-';
    let d = unsigned(s);
    let v = if neg { -digits_value(d) } else { digits_value(d) };
    if d.len() > 0 && all_digits(d) && i64::MIN <= v <= i64::MAX {
        Some(v as i64)
    } else {
        None
    }
}

pub open spec fn digit_char(d: nat) -> char {
    if d == 0 { '0' }
    else if d == 1 { '1' }
    else if d == 2 { '2' }
    else if d == 3 { '3' }
    else if d == 4 { '4' }
    else if d == 5 { '5' }
    else if d == 6 { '6' }
    else if d == 7 { '7' }
    else if d == 8 { '8' }
    else { '9' }
}

pub open spec fn nat_text(n: nat) -> Seq<char>
    decreases n,
{
    if n < 10 {
        seq![digit_char(n)]
    } else {
        nat_text(n / 10).push(digit_char(n % 10))
    }
}

/// The decimal text of an integer, with a leading `-` when negative.
pub open spec fn int_text(n: int) -> Seq<char> {
    if n < 0 {
        seq!['-'] + nat_text((-n) as nat)
    } else {
        nat_text(n as nat)
    }
}

/// Relies on `i64`'s `Display` (through `to_string`): plain decimal digits, `-` when negative.
#[verifier::external_body]
pub(crate) fn i64_text(n: i64) -> (r: String)
    ensures
        r@ == int_text(n as int),
{
    n.to_string()
}

/// Relies on `str::parse::<i64>`: an optional sign, then decimal digits in range.
#[verifier::external_body]
pub(crate) fn parse_int(s: &str) -> (r: Option<i64>)
    ensures
        r == parse_i64(s@),
{
    s.parse::<i64>().ok()
}

/// Relies on `FromIterator<char>` for `String`: the characters in order.
#[verifier::external_body]
pub(crate) fn text_of(v: &Vec<char>) -> (r: String)
    ensures
        r@ == v@,
{
    v.iter().collect()
}

/// The characters of `s`, in order.
pub fn chars_of(s: &str) -> (r: Vec<char>)
    ensures
        r@ == s@,
{
    let n = s.unicode_len();
    let mut r: Vec<char> = Vec::new();
    let mut i: usize = 0;
    while i < n
        invariant
            n == s@.len(),
            i <= n,
            r@ == s@.subrange(0, i as int),
        decreases n - i,
    {
        r.push(s.get_char(i));
        i = i + 1;
    }
    assert(s@.subrange(0, n as int) == s@);
    r
}

/// The characters of `v` from `lo` up to `hi`.
pub fn slice_of(v: &Vec<char>, lo: usize, hi: usize) -> (r: Vec<char>)
    requires
        lo <= hi <= v@.len(),
    ensures
        r@ == v@.subrange(lo as int, hi as int),
{
    let mut r: Vec<char> = Vec::new();
    let mut i: usize = lo;
    while i < hi
        invariant
            lo <= i <= hi <= v@.len(),
            r@ == v@.subrange(lo as int, i as int),
        decreases hi - i,
    {
        r.push(v[i]);
        i = i + 1;
    }
    r
}

pub fn find2_exec(v: &Vec<char>, a: char, b: char) -> (r: usize)
    ensures
        r == find2(v@, 0, a, b),
        r <= v@.len(),
{
    let mut i: usize = 0;
    while i < v.len() && v[i] != a && v[i] != b
        invariant
            i <= v@.len(),
            find2(v@, 0, a, b) == find2(v@, i as int, a, b),
        decreases v@.len() - i,
    {
        i = i + 1;
    }
    i
}

pub fn all_digits_exec(v: &Vec<char>) -> (r: bool)
    ensures
        r == all_digits(v@),
{
    let mut i: usize = 0;
    while i < v.len()
        invariant
            i <= v@.len(),
            forall|j: int| 0 <= j < i ==> is_digit(#[trigger] v@[j]),
        decreases v@.len() - i,
    {
        if !('0' <= v[i] && v[i] <= '9') {
            return false;
        }
        i = i + 1;
    }
    true
}

pub fn unsigned_exec(v: &Vec<char>) -> (r: Vec<char>)
    ensures
        r@ == unsigned(v@),
{
    if v.len() > 0 && (v[0] == '+' || v[0] == '-') {
        slice_of(v, 1, v.len())
    } else {
        v.clone()
    }
}

pub fn ci_match_exec(v: &Vec<char>, lower: &str, upper: &str) -> (r: bool)
    requires
        lower@.len() == upper@.len(),
    ensures
        r == ci_match(v@, lower@, upper@),
{
    let n = lower.unicode_len();
    if v.len() != n {
        return false;
    }
    let mut i: usize = 0;
    while i < n
        invariant
            n == lower@.len() == upper@.len() == v@.len(),
            i <= n,
            forall|j: int| 0 <= j < i ==> (#[trigger] v@[j] == lower@[j] || v@[j] == upper@[j]),
        decreases n - i,
    {
        if v[i] != lower.get_char(i) && v[i] != upper.get_char(i) {
            return false;
        }
        i = i + 1;
    }
    true
}

pub fn mantissa_exec(m: &Vec<char>) -> (r: bool)
    ensures
        r == mantissa_text(m@),
{
    let d = find2_exec(m, '.', '.');
    if d == m.len() {
        m.len() > 0 && all_digits_exec(m)
    } else {
        m.len() > 1 && all_digits_exec(&slice_of(m, 0, d)) && all_digits_exec(&slice_of(m, d + 1, m.len()))
    }
}

/// Whether Rust reads the text as an `f64`.
pub fn is_float_text(v: &Vec<char>) -> (r: bool)
    ensures
        r == float_text(v@),
{
    let t = unsigned_exec(v);
    proof {
        reveal_strlit("inf");
        reveal_strlit("INF");
        reveal_strlit("infinity");
        reveal_strlit("INFINITY");
        reveal_strlit("nan");
        reveal_strlit("NAN");
    }
    if ci_match_exec(&t, "inf", "INF") || ci_match_exec(&t, "infinity", "INFINITY")
        || ci_match_exec(&t, "nan", "NAN") {
        return true;
    }
    let e = find2_exec(&t, 'e', 'E');
    if !mantissa_exec(&slice_of(&t, 0, e)) {
        return false;
    }
    if e == t.len() {
        true
    } else {
        let x = unsigned_exec(&slice_of(&t, e + 1, t.len()));
        x.len() > 0 && all_digits_exec(&x)
    }
}

} // verus!
