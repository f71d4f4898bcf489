//! Character-level helpers shared by the rest of the library: conversions
//! between strings and character vectors, whitespace trimming, decimal and
//! hexadecimal rendering, and decimal parsing.
use vstd::prelude::*;

verus! {

broadcast use vstd::string::group_string_axioms;

/// The characters of `s`, in order.
pub fn chars_of(s: &str) -> (r: Vec<char>)
    ensures
        r@ == s@,
{
    let mut out: Vec<char> = Vec::new();
    for c in it: s.chars()
        invariant
            out@ == it.history(),
    {
        out.push(c);
    }
    out
}

/// Appends one character to a string (`String::push`).
#[verifier::external_body]
pub(crate) fn push_char(s: &mut String, c: char)
    ensures
        final(s)@ == old(s)@.push(c),
{
    s.push(c);
}

/// Appends characters to `out`, in order.
pub fn push_chars(out: &mut String, cs: &[char])
    ensures
        final(out)@ == old(out)@ + cs@,
{
    let ghost start = out@;
    let mut i: usize = 0;
    while i < cs.len()
        invariant
            0 <= i <= cs@.len(),
            out@ == start + cs@.subrange(0, i as int),
        decreases cs@.len() - i,
    {
        push_char(out, cs[i]);
        assert(cs@.subrange(0, i + 1) == cs@.subrange(0, i as int).push(cs@[i as int]));
        i = i + 1;
    }
    assert(cs@.subrange(0, cs@.len() as int) == cs@);
}

/// The string made of the characters of `cs`.
pub fn string_of(cs: &[char]) -> (r: String)
    ensures
        r@ == cs@,
{
    let mut out = String::new();
    push_chars(&mut out, cs);
    out
}

/// Appends a string slice to `out`.
pub fn push_str(out: &mut String, s: &str)
    ensures
        final(out)@ == old(out)@ + s@,
{
    out.append(s);
}

/// The Unicode `White_Space` characters, the ones `char::is_whitespace` accepts.
pub open spec fn is_ws(c: char) -> bool {
    ||| ('\u{9}' <= c && c <= '\u{d}')
    ||| c == ' '
    ||| c == '\u{85}'
    ||| c == '\u{a0}'
    ||| c == '\u{1680}'
    ||| ('\u{2000}' <= c && c <= '\u{200a}')
    ||| c == '\u{2028}'
    ||| c == '\u{2029}'
    ||| c == '\u{202f}'
    ||| c == '\u{205f}'
    ||| c == '\u{3000}'
}

/// Whether `c` is Unicode whitespace.
pub fn char_is_ws(c: char) -> (r: bool)
    ensures
        r == is_ws(c),
{
    ('\u{9}' <= c && c <= '\u{d}') || c == ' ' || c == '\u{85}' || c == '\u{a0}' || c
        == '\u{1680}' || ('\u{2000}' <= c && c <= '\u{200a}') || c == '\u{2028}' || c
        == '\u{2029}' || c == '\u{202f}' || c == '\u{205f}' || c == '\u{3000}'
}

/// Number of whitespace characters at the start of `s`.
pub open spec fn lead_ws(s: Seq<char>) -> nat
    decreases s.len(),
{
    if s.len() > 0 && is_ws(s[0]) {
        1 + lead_ws(s.drop_first())
    } else {
        0
    }
}

/// Number of whitespace characters at the end of `s`.
pub open spec fn trail_ws(s: Seq<char>) -> nat
    decreases s.len(),
{
    if s.len() > 0 && is_ws(s.last()) {
        1 + trail_ws(s.drop_last())
    } else {
        0
    }
}

/// `s` without its leading whitespace.
pub open spec fn trim_start(s: Seq<char>) -> Seq<char> {
    s.subrange(lead_ws(s) as int, s.len() as int)
}

/// `s` without its trailing whitespace.
pub open spec fn trim_end(s: Seq<char>) -> Seq<char> {
    s.subrange(0, s.len() - trail_ws(s))
}

/// `s` without leading and trailing whitespace (what `str::trim` returns).
pub open spec fn trim(s: Seq<char>) -> Seq<char> {
    trim_end(trim_start(s))
}

proof fn lemma_lead_ws_bound(s: Seq<char>)
    ensures
        lead_ws(s) <= s.len(),
        forall|k: int| 0 <= k < lead_ws(s) ==> is_ws(#[trigger] s[k]),
        lead_ws(s) < s.len() ==> !is_ws(s[lead_ws(s) as int]),
    decreases s.len(),
{
    if s.len() > 0 && is_ws(s[0]) {
        lemma_lead_ws_bound(s.drop_first());
        assert forall|k: int| 0 <= k < lead_ws(s) implies is_ws(#[trigger] s[k]) by {
            if k > 0 {
                assert(s[k] == s.drop_first()[k - 1]);
            }
        }
    }
}

proof fn lemma_trail_ws_bound(s: Seq<char>)
    ensures
        trail_ws(s) <= s.len(),
        forall|k: int| s.len() - trail_ws(s) <= k < s.len() ==> is_ws(#[trigger] s[k]),
        trail_ws(s) < s.len() ==> !is_ws(s[s.len() - trail_ws(s) - 1]),
    decreases s.len(),
{
    if s.len() > 0 && is_ws(s.last()) {
        lemma_trail_ws_bound(s.drop_last());
        assert forall|k: int| s.len() - trail_ws(s) <= k < s.len() implies is_ws(#[trigger] s[k]) by {
            if k < s.len() - 1 {
                assert(s[k] == s.drop_last()[k]);
            }
        }
    }
}

/// `lead_ws` is the length of the longest whitespace prefix.
proof fn lemma_lead_ws_unique(s: Seq<char>, i: int)
    requires
        0 <= i <= s.len(),
        forall|k: int| 0 <= k < i ==> is_ws(#[trigger] s[k]),
        i < s.len() ==> !is_ws(s[i]),
    ensures
        lead_ws(s) == i,
    decreases s.len(),
{
    if s.len() > 0 && is_ws(s[0]) {
        assert forall|k: int| 0 <= k < i - 1 implies is_ws(#[trigger] s.drop_first()[k]) by {
            assert(s.drop_first()[k] == s[k + 1]);
        }
        lemma_lead_ws_unique(s.drop_first(), i - 1);
    } else {
        if i > 0 {
            assert(is_ws(s[0]));
        }
    }
}

/// `trail_ws` is the length of the longest whitespace suffix.
proof fn lemma_trail_ws_unique(s: Seq<char>, j: int)
    requires
        0 <= j <= s.len(),
        forall|k: int| j <= k < s.len() ==> is_ws(#[trigger] s[k]),
        j > 0 ==> !is_ws(s[j - 1]),
    ensures
        trail_ws(s) == s.len() - j,
    decreases s.len(),
{
    if s.len() > 0 && is_ws(s.last()) {
        assert forall|k: int| j <= k < s.len() - 1 implies is_ws(#[trigger] s.drop_last()[k]) by {
            assert(s.drop_last()[k] == s[k]);
        }
        lemma_trail_ws_unique(s.drop_last(), j);
    } else {
        if j < s.len() {
            assert(is_ws(s[s.len() - 1]));
        }
    }
}

/// Whether `pat` occurs in `s` starting at position `i`.
pub open spec fn occurs_at(s: Seq<char>, pat: Seq<char>, i: int) -> bool {
    0 <= i && i + pat.len() <= s.len() && s.subrange(i, i + pat.len()) == pat
}

/// An occurrence inside the left part of a concatenation is one in the whole.
pub proof fn lemma_occurs_at_left(a: Seq<char>, b: Seq<char>, pat: Seq<char>, i: int)
    requires
        occurs_at(a, pat, i),
    ensures
        occurs_at(a + b, pat, i),
{
    assert((a + b).subrange(i, i + pat.len()) =~= a.subrange(i, i + pat.len()));
}

/// An occurrence inside the right part of a concatenation is one in the
/// whole, shifted by the left part's length.
pub proof fn lemma_occurs_at_right(a: Seq<char>, b: Seq<char>, pat: Seq<char>, i: int)
    requires
        occurs_at(b, pat, i),
    ensures
        occurs_at(a + b, pat, a.len() + i),
{
    assert((a + b).subrange(a.len() + i, a.len() + i + pat.len()) =~= b.subrange(i, i + pat.len()));
}

/// The number of `?` placeholders in a text.
pub open spec fn placeholder_count(s: Seq<char>) -> nat
    decreases s.len(),
{
    if s.len() == 0 {
        0
    } else {
        placeholder_count(s.drop_last()) + (if s.last() == '?' {
            1nat
        } else {
            0nat
        })
    }
}

pub(crate) proof fn lemma_placeholder_count_concat(a: Seq<char>, b: Seq<char>)
    ensures
        placeholder_count(a + b) == placeholder_count(a) + placeholder_count(b),
    decreases b.len(),
{
    if b.len() == 0 {
        assert(a + b =~= a);
    } else {
        lemma_placeholder_count_concat(a, b.drop_last());
        assert((a + b).drop_last() =~= a + b.drop_last());
    }
}

/// A condition `<prefix>?` ending in its one placeholder: the count is one.
pub(crate) proof fn lemma_placeholder_count_one(s: Seq<char>)
    requires
        s.len() > 0,
        s.last() == '?',
        forall|i: int| 0 <= i < s.len() - 1 ==> s[i] != '?',
    ensures
        placeholder_count(s) == 1,
{
    lemma_placeholder_count_none(s.drop_last());
}

pub(crate) proof fn lemma_placeholder_count_none(s: Seq<char>)
    requires
        forall|i: int| 0 <= i < s.len() ==> s[i] != '?',
    ensures
        placeholder_count(s) == 0,
    decreases s.len(),
{
    if s.len() > 0 {
        lemma_placeholder_count_none(s.drop_last());
    }
}

/// The trimmed text is the part of `s` between the first and the last
/// non-whitespace characters.
pub proof fn lemma_trim_bounds(s: Seq<char>, i: int, j: int)
    requires
        0 <= i <= j <= s.len(),
        forall|k: int| 0 <= k < i ==> is_ws(#[trigger] s[k]),
        forall|k: int| j <= k < s.len() ==> is_ws(#[trigger] s[k]),
        i < j ==> !is_ws(s[i]) && !is_ws(s[j - 1]),
    ensures
        trim(s) == s.subrange(i, j),
{
    if i < j {
        lemma_lead_ws_unique(s, i);
        let t = trim_start(s);
        assert forall|k: int| j - i <= k < t.len() implies is_ws(#[trigger] t[k]) by {
            assert(t[k] == s[k + i]);
        }
        assert(t[j - i - 1] == s[j - 1]);
        lemma_trail_ws_unique(t, j - i);
        assert(trim(s) =~= s.subrange(i, j));
    } else {
        assert forall|k: int| 0 <= k < s.len() implies is_ws(#[trigger] s[k]) by {
            if k >= i {
                assert(j <= k);
            }
        }
        lemma_lead_ws_unique(s, s.len() as int);
        assert(trim_start(s) =~= Seq::<char>::empty());
        assert(trim(s) =~= Seq::<char>::empty());
        assert(s.subrange(i, j) =~= Seq::<char>::empty());
    }
}

/// Trimming twice is trimming once.
pub proof fn lemma_trim_idempotent(s: Seq<char>)
    ensures
        trim(trim(s)) == trim(s),
{
    let ts = trim_start(s);
    let t = trim(s);
    lemma_lead_ws_bound(s);
    lemma_trail_ws_bound(ts);
    if t.len() > 0 {
        assert(t[0] == ts[0]);
        assert(ts[0] == s[lead_ws(s) as int]);
        assert(t[t.len() - 1] == ts[ts.len() - trail_ws(ts) - 1]);
        assert forall|k: int| 0 <= k < 0 implies is_ws(#[trigger] t[k]) by {}
        lemma_trim_bounds(t, 0, t.len() as int);
        assert(t.subrange(0, t.len() as int) =~= t);
    } else {
        lemma_trim_bounds(t, 0, 0);
        assert(t.subrange(0, 0) =~= t);
    }
}

/// The text of `s` with leading and trailing whitespace removed (`str::trim`).
pub fn trim_chars(s: &[char]) -> (r: Vec<char>)
    ensures
        r@ == trim(s@),
{
    let n = s.len();
    let mut i: usize = 0;
    while i < n && char_is_ws(s[i])
        invariant
            0 <= i <= n == s@.len(),
            forall|k: int| 0 <= k < i ==> is_ws(#[trigger] s@[k]),
        decreases n - i,
    {
        i = i + 1;
    }
    let mut j: usize = n;
    while j > i && char_is_ws(s[j - 1])
        invariant
            i <= j <= n == s@.len(),
            forall|k: int| j <= k < n ==> is_ws(#[trigger] s@[k]),
        decreases j - i,
    {
        j = j - 1;
    }
    let mut out: Vec<char> = Vec::new();
    let mut k: usize = i;
    while k < j
        invariant
            i <= k <= j <= n == s@.len(),
            out@ == s@.subrange(i as int, k as int),
        decreases j - k,
    {
        out.push(s[k]);
        assert(s@.subrange(i as int, k + 1) == s@.subrange(i as int, k as int).push(s@[k as int]));
        k = k + 1;
    }
    proof {
        if i < j {
            assert(!is_ws(s@[i as int]));
        }
        lemma_trim_bounds(s@, i as int, j as int);
    }
    out
}

/// Trimmed copy of a string slice.
pub fn trim_str(s: &str) -> (r: Vec<char>)
    ensures
        r@ == trim(s@),
{
    let cs = chars_of(s);
    trim_chars(cs.as_slice())
}

/// Whether two character sequences are equal.
pub fn chars_eq(a: &[char], b: &[char]) -> (r: bool)
    ensures
        r == (a@ == b@),
{
    if a.len() != b.len() {
        return false;
    }
    let mut i: usize = 0;
    while i < a.len()
        invariant
            0 <= i <= a@.len() == b@.len(),
            forall|k: int| 0 <= k < i ==> a@[k] == b@[k],
        decreases a@.len() - i,
    {
        if a[i] != b[i] {
            return false;
        }
        i = i + 1;
    }
    assert(a@ =~= b@);
    true
}

/// Whether the characters of `a` equal the literal `lit`.
pub fn chars_eq_str(a: &[char], lit: &str) -> (r: bool)
    ensures
        r == (a@ == lit@),
{
    let b = chars_of(lit);
    chars_eq(a, b.as_slice())
}

/// What `str::to_lowercase` returns for a text: Unicode default lowercasing
/// of the whole text (per-character mappings, with the context rule for a
/// final capital sigma).
pub uninterp spec fn unicode_lowercase(s: Seq<char>) -> Seq<char>;

/// Lowercases a string with `str::to_lowercase`; the result is a function of
/// the text alone (Unicode's default, locale-independent mapping).
#[verifier::external_body]
pub(crate) fn to_lowercase(s: &[char]) -> (r: Vec<char>)
    ensures
        r@ == unicode_lowercase(s@),
{
    let text: String = s.iter().collect();
    text.to_lowercase().chars().collect()
}

/// The decimal digit character for `d < 10`.
pub open spec fn digit_char(d: nat) -> char {
    if d == 0 { '0' } else if d == 1 { '1' } else if d == 2 { '2' } else if d == 3 { '3' }
    else if d == 4 { '4' } else if d == 5 { '5' } else if d == 6 { '6' } else if d == 7 { '7' }
    else if d == 8 { '8' } else { '9' }
}

/// Decimal text of a natural number, without leading zeros.
pub open spec fn decimal(n: nat) -> Seq<char>
    decreases n,
{
    if n < 10 {
        seq![digit_char(n)]
    } else {
        decimal(n / 10).push(digit_char(n % 10))
    }
}

/// Decimal text of an integer, with a leading `-` when it is negative
/// (what `to_string` gives for the integer types).
pub open spec fn int_text(n: int) -> Seq<char> {
    if n < 0 {
        seq!['-'] + decimal((-n) as nat)
    } else {
        decimal(n as nat)
    }
}

fn digit_of(d: u64) -> (c: char)
    requires
        d < 10,
    ensures
        c == digit_char(d as nat),
{
    if d == 0 { '0' } else if d == 1 { '1' } else if d == 2 { '2' } else if d == 3 { '3' }
    else if d == 4 { '4' } else if d == 5 { '5' } else if d == 6 { '6' } else if d == 7 { '7' }
    else if d == 8 { '8' } else { '9' }
}

/// Appends the decimal text of `n`.
pub fn push_decimal(out: &mut String, n: u64)
    ensures
        final(out)@ == old(out)@ + decimal(n as nat),
    decreases n,
{
    if n >= 10 {
        push_decimal(out, n / 10);
    }
    push_char(out, digit_of(n % 10));
    proof {
        if n >= 10 {
            assert(decimal(n as nat) == decimal((n / 10) as nat).push(digit_char((n % 10) as nat)));
        } else {
            assert(decimal(n as nat) == seq![digit_char(n as nat)]);
        }
    }
}

/// Appends the decimal text of a signed integer.
pub fn push_i64(out: &mut String, n: i64)
    ensures
        final(out)@ == old(out)@ + int_text(n as int),
{
    if n < 0 {
        push_char(out, '-');
        let m: u64 = if n == i64::MIN {
            9223372036854775808u64
        } else {
            (-n) as u64
        };
        push_decimal(out, m);
        proof {
            assert(seq!['-'] + decimal((-n) as nat) == seq!['-'] + decimal(m as nat));
        }
        assert(out@ =~= old(out)@ + int_text(n as int));
    } else {
        push_decimal(out, n as u64);
    }
}

/// Decimal text of an `i64` (`i64::to_string`).
pub fn i64_to_string(n: i64) -> (r: String)
    ensures
        r@ == int_text(n as int),
{
    let mut out = String::new();
    push_i64(&mut out, n);
    assert(out@ =~= int_text(n as int));
    out
}

/// Decimal text of a `u64` (`u64::to_string`).
pub fn u64_to_string(n: u64) -> (r: String)
    ensures
        r@ == decimal(n as nat),
{
    let mut out = String::new();
    push_decimal(&mut out, n);
    assert(out@ =~= decimal(n as nat));
    out
}

/// Whether `c` is an ASCII decimal digit.
pub open spec fn is_digit(c: char) -> bool {
    '0' <= c && c <= '9'
}

/// Whether every character of `s` is a decimal digit.
pub open spec fn all_digits(s: Seq<char>) -> bool {
    forall|i: int| 0 <= i < s.len() ==> is_digit(#[trigger] s[i])
}

/// Value of a digit character.
pub open spec fn digit_value(c: char) -> int {
    c as int - '0' as int
}

/// Value of a string of decimal digits.
pub open spec fn digits_value(s: Seq<char>) -> int
    decreases s.len(),
{
    if s.len() == 0 {
        0
    } else {
        digits_value(s.drop_last()) * 10 + digit_value(s.last())
    }
}

/// Why a text is not an `i64` (the kinds of `core::num::ParseIntError`).
#[derive(Debug, Clone, Copy, PartialEq, Eq, Structural)]
pub enum IntParseFailure {
    Empty,
    InvalidDigit,
    PosOverflow,
    NegOverflow,
}

/// The message `ParseIntError` shows for each kind.
pub open spec fn int_failure_text(k: IntParseFailure) -> Seq<char> {
    match k {
        IntParseFailure::Empty => "cannot parse integer from empty string"@,
        IntParseFailure::InvalidDigit => "invalid digit found in string"@,
        IntParseFailure::PosOverflow => "number too large to fit in target type"@,
        IntParseFailure::NegOverflow => "number too small to fit in target type"@,
    }
}

impl IntParseFailure {
    /// The message of this kind of failure.
    pub fn message(&self) -> (r: &'static str)
        ensures
            r@ == int_failure_text(*self),
    {
        match self {
            IntParseFailure::Empty => "cannot parse integer from empty string",
            IntParseFailure::InvalidDigit => "invalid digit found in string",
            IntParseFailure::PosOverflow => "number too large to fit in target type",
            IntParseFailure::NegOverflow => "number too small to fit in target type",
        }
    }
}

/// Scanning the first `k` digits of `body` from the left: the magnitude so
/// far, or the first failure met (a non-digit, or a value out of range).
pub open spec fn scan_digits(body: Seq<char>, k: int, neg: bool) -> Result<int, IntParseFailure>
    decreases k,
{
    if k <= 0 {
        Ok(0)
    } else {
        match scan_digits(body, k - 1, neg) {
            Err(e) => Err(e),
            Ok(acc) => if !is_digit(body[k - 1]) {
                Err(IntParseFailure::InvalidDigit)
            } else {
                let a = acc * 10 + digit_value(body[k - 1]);
                if neg && a > 9223372036854775808 {
                    Err(IntParseFailure::NegOverflow)
                } else if !neg && a > 9223372036854775807 {
                    Err(IntParseFailure::PosOverflow)
                } else {
                    Ok(a)
                }
            },
        }
    }
}

/// What `str::parse::<i64>` gives: the empty text is refused; an optional
/// `+` or `-` is followed by digits read from the left, and the first
/// non-digit or overflow met is the failure.
pub open spec fn parse_i64_result(s: Seq<char>) -> Result<i64, IntParseFailure> {
    if s.len() == 0 {
        Err(IntParseFailure::Empty)
    } else {
        let signed = s[0] == '-' || s[0] == '+';
        let neg = s[0] == '-';
        let body = if signed {
            s.drop_first()
        } else {
            s
        };
        if body.len() == 0 {
            Err(IntParseFailure::InvalidDigit)
        } else {
            match scan_digits(body, body.len() as int, neg) {
                Ok(a) => Ok((if neg {
                    -a
                } else {
                    a
                }) as i64),
                Err(e) => Err(e),
            }
        }
    }
}

/// Whether `s` is the text of an `i64` (`str::parse::<i64>` succeeds).
pub open spec fn parse_i64_spec(s: Seq<char>) -> Option<i64> {
    match parse_i64_result(s) {
        Ok(v) => Some(v),
        Err(_) => None,
    }
}

proof fn lemma_digits_value_nonneg(s: Seq<char>)
    requires
        all_digits(s),
    ensures
        digits_value(s) >= 0,
    decreases s.len(),
{
    if s.len() > 0 {
        assert(all_digits(s.drop_last())) by {
            assert forall|i: int| 0 <= i < s.drop_last().len() implies is_digit(
                #[trigger] s.drop_last()[i],
            ) by {
                assert(s.drop_last()[i] == s[i]);
            }
        }
        lemma_digits_value_nonneg(s.drop_last());
        assert(is_digit(s[s.len() - 1]));
    }
}

proof fn lemma_digits_value_prefix(s: Seq<char>, k: int)
    requires
        all_digits(s),
        0 <= k <= s.len(),
    ensures
        digits_value(s) >= digits_value(s.subrange(0, k)),
    decreases s.len(),
{
    if k < s.len() {
        let t = s.drop_last();
        assert(all_digits(t)) by {
            assert forall|i: int| 0 <= i < t.len() implies is_digit(#[trigger] t[i]) by {
                assert(t[i] == s[i]);
            }
        }
        lemma_digits_value_prefix(t, k);
        assert(t.subrange(0, k) =~= s.subrange(0, k));
        lemma_digits_value_nonneg(t);
        assert(is_digit(s[s.len() - 1]));
    } else {
        assert(s.subrange(0, k) =~= s);
    }
}

proof fn lemma_scan_bounds(body: Seq<char>, k: int, neg: bool)
    requires
        0 <= k <= body.len(),
    ensures
        scan_digits(body, k, neg) matches Ok(a) ==> 0 <= a <= 9223372036854775808 && (!neg ==> a
            <= 9223372036854775807) && all_digits(body.subrange(0, k)) && a == digits_value(
            body.subrange(0, k),
        ),
    decreases k,
{
    if k > 0 {
        lemma_scan_bounds(body, k - 1, neg);
        let p = body.subrange(0, k);
        assert(p.drop_last() =~= body.subrange(0, k - 1));
        if scan_digits(body, k, neg) is Ok {
            assert(all_digits(p)) by {
                assert forall|i: int| 0 <= i < p.len() implies is_digit(#[trigger] p[i]) by {
                    if i < k - 1 {
                        assert(p[i] == body.subrange(0, k - 1)[i]);
                    }
                }
            }
        }
    } else {
        assert(body.subrange(0, 0) =~= Seq::<char>::empty());
    }
}

proof fn lemma_scan_err_sticks(body: Seq<char>, k: int, m: int, neg: bool)
    requires
        0 <= k <= m,
        scan_digits(body, k, neg) is Err,
    ensures
        scan_digits(body, m, neg) == scan_digits(body, k, neg),
    decreases m - k,
{
    if m > k {
        lemma_scan_err_sticks(body, k, m - 1, neg);
    }
}

proof fn lemma_scan_ok(body: Seq<char>, k: int, neg: bool)
    requires
        0 <= k <= body.len(),
        all_digits(body.subrange(0, k)),
        digits_value(body.subrange(0, k)) <= (if neg {
            9223372036854775808int
        } else {
            9223372036854775807int
        }),
    ensures
        scan_digits(body, k, neg) == Ok::<int, IntParseFailure>(digits_value(body.subrange(0, k))),
    decreases k,
{
    if k > 0 {
        let p = body.subrange(0, k);
        let q = body.subrange(0, k - 1);
        assert(p.drop_last() =~= q);
        assert(p.subrange(0, k - 1) =~= q);
        assert(all_digits(q)) by {
            assert forall|i: int| 0 <= i < q.len() implies is_digit(#[trigger] q[i]) by {
                assert(q[i] == p[i]);
            }
        }
        lemma_digits_value_prefix(p, k - 1);
        lemma_scan_ok(body, k - 1, neg);
        assert(is_digit(p[k - 1]));
        assert(p[k - 1] == body[k - 1]);
    } else {
        assert(body.subrange(0, 0) =~= Seq::<char>::empty());
    }
}

/// The digits of an integer text: what follows a leading `+` or `-`.
pub open spec fn int_body(s: Seq<char>) -> Seq<char> {
    if s.len() > 0 && (s[0] == '-' || s[0] == '+') {
        s.drop_first()
    } else {
        s
    }
}

/// The value an integer text denotes: its digits, negated after a `-`.
pub open spec fn int_text_value(s: Seq<char>) -> int {
    if s.len() > 0 && s[0] == '-' {
        -digits_value(int_body(s))
    } else {
        digits_value(int_body(s))
    }
}

/// Whether a text is an optional sign followed by at least one decimal
/// digit, denoting a value within `i64`; nothing else (no spaces).
pub open spec fn is_i64_text(s: Seq<char>) -> bool {
    &&& int_body(s).len() > 0
    &&& all_digits(int_body(s))
    &&& i64::MIN <= int_text_value(s) <= i64::MAX
}

/// `str::parse::<i64>` accepts exactly the texts made of an optional sign
/// and decimal digits whose value fits in `i64`, and gives that value.
pub proof fn lemma_parse_i64_exact(s: Seq<char>)
    ensures
        parse_i64_result(s) is Ok <==> is_i64_text(s),
        parse_i64_result(s) matches Ok(v) ==> v == int_text_value(s),
{
    if s.len() > 0 {
        let neg = s[0] == '-';
        let body = int_body(s);
        if body.len() > 0 {
            assert(body.subrange(0, body.len() as int) =~= body);
            lemma_scan_bounds(body, body.len() as int, neg);
            if is_i64_text(s) {
                lemma_scan_ok(body, body.len() as int, neg);
            }
        }
    }
}

/// Parses a decimal `i64` as `str::parse::<i64>` does.
pub fn parse_i64_chars(s: &[char]) -> (r: core::result::Result<i64, IntParseFailure>)
    ensures
        r == parse_i64_result(s@),
{
    let n = s.len();
    if n == 0 {
        return Err(IntParseFailure::Empty);
    }
    let signed = s[0] == '-' || s[0] == '+';
    let neg = s[0] == '-';
    let start: usize = if signed {
        1
    } else {
        0
    };
    let ghost body = if signed {
        s@.drop_first()
    } else {
        s@
    };
    assert(body =~= s@.subrange(start as int, n as int));
    if start == n {
        return Err(IntParseFailure::InvalidDigit);
    }
    let mut acc: i128 = 0;
    let mut k: usize = start;
    while k < n
        invariant
            start <= k <= n == s@.len(),
            start < n,
            body == s@.subrange(start as int, n as int),
            neg == (s@[0] == '-'),
            body == (if s@[0] == '-' || s@[0] == '+' {
                s@.drop_first()
            } else {
                s@
            }),
            scan_digits(body, (k - start) as int, neg) == Ok::<int, IntParseFailure>(acc as int),
            0 <= acc <= 9223372036854775808,
        decreases n - k,
    {
        let c = s[k];
        assert(body[k - start] == c);
        if !('0' <= c && c <= '9') {
            proof {
                lemma_scan_err_sticks(body, (k + 1 - start) as int, body.len() as int, neg);
            }
            return Err(IntParseFailure::InvalidDigit);
        }
        proof {
            lemma_digit_value_of(c);
        }
        let d: i128 = (c as u32 - '0' as u32) as i128;
        let next = acc * 10 + d;
        if neg && next > 9223372036854775808 {
            proof {
                lemma_scan_err_sticks(body, (k + 1 - start) as int, body.len() as int, neg);
            }
            return Err(IntParseFailure::NegOverflow);
        }
        if !neg && next > 9223372036854775807 {
            proof {
                lemma_scan_err_sticks(body, (k + 1 - start) as int, body.len() as int, neg);
            }
            return Err(IntParseFailure::PosOverflow);
        }
        acc = next;
        k = k + 1;
    }
    proof {
        lemma_scan_bounds(body, body.len() as int, neg);
    }
    if neg {
        Ok((-acc) as i64)
    } else {
        Ok(acc as i64)
    }
}

/// Parses a decimal `i64` from a string slice.
pub fn parse_i64_str(s: &str) -> (r: core::result::Result<i64, IntParseFailure>)
    ensures
        r == parse_i64_result(s@),
{
    let cs = chars_of(s);
    parse_i64_chars(cs.as_slice())
}

proof fn lemma_digit_value_of(c: char)
    requires
        '0' <= c <= '9',
    ensures
        digit_value(c) == (c as u32 - '0' as u32) as int,
{
}

proof fn lemma_digit_char(k: nat)
    requires
        k < 10,
    ensures
        is_digit(digit_char(k)),
        digit_value(digit_char(k)) == k,
{
}

proof fn lemma_decimal_digits(n: nat)
    ensures
        decimal(n).len() > 0,
        all_digits(decimal(n)),
        digits_value(decimal(n)) == n,
    decreases n,
{
    lemma_digit_char(n % 10);
    let d = decimal(n);
    if n >= 10 {
        lemma_decimal_digits(n / 10);
        assert(d.drop_last() =~= decimal(n / 10));
        assert(d.last() == digit_char(n % 10));
        assert(digits_value(d) == digits_value(decimal(n / 10)) * 10 + digit_value(d.last()));
        assert(n == (n / 10) * 10 + n % 10) by (nonlinear_arith);
        assert forall|i: int| 0 <= i < d.len() implies is_digit(#[trigger] d[i]) by {
            if i < d.len() - 1 {
                assert(d[i] == decimal(n / 10)[i]);
            }
        }
    } else {
        assert(d.drop_last() =~= Seq::<char>::empty());
        assert(d.last() == digit_char(n));
        assert(digits_value(d) == digits_value(d.drop_last()) * 10 + digit_value(d.last()));
        assert(n % 10 == n);
    }
}

proof fn lemma_scan_decimal(d: Seq<char>, k: int, neg: bool, limit: int)
    requires
        0 <= k <= d.len(),
        all_digits(d),
        digits_value(d) <= limit,
        limit == (if neg {
            9223372036854775808int
        } else {
            9223372036854775807int
        }),
    ensures
        scan_digits(d, k, neg) == Ok::<int, IntParseFailure>(digits_value(d.subrange(0, k))),
    decreases k,
{
    if k > 0 {
        lemma_scan_decimal(d, k - 1, neg, limit);
        let p = d.subrange(0, k);
        assert(p.drop_last() =~= d.subrange(0, k - 1));
        assert(is_digit(d[k - 1]));
        lemma_digits_value_prefix(d, k);
    } else {
        assert(d.subrange(0, 0) =~= Seq::<char>::empty());
    }
}

/// Decimal text written by `int_text` parses back to the same number.
pub proof fn lemma_parse_int_text(n: i64)
    ensures
        parse_i64_result(int_text(n as int)) == Ok::<i64, IntParseFailure>(n),
        parse_i64_spec(int_text(n as int)) == Some(n),
{
    if n < 0 {
        let m = (-(n as int)) as nat;
        lemma_decimal_digits(m);
        let t = int_text(n as int);
        let d = decimal(m);
        assert(t.drop_first() =~= d);
        lemma_scan_decimal(d, d.len() as int, true, 9223372036854775808);
        assert(d.subrange(0, d.len() as int) =~= d);
    } else {
        lemma_decimal_digits(n as nat);
        let d = decimal(n as nat);
        assert(is_digit(d[0]));
        lemma_scan_decimal(d, d.len() as int, false, 9223372036854775807);
        assert(d.subrange(0, d.len() as int) =~= d);
    }
}

} // verus!
