//! String helpers shared by the workspace modules, each stated over the
//! character sequence of its arguments.
use vstd::prelude::*;

verus! {

/// The view of an optional owned string.
pub open spec fn opt_view(o: Option<String>) -> Option<Seq<char>> {
    match o {
        Some(s) => Some(s@),
        None => None,
    }
}

/// The views of a sequence of owned strings.
pub open spec fn views(v: Seq<String>) -> Seq<Seq<char>> {
    v.map_values(|s: String| s@)
}

/// The view of an optional string slice.
pub open spec fn opt_str_view(o: Option<&str>) -> Option<Seq<char>> {
    match o {
        Some(s) => Some(s@),
        None => None,
    }
}

/// Compare an optional string slice with an optional owned string by content.
pub fn opt_str_eq_string(a: Option<&str>, b: &Option<String>) -> (r: bool)
    ensures
        r == (opt_str_view(a) == opt_view(*b)),
{
    match (a, b) {
        (Some(x), Some(y)) => str_eq(x, y.as_str()),
        (None, None) => true,
        _ => false,
    }
}

/// Compare two optional strings by content.
pub fn opt_string_eq(a: &Option<String>, b: &Option<String>) -> (r: bool)
    ensures
        r == (opt_view(*a) == opt_view(*b)),
{
    match (a, b) {
        (Some(x), Some(y)) => x.eq(y),
        (None, None) => true,
        _ => false,
    }
}

/// Copy an optional string.
pub fn opt_string_clone(a: &Option<String>) -> (r: Option<String>)
    ensures
        opt_view(r) == opt_view(*a),
{
    match a {
        Some(x) => Some(x.clone()),
        None => None,
    }
}

/// Copy a vector of strings.
pub fn clone_strings(v: &Vec<String>) -> (r: Vec<String>)
    ensures
        views(r@) == views(v@),
{
    let mut out: Vec<String> = Vec::new();
    for i in 0..v.len()
        invariant
            out@.len() == i,
            forall|j: int| 0 <= j < i ==> #[trigger] out@[j]@ == v@[j]@,
    {
        out.push(v[i].clone());
    }
    assert(views(out@) =~= views(v@));
    out
}

/// The characters of a string slice, in order.
pub fn chars_of(s: &str) -> (r: Vec<char>)
    ensures
        r@ == s@,
{
    let mut out: Vec<char> = Vec::new();
    for c in it: s.chars()
        invariant
            out@ == it.seq().take(it.index() as int),
            it.seq() == s@,
    {
        out.push(c);
    }
    out
}

/// An owned copy of a string slice.
pub fn owned(s: &str) -> (r: String)
    ensures
        r@ == s@,
{
    s.to_owned()
}

/// Content equality of two string slices.
pub fn str_eq(a: &str, b: &str) -> (r: bool)
    ensures
        r == (a@ == b@),
{
    let x = chars_of(a);
    let y = chars_of(b);
    if x.len() != y.len() {
        return false;
    }
    let mut i: usize = 0;
    while i < x.len()
        invariant
            x@ == a@,
            y@ == b@,
            x@.len() == y@.len(),
            i <= x@.len(),
            forall|j: int| 0 <= j < i ==> x@[j] == y@[j],
        decreases x@.len() - i,
    {
        if x[i] != y[i] {
            return false;
        }
        i += 1;
    }
    assert(a@ =~= b@);
    true
}

/// Whether `p` occurs in `s` starting at position `i`.
pub open spec fn occurs_at(s: Seq<char>, p: Seq<char>, i: int) -> bool {
    0 <= i && i + p.len() <= s.len() && s.subrange(i, i + p.len()) == p
}

/// Whether `p` occurs anywhere in `s`.
pub open spec fn contains_sub(s: Seq<char>, p: Seq<char>) -> bool {
    exists|i: int| occurs_at(s, p, i)
}

/// Whether `s` begins with `p`.
pub open spec fn has_prefix(s: Seq<char>, p: Seq<char>) -> bool {
    occurs_at(s, p, 0)
}

/// Whether `s` ends with `p`.
pub open spec fn has_suffix(s: Seq<char>, p: Seq<char>) -> bool {
    p.len() <= s.len() && occurs_at(s, p, s.len() - p.len())
}

fn occurs_at_exec(s: &Vec<char>, p: &Vec<char>, i: usize) -> (r: bool)
    ensures
        r == occurs_at(s@, p@, i as int),
{
    if i > s.len() || p.len() > s.len() - i {
        return false;
    }
    let mut k: usize = 0;
    while k < p.len()
        invariant
            i + p@.len() <= s@.len(),
            i + p@.len() <= s.len(),
            k <= p@.len(),
            forall|j: int| 0 <= j < k ==> s@[i + j] == p@[j],
        decreases p@.len() - k,
    {
        if s[i + k] != p[k] {
            assert(s@.subrange(i as int, i + p@.len())[k as int] != p@[k as int]);
            return false;
        }
        k += 1;
    }
    assert(s@.subrange(i as int, i + p@.len()) =~= p@);
    true
}

/// Whether `pat` occurs in `s`.
pub fn str_contains(s: &str, pat: &str) -> (r: bool)
    ensures
        r == contains_sub(s@, pat@),
{
    let x = chars_of(s);
    let p = chars_of(pat);
    if p.len() > x.len() {
        return false;
    }
    let last = x.len() - p.len();
    let mut i: usize = 0;
    loop
        invariant
            x@ == s@,
            p@ == pat@,
            last + p@.len() == x@.len(),
            i <= last,
            forall|j: int| 0 <= j < i ==> !occurs_at(s@, pat@, j),
        decreases last - i,
    {
        if occurs_at_exec(&x, &p, i) {
            return true;
        }
        if i == last {
            assert forall|j: int| !occurs_at(s@, pat@, j) by {
                if 0 <= j && j + pat@.len() <= s@.len() {
                    assert(j <= last);
                }
            }
            return false;
        }
        i += 1;
    }
}

/// Whether `s` starts with `pat`.
pub fn str_starts_with(s: &str, pat: &str) -> (r: bool)
    ensures
        r == has_prefix(s@, pat@),
{
    let x = chars_of(s);
    let p = chars_of(pat);
    occurs_at_exec(&x, &p, 0)
}

/// Whether `s` ends with `pat`.
pub fn str_ends_with(s: &str, pat: &str) -> (r: bool)
    ensures
        r == has_suffix(s@, pat@),
{
    let x = chars_of(s);
    let p = chars_of(pat);
    if p.len() > x.len() {
        return false;
    }
    occurs_at_exec(&x, &p, x.len() - p.len())
}

/// The characters before the first line feed.
pub open spec fn before_newline(s: Seq<char>) -> Seq<char>
    decreases s.len(),
{
    if s.len() == 0 {
        s
    } else if s[0] == '\n' {
        Seq::empty()
    } else {
        seq![s[0]] + before_newline(s.subrange(1, s.len() as int))
    }
}

/// The first line of a text, as `str::lines` yields it: the characters
/// before the first line feed, without a carriage return that directly
/// precedes that line feed. A text without a line feed is one line.
pub open spec fn spec_first_line(s: Seq<char>) -> Seq<char> {
    let line = before_newline(s);
    if s.contains('\n') && line.len() > 0 && line.last() == '\r' {
        line.drop_last()
    } else {
        line
    }
}

proof fn lemma_before_newline_index(s: Seq<char>, k: int)
    requires
        0 <= k <= s.len(),
        forall|j: int| 0 <= j < k ==> s[j] != '\n',
        k == s.len() || s[k] == '\n',
    ensures
        before_newline(s) == s.subrange(0, k),
        s.contains('\n') <==> k < s.len(),
    decreases s.len(),
{
    if s.len() == 0 {
    } else if s[0] == '\n' {
        assert(s.subrange(0, k) =~= Seq::<char>::empty());
        assert(s[0] == '\n');
    } else {
        let t = s.subrange(1, s.len() as int);
        assert forall|j: int| 0 <= j < k - 1 implies t[j] != '\n' by {
            assert(t[j] == s[j + 1]);
        }
        if k < s.len() {
            assert(t[k - 1] == s[k]);
        }
        lemma_before_newline_index(t, k - 1);
        assert(seq![s[0]] + t.subrange(0, k - 1) =~= s.subrange(0, k));
        if k < s.len() {
            assert(s[k] == '\n');
        } else {
            assert forall|j: int| 0 <= j < s.len() implies s[j] != '\n' by {}
        }
    }
}

/// The first line of a text.
pub fn first_line(text: &str) -> (r: &str)
    ensures
        r@ == spec_first_line(text@),
{
    let x = chars_of(text);
    let mut k: usize = 0;
    while k < x.len() && x[k] != '\n'
        invariant
            x@ == text@,
            k <= x@.len(),
            forall|j: int| 0 <= j < k ==> x@[j] != '\n',
        decreases x@.len() - k,
    {
        k += 1;
    }
    proof {
        lemma_before_newline_index(text@, k as int);
    }
    if k < x.len() && k > 0 && x[k - 1] == '\r' {
        text.substring_char(0, k - 1)
    } else {
        text.substring_char(0, k)
    }
}

/// Unicode `White_Space`, the property behind `char::is_whitespace`.
pub open spec fn is_ws(c: char) -> bool {
    ||| ('\u{9}' <= c && c <= '\u{d}')
    ||| c == ' '
    ||| c == '\u{85}'
    ||| c == '\u{a0}'
    ||| c == '\u{1680}'
    ||| ('\u{2000}' <= c && c <= '\u{200a}')
    ||| c == '\u{2028}'
    ||| c == '\u{2029}'
    ||| c == '\u{202f}'
    ||| c == '\u{205f}'
    ||| c == '\u{3000}'
}

/// Whether a character is white space.
pub fn char_is_ws(c: char) -> (r: bool)
    ensures
        r == is_ws(c),
{
    ('\u{9}' <= c && c <= '\u{d}') || c == ' ' || c == '\u{85}' || c == '\u{a0}' || c == '\u{1680}'
        || ('\u{2000}' <= c && c <= '\u{200a}') || c == '\u{2028}' || c == '\u{2029}' || c
        == '\u{202f}' || c == '\u{205f}' || c == '\u{3000}'
}

/// Unicode general category `Cc`, the property behind `char::is_control`.
pub open spec fn is_control(c: char) -> bool {
    c <= '\u{1f}' || ('\u{7f}' <= c && c <= '\u{9f}')
}

/// Whether a character is a control character.
pub fn char_is_control(c: char) -> (r: bool)
    ensures
        r == is_control(c),
{
    c <= '\u{1f}' || ('\u{7f}' <= c && c <= '\u{9f}')
}

/// `s` without leading white space.
pub open spec fn trim_start(s: Seq<char>) -> Seq<char>
    decreases s.len(),
{
    if s.len() > 0 && is_ws(s[0]) {
        trim_start(s.subrange(1, s.len() as int))
    } else {
        s
    }
}

/// `s` without trailing white space.
pub open spec fn trim_end(s: Seq<char>) -> Seq<char>
    decreases s.len(),
{
    if s.len() > 0 && is_ws(s.last()) {
        trim_end(s.drop_last())
    } else {
        s
    }
}

/// `s` without leading and trailing white space, as `str::trim` gives it.
pub open spec fn trim(s: Seq<char>) -> Seq<char> {
    trim_end(trim_start(s))
}

/// `text` without leading and trailing white space.
pub fn str_trim(text: &str) -> (r: &str)
    ensures
        r@ == trim(text@),
{
    let x = chars_of(text);
    let n = x.len();
    let mut i: usize = 0;
    assert(text@.subrange(0, n as int) =~= text@);
    while i < n && char_is_ws(x[i])
        invariant
            x@ == text@,
            n == x@.len(),
            i <= n,
            trim_start(text@) == trim_start(text@.subrange(i as int, n as int)),
        decreases n - i,
    {
        assert(text@.subrange(i as int, n as int).subrange(1, (n - i) as int) =~= text@.subrange(
            i + 1,
            n as int,
        ));
        i += 1;
    }
    let mut j: usize = n;
    while j > i && char_is_ws(x[j - 1])
        invariant
            x@ == text@,
            n == x@.len(),
            i <= j <= n,
            trim_start(text@) == text@.subrange(i as int, n as int),
            trim_end(text@.subrange(i as int, n as int)) == trim_end(
                text@.subrange(i as int, j as int),
            ),
        decreases j - i,
    {
        assert(text@.subrange(i as int, j as int).drop_last() =~= text@.subrange(
            i as int,
            j - 1,
        ));
        j -= 1;
    }
    text.substring_char(i, j)
}


/// The decimal digit character for `d`.
pub open spec fn digit_char(d: nat) -> char {
    if d == 0 {
        '0'
    } else if d == 1 {
        '1'
    } else if d == 2 {
        '2'
    } else if d == 3 {
        '3'
    } else if d == 4 {
        '4'
    } else if d == 5 {
        '5'
    } else if d == 6 {
        '6'
    } else if d == 7 {
        '7'
    } else if d == 8 {
        '8'
    } else {
        '9'
    }
}

/// The decimal representation of `n`, as `Display` writes an unsigned
/// integer.
pub open spec fn decimal(n: nat) -> Seq<char>
    decreases n,
{
    if n < 10 {
        seq![digit_char(n)]
    } else {
        decimal(n / 10) + seq![digit_char(n % 10)]
    }
}

/// Every decimal representation is non-empty.
pub proof fn lemma_decimal_nonempty(n: nat)
    ensures
        decimal(n).len() >= 1,
    decreases n,
{
    if n >= 10 {
        lemma_decimal_nonempty(n / 10);
    }
}

/// Distinct numbers have distinct decimal representations.
pub proof fn lemma_decimal_injective(a: nat, b: nat)
    requires
        decimal(a) == decimal(b),
    ensures
        a == b,
    decreases a,
{
    if a < 10 && b < 10 {
        assert(decimal(a)[0] == digit_char(a));
        assert(decimal(b)[0] == digit_char(b));
    } else if a < 10 {
        lemma_decimal_nonempty(b / 10);
        assert(decimal(b).len() >= 2);
    } else if b < 10 {
        lemma_decimal_nonempty(a / 10);
        assert(decimal(a).len() >= 2);
    } else {
        let da = decimal(a / 10);
        let db = decimal(b / 10);
        assert(decimal(a) == da + seq![digit_char(a % 10)]);
        assert(decimal(b) == db + seq![digit_char(b % 10)]);
        assert(decimal(a).last() == digit_char(a % 10));
        assert(decimal(b).last() == digit_char(b % 10));
        assert(da =~= decimal(a).drop_last());
        assert(db =~= decimal(b).drop_last());
        lemma_decimal_injective(a / 10, b / 10);
    }
}

fn digit_str(d: u64) -> (r: &'static str)
    requires
        d < 10,
    ensures
        r@ == seq![digit_char(d as nat)],
{
    proof {
        reveal_strlit("0");
        reveal_strlit("1");
        reveal_strlit("2");
        reveal_strlit("3");
        reveal_strlit("4");
        reveal_strlit("5");
        reveal_strlit("6");
        reveal_strlit("7");
        reveal_strlit("8");
        reveal_strlit("9");
    }
    if d == 0 {
        assert("0"@ =~= seq!['0']);
        "0"
    } else if d == 1 {
        assert("1"@ =~= seq!['1']);
        "1"
    } else if d == 2 {
        assert("2"@ =~= seq!['2']);
        "2"
    } else if d == 3 {
        assert("3"@ =~= seq!['3']);
        "3"
    } else if d == 4 {
        assert("4"@ =~= seq!['4']);
        "4"
    } else if d == 5 {
        assert("5"@ =~= seq!['5']);
        "5"
    } else if d == 6 {
        assert("6"@ =~= seq!['6']);
        "6"
    } else if d == 7 {
        assert("7"@ =~= seq!['7']);
        "7"
    } else if d == 8 {
        assert("8"@ =~= seq!['8']);
        "8"
    } else {
        assert("9"@ =~= seq!['9']);
        "9"
    }
}

/// Append the decimal representation of `n` to `out`.
pub fn push_decimal(out: &mut String, n: u64)
    ensures
        final(out)@ == old(out)@ + decimal(n as nat),
    decreases n,
{
    if n < 10 {
        out.append(digit_str(n));
    } else {
        push_decimal(out, n / 10);
        out.append(digit_str(n % 10));
        assert(decimal(n as nat) == decimal((n / 10) as nat) + seq![digit_char((n % 10) as nat)]);
    }
}


/// Lexicographic order on character sequences, by code point: the order in
/// which `Ord` sorts `String`s (UTF-8 keeps code point order byte by byte).
pub open spec fn lex_lt(a: Seq<char>, b: Seq<char>) -> bool
    decreases a.len(),
{
    if a.len() == 0 {
        b.len() > 0
    } else if b.len() == 0 {
        false
    } else if a[0] != b[0] {
        a[0] < b[0]
    } else {
        lex_lt(a.drop_first(), b.drop_first())
    }
}

/// No sequence precedes itself.
pub proof fn lemma_lex_irreflexive(a: Seq<char>)
    ensures
        !lex_lt(a, a),
    decreases a.len(),
{
    if a.len() > 0 {
        lemma_lex_irreflexive(a.drop_first());
    }
}

/// The order is transitive.
pub proof fn lemma_lex_transitive(a: Seq<char>, b: Seq<char>, c: Seq<char>)
    requires
        lex_lt(a, b),
        lex_lt(b, c),
    ensures
        lex_lt(a, c),
    decreases a.len(),
{
    if a.len() > 0 && b.len() > 0 && c.len() > 0 && a[0] == b[0] && b[0] == c[0] {
        lemma_lex_transitive(a.drop_first(), b.drop_first(), c.drop_first());
    }
}

/// Two different sequences are ordered one way or the other.
pub proof fn lemma_lex_total(a: Seq<char>, b: Seq<char>)
    requires
        a != b,
    ensures
        lex_lt(a, b) || lex_lt(b, a),
    decreases a.len(),
{
    if a.len() > 0 && b.len() > 0 && a[0] == b[0] {
        if a.drop_first() == b.drop_first() {
            assert(a =~= seq![a[0]] + a.drop_first());
            assert(b =~= seq![b[0]] + b.drop_first());
        }
        lemma_lex_total(a.drop_first(), b.drop_first());
    } else if a.len() == 0 && b.len() == 0 {
        assert(a =~= b);
    }
}

/// Comparing from position `i` on, where both sequences agree before `i`.
proof fn lemma_lex_skip(a: Seq<char>, b: Seq<char>, i: int)
    requires
        0 <= i <= a.len(),
        i <= b.len(),
        a.subrange(0, i) == b.subrange(0, i),
    ensures
        lex_lt(a, b) == lex_lt(a.skip(i), b.skip(i)),
    decreases i,
{
    if i > 0 {
        assert(a[0] == a.subrange(0, i)[0]);
        assert(b[0] == b.subrange(0, i)[0]);
        assert(a.drop_first().subrange(0, i - 1) =~= a.subrange(0, i).drop_first());
        assert(b.drop_first().subrange(0, i - 1) =~= b.subrange(0, i).drop_first());
        lemma_lex_skip(a.drop_first(), b.drop_first(), i - 1);
        assert(a.drop_first().skip(i - 1) =~= a.skip(i));
        assert(b.drop_first().skip(i - 1) =~= b.skip(i));
    } else {
        assert(a.skip(0) =~= a);
        assert(b.skip(0) =~= b);
    }
}

/// Whether `a` sorts strictly before `b`.
pub fn str_lt(a: &str, b: &str) -> (r: bool)
    ensures
        r == lex_lt(a@, b@),
{
    let x = chars_of(a);
    let y = chars_of(b);
    let mut i: usize = 0;
    while i < x.len() && i < y.len() && x[i] == y[i]
        invariant
            x@ == a@,
            y@ == b@,
            i <= x@.len(),
            i <= y@.len(),
            a@.subrange(0, i as int) == b@.subrange(0, i as int),
        decreases x@.len() - i,
    {
        assert(a@.subrange(0, i + 1) =~= a@.subrange(0, i as int).push(a@[i as int]));
        assert(b@.subrange(0, i + 1) =~= b@.subrange(0, i as int).push(b@[i as int]));
        i += 1;
    }
    proof {
        lemma_lex_skip(a@, b@, i as int);
        if i < x@.len() {
            assert(a@.skip(i as int)[0] == x@[i as int]);
        }
        if i < y@.len() {
            assert(b@.skip(i as int)[0] == y@[i as int]);
        }
    }
    if i == x.len() {
        i < y.len()
    } else if i == y.len() {
        false
    } else {
        x[i] < y[i]
    }
}


/// The decimal representation of a signed integer, as `Display` writes it:
/// a minus sign before the digits of a negative number.
pub open spec fn signed_decimal(n: int) -> Seq<char> {
    if n < 0 {
        seq!['-'] + decimal((-n) as nat)
    } else {
        decimal(n as nat)
    }
}

/// The decimal representation of `n`.
pub fn i64_string(n: i64) -> (r: String)
    ensures
        r@ == signed_decimal(n as int),
{
    let mut s = String::new();
    if n < 0 {
        let magnitude: u64 = if n == i64::MIN {
            9223372036854775808u64
        } else {
            (-n) as u64
        };
        proof {
            reveal_strlit("-");
        }
        s.append("-");
        push_decimal(&mut s, magnitude);
        assert(s@ =~= seq!['-'] + decimal((-n) as nat));
    } else {
        push_decimal(&mut s, n as u64);
        assert(s@ =~= decimal(n as nat));
    }
    s
}

/// `bool` as `Display` writes it.
pub open spec fn bool_text(b: bool) -> Seq<char> {
    if b {
        seq!['t', 'r', 'u', 'e']
    } else {
        seq!['f', 'a', 'l', 's', 'e']
    }
}

/// The text of a `bool`.
pub fn bool_string(b: bool) -> (r: String)
    ensures
        r@ == bool_text(b),
{
    proof {
        reveal_strlit("true");
        reveal_strlit("false");
    }
    if b {
        owned("true")
    } else {
        owned("false")
    }
}


/// Whether `c` is an ASCII decimal digit.
pub open spec fn is_digit(c: char) -> bool {
    '0' <= c && c <= '9'
}

/// The value of a run of decimal digits.
pub open spec fn digits_value(s: Seq<char>) -> int
    decreases s.len(),
{
    if s.len() == 0 {
        0
    } else {
        digits_value(s.drop_last()) * 10 + (s.last() as int - '0' as int)
    }
}

/// Whether `s` is one or more decimal digits.
pub open spec fn all_digits(s: Seq<char>) -> bool {
    s.len() > 0 && forall|i: int| 0 <= i < s.len() ==> is_digit(#[trigger] s[i])
}

/// `i64`'s `FromStr`: an optional `+` or `-`, then one or more decimal
/// digits, with the value in range; nothing else.
pub open spec fn parse_i64(s: Seq<char>) -> Option<i64> {
    let negative = s.len() > 0 && s[0] == '-';
    let body = if s.len() > 0 && (s[0] == '-' || s[0] == '+') {
        s.drop_first()
    } else {
        s
    };
    let v = if negative {
        -digits_value(body)
    } else {
        digits_value(body)
    };
    if all_digits(body) && i64::MIN <= v <= i64::MAX {
        Some(v as i64)
    } else {
        None
    }
}

proof fn lemma_digits_value_grows(s: Seq<char>, i: int)
    requires
        0 <= i <= s.len(),
        forall|k: int| 0 <= k < s.len() ==> is_digit(#[trigger] s[k]),
    ensures
        digits_value(s.take(i)) <= digits_value(s),
        0 <= digits_value(s.take(i)),
    decreases s.len() - i,
{
    if i < s.len() {
        lemma_digits_value_grows(s, i + 1);
        assert(s.take(i + 1).drop_last() =~= s.take(i));
        assert(s.take(i + 1).last() == s[i]);
    } else {
        assert(s.take(i) =~= s);
        lemma_digits_value_nonneg(s);
    }
}

proof fn lemma_digits_value_nonneg(s: Seq<char>)
    requires
        forall|k: int| 0 <= k < s.len() ==> is_digit(#[trigger] s[k]),
    ensures
        0 <= digits_value(s),
    decreases s.len(),
{
    if s.len() > 0 {
        assert forall|k: int| 0 <= k < s.drop_last().len() implies is_digit(#[trigger] s.drop_last()[k]) by {
            assert(s.drop_last()[k] == s[k]);
        }
        lemma_digits_value_nonneg(s.drop_last());
        assert(is_digit(s[s.len() - 1]));
    }
}

/// Parse a signed decimal integer as `str::parse::<i64>` does.
pub fn parse_i64_exec(text: &str) -> (r: Option<i64>)
    ensures
        r == parse_i64(text@),
{
    let x = chars_of(text);
    let n = x.len();
    let negative = n > 0 && x[0] == '-';
    let start: usize = if n > 0 && (x[0] == '-' || x[0] == '+') {
        1
    } else {
        0
    };
    let ghost body = if n > 0 && (text@[0] == '-' || text@[0] == '+') {
        text@.drop_first()
    } else {
        text@
    };
    assert(body =~= text@.subrange(start as int, n as int));
    if start == n {
        return None;
    }
    // Magnitudes above this are out of range for either sign.
    let limit: i128 = 9223372036854775808;
    let mut acc: i128 = 0;
    let mut i: usize = start;
    assert(body.take(0) =~= Seq::<char>::empty());
    while i < n
        invariant
            x@ == text@,
            n == x@.len(),
            start <= i <= n,
            body =~= text@.subrange(start as int, n as int),
            forall|k: int| 0 <= k < i - start ==> is_digit(#[trigger] body[k]),
            acc == digits_value(body.take(i - start)),
            0 <= acc <= limit,
            limit == 9223372036854775808,
            body == (if n > 0 && (text@[0] == '-' || text@[0] == '+') {
                text@.drop_first()
            } else {
                text@
            }),
        decreases n - i,
    {
        let c = x[i];
        if !('0' <= c && c <= '9') {
            assert(body[i - start] == c);
            assert(!is_digit(body[(i - start) as int]));
            return None;
        }
        assert(body[i - start] == c);
        assert(body.take(i - start + 1).drop_last() =~= body.take(i - start));
        assert(body.take(i - start + 1).last() == c);
        let d: i128 = (c as u32 - '0' as u32) as i128;
        acc = acc * 10 + d;
        i += 1;
        if acc > limit {
            proof {
                if all_digits(body) {
                    lemma_digits_value_grows(body, i - start);
                }
            }
            return None;
        }
    }
    assert(body.take(n - start) =~= body);
    if negative {
        let v: i128 = -acc;
        Some(v as i64)
    } else if acc > 9223372036854775807 {
        None
    } else {
        Some(acc as i64)
    }
}

} // verus!
