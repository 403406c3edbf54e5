//! Text helpers over `String`/`&str`, all stated over the character view
//! (`Seq<char>`) of the strings involved.
use vstd::prelude::*;
use vstd::string::*;

verus! {

// ---------------------------------------------------------------------------
// Searching sequences
// ---------------------------------------------------------------------------

/// The index of the first element of `s` that satisfies `p`, if any.
pub open spec fn first_index<A>(s: Seq<A>, p: spec_fn(A) -> bool) -> Option<int>
    decreases s.len(),
{
    if s.len() == 0 {
        None
    } else if p(s[0]) {
        Some(0)
    } else {
        match first_index(s.drop_first(), p) {
            Some(i) => Some(i + 1),
            None => None,
        }
    }
}

/// `first_index` finds the least index whose element satisfies the predicate.
pub proof fn lemma_first_index<A>(s: Seq<A>, p: spec_fn(A) -> bool)
    ensures
        match first_index(s, p) {
            Some(i) => 0 <= i < s.len() && p(s[i]) && forall|j: int| 0 <= j < i ==> !p(#[trigger] s[j]),
            None => forall|j: int| 0 <= j < s.len() ==> !p(#[trigger] s[j]),
        },
    decreases s.len(),
{
    if s.len() > 0 {
        lemma_first_index(s.drop_first(), p);
        if !p(s[0]) {
            match first_index(s.drop_first(), p) {
                Some(i) => {
                    assert forall|j: int| 0 <= j < i + 1 implies !p(#[trigger] s[j]) by {
                        if j > 0 {
                            assert(s[j] == s.drop_first()[j - 1]);
                        }
                    }
                },
                None => {
                    assert forall|j: int| 0 <= j < s.len() implies !p(#[trigger] s[j]) by {
                        if j > 0 {
                            assert(s[j] == s.drop_first()[j - 1]);
                        }
                    }
                },
            }
        }
    }
}

/// `first_index` is the least index whose element satisfies the predicate:
/// any such index is it.
pub proof fn lemma_first_index_is<A>(s: Seq<A>, p: spec_fn(A) -> bool, k: int)
    requires
        0 <= k < s.len(),
        p(s[k]),
        forall|j: int| 0 <= j < k ==> !p(#[trigger] s[j]),
    ensures
        first_index(s, p) == Some(k),
{
    lemma_first_index(s, p);
    match first_index(s, p) {
        Some(i) => {
            if i < k {
                assert(!p(s[i]));
            } else if i > k {
                assert(!p(s[k]));
            }
        },
        None => {
            assert(!p(s[k]));
        },
    }
}

/// `first_index` finds nothing when no element satisfies the predicate.
pub proof fn lemma_first_index_none<A>(s: Seq<A>, p: spec_fn(A) -> bool)
    requires
        forall|j: int| 0 <= j < s.len() ==> !p(#[trigger] s[j]),
    ensures
        first_index(s, p) is None,
{
    lemma_first_index(s, p);
    match first_index(s, p) {
        Some(i) => {
            assert(p(s[i]));
        },
        None => {},
    }
}

/// The first match in a concatenation is the first match of the left part,
/// or else the first match of the right part, shifted.
pub proof fn lemma_first_index_concat<A>(a: Seq<A>, b: Seq<A>, p: spec_fn(A) -> bool)
    ensures
        first_index(a + b, p) == match first_index(a, p) {
            Some(i) => Some(i),
            None => match first_index(b, p) {
                Some(j) => Some(a.len() + j),
                None => None,
            },
        },
{
    lemma_first_index(a, p);
    lemma_first_index(b, p);
    match first_index(a, p) {
        Some(i) => {
            assert((a + b)[i] == a[i]);
            assert forall|j: int| 0 <= j < i implies !p(#[trigger] (a + b)[j]) by {
                assert((a + b)[j] == a[j]);
            }
            lemma_first_index_is(a + b, p, i);
        },
        None => match first_index(b, p) {
            Some(j) => {
                assert((a + b)[a.len() + j] == b[j]);
                assert forall|k: int| 0 <= k < a.len() + j implies !p(#[trigger] (a + b)[k]) by {
                    if k < a.len() {
                        assert((a + b)[k] == a[k]);
                    } else {
                        assert((a + b)[k] == b[k - a.len()]);
                    }
                }
                lemma_first_index_is(a + b, p, a.len() + j);
            },
            None => {
                assert forall|k: int| 0 <= k < (a + b).len() implies !p(#[trigger] (a + b)[k]) by {
                    if k < a.len() {
                        assert((a + b)[k] == a[k]);
                    } else {
                        assert((a + b)[k] == b[k - a.len()]);
                    }
                }
                lemma_first_index_none(a + b, p);
            },
        },
    }
}

/// The predicate "equals `x`".
pub open spec fn equals<A>(x: A) -> spec_fn(A) -> bool {
    |y: A| y == x
}

/// Some element satisfies the predicate exactly when `first_index` finds one.
pub proof fn lemma_first_index_exists<A>(s: Seq<A>, p: spec_fn(A) -> bool)
    ensures
        (first_index(s, p) is Some) == exists|j: int| 0 <= j < s.len() && #[trigger] p(s[j]),
{
    lemma_first_index(s, p);
}

/// Two sequences whose elements agree, place by place, on two predicates
/// have their first matches at the same place.
pub proof fn lemma_first_index_same<A, B>(a: Seq<A>, p: spec_fn(A) -> bool, b: Seq<B>, q: spec_fn(B) -> bool)
    requires
        a.len() == b.len(),
        forall|x: int| 0 <= x < a.len() ==> #[trigger] p(a[x]) == q(b[x]),
    ensures
        first_index(a, p) == first_index(b, q),
{
    lemma_first_index(a, p);
    lemma_first_index(b, q);
    match first_index(a, p) {
        Some(i) => {
            assert(q(b[i]));
            assert forall|j: int| 0 <= j < i implies !q(#[trigger] b[j]) by {
                assert(!p(a[j]));
            }
            lemma_first_index_is(b, q, i);
        },
        None => {
            assert forall|j: int| 0 <= j < b.len() implies !q(#[trigger] b[j]) by {
                assert(!p(a[j]));
            }
            lemma_first_index_none(b, q);
        },
    }
}

// ---------------------------------------------------------------------------
// Characters and strings
// ---------------------------------------------------------------------------

/// The characters of `s`, in order.
pub fn chars_of(s: &str) -> (v: Vec<char>)
    ensures
        v@ == s@,
{
    let mut v: Vec<char> = Vec::new();
    proof {
        broadcast use vstd::string::group_string_axioms;
    }
    for c in iter: s.chars()
        invariant
            iter.index() <= iter.seq().len(),
            v@ == iter.seq().take(iter.index() as int),
            iter.seq() == s@,
        ensures
            v@ == s@,
    {
        v.push(c);
        proof {
            assert(iter.seq().take(iter.index() as int + 1) =~= v@);
        }
    }
    v
}

/// Appends one character to a string (`String::push`).
#[verifier::external_body]
pub(crate) fn push_char(s: &mut String, c: char)
    ensures
        final(s)@ == old(s)@.push(c),
{
    s.push(c);
}

/// A new string holding the characters `v[from..to]`.
pub fn string_of_range(v: &Vec<char>, from: usize, to: usize) -> (r: String)
    requires
        from <= to <= v.len(),
    ensures
        r@ == v@.subrange(from as int, to as int),
{
    let mut r = String::new();
    let mut i: usize = from;
    while i < to
        invariant
            from <= i <= to <= v.len(),
            r@ == v@.subrange(from as int, i as int),
        decreases to - i,
    {
        push_char(&mut r, v[i]);
        proof {
            assert(r@ =~= v@.subrange(from as int, i + 1));
        }
        i = i + 1;
    }
    r
}

/// A new string holding the characters of `v`.
pub fn string_of(v: &Vec<char>) -> (r: String)
    ensures
        r@ == v@,
{
    let r = string_of_range(v, 0, v.len());
    proof {
        assert(v@.subrange(0, v@.len() as int) =~= v@);
    }
    r
}

/// An owned copy of `s`.
pub fn owned(s: &str) -> (r: String)
    ensures
        r@ == s@,
{
    s.to_owned()
}

/// Whether a string has no characters.
pub fn str_is_empty(s: &str) -> (r: bool)
    ensures
        r == (s@.len() == 0),
{
    chars_of(s).len() == 0
}

/// Character-wise equality of two strings.
pub fn str_eq(a: &str, b: &str) -> (r: bool)
    ensures
        r == (a@ == b@),
{
    let x = a.to_owned();
    let y = b.to_owned();
    x == y
}

/// Appends `t` to `s`.
pub fn append_str(s: &mut String, t: &str)
    ensures
        final(s)@ == old(s)@ + t@,
{
    s.append(t);
}

/// The characters of a string literal `lit`, as an owned string.
pub fn lit(s: &str) -> (r: String)
    ensures
        r@ == s@,
{
    String::from_str(s)
}

/// `a` followed by `b`.
pub fn concat2(a: &str, b: &str) -> (r: String)
    ensures
        r@ == a@ + b@,
{
    let mut r = String::from_str(a);
    r.append(b);
    r
}

/// `a`, `b` and `c` one after another.
pub fn concat3(a: &str, b: &str, c: &str) -> (r: String)
    ensures
        r@ == a@ + b@ + c@,
{
    let mut r = String::from_str(a);
    r.append(b);
    r.append(c);
    r
}

/// The parts one after another, with `sep` between each two.
pub open spec fn join_with(parts: Seq<Seq<char>>, sep: Seq<char>) -> Seq<char>
    decreases parts.len(),
{
    if parts.len() == 0 {
        seq![]
    } else if parts.len() == 1 {
        parts[0]
    } else {
        join_with(parts.drop_last(), sep) + sep + parts.last()
    }
}

/// The character views of some strings.
pub open spec fn views_of(v: Seq<String>) -> Seq<Seq<char>> {
    v.map_values(|s: String| s@)
}

/// The strings one after another, with `sep` between each two.
pub fn join_strings(parts: &[String], sep: &str) -> (r: String)
    ensures
        r@ == join_with(views_of(parts@), sep@),
{
    let ghost pv = views_of(parts@);
    let mut r = String::new();
    let mut i: usize = 0;
    while i < parts.len()
        invariant
            i <= parts.len(),
            pv == views_of(parts@),
            r@ == join_with(pv.take(i as int), sep@),
        decreases parts.len() - i,
    {
        if i > 0 {
            append_str(&mut r, sep);
        }
        append_str(&mut r, parts[i].as_str());
        proof {
            assert(pv.take(i + 1).drop_last() =~= pv.take(i as int));
            assert(pv.take(i + 1).last() == parts@[i as int]@);
            if i == 0 {
                assert(pv.take(1) =~= seq![parts@[0]@]);
            }
        }
        i = i + 1;
    }
    proof {
        assert(pv.take(i as int) =~= pv);
    }
    r
}

/// Clones an optional string.
pub fn clone_opt(o: &Option<String>) -> (r: Option<String>)
    ensures
        r.deep_view() == o.deep_view(),
{
    match o {
        Some(s) => Some(s.clone()),
        None => None,
    }
}

/// An owned optional string from an optional `&str`.
pub fn opt_owned(o: Option<&str>) -> (r: Option<String>)
    ensures
        r.deep_view() == opt_view(o),
{
    match o {
        Some(s) => Some(s.to_owned()),
        None => None,
    }
}

/// An optional string, borrowed.
pub fn opt_str(o: &Option<String>) -> (r: Option<&str>)
    ensures
        opt_view(r) == o.deep_view(),
{
    match o {
        Some(s) => Some(s.as_str()),
        None => None,
    }
}

/// The character view of an optional `&str`.
pub open spec fn opt_view(o: Option<&str>) -> Option<Seq<char>> {
    match o {
        Some(s) => Some(s@),
        None => None,
    }
}

/// Whether `s` starts with the character `c`.
pub open spec fn starts_with_char(s: Seq<char>, c: char) -> bool {
    s.len() > 0 && s[0] == c
}

/// Whether `c` is one of the characters that `char::is_whitespace` accepts
/// (Unicode `White_Space`).
pub open spec fn is_ws(c: char) -> bool {
    let u = c as u32;
    ||| 9 <= u <= 13
    ||| u == 32
    ||| u == 0x85
    ||| u == 0xA0
    ||| u == 0x1680
    ||| 0x2000 <= u <= 0x200A
    ||| u == 0x2028
    ||| u == 0x2029
    ||| u == 0x202F
    ||| u == 0x205F
    ||| u == 0x3000
}

/// `char::is_whitespace`.
pub fn char_is_ws(c: char) -> (r: bool)
    ensures
        r == is_ws(c),
{
    let u: u32 = c as u32;
    (9 <= u && u <= 13) || u == 32 || u == 0x85 || u == 0xA0 || u == 0x1680 || (0x2000 <= u && u
        <= 0x200A) || u == 0x2028 || u == 0x2029 || u == 0x202F || u == 0x205F || u == 0x3000
}

// ---------------------------------------------------------------------------
// Decimal numbers
// ---------------------------------------------------------------------------

/// Whether `c` is an ASCII decimal digit.
pub open spec fn is_digit(c: char) -> bool {
    '0' <= c && c <= '9'
}

/// The value of the ASCII decimal digit `c`.
pub open spec fn digit_value(c: char) -> nat {
    ((c as u32) - 48) as nat
}

/// The character of the decimal digit `d < 10`.
pub open spec fn digit_char(d: nat) -> char {
    if d == 0 {
        '0'
    } else if d == 1 {
        '1'
    } else if d == 2 {
        '2'
    } else if d == 3 {
        '3'
    } else if d == 4 {
        '4'
    } else if d == 5 {
        '5'
    } else if d == 6 {
        '6'
    } else if d == 7 {
        '7'
    } else if d == 8 {
        '8'
    } else {
        '9'
    }
}

/// The decimal representation of `n`, without leading zeros.
pub open spec fn decimal(n: nat) -> Seq<char>
    decreases n,
{
    if n < 10 {
        seq![digit_char(n)]
    } else {
        decimal(n / 10).push(digit_char(n % 10))
    }
}

pub(crate) fn digit_char_exec(d: u64) -> (c: char)
    requires
        d < 10,
    ensures
        c == digit_char(d as nat),
{
    if d == 0 {
        '0'
    } else if d == 1 {
        '1'
    } else if d == 2 {
        '2'
    } else if d == 3 {
        '3'
    } else if d == 4 {
        '4'
    } else if d == 5 {
        '5'
    } else if d == 6 {
        '6'
    } else if d == 7 {
        '7'
    } else if d == 8 {
        '8'
    } else {
        '9'
    }
}

/// Appends the decimal representation of `n` to `s`.
pub fn push_decimal(s: &mut String, n: u64)
    ensures
        final(s)@ == old(s)@ + decimal(n as nat),
    decreases n,
{
    if n >= 10 {
        push_decimal(s, n / 10);
    }
    push_char(s, digit_char_exec(n % 10));
    proof {
        if n >= 10 {
            assert(final(s)@ =~= old(s)@ + decimal(n as nat));
        } else {
            assert(final(s)@ =~= old(s)@ + decimal(n as nat));
        }
    }
}

/// The decimal representation of `n` (`u64::to_string`).
pub fn u64_to_string(n: u64) -> (r: String)
    ensures
        r@ == decimal(n as nat),
{
    let mut s = String::new();
    push_decimal(&mut s, n);
    proof {
        assert(s@ =~= decimal(n as nat));
    }
    s
}

/// The decimal representation of `n` (`usize::to_string`).
pub fn usize_to_string(n: usize) -> (r: String)
    ensures
        r@ == decimal(n as nat),
{
    u64_to_string(n as u64)
}

/// The value of a sequence of decimal digits.
pub open spec fn digits_value(s: Seq<char>) -> nat
    decreases s.len(),
{
    if s.len() == 0 {
        0
    } else {
        digits_value(s.drop_last()) * 10 + digit_value(s.last())
    }
}

/// Whether every character of `s` is a decimal digit.
pub open spec fn all_digits(s: Seq<char>) -> bool {
    forall|i: int| 0 <= i < s.len() ==> is_digit(#[trigger] s[i])
}

/// The digits that an unsigned integer parse reads: `s` without one leading
/// `+`.
pub open spec fn unsigned_body(s: Seq<char>) -> Seq<char> {
    if starts_with_char(s, '+') {
        s.drop_first()
    } else {
        s
    }
}

/// What `str::parse::<uN>` yields for `s`, where `max` is `uN::MAX`: an
/// optional `+`, then one or more decimal digits whose value is at most
/// `max`.
pub open spec fn parse_unsigned(s: Seq<char>, max: nat) -> Option<nat> {
    let body = unsigned_body(s);
    if body.len() == 0 || !all_digits(body) || digits_value(body) > max {
        None
    } else {
        Some(digits_value(body))
    }
}

/// A longer run of digits is worth at least as much as its prefix.
pub proof fn lemma_digits_value_prefix(s: Seq<char>, i: int)
    requires
        0 <= i <= s.len(),
    ensures
        digits_value(s.take(i)) <= digits_value(s),
    decreases s.len(),
{
    if i < s.len() {
        lemma_digits_value_prefix(s.drop_last(), i);
        assert(s.drop_last().take(i) =~= s.take(i));
    } else {
        assert(s.take(i) =~= s);
    }
}

/// Parses the unsigned decimal number in `v[from..]`, whose value must not
/// exceed `max`.
fn parse_digits(v: &Vec<char>, from: usize, max: u64) -> (r: Option<u64>)
    requires
        from <= v.len(),
        max >= 9,
    ensures
        ({
            let body = v@.skip(from as int);
            match r {
                Some(n) => body.len() > 0 && all_digits(body) && digits_value(body) <= max
                    && n == digits_value(body),
                None => body.len() == 0 || !all_digits(body) || digits_value(body) > max,
            }
        }),
{
    let ghost body = v@.skip(from as int);
    if from == v.len() {
        return None;
    }
    let mut acc: u64 = 0;
    let mut i: usize = from;
    while i < v.len()
        invariant
            from <= i <= v.len(),
            body == v@.skip(from as int),
            all_digits(body.take(i - from)),
            acc == digits_value(body.take(i - from)),
            acc <= max,
            max >= 9,
        decreases v.len() - i,
    {
        let c = v[i];
        proof {
            assert(body[i - from] == c);
        }
        if !('0' <= c && c <= '9') {
            proof {
                assert(!is_digit(body[i - from]));
            }
            return None;
        }
        let d: u64 = (c as u32 - 48) as u64;
        let ghost prefix = body.take(i - from + 1);
        proof {
            assert(prefix.drop_last() =~= body.take(i - from));
            assert(prefix.last() == c);
            assert(digits_value(prefix) == acc * 10 + d);
        }
        let too_big = acc > (max - d) / 10;
        if too_big {
            proof {
                assert(acc * 10 + d > max) by (nonlinear_arith)
                    requires
                        acc > (max - d) / 10,
                        d <= 9,
                        max >= 9,
                ;
                lemma_digits_value_prefix(body, i - from + 1);
            }
            return None;
        }
        proof {
            assert(acc * 10 + d <= max) by (nonlinear_arith)
                requires
                    acc <= (max - d) / 10,
                    d <= 9,
            ;
        }
        acc = acc * 10 + d;
        i = i + 1;
        proof {
            assert forall|j: int| 0 <= j < prefix.len() implies is_digit(#[trigger] prefix[j]) by {
                if j < prefix.len() - 1 {
                    assert(prefix[j] == body.take(i - 1 - from)[j]);
                }
            }
        }
    }
    proof {
        assert(body.take(i - from) =~= body);
    }
    Some(acc)
}

/// `str::parse::<u64>`.
pub fn parse_u64(s: &str) -> (r: Option<u64>)
    ensures
        r matches Some(n) ==> parse_unsigned(s@, u64::MAX as nat) == Some(n as nat),
        r is None ==> parse_unsigned(s@, u64::MAX as nat) is None,
{
    let v = chars_of(s);
    let from: usize = if v.len() > 0 && v[0] == '+' {
        1
    } else {
        0
    };
    proof {
        assert(unsigned_body(s@) =~= v@.skip(from as int));
    }
    parse_digits(&v, from, u64::MAX)
}

/// `str::parse::<usize>`.
pub fn parse_usize(s: &str) -> (r: Option<usize>)
    ensures
        r matches Some(n) ==> parse_unsigned(s@, usize::MAX as nat) == Some(n as nat),
        r is None ==> parse_unsigned(s@, usize::MAX as nat) is None,
{
    let v = chars_of(s);
    let from: usize = if v.len() > 0 && v[0] == '+' {
        1
    } else {
        0
    };
    proof {
        assert(unsigned_body(s@) =~= v@.skip(from as int));
    }
    let max: u64 = usize::MAX as u64;
    match parse_digits(&v, from, max) {
        Some(n) => Some(n as usize),
        None => None,
    }
}

/// `str::parse::<u16>`.
pub fn parse_u16(s: &str) -> (r: Option<u16>)
    ensures
        r matches Some(n) ==> parse_unsigned(s@, u16::MAX as nat) == Some(n as nat),
        r is None ==> parse_unsigned(s@, u16::MAX as nat) is None,
{
    let v = chars_of(s);
    let from: usize = if v.len() > 0 && v[0] == '+' {
        1
    } else {
        0
    };
    proof {
        assert(unsigned_body(s@) =~= v@.skip(from as int));
    }
    match parse_digits(&v, from, 65535) {
        Some(n) => Some(n as u16),
        None => None,
    }
}

/// What `str::parse::<i64>` followed by `i64::unsigned_abs` yields for `s`:
/// an optional sign, then one or more decimal digits; the value must lie in
/// `i64`'s range (`2^63` for a negative number, `2^63 - 1` otherwise).
pub open spec fn parse_i64_abs(s: Seq<char>) -> Option<nat> {
    if starts_with_char(s, '-') {
        let body = s.drop_first();
        if body.len() == 0 || !all_digits(body) || digits_value(body) > 0x8000_0000_0000_0000 {
            None
        } else {
            Some(digits_value(body))
        }
    } else {
        parse_unsigned(s, 0x7FFF_FFFF_FFFF_FFFF)
    }
}

/// `str::parse::<i64>` followed by `i64::unsigned_abs`.
pub fn parse_i64_abs_exec(s: &str) -> (r: Option<u64>)
    ensures
        r matches Some(n) ==> parse_i64_abs(s@) == Some(n as nat),
        r is None ==> parse_i64_abs(s@) is None,
{
    let v = chars_of(s);
    if v.len() > 0 && v[0] == '-' {
        proof {
            assert(s@.drop_first() =~= v@.skip(1));
        }
        parse_digits(&v, 1, 0x8000_0000_0000_0000)
    } else {
        let from: usize = if v.len() > 0 && v[0] == '+' {
            1
        } else {
            0
        };
        proof {
            assert(unsigned_body(s@) =~= v@.skip(from as int));
        }
        parse_digits(&v, from, 0x7FFF_FFFF_FFFF_FFFF)
    }
}

// ---------------------------------------------------------------------------
// Ordering of strings
// ---------------------------------------------------------------------------

/// The order of `String`s (and of `BTreeMap<String, _>` keys): lexicographic
/// by character code, a proper prefix coming first.
pub open spec fn str_lt(a: Seq<char>, b: Seq<char>) -> bool
    decreases a.len(),
{
    if b.len() == 0 {
        false
    } else if a.len() == 0 {
        true
    } else if a[0] != b[0] {
        a[0] < b[0]
    } else {
        str_lt(a.drop_first(), b.drop_first())
    }
}

/// No string comes before itself.
pub proof fn lemma_str_lt_irreflexive(a: Seq<char>)
    ensures
        !str_lt(a, a),
    decreases a.len(),
{
    if a.len() > 0 {
        lemma_str_lt_irreflexive(a.drop_first());
    }
}

/// The string order is transitive.
pub proof fn lemma_str_lt_transitive(a: Seq<char>, b: Seq<char>, c: Seq<char>)
    requires
        str_lt(a, b),
        str_lt(b, c),
    ensures
        str_lt(a, c),
    decreases a.len(),
{
    if a.len() > 0 && b.len() > 0 && c.len() > 0 && a[0] == b[0] && b[0] == c[0] {
        lemma_str_lt_transitive(a.drop_first(), b.drop_first(), c.drop_first());
    }
}

/// Two different strings are ordered one way or the other, never both.
pub proof fn lemma_str_lt_total(a: Seq<char>, b: Seq<char>)
    ensures
        a != b ==> (str_lt(a, b) || str_lt(b, a)),
        !(str_lt(a, b) && str_lt(b, a)),
    decreases a.len(),
{
    if a.len() > 0 && b.len() > 0 && a[0] == b[0] {
        lemma_str_lt_total(a.drop_first(), b.drop_first());
        if a != b {
            assert(a.drop_first() != b.drop_first()) by {
                if a.drop_first() == b.drop_first() {
                    assert forall|i: int| 0 <= i < a.len() implies a[i] == b[i] by {
                        if i > 0 {
                            assert(a[i] == a.drop_first()[i - 1]);
                            assert(b[i] == b.drop_first()[i - 1]);
                        }
                    }
                    assert(a =~= b);
                }
            }
        }
    } else if a.len() == 0 && b.len() == 0 {
        assert(a =~= b);
    } else if a.len() > 0 && b.len() > 0 {
        assert(a[0] != b[0]);
    }
}

/// Whether `a` comes before `b` in the string order.
pub fn str_less(a: &str, b: &str) -> (r: bool)
    ensures
        r == str_lt(a@, b@),
{
    let x = chars_of(a);
    let y = chars_of(b);
    let mut i: usize = 0;
    proof {
        assert(a@.skip(0) =~= a@);
        assert(b@.skip(0) =~= b@);
    }
    while i < x.len() && i < y.len()
        invariant
            x@ == a@,
            y@ == b@,
            i <= x.len(),
            i <= y.len(),
            str_lt(a@, b@) == str_lt(a@.skip(i as int), b@.skip(i as int)),
        decreases x.len() - i,
    {
        proof {
            assert(a@.skip(i as int)[0] == x@[i as int]);
            assert(b@.skip(i as int)[0] == y@[i as int]);
            assert(a@.skip(i as int).drop_first() =~= a@.skip(i + 1));
            assert(b@.skip(i as int).drop_first() =~= b@.skip(i + 1));
        }
        if x[i] != y[i] {
            return x[i] < y[i];
        }
        i = i + 1;
    }
    x.len() < y.len()
}

// ---------------------------------------------------------------------------
// Splitting and searching strings
// ---------------------------------------------------------------------------

/// The piece in progress as a list of at most one token.
pub open spec fn flush(cur: Seq<char>) -> Seq<Seq<char>> {
    if cur.len() > 0 {
        seq![cur]
    } else {
        seq![]
    }
}

/// The whitespace-separated tokens of `s`, the piece `cur` being already
/// under way.
pub open spec fn tokens_from(s: Seq<char>, cur: Seq<char>) -> Seq<Seq<char>>
    decreases s.len(),
{
    if s.len() == 0 {
        flush(cur)
    } else if is_ws(s[0]) {
        flush(cur) + tokens_from(s.drop_first(), seq![])
    } else {
        tokens_from(s.drop_first(), cur.push(s[0]))
    }
}

/// The maximal runs of non-whitespace characters of `s`, in order.
pub open spec fn ws_tokens(s: Seq<char>) -> Seq<Seq<char>> {
    tokens_from(s, seq![])
}

/// The whitespace-separated tokens of a string.
pub fn split_ws(s: &str) -> (r: Vec<String>)
    ensures
        views_of(r@) == ws_tokens(s@),
{
    let chars = chars_of(s);
    let ghost cs = chars@;
    let mut out: Vec<String> = Vec::new();
    let mut cur: Vec<char> = Vec::new();
    let mut i: usize = 0;
    proof {
        assert(cs.skip(0) =~= cs);
    }
    while i < chars.len()
        invariant
            i <= chars.len(),
            cs == chars@,
            tokens_from(cs, seq![]) == views_of(out@) + tokens_from(cs.skip(i as int), cur@),
        decreases chars.len() - i,
    {
        let c = chars[i];
        let ghost rest = cs.skip(i as int);
        proof {
            assert(rest.drop_first() =~= cs.skip(i + 1));
            assert(rest[0] == c);
        }
        if char_is_ws(c) {
            let ghost before = views_of(out@);
            let ghost cur0 = cur@;
            if cur.len() > 0 {
                out.push(string_of(&cur));
                proof {
                    assert(views_of(out@) =~= before + flush(cur0));
                }
            } else {
                proof {
                    assert(views_of(out@) + flush(cur0) =~= views_of(out@));
                }
            }
            cur = Vec::new();
            proof {
                assert(views_of(out@) + tokens_from(cs.skip(i + 1), cur@) =~= tokens_from(cs, seq![]));
            }
        } else {
            cur.push(c);
        }
        i = i + 1;
    }
    proof {
        assert(cs.skip(i as int) =~= Seq::<char>::empty());
    }
    let ghost before = views_of(out@);
    if cur.len() > 0 {
        out.push(string_of(&cur));
    }
    proof {
        assert(views_of(out@) =~= before + flush(cur@));
        assert(views_of(out@) =~= tokens_from(cs, seq![]));
    }
    out
}

/// `s` with every `from` turned into `to`.
pub open spec fn replace_char(s: Seq<char>, from: char, to: char) -> Seq<char> {
    s.map_values(|c: char| if c == from { to } else { c })
}

/// A copy of `s` with every `from` turned into `to`.
pub fn replace_char_exec(s: &str, from: char, to: char) -> (r: String)
    ensures
        r@ == replace_char(s@, from, to),
{
    let chars = chars_of(s);
    let mut r = String::new();
    let mut i: usize = 0;
    while i < chars.len()
        invariant
            i <= chars.len(),
            chars@ == s@,
            r@ == replace_char(chars@.take(i as int), from, to),
        decreases chars.len() - i,
    {
        let c = chars[i];
        push_char(&mut r, if c == from { to } else { c });
        proof {
            assert(r@ =~= replace_char(chars@.take(i + 1), from, to));
        }
        i = i + 1;
    }
    proof {
        assert(chars@.take(i as int) =~= chars@);
    }
    r
}

/// `s` split at its first `c`: the part before and the part after.
pub open spec fn split_once(s: Seq<char>, c: char) -> Option<(Seq<char>, Seq<char>)> {
    match first_index(s, equals(c)) {
        Some(i) => Some((s.take(i), s.skip(i + 1))),
        None => None,
    }
}

/// Splits a string at its first `c`.
pub fn split_once_exec(s: &str, c: char) -> (r: Option<(String, String)>)
    ensures
        match (r, split_once(s@, c)) {
            (Some((a, b)), Some((x, y))) => a@ == x && b@ == y,
            (None, None) => true,
            _ => false,
        },
{
    let chars = chars_of(s);
    let mut i: usize = 0;
    while i < chars.len()
        invariant
            i <= chars.len(),
            chars@ == s@,
            forall|j: int| 0 <= j < i ==> !equals(c)(#[trigger] chars@[j]),
        decreases chars.len() - i,
    {
        if chars[i] == c {
            proof {
                lemma_first_index_is(chars@, equals(c), i as int);
                assert(chars@.subrange(0, i as int) =~= chars@.take(i as int));
                assert(chars@.subrange(i + 1, chars@.len() as int) =~= chars@.skip(i + 1));
            }
            return Some((string_of_range(&chars, 0, i), string_of_range(&chars, i + 1, chars.len())));
        }
        i = i + 1;
    }
    proof {
        lemma_first_index_none(chars@, equals(c));
    }
    None
}

/// A piece ended by a newline, without the carriage return before it.
pub open spec fn strip_cr(s: Seq<char>) -> Seq<char> {
    if s.len() > 0 && s.last() == '\r' {
        s.drop_last()
    } else {
        s
    }
}

/// The lines of `s`, the line `cur` being already under way: lines end at
/// `\n` (or `\r\n`), and a last line without an ending counts only when it
/// is not empty.
pub open spec fn lines_from(s: Seq<char>, cur: Seq<char>) -> Seq<Seq<char>>
    decreases s.len(),
{
    if s.len() == 0 {
        flush(cur)
    } else if s[0] == '\n' {
        seq![strip_cr(cur)] + lines_from(s.drop_first(), seq![])
    } else {
        lines_from(s.drop_first(), cur.push(s[0]))
    }
}

/// The lines of a string.
pub open spec fn lines_of(s: Seq<char>) -> Seq<Seq<char>> {
    lines_from(s, seq![])
}

/// The lines of a string, as `str::lines` gives them.
pub fn split_lines(s: &str) -> (r: Vec<String>)
    ensures
        views_of(r@) == lines_of(s@),
{
    let chars = chars_of(s);
    let ghost cs = chars@;
    let mut out: Vec<String> = Vec::new();
    let mut cur: Vec<char> = Vec::new();
    let mut i: usize = 0;
    proof {
        assert(cs.skip(0) =~= cs);
    }
    while i < chars.len()
        invariant
            i <= chars.len(),
            cs == chars@,
            lines_from(cs, seq![]) == views_of(out@) + lines_from(cs.skip(i as int), cur@),
        decreases chars.len() - i,
    {
        let c = chars[i];
        let ghost rest = cs.skip(i as int);
        proof {
            assert(rest.drop_first() =~= cs.skip(i + 1));
            assert(rest[0] == c);
        }
        if c == '\n' {
            let n = cur.len();
            let end = if n > 0 && cur[n - 1] == '\r' { n - 1 } else { n };
            let line = string_of_range(&cur, 0, end);
            proof {
                assert(line@ =~= strip_cr(cur@));
            }
            let ghost before = views_of(out@);
            let ghost cur0 = cur@;
            out.push(line);
            cur = Vec::new();
            proof {
                assert(views_of(out@) =~= before.push(strip_cr(cur0)));
                assert(views_of(out@) + lines_from(cs.skip(i + 1), cur@) =~= lines_from(cs, seq![]));
            }
        } else {
            cur.push(c);
        }
        i = i + 1;
    }
    proof {
        assert(cs.skip(i as int) =~= Seq::<char>::empty());
    }
    if cur.len() > 0 {
        out.push(string_of(&cur));
    }
    proof {
        assert(views_of(out@) =~= lines_from(cs, seq![]));
    }
    out
}

/// Whether `c` is not whitespace.
pub open spec fn not_ws() -> spec_fn(char) -> bool {
    |c: char| !is_ws(c)
}

/// `s` without its leading and trailing whitespace.
pub open spec fn trim(s: Seq<char>) -> Seq<char> {
    match first_index(s, not_ws()) {
        None => seq![],
        Some(a) => {
            let b = s.len() - 1 - first_index(s.reverse(), not_ws())->0;
            s.subrange(a, b + 1)
        },
    }
}

/// A string without its leading and trailing whitespace.
pub fn trim_exec(s: &str) -> (r: String)
    ensures
        r@ == trim(s@),
{
    let chars = chars_of(s);
    let ghost cs = chars@;
    let n = chars.len();
    let mut a: usize = 0;
    while a < n && char_is_ws(chars[a])
        invariant
            a <= n,
            n == chars.len(),
            cs == chars@,
            forall|j: int| 0 <= j < a ==> !not_ws()(#[trigger] cs[j]),
        decreases n - a,
    {
        a = a + 1;
    }
    if a == n {
        proof {
            lemma_first_index_none(cs, not_ws());
        }
        return String::new();
    }
    proof {
        lemma_first_index_is(cs, not_ws(), a as int);
    }
    let mut b: usize = n;
    while b > a && char_is_ws(chars[b - 1])
        invariant
            a < n,
            a < b <= n,
            n == chars.len(),
            cs == chars@,
            !is_ws(cs[a as int]),
            forall|j: int| b <= j < n ==> !not_ws()(#[trigger] cs[j]),
        decreases b,
    {
        b = b - 1;
    }
    proof {
        let rv = cs.reverse();
        assert(b > a);
        assert forall|j: int| 0 <= j < n - b implies !not_ws()(#[trigger] rv[j]) by {
            assert(rv[j] == cs[n - 1 - j]);
        }
        assert(rv[n - b] == cs[b - 1]);
        lemma_first_index_is(rv, not_ws(), n - b);
    }
    string_of_range(&chars, a, b)
}

/// Whether `q` occurs in `s` starting at `i`.
pub open spec fn occurs_at(s: Seq<char>, q: Seq<char>, i: int) -> bool {
    0 <= i && i + q.len() <= s.len() && s.subrange(i, i + q.len()) == q
}

/// Whether `q` occurs in `s`.
pub open spec fn contains_sub(s: Seq<char>, q: Seq<char>) -> bool {
    exists|i: int| #[trigger] occurs_at(s, q, i)
}

/// Whether `q` occurs in `s`.
pub fn contains_str(s: &str, q: &str) -> (r: bool)
    ensures
        r == contains_sub(s@, q@),
{
    let a = chars_of(s);
    let b = chars_of(q);
    if b.len() > a.len() {
        proof {
            assert forall|i: int| !occurs_at(s@, q@, i) by {}
        }
        return false;
    }
    let mut i: usize = 0;
    while i <= a.len() - b.len()
        invariant
            b.len() <= a.len(),
            a@ == s@,
            b@ == q@,
            i <= a.len() - b.len() + 1,
            forall|k: int| 0 <= k < i ==> !#[trigger] occurs_at(s@, q@, k),
        decreases a.len() - i,
    {
        let mut j: usize = 0;
        while j < b.len() && a[i + j] == b[j]
            invariant
                i + b.len() <= a.len(),
                j <= b.len(),
                forall|x: int| 0 <= x < j ==> a@[i + x] == b@[x],
            decreases b.len() - j,
        {
            j = j + 1;
        }
        if j == b.len() {
            proof {
                assert(a@.subrange(i as int, i + b.len()) =~= b@);
                assert(occurs_at(s@, q@, i as int));
            }
            return true;
        }
        proof {
            assert(a@[i + j] != b@[j as int]);
            if occurs_at(s@, q@, i as int) {
                assert(a@.subrange(i as int, i + b.len())[j as int] == a@[i + j]);
            }
        }
        i = i + 1;
    }
    proof {
        assert forall|k: int| !occurs_at(s@, q@, k) by {
            if 0 <= k < i {
            }
        }
    }
    false
}

/// The ASCII lower-case form of a character.
pub open spec fn ascii_lower(c: char) -> char {
    if 'A' <= c <= 'Z' {
        ((c as u8) + 32) as char
    } else {
        c
    }
}

/// The ASCII lower-case form of a string.
pub open spec fn lower(s: Seq<char>) -> Seq<char> {
    s.map_values(|c: char| ascii_lower(c))
}

/// The ASCII lower-case form of a string.
pub fn to_lower(s: &str) -> (r: String)
    ensures
        r@ == lower(s@),
{
    let chars = chars_of(s);
    let mut r = String::new();
    let mut i: usize = 0;
    while i < chars.len()
        invariant
            i <= chars.len(),
            chars@ == s@,
            r@ == lower(chars@.take(i as int)),
        decreases chars.len() - i,
    {
        let c = chars[i];
        let d = if 'A' <= c && c <= 'Z' {
            let b: u8 = c as u8;
            (b + 32) as char
        } else {
            c
        };
        push_char(&mut r, d);
        proof {
            assert(r@ =~= lower(chars@.take(i + 1)));
        }
        i = i + 1;
    }
    proof {
        assert(chars@.take(i as int) =~= chars@);
    }
    r
}

} // verus!
