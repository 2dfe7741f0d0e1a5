//! Character-level building blocks shared by the decoder and the request
//! workflow: whitespace trimming, splitting at the last space, unsigned
//! decimal numbers (both directions) and the quoting of a file name.
use vstd::prelude::*;
use vstd::std_specs::iter::IteratorSpec;

verus! {

broadcast use vstd::string::next_postcondition, vstd::string::axiom_spec_iter;

/// Unicode `White_Space`, the set that `str::trim` removes.
pub open spec fn is_whitespace(c: char) -> bool {
    let u = c as u32;
    (0x9 <= u && u <= 0xd) || u == 0x20 || u == 0x85 || u == 0xa0 || u == 0x1680 || (0x2000 <= u
        && u <= 0x200a) || u == 0x2028 || u == 0x2029 || u == 0x202f || u == 0x205f || u == 0x3000
}

pub open spec fn trim_start(s: Seq<char>) -> Seq<char>
    decreases s.len(),
{
    if s.len() > 0 && is_whitespace(s[0]) {
        trim_start(s.drop_first())
    } else {
        s
    }
}

pub open spec fn trim_end(s: Seq<char>) -> Seq<char>
    decreases s.len(),
{
    if s.len() > 0 && is_whitespace(s.last()) {
        trim_end(s.drop_last())
    } else {
        s
    }
}

/// `s` without its leading and trailing whitespace.
pub open spec fn trim(s: Seq<char>) -> Seq<char> {
    trim_end(trim_start(s))
}

/// Position of the last space of `s`, if any.
pub open spec fn last_space(s: Seq<char>) -> Option<int>
    decreases s.len(),
{
    if s.len() == 0 {
        None
    } else if s.last() == ' ' {
        Some(s.len() - 1)
    } else {
        last_space(s.drop_last())
    }
}

/// `s` split around its last space: what stands before it and what after.
pub open spec fn rsplit_space(s: Seq<char>) -> Option<(Seq<char>, Seq<char>)> {
    match last_space(s) {
        Some(i) => Some((s.take(i), s.skip(i + 1))),
        None => None,
    }
}

pub open spec fn is_digit(c: char) -> bool {
    '0' <= c && c <= '9'
}

pub open spec fn digit_value(c: char) -> nat {
    (c as u32 - '0' as u32) as nat
}

pub open spec fn all_digits(s: Seq<char>) -> bool {
    forall|i: int| 0 <= i < s.len() ==> is_digit(#[trigger] s[i])
}

/// The number that the decimal digits `s` write, most significant first.
pub open spec fn digits_value(s: Seq<char>) -> nat
    decreases s.len(),
{
    if s.len() == 0 {
        0
    } else {
        digits_value(s.drop_last()) * 10 + digit_value(s.last())
    }
}

/// The digits of an unsigned number: one leading `+` is allowed.
pub open spec fn unsigned_digits(s: Seq<char>) -> Seq<char> {
    if s.len() > 0 && s[0] == '+' {
        s.drop_first()
    } else {
        s
    }
}

/// The unsigned integer that `s` writes in decimal, if it is one and at most `max`.
pub open spec fn parse_unsigned(s: Seq<char>, max: nat) -> Option<nat> {
    let d = unsigned_digits(s);
    if d.len() > 0 && all_digits(d) && digits_value(d) <= max {
        Some(digits_value(d))
    } else {
        None
    }
}

/// `s` split before its last space-separated field, and the unsigned
/// number at most `max` that this field writes.
pub open spec fn split_last_number(s: Seq<char>, max: nat) -> Option<(Seq<char>, nat)> {
    match rsplit_space(s) {
        None => None,
        Some((rest, field)) => match parse_unsigned(field, max) {
            None => None,
            Some(x) => Some((rest, x)),
        },
    }
}

pub open spec fn digit_char(d: nat) -> char {
    seq!['0', '1', '2', '3', '4', '5', '6', '7', '8', '9'][d as int]
}

/// The shortest decimal writing of `n`.
pub open spec fn decimal(n: nat) -> Seq<char>
    decreases n,
{
    if n < 10 {
        seq![digit_char(n)]
    } else {
        decimal(n / 10).push(digit_char(n % 10))
    }
}

/// `s` with one leading and one trailing `"` removed, each where present.
pub open spec fn unquote(s: Seq<char>) -> Seq<char> {
    let s1 = if s.len() > 0 && s[0] == '"' {
        s.drop_first()
    } else {
        s
    };
    if s1.len() > 0 && s1.last() == '"' {
        s1.drop_last()
    } else {
        s1
    }
}

/// `s` with each `\"`, read left to right, turned into `"`.
pub open spec fn unescape(s: Seq<char>) -> Seq<char>
    decreases s.len(),
{
    if s.len() == 0 {
        s
    } else if s.len() >= 2 && s[0] == '\\' && s[1] == '"' {
        seq!['"'] + unescape(s.skip(2))
    } else {
        seq![s[0]] + unescape(s.skip(1))
    }
}

/// `s` with a `\` put before each `"`.
pub open spec fn escape(s: Seq<char>) -> Seq<char>
    decreases s.len(),
{
    if s.len() == 0 {
        s
    } else if s[0] == '"' {
        seq!['\\', '"'] + escape(s.skip(1))
    } else {
        seq![s[0]] + escape(s.skip(1))
    }
}

pub proof fn lemma_digit_char(d: nat)
    requires
        d < 10,
    ensures
        is_digit(digit_char(d)),
        digit_value(digit_char(d)) == d,
{
    let ds = seq!['0', '1', '2', '3', '4', '5', '6', '7', '8', '9'];
    assert(ds[0] == '0' && ds[1] == '1' && ds[2] == '2' && ds[3] == '3' && ds[4] == '4');
    assert(ds[5] == '5' && ds[6] == '6' && ds[7] == '7' && ds[8] == '8' && ds[9] == '9');
}

/// `decimal(n)` is a non-empty run of digits that writes `n`.
pub proof fn lemma_decimal(n: nat)
    ensures
        decimal(n).len() > 0,
        all_digits(decimal(n)),
        digits_value(decimal(n)) == n,
    decreases n,
{
    if n < 10 {
        lemma_digit_char(n);
        assert(decimal(n).drop_last() =~= Seq::<char>::empty());
        assert(digits_value(Seq::<char>::empty()) == 0);
    } else {
        lemma_decimal(n / 10);
        lemma_digit_char(n % 10);
        let d = decimal(n);
        assert(d.drop_last() =~= decimal(n / 10));
        assert(d.last() == digit_char(n % 10));
        assert(digits_value(d) == (n / 10) * 10 + n % 10);
        assert forall|i: int| 0 <= i < d.len() implies is_digit(#[trigger] d[i]) by {
            if i < d.len() - 1 {
                assert(d[i] == decimal(n / 10)[i]);
            }
        }
    }
}

/// A number written by `decimal` parses back to itself.
pub proof fn lemma_parse_decimal(n: nat, max: nat)
    requires
        n <= max,
    ensures
        parse_unsigned(decimal(n), max) == Some(n),
{
    lemma_decimal(n);
    assert(is_digit(decimal(n)[0]));
}

/// Appending characters other than spaces leaves the last space where it was.
pub proof fn lemma_last_space_append(p: Seq<char>, d: Seq<char>)
    requires
        forall|i: int| 0 <= i < d.len() ==> d[i] != ' ',
    ensures
        last_space(p + d) == last_space(p),
    decreases d.len(),
{
    if d.len() > 0 {
        assert((p + d).drop_last() =~= p + d.drop_last());
        assert((p + d).last() == d.last());
        lemma_last_space_append(p, d.drop_last());
    } else {
        assert(p + d =~= p);
    }
}

/// `p`, a space and a run of digits split at that space.
pub proof fn lemma_split_last_number(p: Seq<char>, n: nat, max: nat)
    requires
        n <= max,
    ensures
        split_last_number(p + seq![' '] + decimal(n), max) == Some((p, n)),
{
    let d = decimal(n);
    lemma_decimal(n);
    let q = p + seq![' '];
    assert forall|i: int| 0 <= i < d.len() implies d[i] != ' ' by {
        assert(is_digit(d[i]));
    }
    lemma_last_space_append(q, d);
    assert(q.drop_last() =~= p);
    let s = q + d;
    assert(s.take(p.len() as int) =~= p);
    assert(s.skip(p.len() as int + 1) =~= d);
    lemma_parse_decimal(n, max);
}

/// A sequence that neither starts nor ends with whitespace is its own trim.
pub proof fn lemma_trim_unchanged(s: Seq<char>)
    requires
        s.len() > 0,
        !is_whitespace(s[0]),
        !is_whitespace(s.last()),
    ensures
        trim(s) == s,
{
}

/// Unescaping undoes escaping.
pub proof fn lemma_unescape_escape(s: Seq<char>)
    ensures
        unescape(escape(s)) == s,
        escape(s).len() > 0 ==> escape(s)[0] != '"',
    decreases s.len(),
{
    if s.len() > 0 {
        lemma_unescape_escape(s.skip(1));
        let e = escape(s.skip(1));
        if s[0] == '"' {
            let x = seq!['\\', '"'] + e;
            assert(x.skip(2) =~= e);
            assert(seq!['"'] + s.skip(1) =~= s);
        } else {
            let x = seq![s[0]] + e;
            assert(x.skip(1) =~= e);
            assert(seq![s[0]] + s.skip(1) =~= s);
        }
    }
}

/// A split at the last space puts back together with that space.
pub proof fn lemma_split_last_number_parts(s: Seq<char>, max: nat)
    ensures
        match split_last_number(s, max) {
            Some((rest, x)) => exists|field: Seq<char>|
                s == rest + seq![' '] + field && #[trigger] parse_unsigned(field, max) == Some(x),
            None => true,
        },
{
    lemma_last_space_at(s);
    if let Some(i) = last_space(s) {
        let field = s.skip(i + 1);
        assert(s =~= s.take(i) + seq![' '] + field);
    }
}

/// The last space found is a space of `s`.
pub proof fn lemma_last_space_at(s: Seq<char>)
    ensures
        last_space(s) matches Some(i) ==> 0 <= i < s.len() && s[i] == ' ',
    decreases s.len(),
{
    if s.len() > 0 && s.last() != ' ' {
        lemma_last_space_at(s.drop_last());
    }
}

/// Relies on `String::push`: the character is appended at the end.
#[verifier::external_body]
pub(crate) fn push_char(s: &mut String, c: char)
    ensures
        final(s)@ == old(s)@.push(c),
{
    s.push(c);
}

/// The characters of `s`, in order.
pub fn chars_of(s: &str) -> (r: Vec<char>)
    ensures
        r@ == s@,
{
    let mut out: Vec<char> = Vec::new();
    let mut it = s.chars();
    loop
        invariant
            it.obeys_prophetic_iter_laws(),
            out@ + it.remaining() == s@,
            it.decrease() is Some,
        ensures
            out@ == s@,
        decreases it.decrease()->0,
    {
        match it.next() {
            Some(c) => {
                out.push(c);
            },
            None => {
                assert(out@ + it.remaining() =~= out@);
                break ;
            },
        }
    }
    out
}

pub fn is_whitespace_char(c: char) -> (r: bool)
    ensures
        r == is_whitespace(c),
{
    let u = c as u32;
    (0x9 <= u && u <= 0xd) || u == 0x20 || u == 0x85 || u == 0xa0 || u == 0x1680 || (0x2000 <= u
        && u <= 0x200a) || u == 0x2028 || u == 0x2029 || u == 0x202f || u == 0x205f || u == 0x3000
}

/// Bounds of `v` with its leading and trailing whitespace left out.
pub fn trim_bounds(v: &Vec<char>) -> (r: (usize, usize))
    ensures
        r.0 <= r.1 <= v.len(),
        v@.subrange(r.0 as int, r.1 as int) == trim(v@),
{
    let n = v.len();
    let mut lo: usize = 0;
    assert(v@.subrange(0, n as int) =~= v@);
    while lo < n && is_whitespace_char(v[lo])
        invariant
            lo <= n == v.len(),
            trim_start(v@) == trim_start(v@.subrange(lo as int, n as int)),
        decreases n - lo,
    {
        assert(v@.subrange(lo as int, n as int).drop_first() =~= v@.subrange(
            lo + 1,
            n as int,
        ));
        lo = lo + 1;
    }
    assert(trim_start(v@) == v@.subrange(lo as int, n as int));
    let mut hi: usize = n;
    while hi > lo && is_whitespace_char(v[hi - 1])
        invariant
            lo <= hi <= n == v.len(),
            trim(v@) == trim_end(v@.subrange(lo as int, hi as int)),
        decreases hi,
    {
        assert(v@.subrange(lo as int, hi as int).drop_last() =~= v@.subrange(
            lo as int,
            hi - 1,
        ));
        hi = hi - 1;
    }
    (lo, hi)
}

/// The last space of `v` in `[a, b)`.
pub fn last_space_in(v: &Vec<char>, a: usize, b: usize) -> (r: Option<usize>)
    requires
        a <= b <= v.len(),
    ensures
        match r {
            Some(j) => a <= j < b && last_space(v@.subrange(a as int, b as int)) == Some(j - a),
            None => last_space(v@.subrange(a as int, b as int)) is None,
        },
{
    let mut i: usize = b;
    while i > a
        invariant
            a <= i <= b <= v.len(),
            last_space(v@.subrange(a as int, b as int)) == last_space(
                v@.subrange(a as int, i as int),
            ),
        decreases i,
    {
        if v[i - 1] == ' ' {
            return Some(i - 1);
        }
        assert(v@.subrange(a as int, i as int).drop_last() =~= v@.subrange(a as int, i - 1));
        i = i - 1;
    }
    None
}

/// `split_last_number` on `v[a..b]`: the position of the space, and the number.
pub fn split_last_number_in(v: &Vec<char>, a: usize, b: usize, max: u64) -> (r: Option<
    (usize, u64),
>)
    requires
        a <= b <= v.len(),
    ensures
        match r {
            Some((j, x)) => a <= j < b && split_last_number(
                v@.subrange(a as int, b as int),
                max as nat,
            ) == Some((v@.subrange(a as int, j as int), x as nat)),
            None => split_last_number(v@.subrange(a as int, b as int), max as nat) is None,
        },
{
    let j = match last_space_in(v, a, b) {
        Some(j) => j,
        None => return None,
    };
    assert(v@.subrange(a as int, b as int).take(j - a) =~= v@.subrange(a as int, j as int));
    assert(v@.subrange(a as int, b as int).skip(j - a + 1) =~= v@.subrange(j + 1, b as int));
    match parse_unsigned_in(v, j + 1, b, max) {
        Some(x) => Some((j, x)),
        None => None,
    }
}

proof fn lemma_prefix_value_bound(d: Seq<char>, k: int)
    requires
        0 <= k <= d.len(),
        all_digits(d),
    ensures
        digits_value(d.take(k)) <= digits_value(d),
    decreases d.len() - k,
{
    if k < d.len() {
        lemma_prefix_value_bound(d, k + 1);
        assert(d.take(k + 1).drop_last() =~= d.take(k));
    } else {
        assert(d.take(k) =~= d);
    }
}

/// The unsigned number that `v[a..b]` writes in decimal, if it is one and at most `max`.
pub fn parse_unsigned_in(v: &Vec<char>, a: usize, b: usize, max: u64) -> (r: Option<u64>)
    requires
        a <= b <= v.len(),
    ensures
        match r {
            Some(x) => parse_unsigned(v@.subrange(a as int, b as int), max as nat) == Some(
                x as nat,
            ),
            None => parse_unsigned(v@.subrange(a as int, b as int), max as nat) is None,
        },
{
    let ghost s = v@.subrange(a as int, b as int);
    let mut start = a;
    if a < b && v[a] == '+' {
        start = a + 1;
    }
    let ghost d = v@.subrange(start as int, b as int);
    assert(d =~= unsigned_digits(s));
    if start == b {
        return None;
    }
    let mut acc: u64 = 0;
    let mut i = start;
    while i < b
        invariant
            start <= i <= b <= v.len(),
            d == v@.subrange(start as int, b as int),
            d == unsigned_digits(v@.subrange(a as int, b as int)),
            d.len() > 0,
            all_digits(d.take(i - start)),
            acc as nat == digits_value(d.take(i - start)),
            acc <= max,
        decreases b - i,
    {
        let c = v[i];
        if !('0' <= c && c <= '9') {
            assert(d[i - start] == c);
            assert(!all_digits(d));
            return None;
        }
        let dv = (c as u32 - '0' as u32) as u64;
        assert(d.take(i - start + 1).drop_last() =~= d.take(i - start));
        assert(d.take(i - start + 1).last() == c);
        if dv > max || acc > (max - dv) / 10 {
            assert(digits_value(d.take(i - start + 1)) > max as nat) by (nonlinear_arith)
                requires
                    digits_value(d.take(i - start + 1)) == acc as nat * 10 + dv as nat,
                    dv > max || acc > (max - dv) / 10,
            {
            }
            proof {
                if all_digits(d) {
                    lemma_prefix_value_bound(d, i - start + 1);
                }
            }
            return None;
        }
        assert(acc * 10 + dv <= max) by (nonlinear_arith)
            requires
                acc <= (max - dv) / 10,
                dv <= max,
        {
        }
        acc = acc * 10 + dv;
        i = i + 1;
    }
    assert(d.take(i - start) =~= d);
    Some(acc)
}

} // verus!
