//! Character-level text helpers: whitespace trimming, splitting, decimal
//! rendering and parsing, joining.
use vstd::prelude::*;

verus! {

/// Appends one character to a string (std `String::push`).
/// Trusted: the result is the old contents followed by `c`.
#[verifier::external_body]
pub(crate) fn push_char(s: &mut String, c: char)
    ensures
        final(s)@ == old(s)@.push(c),
{
    s.push(c);
}

/// The characters of `s`, in order.
pub fn chars_of(s: &str) -> (r: Vec<char>)
    ensures
        r@ == s@,
{
    let mut r: Vec<char> = Vec::new();
    for c in it: s.chars()
        invariant
            r@ == it.seq().take(it.index() as int),
            it.seq() == s@,
    {
        r.push(c);
    }
    r
}

/// A string holding the characters `cs[lo..hi]`.
pub fn string_of(cs: &Vec<char>, lo: usize, hi: usize) -> (r: String)
    requires
        lo <= hi <= cs@.len(),
    ensures
        r@ == cs@.subrange(lo as int, hi as int),
{
    let mut r = String::new();
    let mut i = lo;
    while i < hi
        invariant
            lo <= i <= hi <= cs@.len(),
            r@ == cs@.subrange(lo as int, i as int),
        decreases hi - i,
    {
        push_char(&mut r, cs[i]);
        assert(cs@.subrange(lo as int, i + 1) =~= cs@.subrange(lo as int, i as int).push(cs@[i as int]));
        i += 1;
    }
    r
}

/// A string holding all of `cs`.
pub fn string_of_all(cs: &Vec<char>) -> (r: String)
    ensures
        r@ == cs@,
{
    let r = string_of(cs, 0, cs.len());
    assert(cs@.subrange(0, cs@.len() as int) =~= cs@);
    r
}

/// Unicode `White_Space`, the set that `char::is_whitespace` tests.
pub open spec fn is_ws(c: char) -> bool {
    ||| ('\u{9}' <= c && c <= '\u{d}')
    ||| c == ' '
    ||| c == '\u{85}'
    ||| c == '\u{a0}'
    ||| c == '\u{1680}'
    ||| ('\u{2000}' <= c && c <= '\u{200a}')
    ||| c == '\u{2028}'
    ||| c == '\u{2029}'
    ||| c == '\u{202f}'
    ||| c == '\u{205f}'
    ||| c == '\u{3000}'
}

pub fn is_whitespace(c: char) -> (r: bool)
    ensures
        r == is_ws(c),
{
    ('\u{9}' <= c && c <= '\u{d}') || c == ' ' || c == '\u{85}' || c == '\u{a0}' || c == '\u{1680}'
        || ('\u{2000}' <= c && c <= '\u{200a}') || c == '\u{2028}' || c == '\u{2029}'
        || c == '\u{202f}' || c == '\u{205f}' || c == '\u{3000}'
}

/// `s` without leading whitespace.
pub open spec fn trim_start(s: Seq<char>) -> Seq<char>
    decreases s.len(),
{
    if s.len() > 0 && is_ws(s[0]) {
        trim_start(s.drop_first())
    } else {
        s
    }
}

/// `s` without trailing whitespace.
pub open spec fn trim_end(s: Seq<char>) -> Seq<char>
    decreases s.len(),
{
    if s.len() > 0 && is_ws(s.last()) {
        trim_end(s.drop_last())
    } else {
        s
    }
}

/// `str::trim`: `s` without leading and trailing whitespace.
pub open spec fn trim(s: Seq<char>) -> Seq<char> {
    trim_end(trim_start(s))
}

/// Bounds `(lo, hi)` with `cs[lo..hi]` the trimmed part of `cs[from..to]`.
pub fn trim_bounds(cs: &Vec<char>, from: usize, to: usize) -> (r: (usize, usize))
    requires
        from <= to <= cs@.len(),
    ensures
        from <= r.0 <= r.1 <= to,
        cs@.subrange(r.0 as int, r.1 as int) == trim(cs@.subrange(from as int, to as int)),
{
    let ghost s = cs@.subrange(from as int, to as int);
    let mut lo = from;
    while lo < to && is_whitespace(cs[lo])
        invariant
            from <= lo <= to <= cs@.len(),
            s == cs@.subrange(from as int, to as int),
            trim_start(s) == trim_start(cs@.subrange(lo as int, to as int)),
        decreases to - lo,
    {
        assert(cs@.subrange(lo as int, to as int).drop_first() =~= cs@.subrange(lo + 1, to as int));
        lo += 1;
    }
    let mut hi = to;
    while hi > lo && is_whitespace(cs[hi - 1])
        invariant
            from <= lo <= hi <= to <= cs@.len(),
            s == cs@.subrange(from as int, to as int),
            trim_start(s) == cs@.subrange(lo as int, to as int),
            trim(s) == trim_end(cs@.subrange(lo as int, hi as int)),
        decreases hi - lo,
    {
        assert(cs@.subrange(lo as int, hi as int).drop_last() =~= cs@.subrange(lo as int, hi - 1));
        hi -= 1;
    }
    (lo, hi)
}

/// `str::trim` as an owned string.
pub fn trimmed(s: &str) -> (r: String)
    ensures
        r@ == trim(s@),
{
    let cs = chars_of(s);
    let (lo, hi) = trim_bounds(&cs, 0, cs.len());
    assert(cs@.subrange(0, cs@.len() as int) =~= s@);
    string_of(&cs, lo, hi)
}

/// `str::split(sep)`: the pieces of `s` between occurrences of `sep`
/// (one piece for a string without `sep`, empty pieces kept).
pub open spec fn split_on(s: Seq<char>, sep: char) -> Seq<Seq<char>>
    decreases s.len(),
{
    if s.len() == 0 {
        seq![Seq::<char>::empty()]
    } else {
        let pieces = split_on(s.drop_last(), sep);
        if s.last() == sep {
            pieces.push(Seq::<char>::empty())
        } else {
            pieces.update(pieces.len() - 1, pieces.last().push(s.last()))
        }
    }
}

pub proof fn lemma_split_nonempty(s: Seq<char>, sep: char)
    ensures
        split_on(s, sep).len() >= 1,
    decreases s.len(),
{
    if s.len() > 0 {
        lemma_split_nonempty(s.drop_last(), sep);
    }
}

/// Bounds of the pieces of `cs[from..to]` split on `sep`, each as a `(lo, hi)` pair.
pub fn split_bounds(cs: &Vec<char>, from: usize, to: usize, sep: char) -> (r: Vec<(usize, usize)>)
    requires
        from <= to <= cs@.len(),
    ensures
        r@.len() == split_on(cs@.subrange(from as int, to as int), sep).len(),
        forall|k: int|
            0 <= k < r@.len() ==> from <= #[trigger] r@[k].0 <= r@[k].1 <= to && cs@.subrange(
                r@[k].0 as int,
                r@[k].1 as int,
            ) == split_on(cs@.subrange(from as int, to as int), sep)[k],
{
    let mut r: Vec<(usize, usize)> = Vec::new();
    r.push((from, from));
    let mut i = from;
    assert(cs@.subrange(from as int, from as int) =~= Seq::<char>::empty());
    assert(split_on(cs@.subrange(from as int, from as int), sep) =~= seq![Seq::<char>::empty()]);
    while i < to
        invariant
            from <= i <= to <= cs@.len(),
            r@.len() >= 1,
            r@.last().1 == i,
            r@.len() == split_on(cs@.subrange(from as int, i as int), sep).len(),
            forall|k: int|
                0 <= k < r@.len() ==> from <= #[trigger] r@[k].0 <= r@[k].1 <= i && cs@.subrange(
                    r@[k].0 as int,
                    r@[k].1 as int,
                ) == split_on(cs@.subrange(from as int, i as int), sep)[k],
        decreases to - i,
    {
        let ghost prev = split_on(cs@.subrange(from as int, i as int), sep);
        assert(cs@.subrange(from as int, i + 1).drop_last() =~= cs@.subrange(from as int, i as int));
        let ghost old_r = r@;
        if cs[i] == sep {
            r.push((i + 1, i + 1));
            assert(cs@.subrange(i + 1, i + 1) =~= Seq::<char>::empty());
            let ghost next = split_on(cs@.subrange(from as int, i + 1), sep);
            assert(next == prev.push(Seq::<char>::empty()));
            assert forall|k: int| 0 <= k < r@.len() implies from <= #[trigger] r@[k].0 <= r@[k].1 <= i + 1
                && cs@.subrange(r@[k].0 as int, r@[k].1 as int) == next[k] by {
                if k < old_r.len() {
                    assert(r@[k] == old_r[k]);
                }
            }
        } else {
            let last = r.len() - 1;
            let lo = r[last].0;
            r.set(last, (lo, i + 1));
            assert(cs@.subrange(lo as int, i + 1) =~= cs@.subrange(lo as int, i as int).push(cs@[i as int]));
            let ghost next = split_on(cs@.subrange(from as int, i + 1), sep);
            assert(next == prev.update(prev.len() - 1, prev.last().push(cs@[i as int])));
            assert forall|k: int| 0 <= k < r@.len() implies from <= #[trigger] r@[k].0 <= r@[k].1 <= i + 1
                && cs@.subrange(r@[k].0 as int, r@[k].1 as int) == next[k] by {
                if k < last {
                    assert(r@[k] == old_r[k]);
                }
            }
        }
        i += 1;
    }
    r
}

/// The value of a nonempty run of decimal digits.
pub open spec fn digits_value(s: Seq<char>) -> nat
    decreases s.len(),
{
    if s.len() == 0 {
        0
    } else {
        digits_value(s.drop_last()) * 10 + (s.last() as nat - '0' as nat) as nat
    }
}

pub open spec fn all_digits(s: Seq<char>) -> bool {
    forall|i: int| 0 <= i < s.len() ==> '0' <= #[trigger] s[i] <= '9'
}

/// The digits that `usize::from_str` reads: all of `s`, or all but a leading `+`.
pub open spec fn unsigned_digits(s: Seq<char>) -> Seq<char> {
    if s.len() > 0 && s[0] == '+' {
        s.drop_first()
    } else {
        s
    }
}

/// `usize::from_str`: `Some(n)` when `s` is an optional `+` followed by at least
/// one decimal digit and nothing else, and the value fits in `usize`.
pub open spec fn parse_usize_spec(s: Seq<char>) -> Option<nat> {
    let d = unsigned_digits(s);
    if d.len() > 0 && all_digits(d) && digits_value(d) <= usize::MAX {
        Some(digits_value(d))
    } else {
        None
    }
}

pub proof fn lemma_digits_value_monotone(s: Seq<char>, k: int)
    requires
        all_digits(s),
        0 <= k <= s.len(),
    ensures
        digits_value(s.take(k)) <= digits_value(s),
    decreases s.len() - k,
{
    if k < s.len() {
        lemma_digits_value_monotone(s, k + 1);
        assert(s.take(k + 1).drop_last() =~= s.take(k));
    } else {
        assert(s.take(k) =~= s);
    }
}

/// Parses `cs[from..to]` as `usize::from_str` does.
pub fn parse_usize(cs: &Vec<char>, from: usize, to: usize) -> (r: Option<usize>)
    requires
        from <= to <= cs@.len(),
    ensures
        r matches Some(n) ==> parse_usize_spec(cs@.subrange(from as int, to as int)) == Some(n as nat),
        r is None ==> parse_usize_spec(cs@.subrange(from as int, to as int)) is None,
{
    let ghost s = cs@.subrange(from as int, to as int);
    let mut start = from;
    if start < to && cs[start] == '+' {
        start += 1;
    }
    assert(unsigned_digits(s) =~= cs@.subrange(start as int, to as int));
    if start == to {
        return None;
    }
    let ghost d = cs@.subrange(start as int, to as int);
    let mut value: usize = 0;
    let mut i = start;
    while i < to
        invariant
            from <= start <= i <= to <= cs@.len(),
            d == cs@.subrange(start as int, to as int),
            s == cs@.subrange(from as int, to as int),
            unsigned_digits(s) == d,
            all_digits(cs@.subrange(start as int, i as int)),
            value as nat == digits_value(cs@.subrange(start as int, i as int)),
        decreases to - i,
    {
        let c = cs[i];
        assert(cs@.subrange(start as int, i + 1).drop_last() =~= cs@.subrange(start as int, i as int));
        if !('0' <= c && c <= '9') {
            assert(!all_digits(d)) by {
                assert(d[i - start] == c);
            }
            assert(unsigned_digits(s) == d);
            assert(parse_usize_spec(s) is None);
            return None;
        }
        let digit = (c as u32 - '0' as u32) as usize;
        if value > (usize::MAX - digit) / 10 {
            proof {
                let t = cs@.subrange(start as int, i + 1);
                assert(digits_value(t) == value * 10 + digit);
                assert(value * 10 + digit > usize::MAX) by (nonlinear_arith)
                    requires value > (usize::MAX - digit) / 10, digit <= 9;
                let k = i + 1 - start;
                assert(d.take(k as int) =~= t);
                if all_digits(d) {
                    lemma_digits_value_monotone(d, k as int);
                }
            }
            return None;
        }
        proof {
            assert(value * 10 + digit <= usize::MAX) by (nonlinear_arith)
                requires value <= (usize::MAX - digit) / 10, digit <= 9;
        }
        value = value * 10 + digit;
        i += 1;
    }
    Some(value)
}

/// The decimal digit for `d < 10`.
pub open spec fn digit_char(d: nat) -> char {
    if d == 0 { '0' }
    else if d == 1 { '1' }
    else if d == 2 { '2' }
    else if d == 3 { '3' }
    else if d == 4 { '4' }
    else if d == 5 { '5' }
    else if d == 6 { '6' }
    else if d == 7 { '7' }
    else if d == 8 { '8' }
    else { '9' }
}

/// Decimal rendering of a natural number, as `Display` writes it.
pub open spec fn nat_text(n: nat) -> Seq<char>
    decreases n,
{
    if n < 10 {
        seq![digit_char(n)]
    } else {
        nat_text(n / 10).push(digit_char(n % 10))
    }
}

/// Decimal rendering of an integer, as `Display` writes it.
pub open spec fn int_text(i: int) -> Seq<char> {
    if i < 0 {
        seq!['-'] + nat_text((-i) as nat)
    } else {
        nat_text(i as nat)
    }
}

/// The decimal text of `n` is a nonempty run of digits whose value is `n`.
pub proof fn lemma_nat_text_digits(n: nat)
    ensures
        nat_text(n).len() > 0,
        all_digits(nat_text(n)),
        digits_value(nat_text(n)) == n,
    decreases n,
{
    if n < 10 {
        let s = nat_text(n);
        assert(s.drop_last() =~= Seq::<char>::empty());
        assert(digits_value(s.drop_last()) == 0);
        assert(digit_char(n) as nat - '0' as nat == n);
        assert(s.last() == digit_char(n));
        assert(digits_value(s) == digits_value(s.drop_last()) * 10 + (s.last() as nat - '0' as nat) as nat);
    } else {
        lemma_nat_text_digits(n / 10);
        let s = nat_text(n);
        let d = n % 10;
        assert(s.drop_last() =~= nat_text(n / 10));
        assert(digit_char(d) as nat - '0' as nat == d);
        assert(s.last() == digit_char(d));
        assert((n / 10) * 10 + d == n);
        assert(digits_value(s) == digits_value(s.drop_last()) * 10 + (s.last() as nat - '0' as nat) as nat);
        assert forall|i: int| 0 <= i < s.len() implies '0' <= #[trigger] s[i] <= '9' by {
            if i < s.len() - 1 {
                assert(s[i] == nat_text(n / 10)[i]);
            }
        }
    }
}

pub fn digit_of(d: u64) -> (c: char)
    requires
        d < 10,
    ensures
        c == digit_char(d as nat),
{
    if d == 0 { '0' }
    else if d == 1 { '1' }
    else if d == 2 { '2' }
    else if d == 3 { '3' }
    else if d == 4 { '4' }
    else if d == 5 { '5' }
    else if d == 6 { '6' }
    else if d == 7 { '7' }
    else if d == 8 { '8' }
    else { '9' }
}

/// Appends the decimal text of `n`.
pub fn push_u64(s: &mut String, n: u64)
    ensures
        final(s)@ == old(s)@ + nat_text(n as nat),
    decreases n,
{
    if n < 10 {
        push_char(s, digit_of(n));
        assert(old(s)@ + nat_text(n as nat) =~= old(s)@.push(digit_char(n as nat)));
    } else {
        push_u64(s, n / 10);
        push_char(s, digit_of(n % 10));
        assert(old(s)@ + nat_text(n as nat) =~= (old(s)@ + nat_text((n / 10) as nat)).push(
            digit_char((n % 10) as nat),
        ));
    }
}

/// Appends the decimal text of `i`.
pub fn push_i64(s: &mut String, i: i64)
    ensures
        final(s)@ == old(s)@ + int_text(i as int),
{
    if i < 0 {
        push_char(s, '-');
        let mag: u64 = if i == i64::MIN {
            9223372036854775808u64
        } else {
            (-i) as u64
        };
        push_u64(s, mag);
        assert(old(s)@ + int_text(i as int) =~= old(s)@.push('-') + nat_text(mag as nat));
    } else {
        push_u64(s, i as u64);
    }
}

/// The decimal text of `i`.
pub fn i64_text(i: i64) -> (r: String)
    ensures
        r@ == int_text(i as int),
{
    let mut s = String::new();
    push_i64(&mut s, i);
    assert(Seq::<char>::empty() + int_text(i as int) =~= int_text(i as int));
    s
}

/// The decimal text of `n`.
pub fn usize_text(n: usize) -> (r: String)
    ensures
        r@ == nat_text(n as nat),
{
    let mut s = String::new();
    push_u64(&mut s, n as u64);
    assert(Seq::<char>::empty() + nat_text(n as nat) =~= nat_text(n as nat));
    s
}

/// `parts` joined with `sep` between neighbours.
pub open spec fn join(parts: Seq<Seq<char>>, sep: Seq<char>) -> Seq<char>
    decreases parts.len(),
{
    if parts.len() == 0 {
        Seq::empty()
    } else if parts.len() == 1 {
        parts[0]
    } else {
        join(parts.drop_last(), sep) + sep + parts.last()
    }
}

/// The views of a list of strings.
pub open spec fn views(v: Seq<String>) -> Seq<Seq<char>> {
    Seq::new(v.len(), |i: int| v[i]@)
}

/// `parts.join(sep)`.
pub fn join_strings(parts: &Vec<String>, sep: &str) -> (r: String)
    ensures
        r@ == join(views(parts@), sep@),
{
    let mut r = String::new();
    let mut i: usize = 0;
    while i < parts.len()
        invariant
            i <= parts@.len(),
            r@ == join(views(parts@).take(i as int), sep@),
        decreases parts@.len() - i,
    {
        assert(views(parts@).take(i + 1).drop_last() =~= views(parts@).take(i as int));
        if i > 0 {
            r.append(sep);
        }
        r.append(parts[i].as_str());
        proof {
            if i == 0 {
                assert(views(parts@).take(1) =~= seq![parts@[0]@]);
                assert(Seq::<char>::empty() + parts@[0]@ =~= parts@[0]@);
            }
        }
        i += 1;
    }
    assert(views(parts@).take(parts@.len() as int) =~= views(parts@));
    r
}

/// Whether two strings hold the same characters.
pub fn str_eq(a: &str, b: &str) -> (r: bool)
    ensures
        r == (a@ == b@),
{
    let x = a.to_owned();
    let y = b.to_owned();
    x == y
}

} // verus!

verus! {

/// The first index of `c` in `s`.
pub open spec fn index_of(s: Seq<char>, c: char) -> Option<int>
    decreases s.len(),
{
    if s.len() == 0 {
        None
    } else if s[0] == c {
        Some(0)
    } else {
        match index_of(s.drop_first(), c) {
            Some(i) => Some(i + 1),
            None => None,
        }
    }
}

pub proof fn lemma_index_of(s: Seq<char>, c: char)
    ensures
        index_of(s, c) matches Some(i) ==> 0 <= i < s.len() && s[i] == c && forall|k: int|
            0 <= k < i ==> s[k] != c,
        index_of(s, c) is None ==> forall|k: int| 0 <= k < s.len() ==> s[k] != c,
    decreases s.len(),
{
    if s.len() > 0 {
        lemma_index_of(s.drop_first(), c);
        if s[0] != c {
            assert forall|k: int| 0 < k < s.len() implies s[k] == s.drop_first()[k - 1] by {}
        }
    }
}

/// The first index of `c` in `cs[lo..hi]`, counted from `lo`.
pub fn find_char(cs: &Vec<char>, lo: usize, hi: usize, c: char) -> (r: Option<usize>)
    requires
        lo <= hi <= cs@.len(),
    ensures
        match r {
            Some(i) => index_of(cs@.subrange(lo as int, hi as int), c) == Some(i - lo) && lo <= i < hi,
            None => index_of(cs@.subrange(lo as int, hi as int), c) is None,
        },
{
    let ghost s = cs@.subrange(lo as int, hi as int);
    proof {
        lemma_index_of(s, c);
    }
    let mut i = lo;
    while i < hi
        invariant
            lo <= i <= hi <= cs@.len(),
            s == cs@.subrange(lo as int, hi as int),
            forall|k: int| lo <= k < i ==> cs@[k] != c,
            index_of(s, c) matches Some(j) ==> 0 <= j < s.len() && s[j] == c && forall|k: int|
                0 <= k < j ==> s[k] != c,
            index_of(s, c) is None ==> forall|k: int| 0 <= k < s.len() ==> s[k] != c,
        decreases hi - i,
    {
        if cs[i] == c {
            proof {
                match index_of(s, c) {
                    Some(j) => {
                        assert(s[i - lo] == c);
                        if j < i - lo {
                            assert(s[j] == cs@[lo + j]);
                        }
                        if j > i - lo {
                            assert(s[i - lo] != c);
                        }
                    },
                    None => {
                        assert(s[i - lo] == c);
                    },
                }
            }
            return Some(i);
        }
        i += 1;
    }
    proof {
        match index_of(s, c) {
            Some(j) => {
                assert(s[j] == cs@[lo + j]);
            },
            None => {},
        }
    }
    None
}

/// A copy of `cs[lo..hi]`.
pub fn sub_chars(cs: &Vec<char>, lo: usize, hi: usize) -> (r: Vec<char>)
    requires
        lo <= hi <= cs@.len(),
    ensures
        r@ == cs@.subrange(lo as int, hi as int),
{
    let mut r: Vec<char> = Vec::new();
    let mut i = lo;
    while i < hi
        invariant
            lo <= i <= hi <= cs@.len(),
            r@ == cs@.subrange(lo as int, i as int),
        decreases hi - i,
    {
        r.push(cs[i]);
        assert(cs@.subrange(lo as int, i + 1) =~= cs@.subrange(lo as int, i as int).push(cs@[i as int]));
        i += 1;
    }
    r
}

/// The trimmed nonempty pieces, in order.
pub open spec fn nonempty_trimmed(pieces: Seq<Seq<char>>) -> Seq<Seq<char>>
    decreases pieces.len(),
{
    if pieces.len() == 0 {
        Seq::empty()
    } else {
        let prev = nonempty_trimmed(pieces.drop_last());
        let t = trim(pieces.last());
        if t.len() > 0 {
            prev.push(t)
        } else {
            prev
        }
    }
}

proof fn lemma_trim_start_keeps(s: Seq<char>, k: int)
    requires
        0 <= k < s.len(),
        !is_ws(s[k]),
    ensures
        trim_start(s).contains(s[k]),
    decreases s.len(),
{
    if s.len() > 0 && is_ws(s[0]) {
        assert(k > 0);
        assert(s.drop_first()[k - 1] == s[k]);
        lemma_trim_start_keeps(s.drop_first(), k - 1);
    } else {
        assert(trim_start(s)[k] == s[k]);
    }
}

proof fn lemma_trim_end_keeps(s: Seq<char>, k: int)
    requires
        0 <= k < s.len(),
        !is_ws(s[k]),
    ensures
        trim_end(s).contains(s[k]),
    decreases s.len(),
{
    if s.len() > 0 && is_ws(s.last()) {
        assert(k < s.len() - 1);
        assert(s.drop_last()[k] == s[k]);
        lemma_trim_end_keeps(s.drop_last(), k);
    } else {
        assert(trim_end(s)[k] == s[k]);
    }
}

/// Trimming keeps every character that is not whitespace.
pub proof fn lemma_trim_keeps(s: Seq<char>, c: char)
    requires
        s.contains(c),
        !is_ws(c),
    ensures
        trim(s).contains(c),
{
    let k = choose|k: int| 0 <= k < s.len() && s[k] == c;
    lemma_trim_start_keeps(s, k);
    let t = trim_start(s);
    let j = choose|j: int| 0 <= j < t.len() && t[j] == c;
    lemma_trim_end_keeps(t, j);
}

/// Where no piece trims to nothing, the trimmed nonempty pieces are all the
/// pieces, trimmed.
pub proof fn lemma_nonempty_trimmed_all(pieces: Seq<Seq<char>>)
    requires
        forall|i: int| 0 <= i < pieces.len() ==> trim(#[trigger] pieces[i]).len() > 0,
    ensures
        nonempty_trimmed(pieces) == Seq::new(pieces.len(), |i: int| trim(pieces[i])),
    decreases pieces.len(),
{
    if pieces.len() > 0 {
        let p = pieces.drop_last();
        assert forall|i: int| 0 <= i < p.len() implies trim(#[trigger] p[i]).len() > 0 by {
            assert(p[i] == pieces[i]);
        }
        lemma_nonempty_trimmed_all(p);
        assert(trim(pieces[pieces.len() - 1]).len() > 0);
        assert(nonempty_trimmed(pieces) =~= Seq::new(pieces.len(), |i: int| trim(pieces[i])));
    }
}

/// `s.split(sep).map(str::trim).filter(|p| !p.is_empty())`.
pub open spec fn split_trimmed(s: Seq<char>, sep: char) -> Seq<Seq<char>> {
    nonempty_trimmed(split_on(s, sep))
}

/// Whether `b` bounds a run of `cs` holding exactly `t`.
pub open spec fn bounds_hold(cs: Seq<char>, b: (usize, usize), t: Seq<char>) -> bool {
    b.0 <= b.1 <= cs.len() && cs.subrange(b.0 as int, b.1 as int) == t
}

/// Bounds of the trimmed nonempty pieces of `cs` split on `sep`.
pub fn split_trimmed_bounds(cs: &Vec<char>, sep: char) -> (r: Vec<(usize, usize)>)
    ensures
        r@.len() == split_trimmed(cs@, sep).len(),
        forall|k: int| 0 <= k < r@.len() ==> bounds_hold(cs@, #[trigger] r@[k], split_trimmed(cs@, sep)[k]),
{
    let pieces = split_bounds(cs, 0, cs.len(), sep);
    let ghost all = split_on(cs@.subrange(0, cs@.len() as int), sep);
    assert(cs@.subrange(0, cs@.len() as int) =~= cs@);
    let mut out: Vec<(usize, usize)> = Vec::new();
    let mut k: usize = 0;
    assert(all.take(0) =~= Seq::<Seq<char>>::empty());
    while k < pieces.len()
        invariant
            k <= pieces@.len(),
            pieces@.len() == all.len(),
            all == split_on(cs@, sep),
            forall|j: int| 0 <= j < pieces@.len() ==> bounds_hold(cs@, #[trigger] pieces@[j], all[j]),
            out@.len() == nonempty_trimmed(all.take(k as int)).len(),
            forall|j: int| 0 <= j < out@.len() ==> bounds_hold(cs@, #[trigger] out@[j], nonempty_trimmed(all.take(k as int))[j]),
        decreases pieces@.len() - k,
    {
        let (lo, hi) = pieces[k];
        assert(bounds_hold(cs@, pieces@[k as int], all[k as int]));
        let (a, b) = trim_bounds(cs, lo, hi);
        let ghost before = out@;
        let ghost prev = nonempty_trimmed(all.take(k as int));
        assert(all.take(k + 1).drop_last() =~= all.take(k as int));
        assert(all.take(k + 1).last() == all[k as int]);
        let ghost t = trim(all[k as int]);
        assert(cs@.subrange(a as int, b as int) == t);
        let ghost next = nonempty_trimmed(all.take(k + 1));
        assert(next == if t.len() > 0 { prev.push(t) } else { prev });
        if a < b {
            out.push((a, b));
            assert forall|j: int| 0 <= j < out@.len() implies bounds_hold(cs@, #[trigger] out@[j], next[j]) by {
                if j < before.len() {
                    assert(out@[j] == before[j]);
                    assert(bounds_hold(cs@, before[j], prev[j]));
                }
            }
        } else {
            assert forall|j: int| 0 <= j < out@.len() implies bounds_hold(cs@, #[trigger] out@[j], next[j]) by {
                assert(bounds_hold(cs@, before[j], prev[j]));
            }
        }
        k += 1;
    }
    assert(all.take(pieces@.len() as int) =~= all);
    out
}

} // verus!

verus! {

/// The first position of `pat` in `s` (`str::find` with a string pattern).
#[verifier::opaque]
pub open spec fn find_spec(s: Seq<char>, pat: Seq<char>) -> Option<int> {
    if exists|i: int| 0 <= i <= s.len() - pat.len() && #[trigger] s.subrange(i, i + pat.len()) == pat {
        Some(
            choose|i: int|
                0 <= i <= s.len() - pat.len() && #[trigger] s.subrange(i, i + pat.len()) == pat && forall|j: int|
                    0 <= j < i ==> #[trigger] s.subrange(j, j + pat.len()) != pat,
        )
    } else {
        None
    }
}

/// Whether `pat` occurs in `cs` at position `i`.
fn occurs_at(cs: &Vec<char>, pat: &Vec<char>, i: usize) -> (r: bool)
    requires
        i + pat@.len() <= cs@.len(),
    ensures
        r == (cs@.subrange(i as int, i + pat@.len()) == pat@),
{
    let m = pat.len();
    let mut k: usize = 0;
    assert(cs@.subrange(i as int, i as int) =~= pat@.take(0));
    while k < m
        invariant
            k <= m == pat@.len(),
            i + m <= cs@.len(),
            cs@.len() == cs.len(),
            cs@.subrange(i as int, i + k) == pat@.take(k as int),
        decreases m - k,
    {
        if cs[i + k] != pat[k] {
            proof {
                if cs@.subrange(i as int, i + m) == pat@ {
                    assert(cs@.subrange(i as int, i + m)[k as int] == pat@[k as int]);
                }
            }
            return false;
        }
        assert(cs@.subrange(i as int, i + k + 1) =~= cs@.subrange(i as int, i + k).push(cs@[i + k]));
        assert(pat@.take(k + 1) =~= pat@.take(k as int).push(pat@[k as int]));
        k += 1;
    }
    assert(pat@.take(m as int) =~= pat@);
    true
}

/// `pat` first occurs in `s` at `i`.
pub proof fn lemma_find_at(s: Seq<char>, pat: Seq<char>, i: int)
    requires
        0 <= i <= s.len() - pat.len(),
        s.subrange(i, i + pat.len()) == pat,
        forall|j: int| 0 <= j < i ==> #[trigger] s.subrange(j, j + pat.len()) != pat,
    ensures
        find_spec(s, pat) == Some(i),
{
    reveal(find_spec);
    let w = choose|w: int|
        0 <= w <= s.len() - pat.len() && #[trigger] s.subrange(w, w + pat.len()) == pat && forall|j: int|
            0 <= j < w ==> #[trigger] s.subrange(j, j + pat.len()) != pat;
    if w < i {
        assert(s.subrange(w, w + pat.len()) != pat);
    }
    if i < w {
        assert(s.subrange(i, i + pat.len()) != pat);
    }
}

/// The first position of `pat` in `cs` (see [`find_spec`]).
pub fn find_seq(cs: &Vec<char>, pat: &Vec<char>) -> (r: Option<usize>)
    ensures
        match r {
            Some(i) => find_spec(cs@, pat@) == Some(i as int) && i + pat@.len() <= cs@.len(),
            None => find_spec(cs@, pat@) is None,
        },
{
    let m = pat.len();
    if m == 0 {
        assert(cs@.subrange(0, 0) =~= pat@);
        proof {
            lemma_find_at(cs@, pat@, 0);
        }
        return Some(0);
    }
    if cs.len() < m {
        proof {
            reveal(find_spec);
        }
        assert forall|i: int| !(0 <= i <= cs@.len() - m && #[trigger] cs@.subrange(i, i + m) == pat@) by {}
        return None;
    }
    let mut i: usize = 0;
    while i <= cs.len() - m
        invariant
            m == pat@.len(),
            1 <= m <= cs@.len(),
            cs@.len() == cs.len(),
            i <= cs@.len() - m + 1,
            forall|j: int| 0 <= j < i ==> #[trigger] cs@.subrange(j, j + m) != pat@,
        decreases cs@.len() - m + 1 - i,
    {
        if occurs_at(cs, pat, i) {
            proof {
                lemma_find_at(cs@, pat@, i as int);
            }
            return Some(i);
        }
        i += 1;
    }
    proof {
        reveal(find_spec);
    }
    None
}

/// `str::split` on a nonempty pattern: the pieces between the leftmost
/// non-overlapping occurrences of `pat`.
pub open spec fn split_str(s: Seq<char>, pat: Seq<char>) -> Seq<Seq<char>>
    decreases s.len(),
{
    if pat.len() == 0 {
        seq![s]
    } else {
        match find_spec(s, pat) {
            Some(i) => if 0 <= i && i + pat.len() <= s.len() {
                seq![s.take(i)] + split_str(s.skip(i + pat.len()), pat)
            } else {
                seq![s]
            },
            None => seq![s],
        }
    }
}

/// The pieces of `s` between the occurrences of `pat` (see [`split_str`]).
pub fn split_text(s: &str, pat: &str) -> (r: Vec<String>)
    requires
        pat@.len() > 0,
    ensures
        views(r@) == split_str(s@, pat@),
{
    let p = chars_of(pat);
    let mut rest = chars_of(s);
    let mut out: Vec<String> = Vec::new();
    let m = p.len();
    loop
        invariant
            m == p@.len(),
            p@ == pat@,
            p@.len() > 0,
            views(out@) + split_str(rest@, p@) == split_str(s@, p@),
        decreases rest@.len(),
    {
        match find_seq(&rest, &p) {
            Some(i) => {
                let n = rest.len();
                assert(i + m <= n);
                let piece = string_of(&rest, 0, i);
                let next = sub_chars(&rest, i + m, n);
                proof {
                    assert(piece@ == rest@.take(i as int));
                    assert(next@ =~= rest@.skip(i + p@.len()));
                    assert(split_str(rest@, p@) == seq![piece@] + split_str(next@, p@));
                    let ghost before = out@;
                    assert(views(before.push(piece)) =~= views(before).push(piece@));
                    assert(views(before).push(piece@) + split_str(next@, p@) =~= views(before) + (seq![piece@] + split_str(next@, p@)));
                }
                out.push(piece);
                rest = next;
            },
            None => {
                let piece = string_of_all(&rest);
                proof {
                    let ghost before = out@;
                    assert(views(before.push(piece)) =~= views(before) + seq![piece@]);
                }
                out.push(piece);
                return out;
            },
        }
    }
}

/// A line of `str::lines` without its line terminator: one trailing `'\r'`
/// goes with the `'\n'`.
pub open spec fn strip_cr(p: Seq<char>) -> Seq<char> {
    if p.len() > 0 && p.last() == '\r' {
        p.drop_last()
    } else {
        p
    }
}

/// `str::lines`: the pieces between `'\n'`s, each without a `'\r'` before its
/// `'\n'`, and no empty piece after a final `'\n'`.
pub open spec fn lines_of(s: Seq<char>) -> Seq<Seq<char>> {
    let p = split_on(s, '\n');
    let n = p.len() - 1;
    Seq::new(n as nat, |i: int| strip_cr(p[i])) + if p[n].len() > 0 {
        seq![p[n]]
    } else {
        Seq::empty()
    }
}

/// The lines of `s` (see [`lines_of`]).
pub fn text_lines(s: &str) -> (r: Vec<String>)
    ensures
        views(r@) == lines_of(s@),
{
    let cs = chars_of(s);
    let pieces = split_bounds(&cs, 0, cs.len(), '\n');
    let ghost p = split_on(cs@.subrange(0, cs@.len() as int), '\n');
    assert(cs@.subrange(0, cs@.len() as int) =~= s@);
    proof {
        lemma_split_nonempty(s@, '\n');
    }
    let n = pieces.len() - 1;
    let mut out: Vec<String> = Vec::new();
    let mut k: usize = 0;
    while k < n
        invariant
            k <= n,
            n + 1 == pieces@.len() == p.len(),
            p == split_on(s@, '\n'),
            cs@ == s@,
            forall|j: int| 0 <= j < pieces@.len() ==> bounds_hold(cs@, #[trigger] pieces@[j], p[j]),
            views(out@) == Seq::new(k as nat, |i: int| strip_cr(p[i])),
        decreases n - k,
    {
        let (lo, hi) = pieces[k];
        assert(bounds_hold(cs@, pieces@[k as int], p[k as int]));
        let end = if lo < hi && cs[hi - 1] == '\r' {
            hi - 1
        } else {
            hi
        };
        let line = string_of(&cs, lo, end);
        assert(line@ =~= strip_cr(p[k as int]));
        let ghost before = out@;
        out.push(line);
        assert(views(out@) =~= views(before).push(line@));
        assert(views(out@) =~= Seq::new((k + 1) as nat, |i: int| strip_cr(p[i])));
        k += 1;
    }
    let (lo, hi) = pieces[n];
    assert(bounds_hold(cs@, pieces@[n as int], p[n as int]));
    if lo < hi {
        let line = string_of(&cs, lo, hi);
        let ghost before = out@;
        out.push(line);
        assert(views(out@) =~= views(before).push(line@));
        assert(views(out@) =~= lines_of(s@));
    } else {
        assert(views(out@) =~= lines_of(s@));
    }
    out
}

} // verus!
