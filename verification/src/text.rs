//! Text helpers over character sequences: equality against literals, code
//! point ordering, infix and suffix tests, and decimal rendering.

use vstd::prelude::*;
use vstd::string::*;

verus! {

/// The characters of an optional string.
pub open spec fn opt_chars(o: Option<String>) -> Option<Seq<char>> {
    match o {
        Some(s) => Some(s@),
        None => None,
    }
}

/// Tells whether a text is the given literal.
pub fn text_is(s: &String, lit: &str) -> (b: bool)
    ensures
        b == (s@ == lit@),
{
    let t = String::from_str(lit);
    *s == t
}

/// Tells whether two texts hold the same characters.
pub fn same_text(a: &String, b: &String) -> (r: bool)
    ensures
        r == (a@ == b@),
{
    *a == *b
}

/// Tells whether an optional text is present and equal to `s`.
pub fn opt_text_is(o: &Option<String>, s: &String) -> (b: bool)
    ensures
        b == (opt_chars(*o) == Some(s@)),
{
    match o {
        Some(t) => *t == *s,
        None => false,
    }
}

/// A copy of an optional text.
pub fn copy_opt_text(o: &Option<String>) -> (r: Option<String>)
    ensures
        r == *o,
{
    match o {
        Some(s) => Some(s.clone()),
        None => None,
    }
}

/// The characters of a text, in order.
pub fn chars_of(s: &str) -> (v: Vec<char>)
    ensures
        v@ == s@,
{
    let mut v: Vec<char> = Vec::new();
    for c in it: s.chars()
        invariant
            v@ == it.seq().take(it.index() as int),
            it.seq() == s@,
    {
        v.push(c);
    }
    v
}

/// `a` and `b` agree on their first `k` characters.
pub open spec fn agree_upto(a: Seq<char>, b: Seq<char>, k: int) -> bool {
    &&& 0 <= k <= a.len()
    &&& k <= b.len()
    &&& forall|j: int| 0 <= j < k ==> a[j] == b[j]
}

/// Strict lexicographic order by code point. For valid text this is the
/// order of the UTF-8 encodings compared byte by byte.
pub open spec fn precedes(a: Seq<char>, b: Seq<char>) -> bool {
    exists|k: int| #[trigger]
        agree_upto(a, b, k) && (if k == a.len() {
            k < b.len()
        } else {
            k < b.len() && a[k] < b[k]
        })
}

/// Tells whether `a` comes strictly before `b` in the order of code points.
pub fn text_precedes(a: &str, b: &str) -> (r: bool)
    ensures
        r == precedes(a@, b@),
{
    let x = chars_of(a);
    let y = chars_of(b);
    let mut i: usize = 0;
    while i < x.len() && i < y.len()
        invariant
            x@ == a@,
            y@ == b@,
            agree_upto(x@, y@, i as int),
        decreases x.len() - i,
    {
        let c = x[i];
        let d = y[i];
        if c != d {
            let r = c < d;
            proof {
                if r {
                    assert(agree_upto(x@, y@, i as int));
                } else {
                    assert forall|k: int| #[trigger] agree_upto(x@, y@, k) implies !(if k == x@.len() {
                        k < y@.len()
                    } else {
                        k < y@.len() && x@[k] < y@[k]
                    }) by {
                        if k > i {
                            assert(x@[i as int] == y@[i as int]);
                        }
                    }
                }
            }
            return r;
        }
        i += 1;
    }
    let r = i < y.len();
    proof {
        if r {
            assert(agree_upto(x@, y@, i as int));
        } else {
            assert forall|k: int| #[trigger] agree_upto(x@, y@, k) implies !(if k == x@.len() {
                k < y@.len()
            } else {
                k < y@.len() && x@[k] < y@[k]
            }) by {
                if k < x@.len() && k < y@.len() {
                    assert(x@[k] == y@[k]);
                }
            }
        }
    }
    r
}

/// The character that renders the decimal digit `d`.
pub open spec fn digit_char(d: nat) -> char {
    if d == 0 {
        '0'
    } else if d == 1 {
        '1'
    } else if d == 2 {
        '2'
    } else if d == 3 {
        '3'
    } else if d == 4 {
        '4'
    } else if d == 5 {
        '5'
    } else if d == 6 {
        '6'
    } else if d == 7 {
        '7'
    } else if d == 8 {
        '8'
    } else {
        '9'
    }
}

/// Decimal rendering of a natural number, without leading zeros.
pub open spec fn decimal(n: nat) -> Seq<char>
    decreases n,
{
    if n < 10 {
        seq![digit_char(n)]
    } else {
        decimal(n / 10).push(digit_char(n % 10))
    }
}

/// Decimal rendering of an integer, with a leading `-` below zero.
pub open spec fn signed_decimal(n: int) -> Seq<char> {
    if n < 0 {
        seq!['-'] + decimal((-n) as nat)
    } else {
        decimal(n as nat)
    }
}

/// Rendering of a count of tenths with one decimal place: 99 gives "9.9".
pub open spec fn tenths(n: nat) -> Seq<char> {
    decimal(n / 10) + seq!['.'] + decimal(n % 10)
}

fn digit_text(d: u64) -> (s: &'static str)
    requires
        d < 10,
    ensures
        s@ == seq![digit_char(d as nat)],
{
    proof {
        reveal_strlit("0");
        reveal_strlit("1");
        reveal_strlit("2");
        reveal_strlit("3");
        reveal_strlit("4");
        reveal_strlit("5");
        reveal_strlit("6");
        reveal_strlit("7");
        reveal_strlit("8");
        reveal_strlit("9");
    }
    let s = if d == 0 {
        "0"
    } else if d == 1 {
        "1"
    } else if d == 2 {
        "2"
    } else if d == 3 {
        "3"
    } else if d == 4 {
        "4"
    } else if d == 5 {
        "5"
    } else if d == 6 {
        "6"
    } else if d == 7 {
        "7"
    } else if d == 8 {
        "8"
    } else {
        "9"
    };
    assert(s@ =~= seq![digit_char(d as nat)]);
    s
}

/// Renders a number in decimal digits.
pub fn decimal_text(n: u64) -> (s: String)
    ensures
        s@ == decimal(n as nat),
    decreases n,
{
    if n < 10 {
        String::from_str(digit_text(n))
    } else {
        let mut s = decimal_text(n / 10);
        s.append(digit_text(n % 10));
        assert(s@ =~= decimal(n as nat));
        s
    }
}

/// Renders a wide number in decimal digits.
pub fn wide_decimal_text(n: u128) -> (s: String)
    ensures
        s@ == decimal(n as nat),
    decreases n,
{
    if n < 10 {
        String::from_str(digit_text(n as u64))
    } else {
        let mut s = wide_decimal_text(n / 10);
        s.append(digit_text((n % 10) as u64));
        assert(s@ =~= decimal(n as nat));
        s
    }
}

/// Renders an integer in decimal digits, with its sign where it is negative.
pub fn signed_decimal_text(n: i64) -> (s: String)
    ensures
        s@ == signed_decimal(n as int),
{
    if n < 0 {
        proof {
            reveal_strlit("-");
        }
        let mut s = String::from_str("-");
        let m: u64 = if n == i64::MIN {
            9223372036854775808u64
        } else {
            (-n) as u64
        };
        let digits = decimal_text(m);
        s.append(digits.as_str());
        assert(s@ =~= signed_decimal(n as int));
        s
    } else {
        decimal_text(n as u64)
    }
}

/// Renders a count of tenths with one decimal place.
pub fn tenths_text(n: u64) -> (s: String)
    ensures
        s@ == tenths(n as nat),
{
    proof {
        reveal_strlit(".");
    }
    let mut s = decimal_text(n / 10);
    s.append(".");
    s.append(digit_text(n % 10));
    assert(s@ =~= tenths(n as nat));
    s
}

/// As many zeros as `count` says.
pub open spec fn zeros(count: nat) -> Seq<char> {
    Seq::new(count, |i: int| '0')
}

/// Decimal rendering of a natural number with zeros in front of it where
/// it has fewer digits than `width`.
pub open spec fn zero_padded(n: nat, width: nat) -> Seq<char> {
    let digits = decimal(n);
    if digits.len() >= width {
        digits
    } else {
        zeros((width - digits.len()) as nat) + digits
    }
}

/// A calendar date as text: the year with at least four digits, the month
/// and the day with at least two, hyphens between them, and a hyphen in
/// front of a year before the year 0.
pub open spec fn date_text(year: int, month: nat, day: nat) -> Seq<char> {
    (if year < 0 {
        seq!['-'] + zero_padded((-year) as nat, 4)
    } else {
        zero_padded(year as nat, 4)
    }) + seq!['-'] + zero_padded(month, 2) + seq!['-'] + zero_padded(day, 2)
}

/// Renders a number with zeros in front of it where it has fewer digits
/// than `width`.
pub fn zero_padded_text(n: u64, width: usize) -> (s: String)
    ensures
        s@ == zero_padded(n as nat, width as nat),
{
    let digits = decimal_text(n);
    let have = digits.as_str().unicode_len();
    if have >= width {
        return digits;
    }
    let missing = width - have;
    let mut s = String::new();
    let mut k: usize = 0;
    assert(s@ =~= zeros(0));
    while k < missing
        invariant
            k <= missing,
            s@ == zeros(k as nat),
        decreases missing - k,
    {
        proof {
            reveal_strlit("0");
        }
        s.append("0");
        assert(s@ =~= zeros((k + 1) as nat));
        k += 1;
    }
    s.append(digits.as_str());
    s
}

/// Renders a calendar date as text.
pub fn date_string(year: i32, month: u32, day: u32) -> (s: String)
    ensures
        s@ == date_text(year as int, month as nat, day as nat),
{
    proof {
        reveal_strlit("-");
    }
    let mut s = String::new();
    if year < 0 {
        s.append("-");
        s.append(zero_padded_text((-(year as i64)) as u64, 4).as_str());
    } else {
        s.append(zero_padded_text(year as u64, 4).as_str());
    }
    s.append("-");
    s.append(zero_padded_text(month as u64, 2).as_str());
    s.append("-");
    s.append(zero_padded_text(day as u64, 2).as_str());
    assert(s@ =~= date_text(year as int, month as nat, day as nat));
    s
}

/// `needle` occurs in `hay` starting at position `i`.
pub open spec fn occurs_at(hay: Seq<char>, needle: Seq<char>, i: int) -> bool {
    &&& 0 <= i
    &&& i + needle.len() <= hay.len()
    &&& hay.subrange(i, i + needle.len()) == needle
}

/// `needle` occurs somewhere in `hay`.
pub open spec fn has_infix(hay: Seq<char>, needle: Seq<char>) -> bool {
    exists|i: int| occurs_at(hay, needle, i)
}

/// `hay` ends with `needle`.
pub open spec fn has_suffix(hay: Seq<char>, needle: Seq<char>) -> bool {
    occurs_at(hay, needle, hay.len() - needle.len())
}

fn matches_at(hay: &Vec<char>, needle: &Vec<char>, i: usize) -> (r: bool)
    requires
        i + needle@.len() <= hay@.len(),
    ensures
        r == occurs_at(hay@, needle@, i as int),
{
    let mut j: usize = 0;
    assert(hay@.len() == hay.len());
    while j < needle.len()
        invariant
            j <= needle@.len(),
            i + needle@.len() <= hay@.len() <= usize::MAX,
            forall|k: int| 0 <= k < j ==> hay@[i + k] == needle@[k],
        decreases needle@.len() - j,
    {
        if hay[i + j] != needle[j] {
            proof {
                let w = hay@.subrange(i as int, i + needle@.len());
                assert(w[j as int] == hay@[i + j]);
            }
            return false;
        }
        j += 1;
    }
    assert(hay@.subrange(i as int, i + needle@.len()) =~= needle@);
    true
}

/// Tells whether `needle` occurs in `hay`.
pub fn text_contains(hay: &str, needle: &str) -> (r: bool)
    ensures
        r == has_infix(hay@, needle@),
{
    let h = chars_of(hay);
    let n = chars_of(needle);
    if n.len() > h.len() {
        return false;
    }
    let last = h.len() - n.len();
    let mut i: usize = 0;
    loop
        invariant
            i <= last,
            last == h@.len() - n@.len(),
            h@ == hay@,
            n@ == needle@,
            forall|k: int| 0 <= k < i ==> !occurs_at(h@, n@, k),
        decreases last - i,
    {
        if matches_at(&h, &n, i) {
            return true;
        }
        if i == last {
            return false;
        }
        i += 1;
    }
}

/// Tells whether `hay` ends with `needle`.
pub fn text_ends_with(hay: &str, needle: &str) -> (r: bool)
    ensures
        r == has_suffix(hay@, needle@),
{
    let h = chars_of(hay);
    let n = chars_of(needle);
    if n.len() > h.len() {
        return false;
    }
    matches_at(&h, &n, h.len() - n.len())
}

/// Two texts agree up to some position where one of them ends or they
/// differ.
proof fn parting_exists(a: Seq<char>, b: Seq<char>, k: int) -> (at: int)
    requires
        agree_upto(a, b, k),
    ensures
        agree_upto(a, b, at),
        at == a.len() || at == b.len() || a[at] != b[at],
    decreases a.len() - k,
{
    if k == a.len() || k == b.len() || a[k] != b[k] {
        k
    } else {
        parting_exists(a, b, k + 1)
    }
}

/// Of two different texts one precedes the other.
pub proof fn precedes_is_total(a: Seq<char>, b: Seq<char>)
    ensures
        a == b || precedes(a, b) || precedes(b, a),
{
    let at = parting_exists(a, b, 0);
    assert(agree_upto(b, a, at));
    if at == a.len() && at == b.len() {
        assert(a =~= b);
    } else if at == a.len() {
        assert(precedes(a, b));
    } else if at == b.len() {
        assert(precedes(b, a));
    } else if a[at] < b[at] {
        assert(precedes(a, b));
    } else {
        assert(precedes(b, a));
    }
}

/// No text precedes a text that precedes it; in particular none precedes
/// itself.
pub proof fn precedes_is_asymmetric(a: Seq<char>, b: Seq<char>)
    ensures
        precedes(a, b) ==> !precedes(b, a),
{
    if precedes(a, b) && precedes(b, a) {
        let k = choose|k: int| #[trigger]
            agree_upto(a, b, k) && (if k == a.len() {
                k < b.len()
            } else {
                k < b.len() && a[k] < b[k]
            });
        let j = choose|j: int| #[trigger]
            agree_upto(b, a, j) && (if j == b.len() {
                j < a.len()
            } else {
                j < a.len() && b[j] < a[j]
            });
        if k < j {
            assert(b[k] == a[k]);
        } else if j < k {
            assert(a[j] == b[j]);
        }
    }
}

/// Where `a` precedes `b` and `b` precedes `c`, `a` precedes `c`.
pub proof fn precedes_is_transitive(a: Seq<char>, b: Seq<char>, c: Seq<char>)
    ensures
        precedes(a, b) && precedes(b, c) ==> precedes(a, c),
{
    if precedes(a, b) && precedes(b, c) {
        let k = choose|k: int| #[trigger]
            agree_upto(a, b, k) && (if k == a.len() {
                k < b.len()
            } else {
                k < b.len() && a[k] < b[k]
            });
        let j = choose|j: int| #[trigger]
            agree_upto(b, c, j) && (if j == b.len() {
                j < c.len()
            } else {
                j < c.len() && b[j] < c[j]
            });
        let m = if k <= j {
            k
        } else {
            j
        };
        assert forall|i: int| 0 <= i < m implies a[i] == c[i] by {
            assert(a[i] == b[i]);
            assert(b[i] == c[i]);
        }
        assert(agree_upto(a, c, m));
        if k < j {
            assert(b[k] == c[k]);
        } else if j < k {
            assert(a[j] == b[j]);
        }
    }
}

/// Where `a` does not precede `b` and `b` does not precede `c`, `a` does
/// not precede `c`.
pub proof fn precedes_ranks(a: Seq<char>, b: Seq<char>, c: Seq<char>)
    ensures
        !precedes(a, b) && !precedes(b, c) ==> !precedes(a, c),
{
    precedes_is_total(a, b);
    precedes_is_total(b, c);
    precedes_is_transitive(c, b, a);
    precedes_is_asymmetric(a, c);
}

} // verus!
