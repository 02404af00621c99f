//! Small verified helpers over characters and strings: UTF-8 widths,
//! digit arithmetic, decimal rendering and string/character conversions.

use vstd::prelude::*;

verus! {

use vstd::string::StrSliceExecFns;

/// Number of octets the UTF-8 encoding of a character occupies.
pub open spec fn char_width(c: char) -> int {
    if (c as u32) < 0x80 {
        1
    } else if (c as u32) < 0x800 {
        2
    } else if (c as u32) < 0x10000 {
        3
    } else {
        4
    }
}

/// Total octet count of the UTF-8 encoding of a character sequence.
pub open spec fn seq_width(s: Seq<char>) -> int
    decreases s.len(),
{
    if s.len() == 0 {
        0
    } else {
        seq_width(s.drop_last()) + char_width(s.last())
    }
}

pub proof fn lemma_seq_width_bounds(s: Seq<char>)
    ensures
        seq_width(s) >= s.len(),
        seq_width(s) <= 4 * s.len(),
    decreases s.len(),
{
    if s.len() > 0 {
        lemma_seq_width_bounds(s.drop_last());
    }
}

pub proof fn lemma_seq_width_append(a: Seq<char>, b: Seq<char>)
    ensures
        seq_width(a + b) == seq_width(a) + seq_width(b),
    decreases b.len(),
{
    if b.len() == 0 {
        assert(a + b =~= a);
    } else {
        lemma_seq_width_append(a, b.drop_last());
        assert((a + b).drop_last() =~= a + b.drop_last());
    }
}

/// Octet count of one character, computed executably.
pub fn char_width_x(c: char) -> (r: usize)
    ensures
        r == char_width(c),
{
    let u = c as u32;
    if u < 0x80 {
        1
    } else if u < 0x800 {
        2
    } else if u < 0x10000 {
        3
    } else {
        4
    }
}

pub open spec fn is_digit(c: char) -> bool {
    '0' <= c && c <= '9'
}

pub open spec fn digit_val(c: char) -> int {
    c as int - '0' as int
}

pub open spec fn all_digits(s: Seq<char>) -> bool {
    forall|i: int| 0 <= i < s.len() ==> is_digit(#[trigger] s[i])
}

/// Value of a digit string read as a decimal number.
pub open spec fn digits_val(s: Seq<char>) -> int
    decreases s.len(),
{
    if s.len() == 0 {
        0
    } else {
        digits_val(s.drop_last()) * 10 + digit_val(s.last())
    }
}

pub proof fn lemma_digits_val_nonneg(s: Seq<char>)
    requires
        all_digits(s),
    ensures
        digits_val(s) >= 0,
    decreases s.len(),
{
    if s.len() > 0 {
        lemma_digits_val_nonneg(s.drop_last());
    }
}

/// A digit string is worth at least any of its prefixes: appending digits
/// never shrinks the value.
pub proof fn lemma_digits_val_prefix(s: Seq<char>, i: int)
    requires
        all_digits(s),
        0 <= i <= s.len(),
    ensures
        digits_val(s) >= digits_val(s.take(i)),
    decreases s.len() - i,
{
    lemma_digits_val_nonneg(s.take(i));
    if i < s.len() {
        lemma_digits_val_prefix(s, i + 1);
        assert(s.take(i + 1).drop_last() =~= s.take(i));
        assert(digits_val(s.take(i + 1)) == digits_val(s.take(i)) * 10 + digit_val(s[i]));
    } else {
        assert(s.take(i) =~= s);
    }
}

/// The digit character for one decimal digit.
pub open spec fn digit_char(d: int) -> char {
    if d == 0 {
        '0'
    } else if d == 1 {
        '1'
    } else if d == 2 {
        '2'
    } else if d == 3 {
        '3'
    } else if d == 4 {
        '4'
    } else if d == 5 {
        '5'
    } else if d == 6 {
        '6'
    } else if d == 7 {
        '7'
    } else if d == 8 {
        '8'
    } else {
        '9'
    }
}

pub proof fn lemma_digit_char_val(d: int)
    requires
        0 <= d <= 9,
    ensures
        is_digit(digit_char(d)),
        digit_val(digit_char(d)) == d,
{
}

/// The canonical decimal rendering of a non-negative number: no sign and
/// no leading zeros (zero itself renders as one digit).
pub open spec fn nat_canon(n: int) -> Seq<char>
    decreases n,
{
    if n < 10 {
        seq![digit_char(n)]
    } else {
        nat_canon(n / 10).push(digit_char(n % 10))
    }
}

pub proof fn lemma_nat_canon_digits(n: int)
    requires
        n >= 0,
    ensures
        all_digits(nat_canon(n)),
        digits_val(nat_canon(n)) == n,
        nat_canon(n).len() >= 1,
    decreases n,
{
    if n < 10 {
        lemma_digit_char_val(n);
        assert(nat_canon(n) =~= seq![digit_char(n)]);
        assert(nat_canon(n).drop_last() =~= Seq::<char>::empty());
        assert(nat_canon(n).last() == digit_char(n));
        assert(digits_val(nat_canon(n)) == digits_val(Seq::<char>::empty()) * 10 + digit_val(
            digit_char(n)));
        assert(digits_val(nat_canon(n)) == n);
    } else {
        lemma_nat_canon_digits(n / 10);
        lemma_digit_char_val(n % 10);
        let s = nat_canon(n);
        assert(s.drop_last() =~= nat_canon(n / 10));
        assert(s.last() == digit_char(n % 10));
        assert(digits_val(s) == digits_val(nat_canon(n / 10)) * 10 + digit_val(digit_char(n % 10)));
        assert(digits_val(s) == (n / 10) * 10 + n % 10);
        assert((n / 10) * 10 + n % 10 == n) by {
            vstd::arithmetic::div_mod::lemma_fundamental_div_mod(n, 10);
        }
        assert(forall|i: int| 0 <= i < s.len() ==> is_digit(#[trigger] s[i])) by {
            assert(forall|i: int|
                0 <= i < s.len() - 1 ==> s[i] == #[trigger] nat_canon(n / 10)[i]);
        }
    }
}

/// The canonical decimal rendering of a signed number: a leading minus
/// sign for negatives, no leading plus or leading zeros.
pub open spec fn int_canon(n: int) -> Seq<char> {
    if n < 0 {
        seq!['-'] + nat_canon(-n)
    } else {
        nat_canon(n)
    }
}

/// Trusted shim over `String::push`: appends exactly one character.
#[verifier::external_body]
pub fn push_char(s: &mut String, c: char)
    ensures
        final(s)@ == old(s)@.push(c),
{
    s.push(c);
}

/// Builds a `String` whose characters are exactly those of the vector.
pub fn chars_to_string(v: &Vec<char>) -> (r: String)
    ensures
        r@ == v@,
{
    let mut r = String::new();
    let mut i: usize = 0;
    while i < v.len()
        invariant
            i <= v.len(),
            r@ =~= v@.take(i as int),
        decreases v.len() - i,
    {
        push_char(&mut r, v[i]);
        proof {
            assert(v@.take(i + 1) =~= v@.take(i as int).push(v@[i as int]));
        }
        i = i + 1;
    }
    proof {
        assert(v@.take(v@.len() as int) =~= v@);
    }
    r
}

/// Collects the characters of a string slice into a vector.
pub fn str_to_chars(s: &str) -> (r: Vec<char>)
    ensures
        r@ == s@,
{
    let n = s.unicode_len();
    let mut r: Vec<char> = Vec::new();
    let mut i: usize = 0;
    while i < n
        invariant
            i <= n,
            n == s@.len(),
            r@ =~= s@.take(i as int),
        decreases n - i,
    {
        r.push(s.get_char(i));
        proof {
            assert(s@.take(i + 1) =~= s@.take(i as int).push(s@[i as int]));
        }
        i = i + 1;
    }
    proof {
        assert(s@.take(s@.len() as int) =~= s@);
    }
    r
}

/// Character-for-character equality of two string slices.
pub fn str_eq(a: &str, b: &str) -> (r: bool)
    ensures
        r == (a@ == b@),
{
    let n = a.unicode_len();
    let m = b.unicode_len();
    if n != m {
        return false;
    }
    let mut i: usize = 0;
    while i < n
        invariant
            i <= n,
            n == a@.len() && n == b@.len(),
            forall|j: int| 0 <= j < i ==> a@[j] == b@[j],
        decreases n - i,
    {
        if a.get_char(i) != b.get_char(i) {
            return false;
        }
        i = i + 1;
    }
    proof {
        assert(a@ =~= b@);
    }
    true
}

/// The digit character of one decimal digit, computed executably.
pub fn digit_of(d: u64) -> (r: char)
    requires
        d <= 9,
    ensures
        r == digit_char(d as int),
{
    if d == 0 {
        '0'
    } else if d == 1 {
        '1'
    } else if d == 2 {
        '2'
    } else if d == 3 {
        '3'
    } else if d == 4 {
        '4'
    } else if d == 5 {
        '5'
    } else if d == 6 {
        '6'
    } else if d == 7 {
        '7'
    } else if d == 8 {
        '8'
    } else {
        '9'
    }
}

/// Renders a non-negative 64-bit number in canonical decimal form.
pub fn u64_to_chars(n: u64) -> (r: Vec<char>)
    ensures
        r@ == nat_canon(n as int),
{
    if n == 0 {
        let mut v: Vec<char> = Vec::new();
        v.push('0');
        proof {
            assert(v@ =~= seq!['0']);
        }
        return v;
    }
    let mut rev: Vec<char> = Vec::new();
    let mut cur: u64 = n;
    while cur > 0
        invariant
            nat_canon(n as int) =~= if cur > 0 {
                nat_canon(cur as int) + rev@.reverse()
            } else {
                rev@.reverse()
            },
        decreases cur,
    {
        let d = cur % 10;
        let dc = digit_of(d);
        rev.push(dc);
        proof {
            let old_rev = rev@.drop_last();
            assert(rev@.reverse() =~= seq![dc] + old_rev.reverse());
            if cur >= 10 {
                assert(nat_canon(cur as int) =~= nat_canon(cur as int / 10) + seq![dc]);
                assert(nat_canon(cur as int / 10) + rev@.reverse() =~= nat_canon(cur as int)
                    + old_rev.reverse());
            } else {
                assert(nat_canon(cur as int) =~= seq![dc]);
                assert(rev@.reverse() =~= nat_canon(cur as int) + old_rev.reverse());
            }
        }
        cur = cur / 10;
    }
    let mut out: Vec<char> = Vec::new();
    let mut i: usize = rev.len();
    while i > 0
        invariant
            i <= rev.len(),
            out@ =~= rev@.skip(i as int).reverse(),
        decreases i,
    {
        i = i - 1;
        out.push(rev[i]);
        proof {
            assert(rev@.skip(i as int).reverse() =~= rev@.skip(i + 1).reverse().push(
                rev@[i as int]));
        }
    }
    proof {
        assert(rev@.skip(0) =~= rev@);
    }
    out
}

/// Index of the first occurrence of a character, or the length if absent.
pub open spec fn find_char(s: Seq<char>, c: char) -> nat
    decreases s.len(),
{
    if s.len() == 0 {
        0
    } else if s[0] == c {
        0
    } else {
        1 + find_char(s.skip(1), c)
    }
}

pub proof fn lemma_find_char_props(s: Seq<char>, c: char)
    ensures
        0 <= find_char(s, c) <= s.len(),
        forall|j: int| 0 <= j < find_char(s, c) ==> s[j] != c,
        find_char(s, c) < s.len() ==> s[find_char(s, c) as int] == c,
    decreases s.len(),
{
    if s.len() > 0 && s[0] != c {
        lemma_find_char_props(s.skip(1), c);
        assert forall|j: int| 0 <= j < find_char(s, c) implies s[j] != c by {
            if j > 0 {
                assert(s.skip(1)[j - 1] == s[j]);
            }
        }
        if find_char(s, c) < s.len() {
            assert(s.skip(1)[find_char(s, c) - 1] == s[find_char(s, c) as int]);
        }
    }
}

/// A position with no earlier occurrence, holding the character or at the
/// end, is where `find_char` points.
pub proof fn lemma_find_char_at(s: Seq<char>, c: char, k: int)
    requires
        0 <= k <= s.len(),
        forall|j: int| 0 <= j < k ==> s[j] != c,
        k == s.len() || s[k] == c,
    ensures
        find_char(s, c) == k,
    decreases k,
{
    if s.len() == 0 {
    } else if k == 0 {
        if s.len() > 0 && s[0] != c {
            lemma_find_char_props(s.skip(1), c);
        }
    } else {
        assert(s[0] != c);
        assert(forall|j: int| 0 <= j < k - 1 ==> #[trigger] s.skip(1)[j] == s[j + 1]);
        lemma_find_char_at(s.skip(1), c, k - 1);
    }
}

/// Finds the first occurrence of a character at or after `from`.
pub fn find_char_x(cs: &Vec<char>, from: usize, c: char) -> (r: usize)
    requires
        from <= cs@.len(),
    ensures
        r == from + find_char(cs@.skip(from as int), c),
        from <= r <= cs@.len(),
{
    let mut k: usize = from;
    while k < cs.len()
        invariant
            from <= k <= cs@.len(),
            forall|j: int| from <= j < k ==> cs@[j] != c,
        decreases cs@.len() - k,
    {
        if cs[k] == c {
            proof {
                lemma_subwindow(cs@, from as int, k as int, c);
            }
            return k;
        }
        k = k + 1;
    }
    proof {
        lemma_subwindow(cs@, from as int, k as int, c);
    }
    k
}

proof fn lemma_subwindow(s: Seq<char>, from: int, k: int, c: char)
    requires
        0 <= from <= k <= s.len(),
        forall|j: int| from <= j < k ==> s[j] != c,
        k == s.len() || s[k] == c,
    ensures
        find_char(s.skip(from), c) == k - from,
{
    let t = s.skip(from);
    assert(forall|j: int| 0 <= j < k - from ==> #[trigger] t[j] == s[j + from]);
    lemma_find_char_at(t, c, k - from);
}

/// Copies a window of the characters into a fresh vector.
pub fn subvec(cs: &Vec<char>, a: usize, b: usize) -> (r: Vec<char>)
    requires
        a <= b <= cs@.len(),
    ensures
        r@ == cs@.subrange(a as int, b as int),
{
    let mut r: Vec<char> = Vec::new();
    let mut i: usize = a;
    while i < b
        invariant
            a <= i <= b <= cs@.len(),
            r@ =~= cs@.subrange(a as int, i as int),
        decreases b - i,
    {
        r.push(cs[i]);
        proof {
            assert(cs@.subrange(a as int, i + 1) =~= cs@.subrange(a as int, i as int).push(
                cs@[i as int],
            ));
        }
        i = i + 1;
    }
    r
}

/// Renders a non-negative 64-bit number as a `String`.
pub fn u64_to_string(n: u64) -> (r: String)
    ensures
        r@ == nat_canon(n as int),
{
    let v = u64_to_chars(n);
    chars_to_string(&v)
}


/// Whether the needle occurs as a contiguous window of the haystack.
pub open spec fn contains_seq(hay: Seq<char>, needle: Seq<char>) -> bool {
    exists|i: int|
        0 <= i && i + needle.len() <= hay.len() && #[trigger] hay.subrange(i, i + needle.len())
            == needle
}

/// Substring search.
pub fn contains_str(hay: &str, needle: &str) -> (r: bool)
    ensures
        r == contains_seq(hay@, needle@),
{
    let h = str_to_chars(hay);
    let n = str_to_chars(needle);
    let hn = h.len();
    let nn = n.len();
    if nn > hn {
        proof {
            assert(!contains_seq(hay@, needle@));
        }
        return false;
    }
    let mut i: usize = 0;
    while i <= hn - nn
        invariant
            h@ == hay@,
            n@ == needle@,
            hn == h@.len(),
            nn == n@.len(),
            nn <= hn,
            i <= hn - nn + 1,
            forall|j: int|
                0 <= j < i ==> #[trigger] hay@.subrange(j, j + needle@.len()) != needle@,
        decreases hn - nn - i + 1,
    {
        let mut k: usize = 0;
        let mut all = true;
        while k < nn
            invariant
                i + nn <= hn,
                h@ == hay@,
                n@ == needle@,
                hn == h@.len(),
                nn == n@.len(),
                k <= nn,
                all == (forall|j: int| 0 <= j < k ==> hay@[i + j] == needle@[j]),
            decreases nn - k,
        {
            if h[i + k] != n[k] {
                all = false;
            } else {
                proof {
                    if all {
                        assert forall|j: int| 0 <= j < k + 1 implies hay@[i + j] == needle@[j] by {
                            if j < k {
                                assert(hay@[i + j] == needle@[j]);
                            }
                        }
                    }
                }
            }
            k = k + 1;
        }
        if all {
            proof {
                assert forall|j: int|
                    0 <= j < needle@.len() implies hay@.subrange(i as int, i + needle@.len())[j]
                    == needle@[j] by {
                    assert(hay@[i + j] == needle@[j]);
                }
                assert(hay@.subrange(i as int, i + needle@.len()) =~= needle@);
            }
            return true;
        }
        proof {
            if hay@.subrange(i as int, i + needle@.len()) == needle@ {
                assert forall|j: int| 0 <= j < nn implies hay@[i + j] == needle@[j] by {
                    assert(hay@.subrange(i as int, i + needle@.len())[j] == hay@[i + j]);
                }
                assert(false);
            }
        }
        i = i + 1;
    }
    proof {
        assert forall|j: int|
            0 <= j && j + needle@.len() <= hay@.len() implies #[trigger] hay@.subrange(
            j,
            j + needle@.len(),
        ) != needle@ by {
            assert(j < i);
        }
    }
    false
}


/// Finding a character skips any prefix free of it.
pub proof fn lemma_find_char_absent_prefix(a: Seq<char>, b: Seq<char>, c: char)
    requires
        forall|j: int| 0 <= j < a.len() ==> a[j] != c,
    ensures
        find_char(a + b, c) == a.len() + find_char(b, c),
    decreases a.len(),
{
    if a.len() == 0 {
        assert(a + b =~= b);
    } else {
        assert((a + b)[0] == a[0]);
        assert((a + b).skip(1) =~= a.skip(1) + b);
        assert(forall|j: int| 0 <= j < a.len() - 1 ==> #[trigger] a.skip(1)[j] == a[j + 1]);
        lemma_find_char_absent_prefix(a.skip(1), b, c);
    }
}

} // verus!
