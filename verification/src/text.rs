//! Character-level helpers shared by the modules: Unicode whitespace and
//! trimming, ASCII case folding, and decimal rendering of integers.

use vstd::prelude::*;

verus! {

/// Unicode `White_Space`, the set that `char::is_whitespace` tests.
pub open spec fn is_space(c: char) -> bool {
    let u = c as u32;
    (0x9 <= u && u <= 0xd) || u == 0x20 || u == 0x85 || u == 0xa0 || u == 0x1680 || (0x2000 <= u
        && u <= 0x200a) || u == 0x2028 || u == 0x2029 || u == 0x202f || u == 0x205f || u == 0x3000
}

/// Drops leading whitespace.
pub open spec fn trim_front(s: Seq<char>) -> Seq<char>
    decreases s.len(),
{
    if s.len() > 0 && is_space(s[0]) {
        trim_front(s.drop_first())
    } else {
        s
    }
}

/// Drops trailing whitespace.
pub open spec fn trim_back(s: Seq<char>) -> Seq<char>
    decreases s.len(),
{
    if s.len() > 0 && is_space(s.last()) {
        trim_back(s.drop_last())
    } else {
        s
    }
}

/// What `str::trim` leaves of `s`.
pub open spec fn trim(s: Seq<char>) -> Seq<char> {
    trim_back(trim_front(s))
}

/// ASCII lower-casing of one character (`char::to_ascii_lowercase`).
pub open spec fn lower_char(c: char) -> char {
    if 'A' <= c && c <= 'Z' {
        ((c as u32) + 32) as char
    } else {
        c
    }
}

/// ASCII lower-casing of a whole string (`str::to_ascii_lowercase`).
pub open spec fn lower(s: Seq<char>) -> Seq<char> {
    s.map_values(|c: char| lower_char(c))
}

/// The decimal digit for `d < 10`.
pub open spec fn digit_char(d: nat) -> char {
    if d == 0 {
        '0'
    } else if d == 1 {
        '1'
    } else if d == 2 {
        '2'
    } else if d == 3 {
        '3'
    } else if d == 4 {
        '4'
    } else if d == 5 {
        '5'
    } else if d == 6 {
        '6'
    } else if d == 7 {
        '7'
    } else if d == 8 {
        '8'
    } else {
        '9'
    }
}

/// Decimal rendering of `n`, most significant digit first, no leading zeros.
pub open spec fn decimal(n: nat) -> Seq<char>
    decreases n,
{
    if n < 10 {
        seq![digit_char(n)]
    } else {
        decimal(n / 10).push(digit_char(n % 10))
    }
}

/// Decimal rendering of `n`, left-padded with zeros to at least `width` characters
/// (`format!("{n:0width$}")`).
pub open spec fn zero_padded(n: nat, width: nat) -> Seq<char> {
    let d = decimal(n);
    if d.len() < width {
        Seq::new((width - d.len()) as nat, |i: int| '0') + d
    } else {
        d
    }
}

/// `char::is_whitespace`.
pub fn is_space_char(c: char) -> (r: bool)
    ensures
        r == is_space(c),
{
    let u = c as u32;
    (0x9 <= u && u <= 0xd) || u == 0x20 || u == 0x85 || u == 0xa0 || u == 0x1680 || (0x2000 <= u
        && u <= 0x200a) || u == 0x2028 || u == 0x2029 || u == 0x202f || u == 0x205f || u == 0x3000
}

/// `char::to_ascii_lowercase`.
pub fn lower_char_exec(c: char) -> (r: char)
    ensures
        r == lower_char(c),
{
    if 'A' <= c && c <= 'Z' {
        let b = (c as u8) + 32;
        b as char
    } else {
        c
    }
}

proof fn lemma_trim_front_skip(s: Seq<char>, i: int)
    requires
        0 <= i < s.len(),
        is_space(s[i]),
    ensures
        trim_front(s.subrange(i, s.len() as int)) == trim_front(s.subrange(i + 1, s.len() as int)),
{
    let t = s.subrange(i, s.len() as int);
    assert(t.drop_first() =~= s.subrange(i + 1, s.len() as int));
}

proof fn lemma_trim_back_skip(s: Seq<char>, j: int)
    requires
        0 < j <= s.len(),
        is_space(s[j - 1]),
    ensures
        trim_back(s.subrange(0, j)) == trim_back(s.subrange(0, j - 1)),
{
    let t = s.subrange(0, j);
    assert(t.drop_last() =~= s.subrange(0, j - 1));
}

/// `str::trim`: the slice of `s` without leading and trailing whitespace.
pub fn trim_str(s: &str) -> (r: &str)
    ensures
        r@ == trim(s@),
{
    let n = s.unicode_len();
    let mut i: usize = 0;
    assert(s@.subrange(0, n as int) =~= s@);
    while i < n && is_space_char(s.get_char(i))
        invariant
            n == s@.len(),
            i <= n,
            trim_front(s@) == trim_front(s@.subrange(i as int, n as int)),
        decreases n - i,
    {
        proof {
            lemma_trim_front_skip(s@, i as int);
        }
        i = i + 1;
    }
    let ghost front = s@.subrange(i as int, n as int);
    assert(trim_front(front) == front) by {
        if front.len() > 0 {
            assert(front[0] == s@[i as int]);
        }
    }
    let mut j: usize = n;
    assert(front.subrange(0, (n - i) as int) =~= front);
    while j > i && is_space_char(s.get_char(j - 1))
        invariant
            n == s@.len(),
            i <= j <= n,
            front == s@.subrange(i as int, n as int),
            trim_back(front) == trim_back(front.subrange(0, (j - i) as int)),
        decreases j,
    {
        proof {
            assert(front[(j - i - 1) as int] == s@[(j - 1) as int]);
            lemma_trim_back_skip(front, (j - i) as int);
        }
        j = j - 1;
    }
    let ghost back = front.subrange(0, (j - i) as int);
    assert(trim_back(back) == back) by {
        if back.len() > 0 {
            assert(back.last() == s@[(j - 1) as int]);
        }
    }
    assert(back =~= s@.subrange(i as int, j as int));
    s.substring_char(i, j)
}

/// `str::eq_ignore_ascii_case`-style comparison of `s` against an all-lowercase word:
/// true exactly when the ASCII lower-casing of `s` is `word`.
pub fn lower_eq(s: &str, word: &str) -> (r: bool)
    ensures
        r == (lower(s@) == word@),
{
    let n = s.unicode_len();
    let m = word.unicode_len();
    if n != m {
        assert(lower(s@).len() == n);
        return false;
    }
    let mut i: usize = 0;
    while i < n
        invariant
            n == s@.len(),
            n == word@.len(),
            i <= n,
            forall|k: int| 0 <= k < i ==> lower_char(s@[k]) == word@[k],
        decreases n - i,
    {
        if lower_char_exec(s.get_char(i)) != word.get_char(i) {
            assert(lower(s@)[i as int] != word@[i as int]);
            return false;
        }
        i = i + 1;
    }
    assert(lower(s@) =~= word@);
    true
}

/// Exact string comparison (`s == word`).
pub fn str_eq(s: &str, word: &str) -> (r: bool)
    ensures
        r == (s@ == word@),
{
    let n = s.unicode_len();
    if n != word.unicode_len() {
        return false;
    }
    let mut i: usize = 0;
    while i < n
        invariant
            n == s@.len(),
            n == word@.len(),
            i <= n,
            forall|k: int| 0 <= k < i ==> s@[k] == word@[k],
        decreases n - i,
    {
        if s.get_char(i) != word.get_char(i) {
            return false;
        }
        i = i + 1;
    }
    assert(s@ =~= word@);
    true
}

/// The one-character string for the digit `d < 10`.
fn digit_str(d: u128) -> (r: &'static str)
    requires
        d < 10,
    ensures
        r@ == seq![digit_char(d as nat)],
{
    if d == 0 {
        proof {
            reveal_strlit("0");
        }
        "0"
    } else if d == 1 {
        proof {
            reveal_strlit("1");
        }
        "1"
    } else if d == 2 {
        proof {
            reveal_strlit("2");
        }
        "2"
    } else if d == 3 {
        proof {
            reveal_strlit("3");
        }
        "3"
    } else if d == 4 {
        proof {
            reveal_strlit("4");
        }
        "4"
    } else if d == 5 {
        proof {
            reveal_strlit("5");
        }
        "5"
    } else if d == 6 {
        proof {
            reveal_strlit("6");
        }
        "6"
    } else if d == 7 {
        proof {
            reveal_strlit("7");
        }
        "7"
    } else if d == 8 {
        proof {
            reveal_strlit("8");
        }
        "8"
    } else {
        proof {
            reveal_strlit("9");
        }
        "9"
    }
}

/// Decimal rendering of `n` (`n.to_string()`).
pub fn decimal_string(n: u128) -> (s: String)
    ensures
        s@ == decimal(n as nat),
{
    let mut m: u128 = n / 10;
    let mut s = String::from_str(digit_str(n % 10));
    assert(n >= 10 ==> decimal(n as nat) == decimal(m as nat) + s@);
    assert(n < 10 ==> decimal(n as nat) == s@);
    while m > 0
        invariant
            m > 0 ==> decimal(n as nat) == decimal(m as nat) + s@,
            m == 0 ==> decimal(n as nat) == s@,
        decreases m,
    {
        let head = String::from_str(digit_str(m % 10));
        let ghost old_s = s@;
        s = head.concat(s.as_str());
        assert(decimal(m as nat) == decimal((m / 10) as nat).push(digit_char((m % 10) as nat))
            || m < 10);
        if m >= 10 {
            assert(decimal(m as nat) + old_s =~= decimal((m / 10) as nat) + s@);
        } else {
            assert(decimal(m as nat) + old_s =~= s@);
        }
        m = m / 10;
    }
    s
}

/// The length of the decimal rendering of `n`.
pub proof fn lemma_decimal_len(n: nat)
    ensures
        decimal(n).len() >= 1,
        n < 10 ==> decimal(n).len() == 1,
        10 <= n < 100 ==> decimal(n).len() == 2,
        100 <= n < 1000 ==> decimal(n).len() == 3,
        n >= 10 ==> decimal(n).len() == decimal(n / 10).len() + 1,
    decreases n,
{
    if n >= 10 {
        lemma_decimal_len(n / 10);
    }
}

/// Decimal rendering of `n`, zero-padded on the left to `width` characters.
pub fn zero_padded_string(n: u128, width: usize) -> (s: String)
    ensures
        s@ == zero_padded(n as nat, width as nat),
{
    let d = decimal_string(n);
    let len = d.as_str().unicode_len();
    if len >= width {
        return d;
    }
    let mut zeros = String::new();
    let mut k: usize = 0;
    proof {
        reveal_strlit("0");
    }
    while k < width - len
        invariant
            k <= width - len,
            len == d@.len(),
            zeros@ =~= Seq::new(k as nat, |i: int| '0'),
        decreases width - len - k,
    {
        proof {
            reveal_strlit("0");
        }
        zeros.append("0");
        k = k + 1;
    }
    zeros.concat(d.as_str())
}

} // verus!
