//! Text as the fields and files hold it: characters, trimmed, split, read as numbers and
//! written from them. Each reading is stated over the characters of the text and follows
//! what Rust's own `str` methods of the same name do.

use vstd::prelude::*;

verus! {

/// The characters of a string slice, in order.
pub fn chars_of(s: &str) -> (v: Vec<char>)
    ensures
        v@ == s@,
{
    let mut v: Vec<char> = Vec::new();
    for c in it: s.chars()
        invariant
            v@ == it.seq().take(it.index() as int),
    {
        v.push(c);
    }
    v
}

/// Collects characters into a `String` (std's `FromIterator<char>` for `String`).
#[verifier::external_body]
pub fn string_from_chars(v: &[char]) -> (s: String)
    ensures
        s@ == v@,
{
    v.iter().collect()
}

/// Unicode's White_Space property, which is what `char::is_whitespace` and `str::trim` go by.
pub open spec fn is_white(c: char) -> bool {
    let u = c as u32;
    (0x9 <= u <= 0xd) || u == 0x20 || u == 0x85 || u == 0xa0 || u == 0x1680 || (0x2000 <= u
        <= 0x200a) || u == 0x2028 || u == 0x2029 || u == 0x202f || u == 0x205f || u == 0x3000
}

pub fn is_whitespace(c: char) -> (b: bool)
    ensures
        b == is_white(c),
{
    let u = c as u32;
    (0x9 <= u && u <= 0xd) || u == 0x20 || u == 0x85 || u == 0xa0 || u == 0x1680 || (0x2000 <= u
        && u <= 0x200a) || u == 0x2028 || u == 0x2029 || u == 0x202f || u == 0x205f || u == 0x3000
}

/// The text without its leading whitespace.
pub open spec fn trim_start(s: Seq<char>) -> Seq<char>
    decreases s.len(),
{
    if s.len() > 0 && is_white(s[0]) {
        trim_start(s.drop_first())
    } else {
        s
    }
}

/// The text without its trailing whitespace.
pub open spec fn trim_end(s: Seq<char>) -> Seq<char>
    decreases s.len(),
{
    if s.len() > 0 && is_white(s.last()) {
        trim_end(s.drop_last())
    } else {
        s
    }
}

/// The text without whitespace at either end, as `str::trim` leaves it.
pub open spec fn trim(s: Seq<char>) -> Seq<char> {
    trim_end(trim_start(s))
}

/// Where the trimmed text starts and ends in the characters given.
pub fn trim_bounds(s: &[char]) -> (r: (usize, usize))
    ensures
        r.0 <= r.1 <= s@.len(),
        s@.subrange(r.0 as int, r.1 as int) == trim(s@),
{
    let n = s.len();
    let mut i: usize = 0;
    assert(s@.subrange(0, n as int) =~= s@);
    while i < n && is_whitespace(s[i])
        invariant
            i <= n == s@.len(),
            trim_start(s@) == trim_start(s@.subrange(i as int, n as int)),
        decreases n - i,
    {
        assert(s@.subrange(i as int, n as int).drop_first() =~= s@.subrange(i + 1, n as int));
        i = i + 1;
    }
    let mut j: usize = n;
    while j > i && is_whitespace(s[j - 1])
        invariant
            i <= j <= n == s@.len(),
            trim(s@) == trim_end(s@.subrange(i as int, j as int)),
            i == n || !is_white(s@[i as int]),
        decreases j - i,
    {
        assert(s@.subrange(i as int, j as int).drop_last() =~= s@.subrange(i as int, j - 1));
        j = j - 1;
    }
    (i, j)
}

/// The characters of the text, trimmed.
pub fn trimmed(s: &str) -> (v: Vec<char>)
    ensures
        v@ == trim(s@),
{
    let all = chars_of(s);
    let (a, b) = trim_bounds(all.as_slice());
    let mut v: Vec<char> = Vec::new();
    let mut k = a;
    while k < b
        invariant
            a <= k <= b <= all@.len(),
            v@ == all@.subrange(a as int, k as int),
        decreases b - k,
    {
        v.push(all[k]);
        assert(v@ =~= all@.subrange(a as int, k + 1));
        k = k + 1;
    }
    v
}


/// An ASCII decimal digit.
pub open spec fn is_digit(c: char) -> bool {
    '0' <= c <= '9'
}

pub open spec fn digit_value(c: char) -> nat {
    (c as u32 - 48) as nat
}

pub open spec fn all_digits(d: Seq<char>) -> bool {
    forall|i: int| 0 <= i < d.len() ==> is_digit(#[trigger] d[i])
}

/// The number a run of decimal digits writes, leading zeros and all.
pub open spec fn digits_value(d: Seq<char>) -> nat
    decreases d.len(),
{
    if d.len() == 0 {
        0
    } else {
        digits_value(d.drop_last()) * 10 + digit_value(d.last())
    }
}

/// What `from_str` of an unsigned integer type whose largest value is `max` reads: one optional
/// `+`, then at least one decimal digit and nothing else, of a value that fits.
pub open spec fn unsigned_of(s: Seq<char>, max: nat) -> Option<nat> {
    let d = if s.len() > 0 && s[0] == '+' {
        s.drop_first()
    } else {
        s
    };
    if d.len() > 0 && all_digits(d) && digits_value(d) <= max {
        Some(digits_value(d))
    } else {
        None
    }
}

/// A prefix of digits is worth no more than the whole run.
pub proof fn lemma_digits_prefix_le(d: Seq<char>, k: int)
    requires
        0 <= k <= d.len(),
    ensures
        digits_value(d.take(k)) <= digits_value(d),
    decreases d.len() - k,
{
    if k < d.len() {
        lemma_digits_prefix_le(d, k + 1);
        assert(d.take(k + 1).drop_last() =~= d.take(k));
    } else {
        assert(d.take(k) =~= d);
    }
}

/// Reads the characters as `from_str` reads an unsigned number no greater than `max`.
pub fn parse_unsigned(s: &[char], max: u64) -> (r: Option<u64>)
    ensures
        match r {
            Some(n) => unsigned_of(s@, max as nat) == Some(n as nat),
            None => unsigned_of(s@, max as nat) is None,
        },
{
    let n = s.len();
    let start: usize = if n > 0 && s[0] == '+' { 1 } else { 0 };
    let ghost d = if s@.len() > 0 && s@[0] == '+' { s@.drop_first() } else { s@ };
    assert(d =~= s@.subrange(start as int, n as int));
    assert(unsigned_of(s@, max as nat) == (if d.len() > 0 && all_digits(d) && digits_value(d) <= max {
        Some(digits_value(d))
    } else {
        None
    }));
    if start == n {
        return None;
    }
    let mut value: u64 = 0;
    let mut k: usize = start;
    while k < n
        invariant
            start <= k <= n == s@.len(),
            d =~= s@.subrange(start as int, n as int),
            all_digits(d.take(k - start)),
            value as nat == digits_value(d.take(k - start)),
            value <= max,
            unsigned_of(s@, max as nat) == (if d.len() > 0 && all_digits(d) && digits_value(d)
                <= max {
                Some(digits_value(d))
            } else {
                None
            }),
        decreases n - k,
    {
        let c = s[k];
        if !('0' <= c && c <= '9') {
            assert(d[k - start] == c);
            assert(!is_digit(d[k - start]));
            assert(!all_digits(d));
            assert(unsigned_of(s@, max as nat) is None);
            return None;
        }
        let digit = (c as u32 - 48) as u64;
        let ghost t = d.take(k + 1 - start);
        assert(t.drop_last() =~= d.take(k - start));
        assert(t.last() == c);
        let wide: u128 = value as u128 * 10 + digit as u128;
        if wide > max as u128 {
            proof {
                assert(digits_value(t) == wide);
                lemma_digits_prefix_le(d, k + 1 - start);
                assert(d.take(d.len() as int) =~= d);
                assert(!(all_digits(d) && digits_value(d) <= max));
                assert(unsigned_of(s@, max as nat) is None);
            }
            return None;
        }
        value = wide as u64;
        k = k + 1;
        assert forall|i: int| 0 <= i < t.len() implies is_digit(#[trigger] t[i]) by {
            if i < t.len() - 1 {
                assert(t[i] == d.take(k - 1 - start)[i]);
            }
        }
    }
    assert(d.take(n - start) =~= d);
    Some(value)
}

/// The character of a decimal digit.
pub open spec fn digit_char(k: nat) -> char {
    (k + 48) as char
}

/// A number written in decimal, without leading zeros, as `Display` writes an integer.
pub open spec fn decimal(n: nat) -> Seq<char>
    decreases n,
{
    if n < 10 {
        seq![digit_char(n)]
    } else {
        decimal(n / 10).push(digit_char(n % 10))
    }
}

/// Writes a number in decimal.
pub fn decimal_chars(x: u64) -> (v: Vec<char>)
    ensures
        v@ == decimal(x as nat),
{
    let first = ((x % 10) as u8 + 48) as char;
    let mut v: Vec<char> = Vec::new();
    v.push(first);
    let mut n = x / 10;
    assert(first == digit_char((x % 10) as nat));
    assert(decimal(x as nat) =~= (if n > 0 {
        decimal(n as nat)
    } else {
        Seq::<char>::empty()
    }) + v@);
    while n > 0
        invariant
            decimal(x as nat) == (if n > 0 {
                decimal(n as nat)
            } else {
                Seq::<char>::empty()
            }) + v@,
        decreases n,
    {
        let c = ((n % 10) as u8 + 48) as char;
        assert(c == digit_char((n % 10) as nat));
        let ghost old_v = v@;
        v.insert(0, c);
        assert(v@ =~= seq![c] + old_v);
        let ghost m = n;
        n = n / 10;
        proof {
            if m < 10 {
                assert(decimal(m as nat) == seq![digit_char(m as nat)]);
                assert(decimal(x as nat) =~= v@);
            } else {
                assert(decimal(m as nat) == decimal(n as nat).push(digit_char((m % 10) as nat)));
                assert(decimal(x as nat) =~= decimal(n as nat) + v@);
            }
        }
    }
    assert(decimal(x as nat) =~= v@);
    v
}

/// A number written in decimal and read back is the number: what `decimal` writes is digits,
/// worth exactly `n`.
pub proof fn lemma_decimal_reads_back(n: nat)
    ensures
        decimal(n).len() > 0,
        all_digits(decimal(n)),
        digits_value(decimal(n)) == n,
    decreases n,
{
    if n < 10 {
        assert(decimal(n) =~= seq![digit_char(n)]);
        assert(seq![digit_char(n)].drop_last() =~= Seq::<char>::empty());
        assert(digit_char(n) as u32 == n + 48);
        assert(digits_value(Seq::<char>::empty()) == 0);
    } else {
        lemma_decimal_reads_back(n / 10);
        let d = decimal(n);
        assert(d.drop_last() =~= decimal(n / 10));
        assert forall|i: int| 0 <= i < d.len() implies is_digit(#[trigger] d[i]) by {
            if i < d.len() - 1 {
                assert(d[i] == decimal(n / 10)[i]);
            }
        }
    }
}

/// A character with the ASCII capitals lowered, the rest as they are.
pub open spec fn ascii_fold(c: char) -> u32 {
    let u = c as u32;
    if 65 <= u <= 90 {
        (u + 32) as u32
    } else {
        u
    }
}

/// Two texts equal but for the case of their ASCII letters, as `str::eq_ignore_ascii_case`.
pub open spec fn same_ignoring_ascii_case(a: Seq<char>, b: Seq<char>) -> bool {
    a.len() == b.len() && forall|i: int| 0 <= i < a.len() ==> ascii_fold(#[trigger] a[i]) == ascii_fold(
        b[i],
    )
}

pub fn eq_ignore_ascii_case(a: &[char], b: &[char]) -> (r: bool)
    ensures
        r == same_ignoring_ascii_case(a@, b@),
{
    if a.len() != b.len() {
        return false;
    }
    let mut i: usize = 0;
    while i < a.len()
        invariant
            a@.len() == b@.len(),
            i <= a@.len(),
            forall|j: int| 0 <= j < i ==> ascii_fold(#[trigger] a@[j]) == ascii_fold(b@[j]),
        decreases a.len() - i,
    {
        let (x, y) = (a[i] as u32, b[i] as u32);
        let x = if 65 <= x && x <= 90 { x + 32 } else { x };
        let y = if 65 <= y && y <= 90 { y + 32 } else { y };
        if x != y {
            assert(ascii_fold(a@[i as int]) != ascii_fold(b@[i as int]));
            return false;
        }
        i = i + 1;
    }
    true
}

/// `p` stands in `t` from position `i`.
pub open spec fn occurs_at(t: Seq<char>, p: Seq<char>, i: int) -> bool {
    0 <= i && i + p.len() <= t.len() && t.subrange(i, i + p.len()) == p
}

/// `p` stands somewhere in `t`, as `str::contains` with a pattern of text.
pub open spec fn has_infix(t: Seq<char>, p: Seq<char>) -> bool {
    exists|i: int| occurs_at(t, p, i)
}

pub fn contains_text(t: &[char], p: &[char]) -> (r: bool)
    ensures
        r == has_infix(t@, p@),
{
    let (n, m) = (t.len(), p.len());
    if m > n {
        assert forall|i: int| !occurs_at(t@, p@, i) by {}
        return false;
    }
    let mut i: usize = 0;
    while i <= n - m
        invariant
            m <= n == t@.len(),
            m == p@.len(),
            forall|j: int| 0 <= j < i ==> !occurs_at(t@, p@, j),
        decreases n - m + 1 - i,
    {
        let mut k: usize = 0;
        while k < m && t[i + k] == p[k]
            invariant
                k <= m,
                i + m <= n,
                m == p@.len(),
                n == t@.len(),
                forall|q: int| 0 <= q < k ==> t@[i + q] == p@[q],
            decreases m - k,
        {
            k = k + 1;
        }
        if k == m {
            assert(t@.subrange(i as int, i + m) =~= p@);
            assert(occurs_at(t@, p@, i as int));
            return true;
        }
        assert(t@.subrange(i as int, i + m as int)[k as int] != p@[k as int]);
        i = i + 1;
    }
    assert forall|j: int| !occurs_at(t@, p@, j) by {
        if 0 <= j && j + m <= n {
            assert(j < i);
        }
    }
    false
}

/// The character stands in the text.
pub fn contains_char(t: &[char], c: char) -> (r: bool)
    ensures
        r == t@.contains(c),
{
    let mut i: usize = 0;
    while i < t.len()
        invariant
            i <= t@.len(),
            forall|j: int| 0 <= j < i ==> t@[j] != c,
        decreases t.len() - i,
    {
        if t[i] == c {
            return true;
        }
        i = i + 1;
    }
    false
}

/// Some character of the text is whitespace.
pub open spec fn any_white(t: Seq<char>) -> bool {
    exists|i: int| 0 <= i < t.len() && is_white(#[trigger] t[i])
}

pub fn contains_whitespace(t: &[char]) -> (r: bool)
    ensures
        r == any_white(t@),
{
    let mut i: usize = 0;
    while i < t.len()
        invariant
            i <= t@.len(),
            forall|j: int| 0 <= j < i ==> !is_white(#[trigger] t@[j]),
        decreases t.len() - i,
    {
        if is_whitespace(t[i]) {
            return true;
        }
        i = i + 1;
    }
    false
}

/// The text with every space and comma taken out, as `str::replace([' ', ','], "")` leaves it.
pub open spec fn without_separators(s: Seq<char>) -> Seq<char>
    decreases s.len(),
{
    if s.len() == 0 {
        s
    } else {
        let rest = without_separators(s.drop_last());
        if s.last() == ' ' || s.last() == ',' {
            rest
        } else {
            rest.push(s.last())
        }
    }
}

pub fn remove_separators(s: &[char]) -> (v: Vec<char>)
    ensures
        v@ == without_separators(s@),
{
    let mut v: Vec<char> = Vec::new();
    let mut k: usize = 0;
    assert(s@.take(0) =~= Seq::<char>::empty());
    while k < s.len()
        invariant
            k <= s@.len(),
            v@ == without_separators(s@.take(k as int)),
        decreases s.len() - k,
    {
        assert(s@.take(k + 1).drop_last() =~= s@.take(k as int));
        let c = s[k];
        if c != ' ' && c != ',' {
            v.push(c);
        }
        k = k + 1;
    }
    assert(s@.take(s@.len() as int) =~= s@);
    v
}

/// What is trimmed has no whitespace at its ends left to trim.
pub proof fn lemma_trim_twice(s: Seq<char>)
    ensures
        trim(trim(s)) == trim(s),
{
    let t = trim(s);
    lemma_trim_ends(s);
    if t.len() > 0 {
        assert(trim_start(t) == t);
        assert(trim_end(t) == t);
    } else {
        assert(trim_start(t) == t);
        assert(trim_end(t) == t);
    }
}

/// A trimmed text, if not empty, starts and ends with something other than whitespace.
pub proof fn lemma_trim_ends(s: Seq<char>)
    ensures
        trim(s).len() > 0 ==> !is_white(trim(s)[0]) && !is_white(trim(s).last()),
{
    lemma_trim_start_first(s);
    lemma_trim_end_shape(trim_start(s));
}

proof fn lemma_trim_start_first(s: Seq<char>)
    ensures
        trim_start(s).len() > 0 ==> !is_white(trim_start(s)[0]),
    decreases s.len(),
{
    if s.len() > 0 && is_white(s[0]) {
        lemma_trim_start_first(s.drop_first());
    }
}

proof fn lemma_trim_end_shape(s: Seq<char>)
    ensures
        trim_end(s).len() > 0 ==> !is_white(trim_end(s).last()),
        trim_end(s).len() <= s.len(),
        trim_end(s) == s.take(trim_end(s).len() as int),
    decreases s.len(),
{
    if s.len() > 0 && is_white(s.last()) {
        lemma_trim_end_shape(s.drop_last());
        assert(s.drop_last().take(trim_end(s).len() as int) =~= s.take(trim_end(s).len() as int));
    } else {
        assert(s.take(s.len() as int) =~= s);
    }
}

/// How many bytes UTF-8 takes for a character.
pub open spec fn utf8_width(c: char) -> nat {
    let u = c as u32;
    if u < 0x80 {
        1
    } else if u < 0x800 {
        2
    } else if u < 0x10000 {
        3
    } else {
        4
    }
}

/// How many bytes the text is in UTF-8, which is what `str::len` counts.
pub open spec fn utf8_len(s: Seq<char>) -> nat
    decreases s.len(),
{
    if s.len() == 0 {
        0
    } else {
        utf8_len(s.drop_last()) + utf8_width(s.last())
    }
}

proof fn lemma_utf8_len_prefix(s: Seq<char>, k: int)
    requires
        0 <= k <= s.len(),
    ensures
        utf8_len(s.take(k)) <= utf8_len(s),
    decreases s.len() - k,
{
    if k < s.len() {
        lemma_utf8_len_prefix(s, k + 1);
        assert(s.take(k + 1).drop_last() =~= s.take(k));
    } else {
        assert(s.take(k) =~= s);
    }
}

/// Whether the text is longer than `limit` bytes in UTF-8.
pub fn longer_than(s: &[char], limit: usize) -> (r: bool)
    ensures
        r == (utf8_len(s@) > limit),
{
    let mut bytes: usize = 0;
    let mut k: usize = 0;
    while k < s.len()
        invariant
            k <= s@.len(),
            bytes == utf8_len(s@.take(k as int)),
            bytes <= limit,
        decreases s.len() - k,
    {
        let u = s[k] as u32;
        let width: usize = if u < 0x80 {
            1
        } else if u < 0x800 {
            2
        } else if u < 0x10000 {
            3
        } else {
            4
        };
        assert(s@.take(k + 1).drop_last() =~= s@.take(k as int));
        if width > limit - bytes {
            proof {
                lemma_utf8_len_prefix(s@, k + 1);
            }
            return true;
        }
        bytes = bytes + width;
        k = k + 1;
    }
    assert(s@.take(s@.len() as int) =~= s@);
    false
}

/// The pieces between the separators, as `str::split` with one character: one piece for a text
/// with no separator in it, the empty text included, and an empty piece wherever two
/// separators meet or one stands at an end.
pub open spec fn split_char(s: Seq<char>, sep: char) -> Seq<Seq<char>>
    decreases s.len(),
{
    if s.len() == 0 {
        seq![Seq::<char>::empty()]
    } else {
        let p = split_char(s.drop_last(), sep);
        if s.last() == sep {
            p.push(Seq::<char>::empty())
        } else {
            p.update(p.len() - 1, p.last().push(s.last()))
        }
    }
}

pub proof fn lemma_split_nonempty(s: Seq<char>, sep: char)
    ensures
        split_char(s, sep).len() >= 1,
    decreases s.len(),
{
    if s.len() > 0 {
        lemma_split_nonempty(s.drop_last(), sep);
    }
}

/// The characters of each piece between the separators.
pub fn split_pieces(s: &[char], sep: char) -> (v: Vec<Vec<char>>)
    ensures
        v@.map_values(|x: Vec<char>| x@) == split_char(s@, sep),
{
    let mut parts: Vec<Vec<char>> = Vec::new();
    let mut current: Vec<char> = Vec::new();
    let mut k: usize = 0;
    assert(s@.take(0) =~= Seq::<char>::empty());
    assert(parts@.map_values(|x: Vec<char>| x@).push(current@) =~= split_char(s@.take(0), sep));
    while k < s.len()
        invariant
            k <= s@.len(),
            parts@.map_values(|x: Vec<char>| x@).push(current@) == split_char(s@.take(k as int), sep),
        decreases s.len() - k,
    {
        let c = s[k];
        let ghost before = s@.take(k as int);
        assert(s@.take(k + 1).drop_last() =~= before);
        assert(s@.take(k + 1).last() == c);
        proof {
            lemma_split_nonempty(before, sep);
        }
        if c == sep {
            let done = current;
            parts.push(done);
            current = Vec::new();
            assert(parts@.map_values(|x: Vec<char>| x@).push(current@) =~= split_char(before, sep).push(
                Seq::<char>::empty(),
            ));
        } else {
            let ghost old_current = current@;
            current.push(c);
            assert(parts@.map_values(|x: Vec<char>| x@).push(current@) =~= split_char(before, sep).update(
                split_char(before, sep).len() - 1,
                old_current.push(c),
            ));
        }
        k = k + 1;
    }
    assert(s@.take(s@.len() as int) =~= s@);
    parts.push(current);
    parts
}

/// `p` opens the text, as `str::starts_with`.
pub open spec fn begins_with(s: Seq<char>, p: Seq<char>) -> bool {
    p.len() <= s.len() && s.take(p.len() as int) == p
}

pub fn starts_with_chars(s: &[char], p: &[char]) -> (r: bool)
    ensures
        r == begins_with(s@, p@),
{
    if p.len() > s.len() {
        return false;
    }
    let mut k: usize = 0;
    while k < p.len()
        invariant
            k <= p@.len() <= s@.len(),
            forall|j: int| 0 <= j < k ==> s@[j] == p@[j],
        decreases p.len() - k,
    {
        if s[k] != p[k] {
            assert(s@.take(p@.len() as int)[k as int] != p@[k as int]);
            return false;
        }
        k = k + 1;
    }
    assert(s@.take(p@.len() as int) =~= p@);
    true
}

/// The characters from position `from` on.
pub fn chars_from(s: &[char], from: usize) -> (v: Vec<char>)
    requires
        from <= s@.len(),
    ensures
        v@ == s@.skip(from as int),
{
    let mut v: Vec<char> = Vec::new();
    let mut k = from;
    while k < s.len()
        invariant
            from <= k <= s@.len(),
            v@ == s@.subrange(from as int, k as int),
        decreases s.len() - k,
    {
        v.push(s[k]);
        assert(v@ =~= s@.subrange(from as int, k + 1));
        k = k + 1;
    }
    assert(s@.subrange(from as int, s@.len() as int) =~= s@.skip(from as int));
    v
}

/// Where `p` first stands in `t` at or after position `i`.
pub open spec fn find_from(t: Seq<char>, p: Seq<char>, i: int) -> Option<int>
    decreases t.len() + 1 - i,
{
    if i < 0 || i + p.len() > t.len() {
        None
    } else if occurs_at(t, p, i) {
        Some(i)
    } else {
        find_from(t, p, i + 1)
    }
}

/// Where `p` first stands in `t`, as `str::find` with a pattern of text.
pub fn find_text(t: &[char], p: &[char]) -> (r: Option<usize>)
    ensures
        match r {
            Some(i) => find_from(t@, p@, 0) == Some(i as int) && occurs_at(t@, p@, i as int),
            None => find_from(t@, p@, 0) is None,
        },
{
    let (n, m) = (t.len(), p.len());
    if m > n {
        return None;
    }
    let mut i: usize = 0;
    while i <= n - m
        invariant
            m <= n == t@.len(),
            m == p@.len(),
            i <= n - m + 1,
            find_from(t@, p@, 0) == find_from(t@, p@, i as int),
        decreases n - m + 1 - i,
    {
        let mut k: usize = 0;
        while k < m && t[i + k] == p[k]
            invariant
                k <= m,
                i + m <= n,
                m == p@.len(),
                n == t@.len(),
                forall|q: int| 0 <= q < k ==> t@[i + q] == p@[q],
            decreases m - k,
        {
            k = k + 1;
        }
        if k == m {
            assert(t@.subrange(i as int, i + m) =~= p@);
            return Some(i);
        }
        assert(t@.subrange(i as int, i + m as int)[k as int] != p@[k as int]);
        i = i + 1;
    }
    None
}

/// The characters from `from` up to `to`.
pub fn chars_between(s: &[char], from: usize, to: usize) -> (v: Vec<char>)
    requires
        from <= to <= s@.len(),
    ensures
        v@ == s@.subrange(from as int, to as int),
{
    let mut v: Vec<char> = Vec::new();
    let mut k = from;
    while k < to
        invariant
            from <= k <= to <= s@.len(),
            v@ == s@.subrange(from as int, k as int),
        decreases to - k,
    {
        v.push(s[k]);
        assert(v@ =~= s@.subrange(from as int, k + 1));
        k = k + 1;
    }
    v
}


/// The text without `p` as many times as it stands at the start, as `str::trim_start_matches`
/// with a pattern of text.
pub open spec fn strip_start(s: Seq<char>, p: Seq<char>) -> Seq<char>
    decreases s.len(),
{
    if p.len() > 0 && begins_with(s, p) {
        strip_start(s.skip(p.len() as int), p)
    } else {
        s
    }
}

/// `p` closes the text, as `str::ends_with`.
pub open spec fn finishes_with(s: Seq<char>, p: Seq<char>) -> bool {
    p.len() <= s.len() && s.skip(s.len() - p.len()) == p
}

/// The text without `p` as many times as it stands at the end, as `str::trim_end_matches` with
/// a pattern of text.
pub open spec fn strip_end(s: Seq<char>, p: Seq<char>) -> Seq<char>
    decreases s.len(),
{
    if p.len() > 0 && finishes_with(s, p) {
        strip_end(s.take(s.len() - p.len()), p)
    } else {
        s
    }
}

pub fn trim_start_matches(s: &[char], p: &[char]) -> (v: Vec<char>)
    ensures
        v@ == strip_start(s@, p@),
{
    let mut k: usize = 0;
    let mut rest = chars_from(s, 0);
    assert(s@.skip(0) =~= s@);
    loop
        invariant
            k <= s@.len(),
            rest@ == s@.skip(k as int),
            strip_start(rest@, p@) == strip_start(s@, p@),
        decreases s@.len() - k,
    {
        if p.len() == 0 || !starts_with_chars(rest.as_slice(), p) {
            return rest;
        }
        let step = p.len();
        let n = s.len();
        assert(step <= rest@.len() == n - k);
        assert(rest@.skip(step as int) =~= s@.skip(k + step));
        k = k + step;
        rest = chars_from(s, k);
    }
}

pub fn trim_end_matches(s: &[char], p: &[char]) -> (v: Vec<char>)
    ensures
        v@ == strip_end(s@, p@),
{
    let mut k: usize = s.len();
    let mut rest = chars_between(s, 0, k);
    assert(s@.subrange(0, k as int) =~= s@);
    loop
        invariant
            k <= s@.len(),
            rest@ == s@.take(k as int),
            strip_end(rest@, p@) == strip_end(s@, p@),
        decreases k,
    {
        if p.len() == 0 || p.len() > k {
            return rest;
        }
        let tail = chars_between(s, k - p.len(), k);
        if !starts_with_chars(tail.as_slice(), p) {
            assert(!finishes_with(rest@, p@)) by {
                assert(rest@.skip(rest@.len() - p@.len()) =~= tail@);
                if finishes_with(rest@, p@) {
                    assert(tail@.take(p@.len() as int) =~= tail@);
                }
            }
            return rest;
        }
        assert(rest@.skip(rest@.len() - p@.len()) =~= tail@);
        assert(tail@.take(p@.len() as int) =~= tail@);
        assert(rest@.take(rest@.len() - p@.len()) =~= s@.take(k - p@.len()));
        k = k - p.len();
        rest = chars_between(s, 0, k);
        assert(rest@ =~= s@.take(k as int));
    }
}

/// Each name once, in the order first met.
pub open spec fn first_met(names: Seq<Seq<char>>) -> Seq<Seq<char>>
    decreases names.len(),
{
    if names.len() == 0 {
        Seq::empty()
    } else {
        let seen = first_met(names.drop_last());
        if seen.contains(names.last()) {
            seen
        } else {
            seen.push(names.last())
        }
    }
}

/// Each text once, in the order first met.
pub fn each_once(names: &[String]) -> (out: Vec<String>)
    ensures
        out@.map_values(|h: String| h@) == first_met(names@.map_values(|h: String| h@)),
{
    let ghost all = names@.map_values(|h: String| h@);
    let mut out: Vec<String> = Vec::new();
    let mut i: usize = 0;
    assert(all.take(0) =~= Seq::<Seq<char>>::empty());
    while i < names.len()
        invariant
            i <= names@.len(),
            all == names@.map_values(|h: String| h@),
            out@.map_values(|h: String| h@) == first_met(all.take(i as int)),
        decreases names.len() - i,
    {
        let ghost had = out@.map_values(|h: String| h@);
        let mut seen = false;
        let mut j: usize = 0;
        while j < out.len()
            invariant
                j <= out@.len(),
                had == out@.map_values(|h: String| h@),
                i < names@.len(),
                seen <==> exists|k: int| 0 <= k < j && #[trigger] had[k] == names@[i as int]@,
            decreases out.len() - j,
        {
            assert(had[j as int] == out@[j as int]@);
            if out[j] == names[i] {
                seen = true;
            }
            j = j + 1;
        }
        proof {
            assert(seen <==> had.contains(names@[i as int]@));
            let next = all.take(i + 1);
            assert(next.drop_last() =~= all.take(i as int));
            assert(next.last() == names@[i as int]@);
        }
        if !seen {
            out.push(names[i].clone());
            assert(out@.map_values(|h: String| h@) =~= had.push(names@[i as int]@));
        }
        i = i + 1;
    }
    assert(all.take(names@.len() as int) =~= all);
    out
}



/// ASCII case is all `eq_ignore_ascii_case` ignores: a text is the same as itself with any
/// capital lowered, and not the same as a text of another length, or one with another letter.
pub proof fn law_only_ascii_case_is_ignored(a: Seq<char>, b: Seq<char>)
    ensures
        same_ignoring_ascii_case(a, a),
        same_ignoring_ascii_case(a, b) == same_ignoring_ascii_case(b, a),
        a.len() != b.len() ==> !same_ignoring_ascii_case(a, b),
        forall|c: char, d: char|
            #![trigger ascii_fold(c), ascii_fold(d)]
            'A' <= c <= 'Z' && d as u32 == c as u32 + 32 ==> ascii_fold(c) == ascii_fold(d),
        forall|c: char, d: char|
            #![trigger ascii_fold(c), ascii_fold(d)]
            'a' <= c <= 'z' && 'a' <= d <= 'z' && c != d ==> ascii_fold(c) != ascii_fold(d),
{
}


/// A text without the separator is one piece.
pub proof fn lemma_split_whole_char(s: Seq<char>, sep: char)
    requires
        !s.contains(sep),
    ensures
        split_char(s, sep) == seq![s],
    decreases s.len(),
{
    if s.len() > 0 {
        assert(!s.drop_last().contains(sep)) by {
            if s.drop_last().contains(sep) {
                let j = choose|j: int| 0 <= j < s.drop_last().len() && s.drop_last()[j] == sep;
                assert(s[j] == sep);
            }
        }
        lemma_split_whole_char(s.drop_last(), sep);
        assert(s[s.len() - 1] != sep);
        assert(s.drop_last().push(s.last()) =~= s);
        assert(seq![s.drop_last()].update(0, s.drop_last().push(s.last())) =~= seq![s]);
    } else {
        assert(s =~= Seq::<char>::empty());
    }
}

} // verus!
