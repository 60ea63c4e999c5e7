use vstd::prelude::*;
use vstd::string::*;
use vstd::utf8::*;

verus! {

/// `pat` occurs in `s` starting at index `i`.
pub open spec fn matches_at(s: Seq<char>, pat: Seq<char>, i: int) -> bool {
    &&& 0 <= i
    &&& i + pat.len() <= s.len()
    &&& s.subrange(i, i + pat.len()) == pat
}

/// Start of the leftmost occurrence of `pat` in `s` at or after `from`;
/// `s.len()` when there is none.
pub open spec fn find_from(s: Seq<char>, pat: Seq<char>, from: int) -> int
    decreases s.len() - from,
{
    if from < 0 || from >= s.len() || from + pat.len() > s.len() {
        s.len() as int
    } else if matches_at(s, pat, from) {
        from
    } else {
        find_from(s, pat, from + 1)
    }
}

pub proof fn lemma_find_from_range(s: Seq<char>, pat: Seq<char>, from: int)
    requires
        0 <= from,
        pat.len() > 0,
    ensures
        from <= find_from(s, pat, from) || find_from(s, pat, from) == s.len(),
        find_from(s, pat, from) <= s.len(),
        find_from(s, pat, from) < s.len() ==> matches_at(s, pat, find_from(s, pat, from)),
        find_from(s, pat, from) + pat.len() <= s.len() ==> matches_at(
            s,
            pat,
            find_from(s, pat, from),
        ),
        forall|j: int|
            from <= j < find_from(s, pat, from) && j + pat.len() <= s.len() ==> !matches_at(
                s,
                pat,
                j,
            ),
    decreases s.len() - from,
{
    if from >= s.len() || from + pat.len() > s.len() {
    } else if matches_at(s, pat, from) {
    } else {
        lemma_find_from_range(s, pat, from + 1);
    }
}

/// The leftmost occurrence at or after `from` is at `p` when `pat` occurs
/// at `p` and nowhere in between.
pub proof fn lemma_find_from_first(s: Seq<char>, pat: Seq<char>, from: int, p: int)
    requires
        0 <= from <= p,
        pat.len() > 0,
        matches_at(s, pat, p),
        forall|j: int| from <= j < p ==> !matches_at(s, pat, j),
    ensures
        find_from(s, pat, from) == p,
    decreases p - from,
{
    if from < p {
        lemma_find_from_first(s, pat, from + 1, p);
    }
}

/// There is no occurrence at or after `from` when `pat` occurs nowhere there.
pub proof fn lemma_find_from_none(s: Seq<char>, pat: Seq<char>, from: int)
    requires
        0 <= from,
        pat.len() > 0,
        forall|j: int| from <= j ==> !matches_at(s, pat, j),
    ensures
        find_from(s, pat, from) == s.len(),
    decreases s.len() - from,
{
    if from < s.len() && from + pat.len() <= s.len() {
        lemma_find_from_none(s, pat, from + 1);
    }
}

/// The pieces of `s[start..]` between the non-overlapping leftmost
/// occurrences of a non-empty `pat`, as `str::split` yields them.
pub open spec fn split_from(s: Seq<char>, pat: Seq<char>, start: int) -> Seq<Seq<char>>
    decreases s.len() - start,
{
    let p = find_from(s, pat, start);
    if 0 <= start && pat.len() > 0 && p + pat.len() <= s.len() {
        proof {
            lemma_find_from_range(s, pat, start);
        }
        seq![s.subrange(start, p)] + split_from(s, pat, p + pat.len())
    } else {
        seq![s.subrange(start, s.len() as int)]
    }
}

/// `str::split`: the pieces of `s` between the occurrences of `pat`; there is
/// always at least one.
pub open spec fn split(s: Seq<char>, pat: Seq<char>) -> Seq<Seq<char>> {
    split_from(s, pat, 0)
}

pub proof fn lemma_split_first(s: Seq<char>, pat: Seq<char>)
    requires
        pat.len() > 0,
    ensures
        split(s, pat).len() >= 1,
        split(s, pat)[0] == s.take(find_from(s, pat, 0)),
{
    lemma_find_from_range(s, pat, 0);
    let p = find_from(s, pat, 0);
    if p + pat.len() <= s.len() {
        assert(s.subrange(0, p) =~= s.take(p));
    } else {
        assert(p == s.len());
        assert(s.subrange(0, s.len() as int) =~= s.take(p));
    }
}

/// Leftmost occurrence of `pat` in `s` at or after `from`, or `s@.len()`.
pub fn find_chars(s: &[char], pat: &[char], from: usize) -> (r: usize)
    requires
        from <= s@.len(),
    ensures
        r == find_from(s@, pat@, from as int),
{
    let n = s.len();
    let m = pat.len();
    let mut i = from;
    while i < n && m <= n - i
        invariant
            n == s@.len(),
            m == pat@.len(),
            from <= i <= n,
            find_from(s@, pat@, i as int) == find_from(s@, pat@, from as int),
        decreases n - i,
    {
        let mut k: usize = 0;
        let mut same = true;
        while k < m
            invariant
                n == s@.len(),
                m == pat@.len(),
                i + m <= n,
                k <= m,
                same <==> forall|t: int| 0 <= t < k ==> s@[i + t] == pat@[t],
            decreases m - k,
        {
            if s[i + k] != pat[k] {
                same = false;
            }
            k = k + 1;
        }
        if same {
            assert(s@.subrange(i as int, i + m) =~= pat@);
            return i;
        }
        assert(!matches_at(s@, pat@, i as int)) by {
            if matches_at(s@, pat@, i as int) {
                assert forall|t: int| 0 <= t < m implies s@[i + t] == pat@[t] by {
                    assert(s@.subrange(i as int, i + m)[t] == s@[i + t]);
                }
            }
        }
        i = i + 1;
    }
    n
}

/// `str::split`: the pieces of `s` between the occurrences of a non-empty `pat`.
pub fn split_str<'a>(s: &'a str, pat: &str) -> (r: Vec<&'a str>)
    requires
        pat@.len() > 0,
    ensures
        r@.map_values(|x: &str| x@) == split(s@, pat@),
{
    let cs = chars_of(s);
    let ps = chars_of(pat);
    let n = cs.len();
    let m = ps.len();
    let mut pieces: Vec<&'a str> = Vec::new();
    let mut start: usize = 0;
    loop
        invariant
            cs@ == s@,
            ps@ == pat@,
            n == s@.len(),
            m == pat@.len(),
            m > 0,
            start <= n,
            pieces@.map_values(|x: &str| x@) + split_from(s@, pat@, start as int) == split(
                s@,
                pat@,
            ),
        decreases n - start,
    {
        let p = find_chars(cs.as_slice(), ps.as_slice(), start);
        proof {
            lemma_find_from_range(s@, pat@, start as int);
        }
        if p < n && m <= n - p {
            let piece = s.substring_char(start, p);
            let ghost before = pieces@.map_values(|x: &str| x@);
            pieces.push(piece);
            assert(pieces@.map_values(|x: &str| x@) =~= before.push(piece@));
            assert(before.push(piece@) + split_from(s@, pat@, (p + m) as int) =~= before
                + split_from(s@, pat@, start as int));
            start = p + m;
        } else {
            let piece = s.substring_char(start, n);
            let ghost before = pieces@.map_values(|x: &str| x@);
            pieces.push(piece);
            assert(pieces@.map_values(|x: &str| x@) =~= before.push(piece@));
            assert(before.push(piece@) =~= before + split_from(s@, pat@, start as int));
            return pieces;
        }
    }
}

/// `char::is_whitespace`: the characters with the Unicode `White_Space` property.
pub open spec fn is_unicode_whitespace(c: char) -> bool {
    let u = c as u32;
    ||| 0x09 <= u <= 0x0d
    ||| u == 0x20
    ||| u == 0x85
    ||| u == 0xa0
    ||| u == 0x1680
    ||| 0x2000 <= u <= 0x200a
    ||| u == 0x2028
    ||| u == 0x2029
    ||| u == 0x202f
    ||| u == 0x205f
    ||| u == 0x3000
}

pub fn is_whitespace(c: char) -> (r: bool)
    ensures
        r == is_unicode_whitespace(c),
{
    let u = c as u32;
    (0x09 <= u && u <= 0x0d) || u == 0x20 || u == 0x85 || u == 0xa0 || u == 0x1680 || (0x2000 <= u
        && u <= 0x200a) || u == 0x2028 || u == 0x2029 || u == 0x202f || u == 0x205f || u == 0x3000
}

/// `char::to_ascii_lowercase`: `A`..`Z` become `a`..`z`; every other character stays.
pub open spec fn ascii_lower(c: char) -> char {
    if 'A' <= c <= 'Z' {
        ((c as u32) + 32) as char
    } else {
        c
    }
}

pub fn to_ascii_lower(c: char) -> (r: char)
    ensures
        r == ascii_lower(c),
{
    if 'A' <= c && c <= 'Z' {
        ((c as u8) + 32) as char
    } else {
        c
    }
}

/// `str::to_ascii_lowercase`.
pub open spec fn to_ascii_lowercase(s: Seq<char>) -> Seq<char> {
    s.map_values(|c: char| ascii_lower(c))
}

/// `str::starts_with` with a string pattern.
pub open spec fn starts_with(s: Seq<char>, prefix: Seq<char>) -> bool {
    prefix.len() <= s.len() && s.take(prefix.len() as int) == prefix
}

/// Whether the ASCII-lowercased `s` starts with `prefix`.
pub fn lowercase_starts_with(s: &str, prefix: &str) -> (r: bool)
    ensures
        r == starts_with(to_ascii_lowercase(s@), prefix@),
{
    let n = s.unicode_len();
    let m = prefix.unicode_len();
    if m > n {
        return false;
    }
    let mut i: usize = 0;
    while i < m
        invariant
            n == s@.len(),
            m == prefix@.len(),
            m <= n,
            i <= m,
            forall|t: int| 0 <= t < i ==> ascii_lower(s@[t]) == prefix@[t],
        decreases m - i,
    {
        if to_ascii_lower(s.get_char(i)) != prefix.get_char(i) {
            assert(to_ascii_lowercase(s@).take(m as int)[i as int] != prefix@[i as int]);
            return false;
        }
        i = i + 1;
    }
    assert(to_ascii_lowercase(s@).take(m as int) =~= prefix@);
    true
}

/// Whether `a` and `b` hold the same characters.
pub fn str_eq(a: &str, b: &str) -> (r: bool)
    ensures
        r == (a@ == b@),
{
    let ac = chars_of(a);
    let bc = chars_of(b);
    let n = ac.len();
    if n != bc.len() {
        return false;
    }
    let mut i: usize = 0;
    while i < n
        invariant
            ac@ == a@,
            bc@ == b@,
            n == a@.len(),
            n == b@.len(),
            i <= n,
            forall|t: int| 0 <= t < i ==> a@[t] == b@[t],
        decreases n - i,
    {
        if ac[i] != bc[i] {
            return false;
        }
        i = i + 1;
    }
    assert(a@ =~= b@);
    true
}

/// Whether `s` holds the character `c`.
pub fn contains_char(s: &str, c: char) -> (r: bool)
    ensures
        r == s@.contains(c),
{
    let cs = chars_of(s);
    let n = cs.len();
    let mut i: usize = 0;
    while i < n
        invariant
            cs@ == s@,
            n == s@.len(),
            i <= n,
            forall|t: int| 0 <= t < i ==> s@[t] != c,
        decreases n - i,
    {
        if cs[i] == c {
            return true;
        }
        i = i + 1;
    }
    false
}

/// `str::trim_start`: `s` without its leading whitespace.
pub open spec fn trim_start(s: Seq<char>) -> Seq<char>
    decreases s.len(),
{
    if s.len() > 0 && is_unicode_whitespace(s[0]) {
        trim_start(s.drop_first())
    } else {
        s
    }
}

/// `str::trim_end`: `s` without its trailing whitespace.
pub open spec fn trim_end(s: Seq<char>) -> Seq<char>
    decreases s.len(),
{
    if s.len() > 0 && is_unicode_whitespace(s.last()) {
        trim_end(s.drop_last())
    } else {
        s
    }
}

/// `str::trim`: `s` without its leading and trailing whitespace.
pub open spec fn trim(s: Seq<char>) -> Seq<char> {
    trim_end(trim_start(s))
}

proof fn lemma_trim_start_skip(s: Seq<char>, i: int)
    requires
        0 <= i < s.len(),
        is_unicode_whitespace(s[i]),
    ensures
        trim_start(s.skip(i)) == trim_start(s.skip(i + 1)),
{
    assert(s.skip(i).drop_first() =~= s.skip(i + 1));
}

proof fn lemma_trim_end_take(s: Seq<char>, j: int)
    requires
        0 < j <= s.len(),
        is_unicode_whitespace(s[j - 1]),
    ensures
        trim_end(s.take(j)) == trim_end(s.take(j - 1)),
{
    assert(s.take(j).drop_last() =~= s.take(j - 1));
}

/// `str::trim`.
pub fn trim_str<'a>(s: &'a str) -> (r: &'a str)
    ensures
        r@ == trim(s@),
{
    let cs = chars_of(s);
    let n = cs.len();
    let mut i: usize = 0;
    assert(s@.skip(0) =~= s@);
    while i < n && is_whitespace(cs[i])
        invariant
            cs@ == s@,
            n == s@.len(),
            i <= n,
            trim_start(s@.skip(i as int)) == trim_start(s@),
        decreases n - i,
    {
        proof {
            lemma_trim_start_skip(s@, i as int);
        }
        i = i + 1;
    }
    let ghost rest = s@.skip(i as int);
    assert(trim_start(rest) == rest) by {
        if rest.len() > 0 {
            assert(rest[0] == s@[i as int]);
        }
    }
    let mut j: usize = n;
    assert(rest.take((j - i) as int) =~= rest);
    while j > i && is_whitespace(cs[j - 1])
        invariant
            cs@ == s@,
            n == s@.len(),
            i <= j <= n,
            rest == s@.skip(i as int),
            trim_end(rest.take((j - i) as int)) == trim_end(rest),
        decreases j,
    {
        proof {
            assert(rest[(j - i) - 1] == s@[j - 1]);
            lemma_trim_end_take(rest, (j - i) as int);
        }
        j = j - 1;
    }
    let r = s.substring_char(i, j);
    assert(r@ =~= rest.take((j - i) as int));
    assert(trim_end(rest.take((j - i) as int)) == rest.take((j - i) as int)) by {
        if j > i {
            assert(rest.take((j - i) as int).last() == s@[j - 1]);
        }
    }
    r
}

/// The characters that the bytes `b` stand for, one character per byte.
pub open spec fn ascii_chars(b: Seq<u8>) -> Seq<char> {
    b.map_values(|x: u8| x as char)
}

/// Every byte of `b` is an ASCII code.
pub open spec fn is_ascii_bytes(b: Seq<u8>) -> bool {
    forall|i: int| 0 <= i < b.len() ==> b[i] < 128
}

/// `String::from_utf8`: a string exactly when `bytes` is valid UTF-8, and then
/// the string holds the characters that `bytes` encodes.
#[verifier::external_body]
fn string_from_utf8(bytes: Vec<u8>) -> (r: Option<String>)
    ensures
        r is Some <==> valid_utf8(bytes@),
        r matches Some(s) ==> s@ == decode_utf8(bytes@),
{
    String::from_utf8(bytes).ok()
}

/// ASCII bytes are valid UTF-8, each byte encoding the character of its code.
pub proof fn lemma_ascii_bytes_utf8(b: Seq<u8>)
    requires
        is_ascii_bytes(b),
    ensures
        valid_utf8(b),
        decode_utf8(b) == ascii_chars(b),
        is_ascii_chars(ascii_chars(b)),
    decreases b.len(),
{
    if b.len() > 0 {
        let b0 = b[0];
        assert((b0 & 0x7f) == b0) by (bit_vector)
            requires
                b0 < 128,
        ;
        assert(pop_first_scalar(b) =~= b.drop_first());
        lemma_ascii_bytes_utf8(b.drop_first());
        assert(ascii_chars(b) =~= seq![b0 as char] + ascii_chars(b.drop_first()));
    }
}

/// The string whose characters are the ASCII bytes `bytes`.
pub fn ascii_string(bytes: Vec<u8>) -> (r: String)
    requires
        is_ascii_bytes(bytes@),
    ensures
        r@ == ascii_chars(bytes@),
        r.is_ascii(),
{
    proof {
        lemma_ascii_bytes_utf8(bytes@);
    }
    match string_from_utf8(bytes) {
        Some(s) => s,
        None => String::new(),
    }
}

/// The ASCII code of the decimal digit `d`.
pub open spec fn digit_byte(d: nat) -> u8 {
    (48 + d) as u8
}

/// The decimal notation of `n`, as `Display` writes an unsigned integer.
pub open spec fn decimal_bytes(n: nat) -> Seq<u8>
    decreases n,
{
    if n < 10 {
        seq![digit_byte(n)]
    } else {
        decimal_bytes(n / 10).push(digit_byte(n % 10))
    }
}

/// The decimal notation of `n` as a string.
pub fn decimal_string(n: u128) -> (r: String)
    ensures
        r@ == ascii_chars(decimal_bytes(n as nat)),
        r.is_ascii(),
{
    let mut digits: Vec<u8> = Vec::new();
    let mut cur: u128 = n;
    loop
        invariant_except_break
            decimal_bytes(n as nat) == decimal_bytes(cur as nat) + digits@,
        invariant
            is_ascii_bytes(digits@),
        ensures
            decimal_bytes(n as nat) == digits@,
        decreases cur,
    {
        if cur < 10 {
            let d = cur as u8;
            digits.insert(0, 48 + d);
            assert(digits@ =~= seq![digit_byte(cur as nat)] + (digits@.drop_first()));
            assert(decimal_bytes(n as nat) =~= digits@);
            break ;
        }
        let d = (cur % 10) as u8;
        let ghost old_digits = digits@;
        digits.insert(0, 48 + d);
        assert(digits@ =~= seq![digit_byte((cur % 10) as nat)] + old_digits);
        assert(decimal_bytes(cur as nat) =~= decimal_bytes((cur / 10) as nat).push(
            digit_byte((cur % 10) as nat),
        ));
        assert(decimal_bytes((cur / 10) as nat) + digits@ =~= decimal_bytes(cur as nat)
            + old_digits);
        cur = cur / 10;
    }
    ascii_string(digits)
}

/// The characters of `s`, in order.
pub fn chars_of(s: &str) -> (r: Vec<char>)
    ensures
        r@ == s@,
{
    broadcast use vstd::string::group_string_axioms;

    let mut v: Vec<char> = Vec::new();
    for c in it: s.chars()
        invariant
            v@ == it.seq().take(it.index() as int),
            it.seq() == s@,
    {
        v.push(c);
    }
    v
}

} // verus!
