//! Character-level text operations with their specifications: whitespace,
//! trimming, searching, line splitting, joining and number formatting.
use vstd::prelude::*;
use vstd::utf8::{decode_utf8, valid_utf8};

verus! {

/// The Unicode `White_Space` property, which is what `char::is_whitespace` tests.
pub open spec fn is_ws(c: char) -> bool {
    let u = c as u32;
    ||| 0x9 <= u <= 0xD
    ||| u == 0x20
    ||| u == 0x85
    ||| u == 0xA0
    ||| u == 0x1680
    ||| 0x2000 <= u <= 0x200A
    ||| u == 0x2028
    ||| u == 0x2029
    ||| u == 0x202F
    ||| u == 0x205F
    ||| u == 0x3000
}

/// Executable whitespace test.
pub fn is_whitespace(c: char) -> (r: bool)
    ensures
        r == is_ws(c),
{
    let u = c as u32;
    (0x9 <= u && u <= 0xD) || u == 0x20 || u == 0x85 || u == 0xA0 || u == 0x1680 || (0x2000 <= u
        && u <= 0x200A) || u == 0x2028 || u == 0x2029 || u == 0x202F || u == 0x205F || u == 0x3000
}

/// First index at or after `i` that does not hold whitespace (or `s.len()`).
pub open spec fn trim_start_from(s: Seq<char>, i: int) -> int
    decreases s.len() - i,
{
    if 0 <= i < s.len() && is_ws(s[i]) {
        trim_start_from(s, i + 1)
    } else {
        i
    }
}

/// Last end position at or before `j`, and not before `lo`, such that the character
/// before it is not whitespace.
pub open spec fn trim_end_to(s: Seq<char>, lo: int, j: int) -> int
    decreases j - lo,
{
    if lo < j && j <= s.len() && is_ws(s[j - 1]) {
        trim_end_to(s, lo, j - 1)
    } else {
        j
    }
}

/// `str::trim`: the text without leading and trailing whitespace.
pub open spec fn trim(s: Seq<char>) -> Seq<char> {
    let a = trim_start_from(s, 0);
    let b = trim_end_to(s, a, s.len() as int);
    s.subrange(a, b)
}

/// Index of the first occurrence of `c` at or after `i`.
pub open spec fn find_from(s: Seq<char>, c: char, i: int) -> Option<int>
    decreases s.len() - i,
{
    if i < 0 || i >= s.len() {
        None
    } else if s[i] == c {
        Some(i)
    } else {
        find_from(s, c, i + 1)
    }
}

/// `str::find` for a single character: index of its first occurrence.
pub open spec fn find_char(s: Seq<char>, c: char) -> Option<int> {
    find_from(s, c, 0)
}

/// The first `n` characters of `s` with every `c` removed.
pub open spec fn remove_char_prefix(s: Seq<char>, c: char, n: int) -> Seq<char>
    decreases n,
{
    if n <= 0 || n > s.len() {
        Seq::empty()
    } else if s[n - 1] == c {
        remove_char_prefix(s, c, n - 1)
    } else {
        remove_char_prefix(s, c, n - 1).push(s[n - 1])
    }
}

/// `str::replace(c, "")`: `s` with every occurrence of `c` removed.
pub open spec fn remove_char(s: Seq<char>, c: char) -> Seq<char> {
    remove_char_prefix(s, c, s.len() as int)
}

/// A line without its `\r` just before the `\n` that ended it.
pub open spec fn strip_cr(l: Seq<char>) -> Seq<char> {
    if l.len() > 0 && l.last() == '\r' {
        l.drop_last()
    } else {
        l
    }
}

/// The lines of `s` from position `i` on, where the current line began at `start`.
pub open spec fn lines_scan(s: Seq<char>, start: int, i: int) -> Seq<Seq<char>>
    decreases s.len() - i,
{
    if i >= s.len() || i < 0 {
        if 0 <= start < s.len() {
            seq![s.subrange(start, s.len() as int)]
        } else {
            Seq::empty()
        }
    } else if s[i] == '\n' {
        seq![strip_cr(s.subrange(start, i))] + lines_scan(s, i + 1, i + 1)
    } else {
        lines_scan(s, start, i + 1)
    }
}

/// `str::lines`: split at `\n`, drop a `\r` just before each `\n`, no empty last line.
pub open spec fn lines(s: Seq<char>) -> Seq<Seq<char>> {
    lines_scan(s, 0, 0)
}

/// `[..].join(sep)`.
pub open spec fn join(ls: Seq<Seq<char>>, sep: Seq<char>) -> Seq<char>
    decreases ls.len(),
{
    if ls.len() == 0 {
        Seq::empty()
    } else if ls.len() == 1 {
        ls[0]
    } else {
        join(ls.drop_last(), sep) + sep + ls.last()
    }
}

/// Decimal digits of `n`, most significant first.
pub open spec fn decimal(n: nat) -> Seq<char>
    decreases n,
{
    if n < 10 {
        seq![digit_char(n)]
    } else {
        decimal(n / 10).push(digit_char(n % 10))
    }
}

/// The character of a decimal digit.
pub open spec fn digit_char(d: nat) -> char {
    if d == 0 {
        '0'
    } else if d == 1 {
        '1'
    } else if d == 2 {
        '2'
    } else if d == 3 {
        '3'
    } else if d == 4 {
        '4'
    } else if d == 5 {
        '5'
    } else if d == 6 {
        '6'
    } else if d == 7 {
        '7'
    } else if d == 8 {
        '8'
    } else {
        '9'
    }
}

/// Number of bytes that `c` takes in UTF-8 (`char::len_utf8`).
pub open spec fn utf8_len(c: char) -> nat {
    let u = c as u32;
    if u <= 0x7F {
        1
    } else if u <= 0x7FF {
        2
    } else if u <= 0xFFFF {
        3
    } else {
        4
    }
}

/// Number of UTF-8 bytes of the first `n` characters of `s`.
pub open spec fn utf8_prefix_len(s: Seq<char>, n: int) -> nat
    decreases n,
{
    if n <= 0 || n > s.len() {
        0
    } else {
        utf8_prefix_len(s, n - 1) + utf8_len(s[n - 1])
    }
}

/// Number of UTF-8 bytes of `s` (`str::len`).
pub open spec fn byte_len(s: Seq<char>) -> nat {
    utf8_prefix_len(s, s.len() as int)
}

/// The bytes as UTF-8 text, when they are valid UTF-8: calls
/// `std::str::from_utf8`, whose documentation says it fails exactly on
/// bytes that are not UTF-8.
#[verifier::external_body]
pub(crate) fn utf8_str(b: &[u8]) -> (r: Option<&str>)
    ensures
        r is Some <==> valid_utf8(b@),
        r matches Some(s) ==> s@ == decode_utf8(b@),
{
    std::str::from_utf8(b).ok()
}

/// The bytes as a string, when they are valid UTF-8.
pub fn bytes2string(bytes: &[u8]) -> (r: Option<String>)
    ensures
        r is Some <==> valid_utf8(bytes@),
        r matches Some(s) ==> s@ == decode_utf8(bytes@),
{
    match utf8_str(bytes) {
        Some(s) => Some(String::from_str(s)),
        None => None,
    }
}

/// Appends one character to a string: calls `String::push`, whose
/// documentation says it appends the character to the end.
#[verifier::external_body]
pub(crate) fn push_char(s: &mut String, c: char)
    ensures
        final(s)@ == old(s)@.push(c),
{
    s.push(c);
}

/// The characters of a string slice.
pub fn to_chars(s: &str) -> (v: Vec<char>)
    ensures
        v@ == s@,
{
    let mut v: Vec<char> = Vec::new();
    for c in it: s.chars()
        invariant
            v@ == it.seq().take(it.index() as int),
            it.seq() == s@,
    {
        v.push(c);
    }
    v
}

/// A string made of the given characters.
pub fn from_chars(v: &[char]) -> (s: String)
    ensures
        s@ == v@,
{
    let mut s = String::new();
    let mut i: usize = 0;
    while i < v.len()
        invariant
            i <= v.len(),
            s@ == v@.take(i as int),
        decreases v.len() - i,
    {
        push_char(&mut s, v[i]);
        i = i + 1;
        assert(s@ == v@.take(i as int));
    }
    assert(v@.take(v.len() as int) == v@);
    s
}

/// Appends the characters of `t` to `s`.
pub fn push_str(s: &mut String, t: &str)
    ensures
        final(s)@ == old(s)@ + t@,
{
    let ghost s0 = s@;
    for c in it: t.chars()
        invariant
            s@ == s0 + it.seq().take(it.index() as int),
            it.seq() == t@,
    {
        push_char(s, c);
    }
    assert(t@.take(t@.len() as int) == t@);
}

/// Whether two string slices hold the same characters.
pub fn str_eq(a: &str, b: &str) -> (r: bool)
    ensures
        r == (a@ == b@),
{
    let x = to_chars(a);
    let y = to_chars(b);
    if x.len() != y.len() {
        return false;
    }
    let mut i: usize = 0;
    while i < x.len()
        invariant
            i <= x.len(),
            x.len() == y.len(),
            x@ == a@,
            y@ == b@,
            forall|j: int| 0 <= j < i ==> x@[j] == y@[j],
        decreases x.len() - i,
    {
        if x[i] != y[i] {
            assert(a@[i as int] != b@[i as int]);
            return false;
        }
        i = i + 1;
    }
    assert(x@ =~= y@);
    true
}

/// The characters `v[a..b]`.
pub fn copy_range(v: &[char], a: usize, b: usize) -> (r: Vec<char>)
    requires
        a <= b <= v.len(),
    ensures
        r@ == v@.subrange(a as int, b as int),
{
    let mut r: Vec<char> = Vec::new();
    let mut i: usize = a;
    while i < b
        invariant
            a <= i <= b <= v.len(),
            r@ == v@.subrange(a as int, i as int),
        decreases b - i,
    {
        r.push(v[i]);
        i = i + 1;
    }
    r
}

/// Index of the first `c` in `v`.
pub fn find_char_in(v: &[char], c: char) -> (r: Option<usize>)
    ensures
        r matches Some(i) ==> find_char(v@, c) == Some(i as int) && i < v.len() && v@[i as int]
            == c,
        r is None ==> find_char(v@, c) is None,
{
    let mut i: usize = 0;
    while i < v.len()
        invariant
            i <= v.len(),
            find_char(v@, c) == find_from(v@, c, i as int),
        decreases v.len() - i,
    {
        if v[i] == c {
            return Some(i);
        }
        i = i + 1;
    }
    None
}

/// Whether `c` occurs in `v`.
pub fn contains_char(v: &[char], c: char) -> (r: bool)
    ensures
        r == v@.contains(c),
{
    let mut i: usize = 0;
    while i < v.len()
        invariant
            i <= v.len(),
            forall|j: int| 0 <= j < i ==> v@[j] != c,
        decreases v.len() - i,
    {
        if v[i] == c {
            assert(v@[i as int] == c);
            return true;
        }
        i = i + 1;
    }
    false
}

/// `v` without any occurrence of `c`.
pub fn remove_all(v: &[char], c: char) -> (r: Vec<char>)
    ensures
        r@ == remove_char(v@, c),
{
    let mut r: Vec<char> = Vec::new();
    let mut i: usize = 0;
    while i < v.len()
        invariant
            i <= v.len(),
            r@ == remove_char_prefix(v@, c, i as int),
        decreases v.len() - i,
    {
        if v[i] != c {
            r.push(v[i]);
        }
        i = i + 1;
    }
    r
}

/// The characters of `v[a..b]` without leading and trailing whitespace.
pub fn trim_chars(v: &[char]) -> (r: Vec<char>)
    ensures
        r@ == trim(v@),
{
    let mut i: usize = 0;
    while i < v.len() && is_whitespace(v[i])
        invariant
            i <= v.len(),
            trim_start_from(v@, 0) == trim_start_from(v@, i as int),
        decreases v.len() - i,
    {
        i = i + 1;
    }
    let mut j: usize = v.len();
    while j > i && is_whitespace(v[j - 1])
        invariant
            i <= j <= v.len(),
            i == trim_start_from(v@, 0),
            trim_end_to(v@, i as int, v.len() as int) == trim_end_to(v@, i as int, j as int),
        decreases j - i,
    {
        j = j - 1;
    }
    copy_range(v, i, j)
}

/// The lines of `v`, as `str::lines` gives them.
pub fn split_lines(v: &[char]) -> (r: Vec<Vec<char>>)
    ensures
        r@.map_values(|l: Vec<char>| l@) == lines(v@),
{
    let mut r: Vec<Vec<char>> = Vec::new();
    let mut start: usize = 0;
    let mut i: usize = 0;
    while i < v.len()
        invariant
            start <= i <= v.len(),
            lines(v@) == r@.map_values(|l: Vec<char>| l@) + lines_scan(v@, start as int, i as int),
        decreases v.len() - i,
    {
        if v[i] == '\n' {
            let mut l = copy_range(v, start, i);
            if l.len() > 0 && l[l.len() - 1] == '\r' {
                l.pop();
            }
            let ghost before = r@.map_values(|l: Vec<char>| l@);
            r.push(l);
            assert(r@.map_values(|l: Vec<char>| l@) == before.push(
                strip_cr(v@.subrange(start as int, i as int)),
            ));
            start = i + 1;
            i = i + 1;
        } else {
            i = i + 1;
        }
    }
    if start < v.len() {
        let l = copy_range(v, start, v.len());
        let ghost before = r@.map_values(|l: Vec<char>| l@);
        r.push(l);
        assert(r@.map_values(|l: Vec<char>| l@) == before.push(
            v@.subrange(start as int, v.len() as int),
        ));
    } else {
        assert(r@.map_values(|l: Vec<char>| l@) == r@.map_values(|l: Vec<char>| l@) + Seq::<
            Seq<char>,
        >::empty());
    }
    r
}

/// The lines `ls[from..]` joined by `sep`.
pub fn join_from(ls: &Vec<Vec<char>>, from: usize, sep: &[char]) -> (r: Vec<char>)
    requires
        from <= ls.len(),
    ensures
        r@ == join(ls@.map_values(|l: Vec<char>| l@).skip(from as int), sep@),
{
    let ghost all = ls@.map_values(|l: Vec<char>| l@);
    let mut r: Vec<char> = Vec::new();
    let mut i: usize = from;
    while i < ls.len()
        invariant
            from <= i <= ls.len(),
            all == ls@.map_values(|l: Vec<char>| l@),
            r@ == join(all.subrange(from as int, i as int), sep@),
        decreases ls.len() - i,
    {
        if i > from {
            let mut k: usize = 0;
            let ghost r0 = r@;
            while k < sep.len()
                invariant
                    k <= sep.len(),
                    r@ == r0 + sep@.take(k as int),
                decreases sep.len() - k,
            {
                r.push(sep[k]);
                k = k + 1;
            }
            assert(sep@.take(sep.len() as int) == sep@);
        }
        let ghost r1 = r@;
        let line = &ls[i];
        let mut k: usize = 0;
        while k < line.len()
            invariant
                k <= line.len(),
                r@ == r1 + line@.take(k as int),
            decreases line.len() - k,
        {
            r.push(line[k]);
            k = k + 1;
        }
        assert(line@.take(line.len() as int) == line@);
        let ghost next = all.subrange(from as int, i + 1);
        assert(next.drop_last() == all.subrange(from as int, i as int));
        assert(next.last() == line@);
        i = i + 1;
    }
    assert(all.subrange(from as int, ls.len() as int) == all.skip(from as int));
    r
}

/// Decimal text of `n`.
pub fn u64_to_decimal(n: u64) -> (s: String)
    ensures
        s@ == decimal(n as nat),
    decreases n,
{
    if n < 10 {
        let mut s = String::new();
        push_char(&mut s, digit(n));
        assert(s@ == seq![digit_char(n as nat)]);
        s
    } else {
        let mut s = u64_to_decimal(n / 10);
        push_char(&mut s, digit(n % 10));
        s
    }
}

/// The character of the decimal digit `d`.
pub fn digit(d: u64) -> (c: char)
    requires
        d < 10,
    ensures
        c == digit_char(d as nat),
{
    if d == 0 {
        '0'
    } else if d == 1 {
        '1'
    } else if d == 2 {
        '2'
    } else if d == 3 {
        '3'
    } else if d == 4 {
        '4'
    } else if d == 5 {
        '5'
    } else if d == 6 {
        '6'
    } else if d == 7 {
        '7'
    } else if d == 8 {
        '8'
    } else {
        '9'
    }
}

/// Number of UTF-8 bytes of `c`.
pub fn char_utf8_len(c: char) -> (n: usize)
    ensures
        n == utf8_len(c),
{
    let u = c as u32;
    if u <= 0x7F {
        1
    } else if u <= 0x7FF {
        2
    } else if u <= 0xFFFF {
        3
    } else {
        4
    }
}

/// The longest character prefix of `v` whose UTF-8 form has at most `max` bytes,
/// together with whether that prefix is exactly `max` bytes long or is all of `v`
/// (so that `&s[..max]` would be a valid slice).
pub fn utf8_prefix(v: &[char], max: usize) -> (r: (usize, bool))
    ensures
        r.0 <= v.len(),
        utf8_prefix_len(v@, r.0 as int) <= max,
        r.0 < v.len() ==> utf8_prefix_len(v@, r.0 + 1) > max,
        r.1 == (r.0 == v.len() || utf8_prefix_len(v@, r.0 as int) == max),
{
    let mut i: usize = 0;
    let mut used: usize = 0;
    while i < v.len()
        invariant
            i <= v.len(),
            used == utf8_prefix_len(v@, i as int),
            used <= max,
        decreases v.len() - i,
    {
        let w = char_utf8_len(v[i]);
        if w > max - used {
            return (i, used == max);
        }
        used = used + w;
        i = i + 1;
    }
    (i, true)
}


/// Number of leading characters of `s`, from position `i` on, whose UTF-8 form
/// fits in `max` bytes.
pub open spec fn chars_within(s: Seq<char>, max: nat, i: int) -> int
    decreases s.len() - i,
{
    if 0 <= i < s.len() && utf8_prefix_len(s, i + 1) <= max {
        chars_within(s, max, i + 1)
    } else {
        i
    }
}

/// Whether `&s[..max]` would fail because byte `max` is inside a character.
pub open spec fn cut_inside_char(s: Seq<char>, max: nat) -> bool {
    let n = chars_within(s, max, 0);
    n < s.len() && utf8_prefix_len(s, n) != max
}

/// The characters of `&s[..max]` when `s` is longer than `max` bytes, else all of `s`.
pub open spec fn byte_prefix(s: Seq<char>, max: nat) -> Seq<char> {
    s.subrange(0, chars_within(s, max, 0))
}

/// The byte-length prefix `&s[..max]` (or all of `s` when it is shorter), as
/// characters; `None` when byte `max` falls inside a character.
pub fn byte_prefix_chars(v: &[char], max: usize) -> (r: Option<Vec<char>>)
    ensures
        match r {
            Some(p) => !cut_inside_char(v@, max as nat) && p@ == byte_prefix(v@, max as nat),
            None => cut_inside_char(v@, max as nat),
        },
{
    let mut i: usize = 0;
    let mut used: usize = 0;
    while i < v.len()
        invariant
            i <= v.len(),
            used == utf8_prefix_len(v@, i as int),
            used <= max,
            chars_within(v@, max as nat, 0) == chars_within(v@, max as nat, i as int),
        decreases v.len() - i,
    {
        let w = char_utf8_len(v[i]);
        if w > max - used {
            assert(chars_within(v@, max as nat, i as int) == i);
            if used == max {
                return Some(copy_range(v, 0, i));
            } else {
                return None;
            }
        }
        used = used + w;
        i = i + 1;
    }
    Some(copy_range(v, 0, i))
}

/// In `q + c + rest`, where `q` holds no `c`, the first `c` at or after `i` is
/// the one after `q`.
pub proof fn lemma_find_after(q: Seq<char>, c: char, rest: Seq<char>, i: int)
    requires
        0 <= i <= q.len(),
        !q.contains(c),
    ensures
        find_from(q + seq![c] + rest, c, i) == Some(q.len() as int),
    decreases q.len() - i,
{
    let s = q + seq![c] + rest;
    if i < q.len() {
        assert(s[i] == q[i]);
        assert(q[i] != c);
        lemma_find_after(q, c, rest, i + 1);
    } else {
        assert(s[i] == c);
    }
}

/// A concatenation holds a character exactly when one of its parts does.
pub proof fn lemma_contains_concat(x: Seq<char>, y: Seq<char>, c: char)
    ensures
        (x + y).contains(c) <==> x.contains(c) || y.contains(c),
{
    let s = x + y;
    if s.contains(c) {
        let i = choose|i: int| 0 <= i < s.len() && s[i] == c;
        if i < x.len() {
            assert(x[i] == c);
        } else {
            assert(y[i - x.len()] == c);
        }
    }
    if x.contains(c) {
        let i = choose|i: int| 0 <= i < x.len() && x[i] == c;
        assert(s[i] == c);
    }
    if y.contains(c) {
        let i = choose|i: int| 0 <= i < y.len() && y[i] == c;
        assert(s[i + x.len()] == c);
    }
}

/// Removing a character from a concatenation removes it from each part.
pub proof fn lemma_remove_char_concat(x: Seq<char>, y: Seq<char>, c: char, j: int)
    requires
        0 <= j <= y.len(),
    ensures
        remove_char_prefix(x + y, c, x.len() + j) == remove_char(x, c) + remove_char_prefix(y, c, j),
    decreases j,
{
    if j == 0 {
        assert(remove_char_prefix(y, c, 0) =~= Seq::<char>::empty());
        assert(x.subrange(0, x.len() as int) =~= (x + y).subrange(0, x.len() as int));
        lemma_remove_char_prefix_same(x, x + y, c, x.len() as int);
    } else {
        lemma_remove_char_concat(x, y, c, j - 1);
        assert((x + y)[x.len() + j - 1] == y[j - 1]);
    }
}

/// Removing a character depends only on the characters looked at.
pub proof fn lemma_remove_char_prefix_same(x: Seq<char>, z: Seq<char>, c: char, n: int)
    requires
        0 <= n <= x.len(),
        n <= z.len(),
        x.subrange(0, n) == z.subrange(0, n),
    ensures
        remove_char_prefix(z, c, n) == remove_char_prefix(x, c, n),
    decreases n,
{
    if n > 0 {
        assert(x.subrange(0, n - 1) == z.subrange(0, n - 1)) by {
            assert(x.subrange(0, n - 1) =~= x.subrange(0, n).subrange(0, n - 1));
            assert(z.subrange(0, n - 1) =~= z.subrange(0, n).subrange(0, n - 1));
        }
        assert(x[n - 1] == x.subrange(0, n)[n - 1]);
        assert(z[n - 1] == z.subrange(0, n)[n - 1]);
        lemma_remove_char_prefix_same(x, z, c, n - 1);
    }
}

/// Removing a character that does not occur changes nothing.
pub proof fn lemma_remove_char_absent(x: Seq<char>, c: char, n: int)
    requires
        0 <= n <= x.len(),
        !x.contains(c),
    ensures
        remove_char_prefix(x, c, n) == x.subrange(0, n),
    decreases n,
{
    if n > 0 {
        lemma_remove_char_absent(x, c, n - 1);
        assert(x[n - 1] != c);
        assert(x.subrange(0, n) == x.subrange(0, n - 1).push(x[n - 1]));
    } else {
        assert(x.subrange(0, 0) =~= Seq::<char>::empty());
    }
}

/// Text that does not begin or end with whitespace is its own trim.
pub proof fn lemma_trim_clean(s: Seq<char>)
    requires
        s.len() > 0,
        !is_ws(s[0]),
        !is_ws(s.last()),
    ensures
        trim(s) == s,
{
    assert(trim_start_from(s, 0) == 0);
    assert(trim_end_to(s, 0, s.len() as int) == s.len());
    assert(s.subrange(0, s.len() as int) == s);
}

/// A space before text that does not begin or end with whitespace is trimmed away.
pub proof fn lemma_trim_space_clean(s: Seq<char>)
    requires
        s.len() > 0,
        !is_ws(s[0]),
        !is_ws(s.last()),
    ensures
        trim(seq![' '] + s) == s,
{
    let t = seq![' '] + s;
    assert(t[0] == ' ');
    assert(is_ws(' '));
    assert(t[1] == s[0]);
    assert(trim_start_from(t, 1) == 1);
    assert(trim_start_from(t, 0) == 1);
    assert(t[t.len() - 1] == s.last());
    assert(trim_end_to(t, 1, t.len() as int) == t.len());
    assert(t.subrange(1, t.len() as int) == s);
}

/// Text without a line break is one line (or none, when empty).
pub proof fn lemma_lines_single(s: Seq<char>, start: int, i: int)
    requires
        0 <= start <= i <= s.len(),
        !s.contains('\n'),
    ensures
        lines_scan(s, start, i) == (if start < s.len() {
            seq![s.subrange(start, s.len() as int)]
        } else {
            Seq::<Seq<char>>::empty()
        }),
    decreases s.len() - i,
{
    if i < s.len() {
        assert(s[i] != '\n');
        lemma_lines_single(s, start, i + 1);
    }
}
/// Whether `&s[..max]` can be taken where `s` is longer than `max` bytes.
pub fn cuttable_at(s: &str, max: usize) -> (r: bool)
    ensures
        r == (byte_len(s@) > max ==> !cut_inside_char(s@, max as nat)),
{
    let v = to_chars(s);
    proof {
        lemma_fits_iff_within(s@, max as nat);
    }
    byte_prefix_chars(&v, max).is_some()
}

/// Whether `s` ends with `suffix` (`str::ends_with`).
pub open spec fn ends_with(s: Seq<char>, suffix: Seq<char>) -> bool {
    suffix.len() <= s.len() && s.subrange(s.len() - suffix.len(), s.len() as int) == suffix
}

/// Whether `s` ends with `suffix`.
pub fn ends_with_str(s: &str, suffix: &str) -> (r: bool)
    ensures
        r == ends_with(s@, suffix@),
{
    let x = to_chars(s);
    let y = to_chars(suffix);
    if y.len() > x.len() {
        return false;
    }
    let off = x.len() - y.len();
    let mut i: usize = 0;
    while i < y.len()
        invariant
            i <= y.len(),
            off + y.len() == x.len(),
            x@ == s@,
            y@ == suffix@,
            forall|j: int| 0 <= j < i ==> x@[off + j] == y@[j],
        decreases y.len() - i,
    {
        if x[off + i] != y[i] {
            assert(s@.subrange(off as int, s@.len() as int)[i as int] != suffix@[i as int]);
            return false;
        }
        i = i + 1;
    }
    assert(s@.subrange(off as int, s@.len() as int) =~= suffix@);
    true
}

/// Whether `s` ends with one of the first `n` suffixes.
pub open spec fn ends_with_any(s: Seq<char>, suffixes: Seq<Seq<char>>, n: int) -> bool
    decreases n,
{
    if n <= 0 || n > suffixes.len() {
        false
    } else {
        ends_with_any(s, suffixes, n - 1) || ends_with(s, suffixes[n - 1])
    }
}

/// Whether `s` ends with one of the suffixes.
pub fn ends_with_one_of(s: &str, suffixes: &Vec<String>) -> (r: bool)
    ensures
        r == ends_with_any(s@, suffixes@.map_values(|t: String| t@), suffixes@.len() as int),
{
    let ghost sv = suffixes@.map_values(|t: String| t@);
    let mut found = false;
    let mut i: usize = 0;
    while i < suffixes.len()
        invariant
            i <= suffixes.len(),
            sv == suffixes@.map_values(|t: String| t@),
            found == ends_with_any(s@, sv, i as int),
        decreases suffixes.len() - i,
    {
        if ends_with_str(s, suffixes[i].as_str()) {
            found = true;
        }
        i = i + 1;
    }
    found
}

/// The byte length of a prefix grows with the prefix.
pub proof fn lemma_prefix_len_mono(s: Seq<char>, a: int, b: int)
    requires
        0 <= a <= b <= s.len(),
    ensures
        utf8_prefix_len(s, a) <= utf8_prefix_len(s, b),
    decreases b - a,
{
    if a < b {
        lemma_prefix_len_mono(s, a, b - 1);
    }
}

/// `chars_within` stops at the longest prefix that fits in `max` bytes.
pub proof fn lemma_chars_within(s: Seq<char>, max: nat, i: int)
    requires
        0 <= i <= s.len(),
        utf8_prefix_len(s, i) <= max,
    ensures
        i <= chars_within(s, max, i) <= s.len(),
        utf8_prefix_len(s, chars_within(s, max, i)) <= max,
        chars_within(s, max, i) < s.len() ==> utf8_prefix_len(s, chars_within(s, max, i) + 1)
            > max,
    decreases s.len() - i,
{
    if i < s.len() && utf8_prefix_len(s, i + 1) <= max {
        lemma_chars_within(s, max, i + 1);
    }
}

/// The whole of `s` fits in `max` bytes exactly when `chars_within` reaches
/// its end.
pub proof fn lemma_fits_iff_within(s: Seq<char>, max: nat)
    ensures
        (byte_len(s) <= max) == (chars_within(s, max, 0) == s.len()),
        chars_within(s, max, 0) <= s.len(),
{
    lemma_chars_within(s, max, 0);
    let n = chars_within(s, max, 0);
    if n < s.len() {
        lemma_prefix_len_mono(s, n + 1, s.len() as int);
    }
}

} // verus!
