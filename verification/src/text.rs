//! Character-level text operations: the pieces of `str` behaviour that the
//! configuration logic relies on (whitespace splitting, trimming, searching,
//! replacing, decimal printing and parsing), each stated as a spec function
//! over `Seq<char>` and implemented with a proof against it.
use vstd::prelude::*;

verus! {

broadcast use vstd::string::group_string_axioms;

/// The views of a sequence of character vectors.
pub open spec fn views(ws: Seq<Vec<char>>) -> Seq<Seq<char>> {
    ws.map_values(|w: Vec<char>| w@)
}

/// The characters of a string slice, in order.
pub fn chars_of(s: &str) -> (v: Vec<char>)
    ensures
        v@ == s@,
{
    let mut v: Vec<char> = Vec::new();
    for c in it: s.chars()
        invariant
            v@ == it.history(),
    {
        v.push(c);
    }
    v
}

/// `String::push`: appends one character.
#[verifier::external_body]
fn push_char(s: &mut String, c: char)
    ensures
        final(s)@ == old(s)@.push(c),
{
    s.push(c);
}

/// Appends a sequence of characters to a string.
pub fn push_chars(s: &mut String, v: &[char])
    ensures
        final(s)@ == old(s)@ + v@,
{
    let ghost start = s@;
    let mut i: usize = 0;
    while i < v.len()
        invariant
            i <= v.len(),
            s@ == start + v@.take(i as int),
        decreases v.len() - i,
    {
        push_char(s, v[i]);
        assert(v@.take(i as int).push(v@[i as int]) =~= v@.take(i + 1));
        assert(start + v@.take(i + 1) =~= (start + v@.take(i as int)).push(v@[i as int]));
        i += 1;
    }
    assert(v@.take(v.len() as int) =~= v@);
}

/// Builds a string from a sequence of characters.
pub fn string_of(v: &[char]) -> (s: String)
    ensures
        s@ == v@,
{
    let mut s = String::new();
    push_chars(&mut s, v);
    assert(Seq::<char>::empty() + v@ =~= v@);
    s
}

/// Unicode's `White_Space` property, which `char::is_whitespace` tests.
pub open spec fn is_whitespace(c: char) -> bool {
    let u = c as u32;
    ||| 0x09 <= u <= 0x0d
    ||| u == 0x20
    ||| u == 0x85
    ||| u == 0xa0
    ||| u == 0x1680
    ||| 0x2000 <= u <= 0x200a
    ||| u == 0x2028
    ||| u == 0x2029
    ||| u == 0x202f
    ||| u == 0x205f
    ||| u == 0x3000
}

pub fn is_whitespace_char(c: char) -> (b: bool)
    ensures
        b == is_whitespace(c),
{
    let u = c as u32;
    (0x09 <= u && u <= 0x0d) || u == 0x20 || u == 0x85 || u == 0xa0 || u == 0x1680 || (0x2000 <= u
        && u <= 0x200a) || u == 0x2028 || u == 0x2029 || u == 0x202f || u == 0x205f || u == 0x3000
}

/// Adds the word being read to the finished words, unless it is empty.
pub open spec fn close_word(words: Seq<Seq<char>>, cur: Seq<char>) -> Seq<Seq<char>> {
    if cur.len() == 0 {
        words
    } else {
        words.push(cur)
    }
}

/// Splitting by whitespace, reading `s` from left to right with the words
/// finished so far and the word being read.
pub open spec fn split_from(s: Seq<char>, words: Seq<Seq<char>>, cur: Seq<char>) -> Seq<Seq<char>>
    decreases s.len(),
{
    if s.len() == 0 {
        close_word(words, cur)
    } else if is_whitespace(s[0]) {
        split_from(s.drop_first(), close_word(words, cur), seq![])
    } else {
        split_from(s.drop_first(), words, cur.push(s[0]))
    }
}

/// `str::split_whitespace`: the maximal runs of non-whitespace characters.
pub open spec fn split_ws(s: Seq<char>) -> Seq<Seq<char>> {
    split_from(s, seq![], seq![])
}

pub fn split_whitespace(s: &[char]) -> (words: Vec<Vec<char>>)
    ensures
        views(words@) == split_ws(s@),
{
    let mut words: Vec<Vec<char>> = Vec::new();
    let mut cur: Vec<char> = Vec::new();
    let mut i: usize = 0;
    assert(s@.skip(0) =~= s@);
    assert(views(words@) =~= Seq::<Seq<char>>::empty());
    assert(cur@ =~= Seq::<char>::empty());
    while i < s.len()
        invariant
            i <= s.len(),
            split_from(s@.skip(i as int), views(words@), cur@) == split_ws(s@),
        decreases s.len() - i,
    {
        let ghost rest = s@.skip(i as int);
        assert(rest.drop_first() =~= s@.skip(i + 1));
        assert(rest[0] == s[i as int]);
        if is_whitespace_char(s[i]) {
            if cur.len() > 0 {
                let ghost before = words@;
                let ghost w = cur@;
                words.push(cur);
                assert(views(words@) =~= views(before).push(w));
            }
            cur = Vec::new();
        } else {
            cur.push(s[i]);
        }
        i += 1;
    }
    if cur.len() > 0 {
        let ghost before = words@;
        let ghost w = cur@;
        words.push(cur);
        assert(views(words@) =~= views(before).push(w));
    }
    words
}


/// Equality of two character sequences.
pub fn same_chars(a: &[char], b: &[char]) -> (r: bool)
    ensures
        r == (a@ == b@),
{
    if a.len() != b.len() {
        return false;
    }
    let mut i: usize = 0;
    while i < a.len()
        invariant
            i <= a.len(),
            a.len() == b.len(),
            forall|k: int| 0 <= k < i ==> a@[k] == b@[k],
        decreases a.len() - i,
    {
        if a[i] != b[i] {
            return false;
        }
        i += 1;
    }
    assert(a@ =~= b@);
    true
}

/// Whether a string slice holds exactly the given characters.
pub fn str_is(s: &str, t: &str) -> (r: bool)
    ensures
        r == (s@ == t@),
{
    let a = chars_of(s);
    let b = chars_of(t);
    same_chars(&a, &b)
}

/// Copies the characters of `s` from `from` up to `to`.
pub fn slice_chars(s: &[char], from: usize, to: usize) -> (r: Vec<char>)
    requires
        from <= to <= s.len(),
    ensures
        r@ == s@.subrange(from as int, to as int),
{
    let mut r: Vec<char> = Vec::new();
    let mut i = from;
    while i < to
        invariant
            from <= i <= to <= s.len(),
            r@ == s@.subrange(from as int, i as int),
        decreases to - i,
    {
        r.push(s[i]);
        assert(s@.subrange(from as int, i as int).push(s@[i as int]) =~= s@.subrange(
            from as int,
            i + 1,
        ));
        i += 1;
    }
    r
}

/// `str::starts_with` on characters.
pub open spec fn starts_with(s: Seq<char>, p: Seq<char>) -> bool {
    p.len() <= s.len() && s.take(p.len() as int) == p
}

/// Whether `p` occurs in `s` starting at position `i`.
pub fn matches_at(s: &[char], i: usize, p: &[char]) -> (r: bool)
    requires
        i <= s.len(),
    ensures
        r == starts_with(s@.skip(i as int), p@),
{
    if p.len() > s.len() - i {
        return false;
    }
    let mut k: usize = 0;
    while k < p.len()
        invariant
            k <= p.len(),
            p.len() <= s.len() - i,
            forall|j: int| 0 <= j < k ==> s@[i + j] == p@[j],
        decreases p.len() - k,
    {
        if s[i + k] != p[k] {
            assert(s@.skip(i as int).take(p.len() as int)[k as int] != p@[k as int]);
            return false;
        }
        k += 1;
    }
    assert(s@.skip(i as int).take(p.len() as int) =~= p@);
    true
}

/// `str::contains` on characters.
pub open spec fn contains(s: Seq<char>, p: Seq<char>) -> bool {
    exists|i: int| 0 <= i <= s.len() && #[trigger] starts_with(s.skip(i), p)
}

pub fn contains_chars(s: &[char], p: &[char]) -> (r: bool)
    ensures
        r == contains(s@, p@),
{
    let mut i: usize = 0;
    while i < s.len()
        invariant
            i <= s.len(),
            forall|j: int| 0 <= j < i ==> !#[trigger] starts_with(s@.skip(j), p@),
        decreases s.len() - i,
    {
        if matches_at(s, i, p) {
            return true;
        }
        i += 1;
    }
    matches_at(s, s.len(), p)
}

/// `str::replace` with a non-empty pattern: every non-overlapping occurrence
/// of `pat`, found from the left, is replaced by `rep`.
pub open spec fn replace_all(s: Seq<char>, pat: Seq<char>, rep: Seq<char>) -> Seq<char>
    decreases s.len(),
{
    if s.len() == 0 || pat.len() == 0 {
        s
    } else if starts_with(s, pat) {
        rep + replace_all(s.skip(pat.len() as int), pat, rep)
    } else {
        seq![s[0]] + replace_all(s.drop_first(), pat, rep)
    }
}

pub fn replace_chars(s: &[char], pat: &[char], rep: &[char]) -> (r: Vec<char>)
    requires
        pat.len() > 0,
    ensures
        r@ == replace_all(s@, pat@, rep@),
{
    let mut out: Vec<char> = Vec::new();
    let mut i: usize = 0;
    assert(s@.skip(0) =~= s@);
    while i < s.len()
        invariant
            i <= s.len(),
            pat.len() > 0,
            out@ + replace_all(s@.skip(i as int), pat@, rep@) == replace_all(s@, pat@, rep@),
        decreases s.len() - i,
    {
        let ghost rest = s@.skip(i as int);
        let ghost before = out@;
        if matches_at(s, i, pat) {
            let mut k: usize = 0;
            while k < rep.len()
                invariant
                    k <= rep.len(),
                    out@ == before + rep@.take(k as int),
                decreases rep.len() - k,
            {
                out.push(rep[k]);
                assert(before + rep@.take(k + 1) =~= (before + rep@.take(k as int)).push(
                    rep@[k as int],
                ));
                k += 1;
            }
            assert(rep@.take(rep.len() as int) =~= rep@);
            assert(rest.skip(pat.len() as int) =~= s@.skip(i + pat.len()));
            assert(before + (rep@ + replace_all(rest.skip(pat.len() as int), pat@, rep@)) =~= out@
                + replace_all(s@.skip(i + pat.len()), pat@, rep@));
            i = i + pat.len();
        } else {
            out.push(s[i]);
            assert(rest.drop_first() =~= s@.skip(i + 1));
            assert(before + (seq![rest[0]] + replace_all(rest.drop_first(), pat@, rep@)) =~= out@
                + replace_all(s@.skip(i + 1), pat@, rep@));
            i = i + 1;
        }
    }
    assert(out@ + Seq::<char>::empty() =~= out@);
    out
}


/// The character of a decimal digit.
pub open spec fn digit_char(d: nat) -> char {
    if d == 0 {
        '0'
    } else if d == 1 {
        '1'
    } else if d == 2 {
        '2'
    } else if d == 3 {
        '3'
    } else if d == 4 {
        '4'
    } else if d == 5 {
        '5'
    } else if d == 6 {
        '6'
    } else if d == 7 {
        '7'
    } else if d == 8 {
        '8'
    } else {
        '9'
    }
}

/// The decimal representation of `n`, without leading zeros, as `Display`
/// prints an unsigned integer.
pub open spec fn dec(n: nat) -> Seq<char>
    decreases n,
{
    if n < 10 {
        seq![digit_char(n)]
    } else {
        dec(n / 10).push(digit_char(n % 10))
    }
}

fn digit_of(d: u64) -> (c: char)
    requires
        d < 10,
    ensures
        c == digit_char(d as nat),
{
    if d == 0 {
        '0'
    } else if d == 1 {
        '1'
    } else if d == 2 {
        '2'
    } else if d == 3 {
        '3'
    } else if d == 4 {
        '4'
    } else if d == 5 {
        '5'
    } else if d == 6 {
        '6'
    } else if d == 7 {
        '7'
    } else if d == 8 {
        '8'
    } else {
        '9'
    }
}

/// The decimal digits of `n`.
pub fn decimal(n: u64) -> (v: Vec<char>)
    ensures
        v@ == dec(n as nat),
    decreases n,
{
    if n < 10 {
        let mut v: Vec<char> = Vec::new();
        v.push(digit_of(n));
        assert(v@ =~= seq![digit_char(n as nat)]);
        v
    } else {
        let mut v = decimal(n / 10);
        v.push(digit_of(n % 10));
        v
    }
}

/// Appends the decimal digits of `n` to a string.
pub fn push_decimal(s: &mut String, n: u64)
    ensures
        final(s)@ == old(s)@ + dec(n as nat),
{
    let v = decimal(n);
    push_chars(s, &v);
}

/// `{:02}`: the decimal digits of `n`, padded with a zero to two places.
pub open spec fn dec2(n: nat) -> Seq<char> {
    if n < 10 {
        seq!['0'] + dec(n)
    } else {
        dec(n)
    }
}

pub fn push_decimal2(s: &mut String, n: u64)
    ensures
        final(s)@ == old(s)@ + dec2(n as nat),
{
    let ghost start = s@;
    if n < 10 {
        push_char(s, '0');
        push_decimal(s, n);
        assert(start.push('0') + dec(n as nat) =~= start + (seq!['0'] + dec(n as nat)));
    } else {
        push_decimal(s, n);
    }
}

/// Whether `c` is an ASCII decimal digit.
pub open spec fn is_digit(c: char) -> bool {
    '0' <= c <= '9'
}

/// The value of an ASCII decimal digit.
pub open spec fn digit_value(c: char) -> nat {
    (c as u32 - '0' as u32) as nat
}

/// The value of a sequence of decimal digits.
pub open spec fn digits_value(s: Seq<char>) -> nat
    decreases s.len(),
{
    if s.len() == 0 {
        0
    } else {
        digits_value(s.drop_last()) * 10 + digit_value(s.last())
    }
}

/// Whether every character of `t` is a decimal digit.
pub open spec fn all_digits(t: Seq<char>) -> bool {
    forall|i: int| 0 <= i < t.len() ==> is_digit(#[trigger] t[i])
}

/// The digits of an unsigned number: `s` without one leading `+`.
pub open spec fn unsigned_digits(s: Seq<char>) -> Seq<char> {
    if s.len() > 0 && s[0] == '+' {
        s.drop_first()
    } else {
        s
    }
}

/// `u32::from_str`: an optional `+` followed by at least one decimal digit,
/// whose value fits in a `u32`.
pub open spec fn parse_u32(s: Seq<char>) -> Option<u32> {
    let digits = unsigned_digits(s);
    if digits.len() == 0 || !all_digits(digits) {
        None
    } else if digits_value(digits) > u32::MAX {
        None
    } else {
        Some(digits_value(digits) as u32)
    }
}

pub fn parse_u32_chars(s: &[char]) -> (r: Option<u32>)
    ensures
        r == parse_u32(s@),
{
    let start: usize = if s.len() > 0 && s[0] == '+' {
        1
    } else {
        0
    };
    let ghost digits = unsigned_digits(s@);
    assert(digits =~= s@.skip(start as int));
    if start == s.len() {
        return None;
    }
    let mut value: u64 = 0;
    let mut too_big = false;
    let mut i = start;
    while i < s.len()
        invariant
            start <= i <= s.len(),
            digits == s@.skip(start as int),
            digits == unsigned_digits(s@),
            forall|k: int| start <= k < i ==> is_digit(#[trigger] s@[k]),
            !too_big ==> value == digits_value(s@.subrange(start as int, i as int)),
            !too_big ==> value <= u32::MAX,
            too_big ==> digits_value(s@.subrange(start as int, i as int)) > u32::MAX,
        decreases s.len() - i,
    {
        let c = s[i];
        if !('0' <= c && c <= '9') {
            assert(!is_digit(digits[i - start]));
            return None;
        }
        let ghost prefix = s@.subrange(start as int, i as int);
        assert(s@.subrange(start as int, i + 1).drop_last() =~= prefix);
        let d = (c as u32 - '0' as u32) as u64;
        if !too_big {
            value = value * 10 + d;
            if value > 0xffff_ffff {
                too_big = true;
            }
        } else {
            assert(digits_value(prefix) * 10 + digit_value(c) > u32::MAX) by (nonlinear_arith)
                requires
                    digits_value(prefix) > u32::MAX,
            ;
        }
        i += 1;
    }
    assert(s@.subrange(start as int, s.len() as int) =~= digits);
    if too_big {
        None
    } else {
        Some(value as u32)
    }
}

/// `str::trim_start`.
pub open spec fn trim_start(s: Seq<char>) -> Seq<char>
    decreases s.len(),
{
    if s.len() > 0 && is_whitespace(s[0]) {
        trim_start(s.drop_first())
    } else {
        s
    }
}

/// `str::trim_end`.
pub open spec fn trim_end(s: Seq<char>) -> Seq<char>
    decreases s.len(),
{
    if s.len() > 0 && is_whitespace(s.last()) {
        trim_end(s.drop_last())
    } else {
        s
    }
}

/// `str::trim`: leading and trailing whitespace removed.
pub open spec fn trim(s: Seq<char>) -> Seq<char> {
    trim_end(trim_start(s))
}

pub fn trim_chars(s: &[char]) -> (r: Vec<char>)
    ensures
        r@ == trim(s@),
{
    let mut i: usize = 0;
    assert(s@.skip(0) =~= s@);
    while i < s.len() && is_whitespace_char(s[i])
        invariant
            i <= s.len(),
            trim_start(s@.skip(i as int)) == trim_start(s@),
        decreases s.len() - i,
    {
        assert(s@.skip(i as int).drop_first() =~= s@.skip(i + 1));
        i += 1;
    }
    let mut j: usize = s.len();
    assert(s@.subrange(i as int, j as int) =~= s@.skip(i as int));
    while j > i && is_whitespace_char(s[j - 1])
        invariant
            i <= j <= s.len(),
            trim_start(s@) == s@.skip(i as int),
            trim_end(s@.subrange(i as int, j as int)) == trim(s@),
        decreases j,
    {
        assert(s@.subrange(i as int, j as int).drop_last() =~= s@.subrange(i as int, j - 1));
        j -= 1;
    }
    slice_chars(s, i, j)
}

/// `str::lines`: pieces ended by `\n` (with a `\r` before it dropped), and a
/// last piece without a line end if it is not empty; read from left to right
/// with the lines finished so far and the line being read.
pub open spec fn lines_from(s: Seq<char>, lines: Seq<Seq<char>>, cur: Seq<char>) -> Seq<Seq<char>>
    decreases s.len(),
{
    if s.len() == 0 {
        close_word(lines, cur)
    } else if s[0] == '\n' {
        lines_from(s.drop_first(), lines.push(strip_cr(cur)), seq![])
    } else {
        lines_from(s.drop_first(), lines, cur.push(s[0]))
    }
}

/// A line's content without the `\r` of a `\r\n` line end.
pub open spec fn strip_cr(line: Seq<char>) -> Seq<char> {
    if line.len() > 0 && line.last() == '\r' {
        line.drop_last()
    } else {
        line
    }
}

pub open spec fn lines(s: Seq<char>) -> Seq<Seq<char>> {
    lines_from(s, seq![], seq![])
}

pub fn split_lines(s: &[char]) -> (ls: Vec<Vec<char>>)
    ensures
        views(ls@) == lines(s@),
{
    let mut ls: Vec<Vec<char>> = Vec::new();
    let mut cur: Vec<char> = Vec::new();
    let mut i: usize = 0;
    assert(s@.skip(0) =~= s@);
    assert(views(ls@) =~= Seq::<Seq<char>>::empty());
    assert(cur@ =~= Seq::<char>::empty());
    while i < s.len()
        invariant
            i <= s.len(),
            lines_from(s@.skip(i as int), views(ls@), cur@) == lines(s@),
        decreases s.len() - i,
    {
        let ghost rest = s@.skip(i as int);
        assert(rest.drop_first() =~= s@.skip(i + 1));
        assert(rest[0] == s[i as int]);
        if s[i] == '\n' {
            let ghost before = ls@;
            let ghost w = cur@;
            if cur.len() > 0 && cur[cur.len() - 1] == '\r' {
                cur.pop();
            }
            ls.push(cur);
            assert(views(ls@) =~= views(before).push(strip_cr(w)));
            cur = Vec::new();
        } else {
            cur.push(s[i]);
        }
        i += 1;
    }
    if cur.len() > 0 {
        let ghost before = ls@;
        let ghost w = cur@;
        ls.push(cur);
        assert(views(ls@) =~= views(before).push(w));
    }
    ls
}

/// The parts joined with `sep` between each two, as `join` does.
pub open spec fn join(parts: Seq<Seq<char>>, sep: Seq<char>) -> Seq<char>
    decreases parts.len(),
{
    if parts.len() == 0 {
        seq![]
    } else if parts.len() == 1 {
        parts[0]
    } else {
        join(parts.drop_last(), sep) + sep + parts.last()
    }
}


proof fn lemma_digit_char(d: nat)
    requires
        d < 10,
    ensures
        is_digit(digit_char(d)),
        digit_value(digit_char(d)) == d,
{
}

proof fn lemma_dec_digits(n: nat)
    ensures
        dec(n).len() > 0,
        all_digits(dec(n)),
        digits_value(dec(n)) == n,
    decreases n,
{
    if n < 10 {
        lemma_digit_char(n);
        assert(seq![digit_char(n)].drop_last() =~= Seq::<char>::empty());
        assert(digits_value(Seq::<char>::empty()) == 0);
    } else {
        lemma_dec_digits(n / 10);
        lemma_digit_char(n % 10);
        assert(dec(n).drop_last() =~= dec(n / 10));
        assert(dec(n).last() == digit_char(n % 10));
        assert(digits_value(dec(n)) == digits_value(dec(n / 10)) * 10 + digit_value(digit_char(n % 10)));
        assert forall|i: int| 0 <= i < dec(n).len() implies is_digit(#[trigger] dec(n)[i]) by {
            if i < dec(n / 10).len() {
                assert(dec(n)[i] == dec(n / 10)[i]);
            }
        }
    }
}

/// Printing a number in decimal and parsing it back gives the number.
pub proof fn law_parse_decimal(n: u32)
    ensures
        parse_u32(dec(n as nat)) == Some(n),
{
    lemma_dec_digits(n as nat);
    lemma_digit_char(0);
    assert(is_digit(dec(n as nat)[0]));
    assert(unsigned_digits(dec(n as nat)) == dec(n as nat));
}

/// Distinct numbers are printed differently, also when padded to two places.
pub proof fn law_dec2_injective(a: nat, b: nat)
    requires
        a != b,
    ensures
        dec(a) != dec(b),
        dec2(a) != dec2(b),
{
    lemma_dec_digits(a);
    lemma_dec_digits(b);
    lemma_digit_char(0);
    lemma_leading_zero(a);
    lemma_leading_zero(b);
}

proof fn lemma_leading_zero(n: nat)
    ensures
        digits_value(dec2(n)) == n,
{
    lemma_dec_digits(n);
    if n < 10 {
        let s = seq!['0'] + dec(n);
        lemma_digit_char(n);
        assert(dec(n) =~= seq![digit_char(n)]);
        assert(s.drop_last() =~= seq!['0']);
        assert(seq!['0'].drop_last() =~= Seq::<char>::empty());
        lemma_digit_char(0);
        assert(digits_value(Seq::<char>::empty()) == 0);
        assert(digits_value(seq!['0']) == 0);
        assert(s.last() == digit_char(n));
        assert(digits_value(s) == digits_value(seq!['0']) * 10 + digit_value(digit_char(n)));
    }
}


/// A word of a whitespace split: not empty, and without whitespace.
pub open spec fn is_word(w: Seq<char>) -> bool {
    w.len() > 0 && forall|k: int| 0 <= k < w.len() ==> !is_whitespace(#[trigger] w[k])
}

proof fn lemma_split_from_words(s: Seq<char>, words: Seq<Seq<char>>, cur: Seq<char>)
    requires
        forall|i: int| 0 <= i < words.len() ==> is_word(#[trigger] words[i]),
        forall|k: int| 0 <= k < cur.len() ==> !is_whitespace(#[trigger] cur[k]),
    ensures
        forall|i: int|
            0 <= i < split_from(s, words, cur).len() ==> is_word(#[trigger] split_from(s, words, cur)[i]),
    decreases s.len(),
{
    let closed = close_word(words, cur);
    assert forall|i: int| 0 <= i < closed.len() implies is_word(#[trigger] closed[i]) by {
        if i < words.len() {
            assert(closed[i] == words[i]);
        } else {
            assert(closed[i] == cur);
        }
    }
    if s.len() == 0 {
        assert(split_from(s, words, cur) == closed);
    } else {
        if is_whitespace(s[0]) {
            lemma_split_from_words(s.drop_first(), closed, seq![]);
            assert(split_from(s, words, cur) == split_from(s.drop_first(), closed, seq![]));
        } else {
            let next = cur.push(s[0]);
            assert forall|k: int| 0 <= k < next.len() implies !is_whitespace(#[trigger] next[k]) by {
                if k < cur.len() {
                    assert(next[k] == cur[k]);
                }
            }
            lemma_split_from_words(s.drop_first(), words, next);
            assert(split_from(s, words, cur) == split_from(s.drop_first(), words, next));
        }
    }
}

/// Splitting by whitespace gives non-empty words without whitespace.
pub proof fn law_split_gives_words(s: Seq<char>)
    ensures
        forall|i: int| 0 <= i < split_ws(s).len() ==> is_word(#[trigger] split_ws(s)[i]),
{
    lemma_split_from_words(s, seq![], seq![]);
}

/// Replacing a pattern that does not occur leaves the text unchanged.
pub proof fn law_replace_absent(s: Seq<char>, pat: Seq<char>, rep: Seq<char>)
    requires
        !contains(s, pat),
    ensures
        replace_all(s, pat, rep) == s,
    decreases s.len(),
{
    if s.len() > 0 && pat.len() > 0 {
        assert(s.skip(0) =~= s);
        assert(!starts_with(s, pat));
        assert forall|i: int| 0 <= i <= s.drop_first().len() implies !#[trigger] starts_with(
            s.drop_first().skip(i),
            pat,
        ) by {
            assert(s.drop_first().skip(i) =~= s.skip(i + 1));
            assert(!starts_with(s.skip(i + 1), pat));
        }
        law_replace_absent(s.drop_first(), pat, rep);
        assert(seq![s[0]] + s.drop_first() =~= s);
    }
}


/// A text contains every piece it is put together from.
pub proof fn lemma_contains_piece(a: Seq<char>, p: Seq<char>, b: Seq<char>)
    ensures
        contains(a + p + b, p),
{
    let t = a + p + b;
    assert(t.skip(a.len() as int).take(p.len() as int) =~= p);
    assert(starts_with(t.skip(a.len() as int), p));
}

/// A text that ends a line.
pub open spec fn ends_line(s: Seq<char>) -> bool {
    s.len() > 0 && s.last() == '\n'
}

/// A piece that follows a line end stands on a line of its own start.
pub proof fn lemma_line_after(prefix: Seq<char>, line: Seq<char>, rest: Seq<char>)
    requires
        ends_line(prefix),
    ensures
        contains(prefix + line + rest, seq!['\n'] + line),
{
    let a = prefix.drop_last();
    assert(prefix + line + rest =~= a + (seq!['\n'] + line) + rest);
    lemma_contains_piece(a, seq!['\n'] + line, rest);
}


proof fn lemma_split_from_keeps(s: Seq<char>, words: Seq<Seq<char>>, cur: Seq<char>)
    ensures
        split_from(s, words, cur).len() >= words.len(),
        forall|k: int| 0 <= k < words.len() ==> #[trigger] split_from(s, words, cur)[k] == words[k],
    decreases s.len(),
{
    let closed = close_word(words, cur);
    assert forall|k: int| 0 <= k < words.len() implies #[trigger] closed[k] == words[k] by {
    }
    if s.len() > 0 {
        if is_whitespace(s[0]) {
            lemma_split_from_keeps(s.drop_first(), closed, seq![]);
            assert forall|k: int| 0 <= k < words.len() implies #[trigger] split_from(s, words, cur)[k]
                == words[k] by {
                assert(split_from(s.drop_first(), closed, seq![])[k] == closed[k]);
            }
        } else {
            lemma_split_from_keeps(s.drop_first(), words, cur.push(s[0]));
        }
    }
}

proof fn lemma_split_from_finds(s: Seq<char>, words: Seq<Seq<char>>, cur: Seq<char>, p: Seq<char>)
    requires
        p.len() > 0,
        forall|j: int| 0 <= j < p.len() ==> !is_whitespace(#[trigger] p[j]),
        contains(cur + s, p),
    ensures
        exists|k: int|
            0 <= k < split_from(s, words, cur).len() && contains(
                #[trigger] split_from(s, words, cur)[k],
                p,
            ),
    decreases s.len(),
{
    let t = cur + s;
    let c = cur.len() as int;
    let r = split_from(s, words, cur);
    let i = choose|i: int| 0 <= i <= t.len() && #[trigger] starts_with(t.skip(i), p);
    assert forall|j: int| 0 <= j < p.len() implies t[i + j] == p[j] by {
        assert(t.skip(i).take(p.len() as int)[j] == p[j]);
    }
    if s.len() > 0 && !is_whitespace(s[0]) {
        let next = cur.push(s[0]);
        assert(next + s.drop_first() =~= t);
        lemma_split_from_finds(s.drop_first(), words, next, p);
        assert(r == split_from(s.drop_first(), words, next));
        let k = choose|k: int|
            0 <= k < split_from(s.drop_first(), words, next).len() && contains(
                #[trigger] split_from(s.drop_first(), words, next)[k],
                p,
            );
        assert(contains(r[k], p));
    } else if i + p.len() <= c {
        assert(cur.skip(i).take(p.len() as int) =~= p);
        assert(starts_with(cur.skip(i), p));
        assert(contains(cur, p));
        let closed = close_word(words, cur);
        assert(closed == words.push(cur));
        if s.len() == 0 {
            assert(r == closed);
            assert(r[words.len() as int] == cur);
        } else {
            lemma_split_from_keeps(s.drop_first(), closed, seq![]);
            assert(r == split_from(s.drop_first(), closed, seq![]));
            assert(r[words.len() as int] == closed[words.len() as int]);
        }
        assert(contains(r[words.len() as int], p));
    } else if i <= c {
        assert(t[i + (c - i)] == p[c - i]);
        assert(t[c] == s[0]);
        assert(false);
    } else {
        let rest = s.drop_first();
        let m = i - c - 1;
        assert(t.skip(i) =~= rest.skip(m));
        assert(starts_with(rest.skip(m), p));
        assert(Seq::<char>::empty() + rest =~= rest);
        assert(contains(Seq::<char>::empty() + rest, p));
        let closed = close_word(words, cur);
        lemma_split_from_finds(rest, closed, seq![], p);
        assert(r == split_from(rest, closed, seq![]));
        let k = choose|k: int|
            0 <= k < split_from(rest, closed, seq![]).len() && contains(
                #[trigger] split_from(rest, closed, seq![])[k],
                p,
            );
        assert(contains(r[k], p));
    }
}

/// Text without whitespace that occurs in `s` occurs within one of the
/// words that `s` splits into.
pub proof fn law_split_keeps_words_whole(s: Seq<char>, p: Seq<char>)
    requires
        p.len() > 0,
        forall|j: int| 0 <= j < p.len() ==> !is_whitespace(#[trigger] p[j]),
        contains(s, p),
    ensures
        exists|k: int| 0 <= k < split_ws(s).len() && contains(#[trigger] split_ws(s)[k], p),
{
    assert(Seq::<char>::empty() + s =~= s);
    lemma_split_from_finds(s, seq![], seq![], p);
    let k = choose|k: int|
        0 <= k < split_from(s, seq![], seq![]).len() && contains(
            #[trigger] split_from(s, seq![], seq![])[k],
            p,
        );
    assert(split_ws(s)[k] == split_from(s, seq![], seq![])[k]);
}

} // verus!
