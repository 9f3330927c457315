//! Text helpers on the library's strings, each with the meaning the standard
//! library gives the operation it stands for.
use vstd::prelude::*;
use vstd::string::*;

verus! {

/// The characters of `s`, in order.
pub fn chars_of(s: &str) -> (r: Vec<char>)
    ensures
        r@ == s@,
{
    let n = s.unicode_len();
    let mut v: Vec<char> = Vec::new();
    let mut i: usize = 0;
    while i < n
        invariant
            n == s@.len(),
            i <= n,
            v@ == s@.take(i as int),
        decreases n - i,
    {
        v.push(s.get_char(i));
        i = i + 1;
        assert(s@.take(i as int) == s@.take((i - 1) as int).push(s@[i - 1]));
    }
    assert(s@.take(n as int) == s@);
    v
}

/// Calls `FromIterator<&char>::from_iter` for `String`: the string made of the
/// characters of `v`, in order.
#[verifier::external_body]
pub(crate) fn string_from_chars(v: &[char]) -> (r: String)
    ensures
        r@ == v@,
{
    v.iter().collect()
}

/// Whether `a` and `b` hold the same characters.
pub fn str_eq(a: &str, b: &str) -> (r: bool)
    ensures
        r == (a@ == b@),
{
    let x = chars_of(a);
    let y = chars_of(b);
    chars_eq(&x, &y)
}

/// Whether `a` and `b` hold the same characters.
pub fn chars_eq(a: &[char], b: &[char]) -> (r: bool)
    ensures
        r == (a@ == b@),
{
    if a.len() != b.len() {
        return false;
    }
    let mut i: usize = 0;
    while i < a.len()
        invariant
            a@.len() == b@.len(),
            i <= a@.len(),
            forall|j: int| 0 <= j < i ==> a@[j] == b@[j],
        decreases a.len() - i,
    {
        if a[i] != b[i] {
            return false;
        }
        i = i + 1;
    }
    assert(a@ =~= b@);
    true
}

/// The digit character for a value below sixteen, upper case for ten and up.
pub open spec fn digit_char(d: nat) -> char {
    if d == 0 {
        '0'
    } else if d == 1 {
        '1'
    } else if d == 2 {
        '2'
    } else if d == 3 {
        '3'
    } else if d == 4 {
        '4'
    } else if d == 5 {
        '5'
    } else if d == 6 {
        '6'
    } else if d == 7 {
        '7'
    } else if d == 8 {
        '8'
    } else if d == 9 {
        '9'
    } else if d == 10 {
        'A'
    } else if d == 11 {
        'B'
    } else if d == 12 {
        'C'
    } else if d == 13 {
        'D'
    } else if d == 14 {
        'E'
    } else {
        'F'
    }
}

fn digit_char_exec(d: u64) -> (c: char)
    requires
        d < 16,
    ensures
        c == digit_char(d as nat),
{
    if d == 0 {
        '0'
    } else if d == 1 {
        '1'
    } else if d == 2 {
        '2'
    } else if d == 3 {
        '3'
    } else if d == 4 {
        '4'
    } else if d == 5 {
        '5'
    } else if d == 6 {
        '6'
    } else if d == 7 {
        '7'
    } else if d == 8 {
        '8'
    } else if d == 9 {
        '9'
    } else if d == 10 {
        'A'
    } else if d == 11 {
        'B'
    } else if d == 12 {
        'C'
    } else if d == 13 {
        'D'
    } else if d == 14 {
        'E'
    } else {
        'F'
    }
}

/// The digits of `n` in base `base` (2 to 16), most significant first, with no
/// leading zeros: what `{}` (base ten) and `{:X}` (base sixteen) print.
pub open spec fn spec_digits(n: nat, base: nat) -> Seq<char>
    recommends
        2 <= base <= 16,
    decreases n,
{
    if n < base || base < 2 {
        seq![digit_char(n)]
    } else {
        proof {
            assert(n / base < n) by (nonlinear_arith)
                requires
                    n >= base,
                    base >= 2,
            ;
        }
        spec_digits(n / base, base).push(digit_char(n % base))
    }
}

/// The decimal text of `n`, as `{}` prints an unsigned number.
pub open spec fn spec_decimal(n: nat) -> Seq<char> {
    spec_digits(n, 10)
}

/// The upper-case hexadecimal text of `n` padded with zeros on the left to at
/// least `width` characters, as `{:0width$X}` prints it.
pub open spec fn spec_hex_upper_padded(n: nat, width: nat) -> Seq<char> {
    let d = spec_digits(n, 16);
    if d.len() < width {
        Seq::new((width - d.len()) as nat, |_i: int| '0') + d
    } else {
        d
    }
}

fn push_digits(out: &mut Vec<char>, n: u64, base: u64)
    requires
        2 <= base <= 16,
    ensures
        final(out)@ == old(out)@ + spec_digits(n as nat, base as nat),
    decreases n,
{
    if n < base {
        out.push(digit_char_exec(n));
    } else {
        assert(n / base < n) by (nonlinear_arith)
            requires
                n >= base,
                base >= 2,
        ;
        push_digits(out, n / base, base);
        out.push(digit_char_exec(n % base));
    }
}

/// The decimal text of `n`.
pub fn decimal_string(n: u64) -> (r: String)
    ensures
        r@ == spec_decimal(n as nat),
{
    let mut v: Vec<char> = Vec::new();
    push_digits(&mut v, n, 10);
    string_from_chars(&v)
}

/// The upper-case hexadecimal text of `n`, zero-padded to `width` characters.
pub fn hex_upper_padded(n: u64, width: usize) -> (r: String)
    ensures
        r@ == spec_hex_upper_padded(n as nat, width as nat),
{
    let mut d: Vec<char> = Vec::new();
    push_digits(&mut d, n, 16);
    let mut v: Vec<char> = Vec::new();
    if d.len() < width {
        let pad = width - d.len();
        let mut i: usize = 0;
        while i < pad
            invariant
                i <= pad,
                v@ == Seq::new(i as nat, |_i: int| '0'),
            decreases pad - i,
        {
            v.push('0');
            i = i + 1;
            assert(v@ =~= Seq::new(i as nat, |_i: int| '0'));
        }
    }
    let mut j: usize = 0;
    let ghost padding = v@;
    while j < d.len()
        invariant
            j <= d@.len(),
            v@ == padding + d@.take(j as int),
        decreases d.len() - j,
    {
        v.push(d[j]);
        j = j + 1;
        assert(d@.take(j as int) == d@.take((j - 1) as int).push(d@[j - 1]));
    }
    assert(d@.take(d@.len() as int) == d@);
    assert(v@ =~= spec_hex_upper_padded(n as nat, width as nat));
    string_from_chars(&v)
}

/// The characters with the Unicode `White_Space` property, which is what
/// `char::is_whitespace` tests.
pub open spec fn spec_is_whitespace(c: char) -> bool {
    let u = c as u32;
    ||| 0x09 <= u <= 0x0D
    ||| u == 0x20
    ||| u == 0x85
    ||| u == 0xA0
    ||| u == 0x1680
    ||| 0x2000 <= u <= 0x200A
    ||| u == 0x2028
    ||| u == 0x2029
    ||| u == 0x202F
    ||| u == 0x205F
    ||| u == 0x3000
}

/// Whether `c` is white space.
pub fn is_whitespace(c: char) -> (r: bool)
    ensures
        r == spec_is_whitespace(c),
{
    let u = c as u32;
    (0x09 <= u && u <= 0x0D) || u == 0x20 || u == 0x85 || u == 0xA0 || u == 0x1680 || (0x2000
        <= u && u <= 0x200A) || u == 0x2028 || u == 0x2029 || u == 0x202F || u == 0x205F || u
        == 0x3000
}

/// `s` without its leading white space.
pub open spec fn spec_trim_start(s: Seq<char>) -> Seq<char>
    decreases s.len(),
{
    if s.len() > 0 && spec_is_whitespace(s[0]) {
        spec_trim_start(s.drop_first())
    } else {
        s
    }
}

/// `s` without its trailing white space.
pub open spec fn spec_trim_end(s: Seq<char>) -> Seq<char>
    decreases s.len(),
{
    if s.len() > 0 && spec_is_whitespace(s.last()) {
        spec_trim_end(s.drop_last())
    } else {
        s
    }
}

/// `s` without leading and trailing white space, as `str::trim` gives it.
pub open spec fn spec_trim(s: Seq<char>) -> Seq<char> {
    spec_trim_end(spec_trim_start(s))
}

proof fn lemma_trim_start_skip(s: Seq<char>, i: int)
    requires
        0 <= i <= s.len(),
        forall|j: int| 0 <= j < i ==> spec_is_whitespace(#[trigger] s[j]),
    ensures
        spec_trim_start(s) == spec_trim_start(s.skip(i)),
    decreases i,
{
    if i > 0 {
        assert(spec_is_whitespace(s[0]));
        lemma_trim_start_skip(s.drop_first(), i - 1);
        assert(s.drop_first().skip(i - 1) == s.skip(i));
    } else {
        assert(s.skip(0) == s);
    }
}

proof fn lemma_trim_end_take(s: Seq<char>, k: int)
    requires
        0 <= k <= s.len(),
        forall|j: int| k <= j < s.len() ==> spec_is_whitespace(#[trigger] s[j]),
    ensures
        spec_trim_end(s) == spec_trim_end(s.take(k)),
    decreases s.len() - k,
{
    if k < s.len() {
        assert(spec_is_whitespace(s.last()));
        lemma_trim_end_take(s.drop_last(), k);
        assert(s.drop_last().take(k) == s.take(k));
    } else {
        assert(s.take(k) == s);
    }
}

proof fn lemma_trim_start_front(s: Seq<char>)
    ensures
        spec_trim_start(s).len() == 0 || !spec_is_whitespace(spec_trim_start(s)[0]),
    decreases s.len(),
{
    if s.len() > 0 && spec_is_whitespace(s[0]) {
        lemma_trim_start_front(s.drop_first());
    }
}

proof fn lemma_trim_end_prefix(s: Seq<char>)
    ensures
        spec_trim_end(s).len() <= s.len(),
        spec_trim_end(s) == s.take(spec_trim_end(s).len() as int),
        spec_trim_end(s).len() == 0 || !spec_is_whitespace(spec_trim_end(s).last()),
    decreases s.len(),
{
    if s.len() > 0 && spec_is_whitespace(s.last()) {
        lemma_trim_end_prefix(s.drop_last());
        let t = spec_trim_end(s.drop_last());
        assert(s.drop_last().take(t.len() as int) == s.take(t.len() as int));
    } else {
        assert(s.take(s.len() as int) == s);
    }
}

/// Trimming a trimmed text changes nothing.
pub proof fn lemma_trim_idempotent(s: Seq<char>)
    ensures
        spec_trim(spec_trim(s)) == spec_trim(s),
{
    let t = spec_trim_start(s);
    let u = spec_trim_end(t);
    lemma_trim_start_front(s);
    lemma_trim_end_prefix(t);
    if u.len() > 0 {
        assert(u[0] == t[0]);
        assert(spec_trim_start(u) == u);
    } else {
        assert(spec_trim_start(u) == u);
    }
    assert(spec_trim_end(u) == u);
}

/// `s` without leading and trailing white space.
pub fn trim_chars(s: &[char]) -> (r: Vec<char>)
    ensures
        r@ == spec_trim(s@),
{
    let n = s.len();
    let mut start: usize = 0;
    while start < n && is_whitespace(s[start])
        invariant
            n == s@.len(),
            start <= n,
            forall|j: int| 0 <= j < start ==> spec_is_whitespace(#[trigger] s@[j]),
        decreases n - start,
    {
        start = start + 1;
    }
    proof {
        lemma_trim_start_skip(s@, start as int);
    }
    let ghost t = s@.skip(start as int);
    assert(spec_trim_start(t) == t);
    let mut end: usize = n;
    while end > start && is_whitespace(s[end - 1])
        invariant
            start <= end <= n,
            n == s@.len(),
            t == s@.skip(start as int),
            forall|j: int| end - start <= j < t.len() ==> spec_is_whitespace(#[trigger] t[j]),
        decreases end,
    {
        assert(t[end - 1 - start] == s@[end - 1]);
        end = end - 1;
    }
    proof {
        lemma_trim_end_take(t, end - start);
    }
    let mut out: Vec<char> = Vec::new();
    let mut i = start;
    while i < end
        invariant
            start <= i <= end <= n,
            n == s@.len(),
            out@ == s@.subrange(start as int, i as int),
        decreases end - i,
    {
        out.push(s[i]);
        i = i + 1;
        assert(s@.subrange(start as int, i as int) == s@.subrange(start as int, (i - 1) as int).push(
            s@[i - 1],
        ));
    }
    assert(t.take(end - start) == s@.subrange(start as int, end as int));
    if start < end {
        assert(!spec_is_whitespace(t.take(end - start).last()));
    }
    out
}

/// `s` without leading and trailing white space.
pub fn trim(s: &str) -> (r: String)
    ensures
        r@ == spec_trim(s@),
{
    let v = chars_of(s);
    let t = trim_chars(&v);
    string_from_chars(&t)
}


/// The pieces of `s` between occurrences of `sep`, as `str::split` with a
/// character pattern gives them: one more piece than there are separators,
/// empty pieces included.
pub open spec fn spec_split(s: Seq<char>, sep: char) -> Seq<Seq<char>>
    decreases s.len(),
{
    if s.len() == 0 {
        seq![Seq::<char>::empty()]
    } else {
        let r = spec_split(s.drop_last(), sep);
        if s.last() == sep {
            r.push(Seq::<char>::empty())
        } else {
            r.update(r.len() - 1, r.last().push(s.last()))
        }
    }
}

proof fn lemma_split_nonempty(s: Seq<char>, sep: char)
    ensures
        spec_split(s, sep).len() >= 1,
    decreases s.len(),
{
    if s.len() > 0 {
        lemma_split_nonempty(s.drop_last(), sep);
    }
}

/// The pieces of `s` between occurrences of `sep`.
pub fn split_chars(s: &[char], sep: char) -> (r: Vec<Vec<char>>)
    ensures
        r@.len() == spec_split(s@, sep).len(),
        forall|k: int| 0 <= k < r@.len() ==> #[trigger] r@[k]@ == spec_split(s@, sep)[k],
{
    let mut done: Vec<Vec<char>> = Vec::new();
    let mut cur: Vec<char> = Vec::new();
    let mut i: usize = 0;
    while i < s.len()
        invariant
            i <= s@.len(),
            spec_split(s@.take(i as int), sep).len() == done@.len() + 1,
            forall|k: int|
                0 <= k < done@.len() ==> #[trigger] done@[k]@ == spec_split(s@.take(i as int), sep)[k],
            cur@ == spec_split(s@.take(i as int), sep).last(),
        decreases s.len() - i,
    {
        let c = s[i];
        let ghost prev = s@.take(i as int);
        proof {
            lemma_split_nonempty(prev, sep);
        }
        assert(s@.take((i + 1) as int).drop_last() == prev);
        if c == sep {
            let finished = cur;
            done.push(finished);
            cur = Vec::new();
        } else {
            cur.push(c);
        }
        i = i + 1;
    }
    assert(s@.take(s@.len() as int) == s@);
    done.push(cur);
    done
}

/// The index of the first `c` in `s` at `i` or later.
pub open spec fn index_of_from(s: Seq<char>, c: char, i: nat) -> Option<nat>
    decreases s.len() - i,
{
    if i >= s.len() {
        None
    } else if s[i as int] == c {
        Some(i)
    } else {
        index_of_from(s, c, i + 1)
    }
}

/// The index of the first `c` in `s` at `i` or later.
pub fn find_char_from(s: &[char], c: char, i: usize) -> (r: Option<usize>)
    ensures
        match index_of_from(s@, c, i as nat) {
            Some(k) => r == Some(k as usize),
            None => r is None,
        },
    decreases s.len() - i,
{
    if i >= s.len() {
        None
    } else if s[i] == c {
        Some(i)
    } else {
        find_char_from(s, c, i + 1)
    }
}

/// What `str::split_once` with a character gives: the text before and after
/// the first occurrence, if there is one.
pub open spec fn spec_split_once(s: Seq<char>, c: char) -> Option<(Seq<char>, Seq<char>)> {
    match index_of_from(s, c, 0) {
        Some(k) => Some((s.take(k as int), s.skip((k + 1) as int))),
        None => None,
    }
}

proof fn lemma_index_of_bound(s: Seq<char>, c: char, i: nat)
    ensures
        index_of_from(s, c, i) matches Some(k) ==> i <= k < s.len() && s[k as int] == c,
    decreases s.len() - i,
{
    if i < s.len() && s[i as int] != c {
        lemma_index_of_bound(s, c, i + 1);
    }
}

/// Copies `s[start..end]`.
pub fn sub_chars(s: &[char], start: usize, end: usize) -> (r: Vec<char>)
    requires
        start <= end <= s@.len(),
    ensures
        r@ == s@.subrange(start as int, end as int),
{
    let mut out: Vec<char> = Vec::new();
    let mut i = start;
    while i < end
        invariant
            start <= i <= end <= s@.len(),
            out@ == s@.subrange(start as int, i as int),
        decreases end - i,
    {
        out.push(s[i]);
        i = i + 1;
        assert(s@.subrange(start as int, i as int) == s@.subrange(start as int, (i - 1) as int).push(
            s@[i - 1],
        ));
    }
    out
}

/// The text before and after the first `c` in `s`, if there is one.
pub fn split_once_chars(s: &[char], c: char) -> (r: Option<(Vec<char>, Vec<char>)>)
    ensures
        match spec_split_once(s@, c) {
            Some((a, b)) => r matches Some((x, y)) && x@ == a && y@ == b,
            None => r is None,
        },
{
    proof {
        lemma_index_of_bound(s@, c, 0);
    }
    match find_char_from(s, c, 0) {
        Some(k) => {
            let n = s.len();
            assert(k < n);
            let before = sub_chars(s, 0, k);
            let after = sub_chars(s, k + 1, s.len());
            assert(s@.take(k as int) == s@.subrange(0, k as int));
            assert(s@.skip((k + 1) as int) == s@.subrange(k + 1, s@.len() as int));
            Some((before, after))
        },
        None => None,
    }
}

/// Whether `needle` occurs in `hay` as a run of consecutive characters.
pub open spec fn spec_contains(hay: Seq<char>, needle: Seq<char>) -> bool {
    exists|i: int| 0 <= i && i + needle.len() <= hay.len() && #[trigger] hay.subrange(i, i + needle.len()) == needle
}

fn matches_at(hay: &[char], needle: &[char], i: usize) -> (r: bool)
    requires
        i + needle@.len() <= hay@.len(),
    ensures
        r == (hay@.subrange(i as int, i + needle@.len()) == needle@),
{
    let mut j: usize = 0;
    while j < needle.len()
        invariant
            i + needle@.len() <= hay@.len(),
            j <= needle@.len(),
            forall|k: int| 0 <= k < j ==> hay@[i + k] == needle@[k],
        decreases needle.len() - j,
    {
        let n = hay.len();
        assert(i + j < n);
        if hay[i + j] != needle[j] {
            assert(hay@.subrange(i as int, i + needle@.len())[j as int] != needle@[j as int]);
            return false;
        }
        j = j + 1;
    }
    assert(hay@.subrange(i as int, i + needle@.len()) =~= needle@);
    true
}

/// Whether `needle` occurs in `hay`.
pub fn contains_chars(hay: &[char], needle: &[char]) -> (r: bool)
    ensures
        r == spec_contains(hay@, needle@),
{
    if needle.len() > hay.len() {
        return false;
    }
    let last = hay.len() - needle.len();
    let mut i: usize = 0;
    while i <= last
        invariant
            last + needle@.len() == hay@.len(),
            i <= last + 1,
            forall|k: int| 0 <= k < i ==> #[trigger] hay@.subrange(k, k + needle@.len()) != needle@,
        decreases last + 1 - i,
    {
        if matches_at(hay, needle, i) {
            return true;
        }
        if i == last {
            return false;
        }
        i = i + 1;
    }
    false
}

/// The value of a run of decimal digits.
pub open spec fn digits_value(s: Seq<char>) -> nat
    decreases s.len(),
{
    if s.len() == 0 {
        0
    } else {
        digits_value(s.drop_last()) * 10 + ((s.last() as u32) - 48) as nat
    }
}

/// Whether every character of `s` is an ASCII digit.
pub open spec fn all_ascii_digits(s: Seq<char>) -> bool {
    forall|i: int| 0 <= i < s.len() ==> '0' <= #[trigger] s[i] <= '9'
}

/// What `str::parse::<u32>` gives: an optional `+` sign, then one or more
/// ASCII digits whose value fits in a `u32`.
pub open spec fn spec_parse_u32(s: Seq<char>) -> Option<u32> {
    let body = if s.len() > 0 && s[0] == '+' {
        s.drop_first()
    } else {
        s
    };
    if body.len() > 0 && all_ascii_digits(body) && digits_value(body) <= u32::MAX {
        Some(digits_value(body) as u32)
    } else {
        None
    }
}

proof fn lemma_digit_char_value(k: nat)
    requires
        k < 10,
    ensures
        '0' <= digit_char(k) <= '9',
        ((digit_char(k) as u32) - 48) as nat == k,
{
}

/// The decimal text of a number is a run of ASCII digits whose value is the
/// number.
pub proof fn lemma_decimal_digits(n: nat)
    ensures
        spec_decimal(n).len() > 0,
        all_ascii_digits(spec_decimal(n)),
        digits_value(spec_decimal(n)) == n,
    decreases n,
{
    lemma_digit_char_value(n % 10);
    if n < 10 {
        let d = spec_decimal(n);
        assert(d == seq![digit_char(n)]);
        assert(d.drop_last() =~= Seq::<char>::empty());
        assert(d.last() == digit_char(n));
        assert(digits_value(d) == digits_value(d.drop_last()) * 10 + ((d.last() as u32) - 48) as nat);
        assert(digits_value(d.drop_last()) == 0);
    } else {
        lemma_decimal_digits(n / 10);
        let p = spec_decimal(n / 10);
        let d = spec_decimal(n);
        assert(d == p.push(digit_char(n % 10)));
        assert(d.drop_last() == p);
        assert forall|i: int| 0 <= i < d.len() implies '0' <= #[trigger] d[i] <= '9' by {
            if i < p.len() {
                assert(d[i] == p[i]);
            }
        }
        assert(d.last() == digit_char(n % 10));
        assert(digits_value(d) == digits_value(p) * 10 + ((d.last() as u32) - 48) as nat);
        assert(n == (n / 10) * 10 + n % 10);
    }
}

/// `str::parse::<u32>` reads back the decimal text of a `u32`.
pub proof fn lemma_parse_decimal(n: u32)
    ensures
        spec_parse_u32(spec_decimal(n as nat)) == Some(n),
{
    lemma_decimal_digits(n as nat);
    let d = spec_decimal(n as nat);
    assert('0' <= d[0] <= '9');
}

/// A text without the separator is one piece.
pub proof fn lemma_split_no_sep(s: Seq<char>, sep: char)
    requires
        forall|i: int| 0 <= i < s.len() ==> #[trigger] s[i] != sep,
    ensures
        spec_split(s, sep) == seq![s],
    decreases s.len(),
{
    if s.len() > 0 {
        lemma_split_no_sep(s.drop_last(), sep);
        assert(s.drop_last().push(s.last()) =~= s);
        assert(seq![s.drop_last()].update(0, s.drop_last().push(s.last())) =~= seq![s]);
    } else {
        assert(s =~= Seq::<char>::empty());
    }
}

/// Splitting `a`, a separator and `b` gives the pieces of `a`, then those of
/// `b`.
pub proof fn lemma_split_concat(a: Seq<char>, b: Seq<char>, sep: char)
    ensures
        spec_split(a + seq![sep] + b, sep) == spec_split(a, sep) + spec_split(b, sep),
    decreases b.len(),
{
    let s = a + seq![sep] + b;
    lemma_split_nonempty(a, sep);
    if b.len() == 0 {
        assert(s.drop_last() =~= a);
        assert(spec_split(b, sep) =~= seq![Seq::<char>::empty()]);
        assert(spec_split(a, sep).push(Seq::<char>::empty()) =~= spec_split(a, sep) + seq![
            Seq::<char>::empty(),
        ]);
    } else {
        let b1 = b.drop_last();
        assert(s.drop_last() =~= a + seq![sep] + b1);
        assert(s.last() == b.last());
        lemma_split_concat(a, b1, sep);
        lemma_split_nonempty(b1, sep);
        let ra = spec_split(a, sep);
        let rb = spec_split(b1, sep);
        if b.last() == sep {
            assert((ra + rb).push(Seq::<char>::empty()) =~= ra + rb.push(Seq::<char>::empty()));
        } else {
            let r = ra + rb;
            assert(r.update(r.len() - 1, r.last().push(b.last())) =~= ra + rb.update(
                rb.len() - 1,
                rb.last().push(b.last()),
            ));
        }
    }
}

proof fn lemma_digits_value_grows(s: Seq<char>, i: int)
    requires
        0 <= i <= s.len(),
        all_ascii_digits(s),
    ensures
        digits_value(s.take(i)) <= digits_value(s),
    decreases s.len() - i,
{
    if i < s.len() {
        lemma_digits_value_grows(s, i + 1);
        assert(s.take(i + 1).drop_last() == s.take(i));
        assert('0' <= s[i] <= '9');
    } else {
        assert(s.take(i) == s);
    }
}

/// Parses `s` as `str::parse::<u32>` does.
pub fn parse_u32(s: &[char]) -> (r: Option<u32>)
    ensures
        r == spec_parse_u32(s@),
{
    let start: usize = if s.len() > 0 && s[0] == '+' {
        1
    } else {
        0
    };
    let ghost body = if s@.len() > 0 && s@[0] == '+' {
        s@.drop_first()
    } else {
        s@
    };
    assert(body == s@.skip(start as int));
    if start >= s.len() {
        return None;
    }
    let mut acc: u64 = 0;
    let mut i = start;
    while i < s.len()
        invariant
            start <= i <= s@.len(),
            body == s@.skip(start as int),
            body == (if s@.len() > 0 && s@[0] == '+' {
                s@.drop_first()
            } else {
                s@
            }),
            all_ascii_digits(body.take(i - start)),
            acc as nat == digits_value(body.take(i - start)),
            acc <= u32::MAX,
        decreases s.len() - i,
    {
        let c = s[i];
        if c < '0' || c > '9' {
            assert(body[i - start] == c);
            assert(!all_ascii_digits(body));
            return None;
        }
        let d = (c as u32 - 48) as u64;
        let ghost prev = body.take(i - start);
        assert(body.take(i + 1 - start).drop_last() == prev);
        assert(body.take(i + 1 - start).last() == c);
        acc = acc * 10 + d;
        i = i + 1;
        assert(all_ascii_digits(body.take(i - start)));
        assert(acc as nat == digits_value(body.take(i - start)));
        if acc > 0xFFFF_FFFF {
            proof {
                if all_ascii_digits(body) {
                    lemma_digits_value_grows(body, i - start);
                }
            }
            return None;
        }
    }
    assert(body.take(s@.len() - start) == body);
    Some(acc as u32)
}

/// `c` with ASCII upper-case letters made lower case.
pub open spec fn ascii_lower(c: char) -> char {
    if 'A' <= c <= 'Z' {
        ((c as u32) + 32) as char
    } else {
        c
    }
}

/// Whether every character of `s` is ASCII.
pub open spec fn is_ascii_text(s: Seq<char>) -> bool {
    forall|i: int| 0 <= i < s.len() ==> (#[trigger] s[i] as u32) < 128
}

/// `s` with its ASCII upper-case letters made lower case.
pub open spec fn ascii_lower_text(s: Seq<char>) -> Seq<char> {
    s.map_values(|c: char| ascii_lower(c))
}

/// The upper-to-lower case mapping of `s` that `str::to_lowercase` applies.
pub uninterp spec fn spec_to_lowercase(s: Seq<char>) -> Seq<char>;

/// Calls `str::to_lowercase`. The contract claims that the result is
/// determined by the characters of `s`, and that on ASCII text it is the ASCII
/// lower-casing (`A`-`Z` to `a`-`z`, all else kept): the Unicode lower-case
/// mapping std documents maps the ASCII letters so, as the documentation of
/// `str::to_ascii_lowercase` points out.
#[verifier::external_body]
pub(crate) fn to_lowercase(s: &str) -> (r: String)
    ensures
        r@ == spec_to_lowercase(s@),
        is_ascii_text(s@) ==> r@ == ascii_lower_text(s@),
{
    s.to_lowercase()
}

} // verus!
