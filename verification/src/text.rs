//! Character-level text handling shared by the parsers and formatters of
//! the library: whitespace, lines, words, prefixes, decimal numbers.
use vstd::prelude::*;

verus! {

/// Unicode `White_Space`, the set that `char::is_whitespace` tests.
pub open spec fn is_whitespace(c: char) -> bool {
    let u: u32 = c as u32;
    ||| 0x09 <= u <= 0x0D
    ||| u == 0x20
    ||| u == 0x85
    ||| u == 0xA0
    ||| u == 0x1680
    ||| 0x2000 <= u <= 0x200A
    ||| u == 0x2028
    ||| u == 0x2029
    ||| u == 0x202F
    ||| u == 0x205F
    ||| u == 0x3000
}

pub fn char_is_whitespace(c: char) -> (b: bool)
    ensures
        b == is_whitespace(c),
{
    let u: u32 = c as u32;
    (0x09 <= u && u <= 0x0D) || u == 0x20 || u == 0x85 || u == 0xA0 || u == 0x1680 || (0x2000
        <= u && u <= 0x200A) || u == 0x2028 || u == 0x2029 || u == 0x202F || u == 0x205F || u
        == 0x3000
}

/// The characters of a string, in order.
pub fn chars_of(s: &str) -> (v: Vec<char>)
    ensures
        v@ == s@,
{
    let n: usize = s.unicode_len();
    let mut v: Vec<char> = Vec::new();
    for i in 0..n
        invariant
            n == s@.len(),
            v@ == s@.take(i as int),
    {
        v.push(s.get_char(i));
        assert(v@ =~= s@.take(i + 1));
    }
    assert(v@ =~= s@);
    v
}

/// `String::push`: appends one character to the string.
#[verifier::external_body]
fn push_char(s: &mut String, c: char)
    ensures
        final(s)@ == old(s)@.push(c),
{
    s.push(c);
}

/// The string made of these characters.
pub fn string_from_chars(chars: &[char]) -> (s: String)
    ensures
        s@ == chars@,
{
    let mut s = String::new();
    for i in 0..chars.len()
        invariant
            s@ == chars@.take(i as int),
    {
        push_char(&mut s, chars[i]);
        assert(s@ =~= chars@.take(i + 1));
    }
    assert(chars@.take(chars@.len() as int) =~= chars@);
    s
}

/// The owned copy of a string.
pub fn to_string(s: &str) -> (r: String)
    ensures
        r@ == s@,
{
    s.to_owned()
}

// ---------------------------------------------------------------------
// Prefixes, suffixes and substrings.
pub open spec fn starts_with(s: Seq<char>, p: Seq<char>) -> bool {
    p.len() <= s.len() && s.take(p.len() as int) == p
}

pub open spec fn ends_with(s: Seq<char>, p: Seq<char>) -> bool {
    p.len() <= s.len() && s.skip(s.len() - p.len()) == p
}

pub open spec fn occurs_at(s: Seq<char>, p: Seq<char>, i: int) -> bool {
    0 <= i && i + p.len() <= s.len() && s.subrange(i, i + p.len()) == p
}

pub open spec fn contains(s: Seq<char>, p: Seq<char>) -> bool {
    exists|i: int| occurs_at(s, p, i)
}

pub fn chars_eq(a: &[char], b: &[char]) -> (r: bool)
    ensures
        r == (a@ == b@),
{
    if a.len() != b.len() {
        return false;
    }
    let n: usize = a.len();
    for i in 0..n
        invariant
            n == a@.len(),
            n == b@.len(),
            forall|j: int| 0 <= j < i ==> a@[j] == b@[j],
    {
        if a[i] != b[i] {
            return false;
        }
    }
    assert(a@ =~= b@);
    true
}

/// Whether `p` occurs in `s` at position `at`.
pub fn matches_at(s: &[char], p: &[char], at: usize) -> (r: bool)
    ensures
        r == occurs_at(s@, p@, at as int),
{
    if at > s.len() || p.len() > s.len() - at {
        return false;
    }
    let n: usize = p.len();
    for j in 0..n
        invariant
            n == p@.len(),
            at + n <= s.len(),
            forall|k: int| 0 <= k < j ==> s@[at + k] == p@[k],
    {
        if s[at + j] != p[j] {
            assert(s@.subrange(at as int, at + n)[j as int] != p@[j as int]);
            return false;
        }
    }
    assert(s@.subrange(at as int, at + n) =~= p@);
    true
}

pub fn has_prefix(s: &[char], p: &[char]) -> (r: bool)
    ensures
        r == starts_with(s@, p@),
{
    let r = matches_at(s, p, 0);
    assert(r ==> s@.take(p@.len() as int) =~= s@.subrange(0, p@.len() as int));
    assert(starts_with(s@, p@) ==> s@.take(p@.len() as int) =~= s@.subrange(0, p@.len() as int));
    r
}

pub fn has_suffix(s: &[char], p: &[char]) -> (r: bool)
    ensures
        r == ends_with(s@, p@),
{
    if p.len() > s.len() {
        return false;
    }
    let at: usize = s.len() - p.len();
    let r = matches_at(s, p, at);
    assert(s@.skip(at as int) =~= s@.subrange(at as int, s@.len() as int));
    r
}

pub fn has_substring(s: &[char], p: &[char]) -> (r: bool)
    ensures
        r == contains(s@, p@),
{
    if p.len() > s.len() {
        return false;
    }
    let last: usize = s.len() - p.len();
    for i in 0..last
        invariant
            last + p@.len() == s@.len(),
            forall|k: int| 0 <= k < i ==> !occurs_at(s@, p@, k),
    {
        if matches_at(s, p, i) {
            return true;
        }
    }
    if matches_at(s, p, last) {
        return true;
    }
    assert forall|k: int| !occurs_at(s@, p@, k) by {
        if 0 <= k && k < last {
        }
    }
    false
}

// ---------------------------------------------------------------------
// The first occurrence of a character, and `split_once` on it.
pub open spec fn is_first_index(s: Seq<char>, c: char, i: int) -> bool {
    0 <= i < s.len() && s[i] == c && forall|j: int| 0 <= j < i ==> s[j] != c
}

pub open spec fn first_index_of(s: Seq<char>, c: char) -> Option<int> {
    if exists|i: int| is_first_index(s, c, i) {
        Some(choose|i: int| is_first_index(s, c, i))
    } else {
        None
    }
}

pub proof fn lemma_first_index_unique(s: Seq<char>, c: char, i: int)
    requires
        is_first_index(s, c, i),
    ensures
        first_index_of(s, c) == Some(i),
{
    let k: int = choose|k: int| is_first_index(s, c, k);
    assert(is_first_index(s, c, k));
    if k < i {
        assert(s[k] != c);
    } else if i < k {
        assert(s[i] != c);
    }
}

/// `str::split_once` on a character: the parts before and after its first occurrence.
pub open spec fn split_once(s: Seq<char>, c: char) -> Option<(Seq<char>, Seq<char>)> {
    match first_index_of(s, c) {
        Some(i) => Some((s.take(i), s.skip(i + 1))),
        None => None,
    }
}

pub fn find_char(s: &[char], c: char) -> (r: Option<usize>)
    ensures
        match r {
            Some(i) => first_index_of(s@, c) == Some(i as int) && i < s.len() && s@[i as int]
                == c,
            None => first_index_of(s@, c) is None,
        },
{
    let n: usize = s.len();
    for i in 0..n
        invariant
            n == s@.len(),
            forall|j: int| 0 <= j < i ==> s@[j] != c,
    {
        if s[i] == c {
            proof {
                lemma_first_index_unique(s@, c, i as int);
            }
            return Some(i);
        }
    }
    assert(!exists|i: int| is_first_index(s@, c, i));
    None
}

/// A copy of `s[from..to]`.
pub fn slice_chars(s: &[char], from: usize, to: usize) -> (r: Vec<char>)
    requires
        from <= to <= s@.len(),
    ensures
        r@ == s@.subrange(from as int, to as int),
{
    let mut r: Vec<char> = Vec::new();
    for i in from..to
        invariant
            to <= s@.len(),
            r@ == s@.subrange(from as int, i as int),
    {
        r.push(s[i]);
        assert(r@ =~= s@.subrange(from as int, i + 1));
    }
    r
}

pub fn split_once_chars(s: &[char], c: char) -> (r: Option<(Vec<char>, Vec<char>)>)
    ensures
        match r {
            Some((a, b)) => split_once(s@, c) == Some((a@, b@)),
            None => split_once(s@, c) is None,
        },
{
    match find_char(s, c) {
        Some(i) => {
            let a = slice_chars(s, 0, i);
            let b = slice_chars(s, i + 1, s.len());
            assert(a@ =~= s@.take(i as int));
            assert(b@ =~= s@.skip(i + 1));
            Some((a, b))
        },
        None => None,
    }
}

// ---------------------------------------------------------------------
// Lines (`str::lines`) and words (`str::split_whitespace`).
/// A line without the one carriage return that may end it.
pub open spec fn strip_cr(line: Seq<char>) -> Seq<char> {
    if line.len() > 0 && line.last() == '\r' {
        line.drop_last()
    } else {
        line
    }
}

/// The lines of `s` that follow a partial line `cur`: a line ends at each
/// `'\n'` (a `'\r'` just before it is dropped), and a last piece without
/// `'\n'` is a line of its own when it is not empty.
pub open spec fn lines_from(s: Seq<char>, cur: Seq<char>) -> Seq<Seq<char>>
    decreases s.len(),
{
    if s.len() == 0 {
        if cur.len() > 0 {
            seq![cur]
        } else {
            seq![]
        }
    } else if s[0] == '\n' {
        seq![strip_cr(cur)] + lines_from(s.drop_first(), seq![])
    } else {
        lines_from(s.drop_first(), cur.push(s[0]))
    }
}

pub open spec fn lines(s: Seq<char>) -> Seq<Seq<char>> {
    lines_from(s, seq![])
}

/// The maximal runs of non-whitespace characters of `s` that follow a
/// partial word `cur`.
pub open spec fn words_from(s: Seq<char>, cur: Seq<char>) -> Seq<Seq<char>>
    decreases s.len(),
{
    if s.len() == 0 {
        if cur.len() > 0 {
            seq![cur]
        } else {
            seq![]
        }
    } else if is_whitespace(s[0]) {
        (if cur.len() > 0 {
            seq![cur]
        } else {
            seq![]
        }) + words_from(s.drop_first(), seq![])
    } else {
        words_from(s.drop_first(), cur.push(s[0]))
    }
}

pub open spec fn words(s: Seq<char>) -> Seq<Seq<char>> {
    words_from(s, seq![])
}

pub open spec fn views(v: Seq<Vec<char>>) -> Seq<Seq<char>> {
    v.map_values(|x: Vec<char>| x@)
}

pub fn strip_cr_chars(line: Vec<char>) -> (r: Vec<char>)
    ensures
        r@ == strip_cr(line@),
{
    let mut line = line;
    if line.len() > 0 && line[line.len() - 1] == '\r' {
        line.pop();
    }
    line
}

pub fn split_lines(s: &[char]) -> (r: Vec<Vec<char>>)
    ensures
        views(r@) == lines(s@),
{
    let mut out: Vec<Vec<char>> = Vec::new();
    let mut cur: Vec<char> = Vec::new();
    let n: usize = s.len();
    assert(s@.skip(0) =~= s@);
    assert(views(out@) =~= seq![]);
    for i in 0..n
        invariant
            n == s@.len(),
            views(out@) + lines_from(s@.skip(i as int), cur@) == lines(s@),
    {
        let ghost rest = s@.skip(i as int);
        assert(rest.drop_first() =~= s@.skip(i + 1));
        assert(rest[0] == s@[i as int]);
        if s[i] == '\n' {
            let done = strip_cr_chars(cur);
            let ghost before = out@;
            out.push(done);
            assert(views(out@) =~= views(before) + seq![done@]);
            cur = Vec::new();
            assert(cur@ =~= seq![]);
        } else {
            cur.push(s[i]);
        }
    }
    let ghost before = out@;
    assert(s@.skip(n as int) =~= seq![]);
    if cur.len() > 0 {
        out.push(cur);
        assert(views(out@) =~= views(before) + seq![cur@]);
    } else {
        assert(views(out@) =~= views(before) + seq![]);
    }
    out
}

pub fn split_whitespace(s: &[char]) -> (r: Vec<Vec<char>>)
    ensures
        views(r@) == words(s@),
{
    let mut out: Vec<Vec<char>> = Vec::new();
    let mut cur: Vec<char> = Vec::new();
    let n: usize = s.len();
    assert(s@.skip(0) =~= s@);
    assert(views(out@) =~= seq![]);
    for i in 0..n
        invariant
            n == s@.len(),
            views(out@) + words_from(s@.skip(i as int), cur@) == words(s@),
    {
        let ghost rest = s@.skip(i as int);
        assert(rest.drop_first() =~= s@.skip(i + 1));
        assert(rest[0] == s@[i as int]);
        if char_is_whitespace(s[i]) {
            let ghost before = out@;
            if cur.len() > 0 {
                out.push(cur);
                assert(views(out@) =~= views(before) + seq![cur@]);
            } else {
                assert(views(out@) =~= views(before) + seq![]);
            }
            cur = Vec::new();
            assert(cur@ =~= seq![]);
        } else {
            cur.push(s[i]);
        }
    }
    let ghost before = out@;
    assert(s@.skip(n as int) =~= seq![]);
    if cur.len() > 0 {
        out.push(cur);
        assert(views(out@) =~= views(before) + seq![cur@]);
    } else {
        assert(views(out@) =~= views(before) + seq![]);
    }
    out
}

// ---------------------------------------------------------------------
// Decimal numbers.
pub open spec fn is_digit(c: char) -> bool {
    48 <= (c as u32) <= 57
}

pub open spec fn digit_value(c: char) -> nat {
    ((c as u32) - 48) as nat
}

pub open spec fn digit_char(d: nat) -> char {
    (d + 48) as char
}

pub open spec fn all_digits(s: Seq<char>) -> bool {
    forall|i: int| 0 <= i < s.len() ==> is_digit(#[trigger] s[i])
}

/// The number that a run of decimal digits writes, most significant first.
pub open spec fn decimal_value(s: Seq<char>) -> nat
    decreases s.len(),
{
    if s.len() == 0 {
        0
    } else {
        decimal_value(s.drop_last()) * 10 + digit_value(s.last())
    }
}

/// `u32::from_str`: an optional `'+'`, then one or more ASCII digits whose
/// value fits in a `u32`.
pub open spec fn parse_u32(s: Seq<char>) -> Option<u32> {
    let d = if s.len() > 0 && s[0] == '+' {
        s.drop_first()
    } else {
        s
    };
    if d.len() > 0 && all_digits(d) && decimal_value(d) <= u32::MAX {
        Some(decimal_value(d) as u32)
    } else {
        None
    }
}

/// The shortest decimal writing of `n`.
pub open spec fn decimal(n: nat) -> Seq<char>
    decreases n,
{
    if n < 10 {
        seq![digit_char(n)]
    } else {
        decimal(n / 10).push(digit_char(n % 10))
    }
}

pub proof fn lemma_decimal_value_grows(s: Seq<char>, c: char)
    requires
        is_digit(c),
    ensures
        decimal_value(s.push(c)) == decimal_value(s) * 10 + digit_value(c),
        decimal_value(s.push(c)) >= decimal_value(s),
{
    assert(s.push(c).drop_last() =~= s);
}

pub fn parse_u32_chars(s: &[char]) -> (r: Option<u32>)
    ensures
        r == parse_u32(s@),
{
    let start: usize = if s.len() > 0 && s[0] == '+' {
        1
    } else {
        0
    };
    let ghost d = if s@.len() > 0 && s@[0] == '+' {
        s@.drop_first()
    } else {
        s@
    };
    assert(d =~= s@.skip(start as int));
    if start >= s.len() {
        return None;
    }
    let mut acc: u64 = 0;
    let mut big = false;
    let n: usize = s.len();
    for i in start..n
        invariant
            n == s@.len(),
            start <= n,
            d == s@.skip(start as int),
            d == (if s@.len() > 0 && s@[0] == '+' {
                s@.drop_first()
            } else {
                s@
            }),
            forall|k: int| start <= k < i ==> is_digit(#[trigger] s@[k]),
            big <==> decimal_value(s@.subrange(start as int, i as int)) > u32::MAX,
            !big ==> acc == decimal_value(s@.subrange(start as int, i as int)),
    {
        let c = s[i];
        let u: u32 = c as u32;
        if u < 48 || u > 57 {
            assert(d[i - start] == c);
            assert(!is_digit(d[i - start]));
            return None;
        }
        proof {
            assert(s@.subrange(start as int, i + 1) =~= s@.subrange(start as int, i as int).push(
                c,
            ));
            lemma_decimal_value_grows(s@.subrange(start as int, i as int), c);
        }
        if !big {
            acc = acc * 10 + (u - 48) as u64;
            if acc > 0xFFFF_FFFF {
                big = true;
            }
        }
    }
    assert(s@.subrange(start as int, n as int) =~= d);
    if big {
        None
    } else {
        Some(acc as u32)
    }
}

pub fn push_decimal(out: &mut Vec<char>, n: u32)
    ensures
        final(out)@ == old(out)@ + decimal(n as nat),
    decreases n,
{
    if n < 10 {
        out.push(((n as u8) + 48) as char);
        assert(final(out)@ =~= old(out)@ + decimal(n as nat));
    } else {
        push_decimal(out, n / 10);
        out.push((((n % 10) as u8) + 48) as char);
        assert(final(out)@ =~= old(out)@ + decimal(n as nat));
    }
}

pub proof fn lemma_decimal_digits(n: nat)
    ensures
        all_digits(decimal(n)),
        decimal_value(decimal(n)) == n,
        decimal(n).len() >= 1,
        n < 10 ==> decimal(n).len() == 1,
        10 <= n < 100 ==> decimal(n).len() == 2,
        100 <= n < 1000 ==> decimal(n).len() == 3,
        1000 <= n < 10000 ==> decimal(n).len() == 4,
    decreases n,
{
    assert(digit_char(n % 10) as u32 == n % 10 + 48);
    assert(digit_value(digit_char(n % 10)) == n % 10);
    if n < 10 {
        assert(decimal(n).drop_last() =~= seq![]);
        assert(decimal_value(seq![]) == 0);
        assert(decimal_value(decimal(n)) == decimal_value(decimal(n).drop_last()) * 10 + digit_value(decimal(n).last()));
    } else {
        lemma_decimal_digits(n / 10);
        lemma_decimal_value_grows(decimal(n / 10), digit_char(n % 10));
        assert(decimal(n).drop_last() =~= decimal(n / 10));
    }
}

/// Leading zeros do not change the value that digits write.
pub proof fn lemma_leading_zeros(k: nat, s: Seq<char>)
    ensures
        decimal_value(Seq::new(k, |i: int| '0') + s) == decimal_value(s),
    decreases s.len(),
{
    let z = Seq::new(k, |i: int| '0');
    if s.len() == 0 {
        assert(z + s =~= z);
        lemma_zeros_value(k);
    } else {
        lemma_leading_zeros(k, s.drop_last());
        assert((z + s).drop_last() =~= z + s.drop_last());
    }
}

pub proof fn lemma_zeros_value(k: nat)
    ensures
        decimal_value(Seq::new(k, |i: int| '0')) == 0,
    decreases k,
{
    if k > 0 {
        lemma_zeros_value((k - 1) as nat);
        assert(Seq::new(k, |i: int| '0').drop_last() =~= Seq::new((k - 1) as nat, |i: int| '0'));
    }
}

// ---------------------------------------------------------------------
// Searching sequences.
/// The first `Some` that `f` gives on the elements of `s`, in order.
pub open spec fn first_some<A, B>(s: Seq<A>, f: spec_fn(A) -> Option<B>) -> Option<B>
    decreases s.len(),
{
    if s.len() == 0 {
        None
    } else {
        match f(s[0]) {
            Some(b) => Some(b),
            None => first_some(s.drop_first(), f),
        }
    }
}

/// One step of a search: the element at `i` gives nothing, so the search
/// from `i` is the search from `i + 1`; or it gives something, which the
/// search from `i` returns.
pub proof fn lemma_first_some_step<A, B>(s: Seq<A>, f: spec_fn(A) -> Option<B>, i: int)
    requires
        0 <= i < s.len(),
    ensures
        f(s[i]) is None ==> first_some(s.skip(i), f) == first_some(s.skip(i + 1), f),
        f(s[i]) is Some ==> first_some(s.skip(i), f) == f(s[i]),
{
    assert(s.skip(i).drop_first() =~= s.skip(i + 1));
    assert(s.skip(i)[0] == s[i]);
}

pub proof fn lemma_first_some_end<A, B>(s: Seq<A>, f: spec_fn(A) -> Option<B>)
    ensures
        first_some(s.skip(s.len() as int), f) is None,
        first_some(s.skip(0), f) == first_some(s, f),
{
    assert(s.skip(s.len() as int) =~= Seq::<A>::empty());
    assert(s.skip(0) =~= s);
}

/// A search finds the first element on which `f` gives something.
pub proof fn lemma_first_some_at<A, B>(s: Seq<A>, f: spec_fn(A) -> Option<B>, i: int)
    requires
        0 <= i < s.len(),
        f(s[i]) is Some,
        forall|j: int| 0 <= j < i ==> f(#[trigger] s[j]) is None,
    ensures
        first_some(s, f) == f(s[i]),
    decreases i,
{
    if i > 0 {
        let t = s.drop_first();
        assert(f(s[0]) is None);
        assert forall|j: int| 0 <= j < i - 1 implies f(#[trigger] t[j]) is None by {
            assert(t[j] == s[j + 1]);
        }
        assert(t[i - 1] == s[i]);
        lemma_first_some_at(t, f, i - 1);
    }
}

/// What a search finds, `f` gives on some element before which it gives
/// nothing; a search that finds nothing met no element on which `f` gives
/// something.
pub proof fn lemma_first_some_found<A, B>(s: Seq<A>, f: spec_fn(A) -> Option<B>)
    ensures
        first_some(s, f) is Some ==> exists|i: int|
            0 <= i < s.len() && f(#[trigger] s[i]) == first_some(s, f) && forall|j: int|
                0 <= j < i ==> f(#[trigger] s[j]) is None,
        first_some(s, f) is None ==> forall|i: int| 0 <= i < s.len() ==> f(#[trigger] s[i]) is None,
    decreases s.len(),
{
    if s.len() > 0 {
        let t = s.drop_first();
        lemma_first_some_found(t, f);
        if f(s[0]) is Some {
            assert(f(s[0]) == first_some(s, f));
        } else {
            if first_some(t, f) is Some {
                let i = choose|i: int|
                    0 <= i < t.len() && f(#[trigger] t[i]) == first_some(t, f) && forall|j: int|
                        0 <= j < i ==> f(#[trigger] t[j]) is None;
                assert(s[i + 1] == t[i]);
                assert forall|j: int| 0 <= j < i + 1 implies f(#[trigger] s[j]) is None by {
                    if j > 0 {
                        assert(s[j] == t[j - 1]);
                    }
                }
            } else {
                assert forall|i: int| 0 <= i < s.len() implies f(#[trigger] s[i]) is None by {
                    if i > 0 {
                        assert(s[i] == t[i - 1]);
                    }
                }
            }
        }
    }
}

/// A run of digits followed by text that does not start with a digit is
/// read off unambiguously: equal texts with equal prefixes have equal
/// digit runs and equal rests.
pub proof fn lemma_digit_run(p: Seq<char>, d1: Seq<char>, r1: Seq<char>, d2: Seq<char>, r2: Seq<char>)
    requires
        all_digits(d1),
        all_digits(d2),
        r1.len() == 0 || !is_digit(r1[0]),
        r2.len() == 0 || !is_digit(r2[0]),
        p + d1 + r1 == p + d2 + r2,
    ensures
        d1 == d2,
        r1 == r2,
{
    let t = p + d1 + r1;
    if d1.len() < d2.len() {
        let i: int = (p.len() + d1.len()) as int;
        assert((p + d2 + r2)[i] == d2[d1.len() as int]);
        if r1.len() > 0 {
            assert(t[i] == r1[0]);
        }
        assert(false);
    } else if d2.len() < d1.len() {
        let i: int = (p.len() + d2.len()) as int;
        assert(t[i] == d1[d2.len() as int]);
        if r2.len() > 0 {
            assert((p + d2 + r2)[i] == r2[0]);
        }
        assert(false);
    }
    assert(d1 =~= t.subrange(p.len() as int, (p.len() + d1.len()) as int));
    assert(d2 =~= (p + d2 + r2).subrange(p.len() as int, (p.len() + d2.len()) as int));
    assert(r1 =~= t.skip((p.len() + d1.len()) as int));
    assert(r2 =~= (p + d2 + r2).skip((p.len() + d2.len()) as int));
}

/// Different numbers are written differently.
pub proof fn lemma_decimal_injective(a: nat, b: nat)
    requires
        decimal(a) == decimal(b),
    ensures
        a == b,
{
    lemma_decimal_digits(a);
    lemma_decimal_digits(b);
}

} // verus!
