//! Character sequences: the conversions between `str` and `Vec<char>`, and the
//! whitespace, trimming and splitting rules that the parsers share.

use vstd::prelude::*;

verus! {

// ------------------------------------------------------------------ specs

/// The Unicode `White_Space` property, the set that `char::is_whitespace` tests.
pub open spec fn is_ws(c: char) -> bool {
    let u = c as u32;
    (0x9 <= u <= 0xd) || u == 0x20 || u == 0x85 || u == 0xa0 || u == 0x1680 || (0x2000 <= u
        <= 0x200a) || u == 0x2028 || u == 0x2029 || u == 0x202f || u == 0x205f || u == 0x3000
}

/// Length of the leading run of non-whitespace characters.
pub open spec fn word_len(s: Seq<char>) -> nat
    decreases s.len(),
{
    if s.len() == 0 || is_ws(s[0]) {
        0
    } else {
        1 + word_len(s.drop_first())
    }
}

/// The words of `s`: its maximal runs of non-whitespace characters, in order
/// (what `str::split_whitespace` yields).
pub open spec fn words(s: Seq<char>) -> Seq<Seq<char>>
    decreases s.len(),
{
    if s.len() == 0 {
        seq![]
    } else if is_ws(s[0]) {
        words(s.drop_first())
    } else {
        let n = word_len(s);
        proof {
            lemma_word_len_bound(s);
        }
        seq![s.take(n as int)] + words(s.skip(n as int))
    }
}

/// A word's length is within the text, and a text starting with a non-blank has a word.
pub proof fn lemma_word_len_bound(s: Seq<char>)
    ensures
        word_len(s) <= s.len(),
        s.len() > 0 && !is_ws(s[0]) ==> word_len(s) > 0,
    decreases s.len(),
{
    if s.len() > 0 && !is_ws(s[0]) {
        lemma_word_len_bound(s.drop_first());
    }
}

/// `s` without leading whitespace.
pub open spec fn trim_start(s: Seq<char>) -> Seq<char>
    decreases s.len(),
{
    if s.len() > 0 && is_ws(s[0]) {
        trim_start(s.drop_first())
    } else {
        s
    }
}

/// `s` without trailing whitespace.
pub open spec fn trim_end(s: Seq<char>) -> Seq<char>
    decreases s.len(),
{
    if s.len() > 0 && is_ws(s.last()) {
        trim_end(s.drop_last())
    } else {
        s
    }
}

/// `s` without leading and trailing whitespace.
pub open spec fn trim(s: Seq<char>) -> Seq<char> {
    trim_end(trim_start(s))
}

proof fn lemma_trim_start_rand(s: Seq<char>)
    ensures
        trim_start(s).len() == 0 || !is_ws(trim_start(s)[0]),
    decreases s.len(),
{
    if s.len() > 0 && is_ws(s[0]) {
        lemma_trim_start_rand(s.drop_first());
    }
}

proof fn lemma_trim_end_rand(s: Seq<char>)
    ensures
        trim_end(s).len() <= s.len(),
        trim_end(s) == s.take(trim_end(s).len() as int),
        trim_end(s).len() == 0 || !is_ws(trim_end(s).last()),
    decreases s.len(),
{
    if s.len() > 0 && is_ws(s.last()) {
        lemma_trim_end_rand(s.drop_last());
        let t = trim_end(s.drop_last());
        assert(s.drop_last().take(t.len() as int) =~= s.take(t.len() as int));
    } else {
        assert(s.take(s.len() as int) =~= s);
    }
}

/// Trimming twice trims no more than once.
pub proof fn lemma_trim_fest(s: Seq<char>)
    ensures
        trim(trim(s)) == trim(s),
{
    let a = trim_start(s);
    let u = trim_end(a);
    lemma_trim_start_rand(s);
    lemma_trim_end_rand(a);
    if u.len() > 0 {
        assert(u[0] == a[0]);
    }
    assert(trim_start(u) == u);
    assert(trim_end(u) == u);
}

/// Index of the first occurrence of `c` in `s`.
pub open spec fn find(s: Seq<char>, c: char) -> Option<nat>
    decreases s.len(),
{
    if s.len() == 0 {
        None
    } else if s[0] == c {
        Some(0)
    } else {
        match find(s.drop_first(), c) {
            Some(i) => Some(i + 1),
            None => None,
        }
    }
}

/// What `find` finds is the first occurrence; where it finds nothing, there is none.
pub proof fn lemma_find_bound(s: Seq<char>, c: char)
    ensures
        find(s, c) matches Some(i) ==> i < s.len() && s[i as int] == c && (forall|k: int|
            0 <= k < i ==> s[k] != c),
        find(s, c) is None ==> forall|k: int| 0 <= k < s.len() ==> s[k] != c,
    decreases s.len(),
{
    if s.len() > 0 {
        lemma_find_bound(s.drop_first(), c);
        if s[0] != c {
            assert forall|k: int| 1 <= k < s.len() implies s[k] == s.drop_first()[k - 1] by {}
        }
    }
}

/// The pieces of `s` between occurrences of `c` (what `str::split` yields).
pub open spec fn split(s: Seq<char>, c: char) -> Seq<Seq<char>>
    decreases s.len(),
{
    match find(s, c) {
        None => seq![s],
        Some(i) => {
            proof {
                lemma_find_bound(s, c);
            }
            seq![s.take(i as int)] + split(s.skip(i as int + 1), c)
        },
    }
}

/// At most `n` pieces of `s` split at `c`; the last piece holds the rest
/// (what `str::splitn` yields).
pub open spec fn splitn(s: Seq<char>, c: char, n: nat) -> Seq<Seq<char>>
    decreases s.len(), n,
{
    if n == 0 {
        seq![]
    } else if n == 1 {
        seq![s]
    } else {
        match find(s, c) {
            None => seq![s],
            Some(i) => {
                proof {
                    lemma_find_bound(s, c);
                }
                seq![s.take(i as int)] + splitn(s.skip(i as int + 1), c, (n - 1) as nat)
            },
        }
    }
}

/// `s` without one trailing carriage return.
pub open spec fn strip_cr(s: Seq<char>) -> Seq<char> {
    if s.len() > 0 && s.last() == '\r' {
        s.drop_last()
    } else {
        s
    }
}

/// The lines of `s` (what `str::lines` yields): pieces ended by `\n` (a `\r` before it is
/// dropped too), and a last piece without line end if one is left.
pub open spec fn lines(s: Seq<char>) -> Seq<Seq<char>>
    decreases s.len(),
{
    if s.len() == 0 {
        seq![]
    } else {
        match find(s, '\n') {
            None => seq![s],
            Some(i) => {
                proof {
                    lemma_find_bound(s, '\n');
                }
                seq![strip_cr(s.take(i as int))] + lines(s.skip(i as int + 1))
            },
        }
    }
}

/// The parts before and after the first `c` (what `str::split_once` yields).
pub open spec fn split_once(s: Seq<char>, c: char) -> Option<(Seq<char>, Seq<char>)> {
    match find(s, c) {
        None => None,
        Some(i) => Some((s.take(i as int), s.skip(i as int + 1))),
    }
}

/// `s` without the prefix `p`, if `s` starts with it.
pub open spec fn strip_prefix(s: Seq<char>, p: Seq<char>) -> Option<Seq<char>> {
    if p.len() <= s.len() && s.take(p.len() as int) == p {
        Some(s.skip(p.len() as int))
    } else {
        None
    }
}

/// Whether `p` occurs in `s` as a contiguous piece.
pub open spec fn has_infix(s: Seq<char>, p: Seq<char>) -> bool {
    exists|k: int| 0 <= k && k + p.len() <= s.len() && #[trigger] s.subrange(k, k + p.len()) == p
}

/// A piece of a piece of a text is a piece of the text.
pub proof fn lemma_infix_teil(s: Seq<char>, p: Seq<char>, i: int, j: int)
    requires
        has_infix(s, p),
        0 <= i <= j <= p.len(),
    ensures
        has_infix(s, p.subrange(i, j)),
{
    let k = choose|k: int| 0 <= k && k + p.len() <= s.len() && #[trigger] s.subrange(k, k + p.len()) == p;
    assert(s.subrange(k + i, k + i + (j - i)) =~= p.subrange(i, j));
}

/// The pieces joined with `sep` between them.
pub open spec fn join(parts: Seq<Seq<char>>, sep: Seq<char>) -> Seq<char>
    decreases parts.len(),
{
    if parts.len() == 0 {
        seq![]
    } else if parts.len() == 1 {
        parts[0]
    } else {
        parts[0] + sep + join(parts.drop_first(), sep)
    }
}

/// The character sequences held by a sequence of character vectors.
pub open spec fn views(v: Seq<Vec<char>>) -> Seq<Seq<char>> {
    v.map_values(|x: Vec<char>| x@)
}

/// The value of an ASCII decimal digit.
pub open spec fn digit_value(c: char) -> int {
    c as int - '0' as int
}

pub open spec fn is_digit(c: char) -> bool {
    '0' <= c <= '9'
}

/// The number that a string of decimal digits denotes.
pub open spec fn decimal_value(d: Seq<char>) -> nat
    decreases d.len(),
{
    if d.len() == 0 {
        0
    } else {
        (decimal_value(d.drop_last()) * 10 + digit_value(d.last())) as nat
    }
}

/// `s` without one leading `+`.
pub open spec fn sign_stripped(s: Seq<char>) -> Seq<char> {
    if s.len() > 0 && s[0] == '+' {
        s.drop_first()
    } else {
        s
    }
}

/// Whether every character of `d` is an ASCII decimal digit.
pub open spec fn all_digits(d: Seq<char>) -> bool {
    forall|i: int| 0 <= i < d.len() ==> is_digit(#[trigger] d[i])
}

/// What `str::parse` of an unsigned integer type with maximum `max` returns: an optional
/// `+`, then one or more decimal digits whose value is at most `max`.
pub open spec fn parse_unsigned(s: Seq<char>, max: nat) -> Option<nat> {
    let d = sign_stripped(s);
    if d.len() > 0 && all_digits(d) && decimal_value(d) <= max {
        Some(decimal_value(d))
    } else {
        None
    }
}

/// The ASCII decimal digit for `v < 10`.
pub open spec fn digit_char(v: nat) -> char {
    (v + '0' as nat) as char
}

/// The decimal notation of `n`, without leading zeros.
pub open spec fn decimal(n: nat) -> Seq<char>
    decreases n,
{
    if n < 10 {
        seq![digit_char(n)]
    } else {
        decimal(n / 10) + seq![digit_char(n % 10)]
    }
}

/// The decimal notation of `n`, filled with leading zeros to at least `width` characters.
pub open spec fn decimal_padded(n: nat, width: nat) -> Seq<char> {
    let d = decimal(n);
    if d.len() < width {
        Seq::new((width - d.len()) as nat, |i: int| '0') + d
    } else {
        d
    }
}

// ------------------------------------------------------------ conversions

/// The characters of `s`, in order.
pub fn chars_of(s: &str) -> (v: Vec<char>)
    ensures
        v@ == s@,
{
    let mut v: Vec<char> = Vec::new();
    for c in it: s.chars()
        invariant
            v@ == it.seq().take(it.index() as int),
    {
        v.push(c);
    }
    v
}

/// The string made of the characters of `v`; `String`'s `FromIterator<char>` from std.
#[verifier::external_body]
pub(crate) fn string_of(v: &Vec<char>) -> (s: String)
    ensures
        s@ == v@,
{
    v.iter().collect()
}

/// Whether two character sequences are equal.
pub fn same(a: &Vec<char>, b: &Vec<char>) -> (r: bool)
    ensures
        r == (a@ == b@),
{
    if a.len() != b.len() {
        return false;
    }
    let mut i: usize = 0;
    while i < a.len()
        invariant
            a@.len() == b@.len(),
            i <= a.len(),
            forall|k: int| 0 <= k < i ==> a@[k] == b@[k],
        decreases a.len() - i,
    {
        if a[i] != b[i] {
            return false;
        }
        i = i + 1;
    }
    assert(a@ =~= b@);
    true
}

/// Whether `a` has the characters of `b`.
pub fn same_str(a: &Vec<char>, b: &str) -> (r: bool)
    ensures
        r == (a@ == b@),
{
    let bv = chars_of(b);
    same(a, &bv)
}

/// The characters of `s` from `from` up to `to`.
pub fn slice(s: &Vec<char>, from: usize, to: usize) -> (r: Vec<char>)
    requires
        from <= to <= s@.len(),
    ensures
        r@ == s@.subrange(from as int, to as int),
{
    let mut r: Vec<char> = Vec::new();
    let mut i = from;
    while i < to
        invariant
            from <= i <= to <= s@.len(),
            r@ == s@.subrange(from as int, i as int),
        decreases to - i,
    {
        r.push(s[i]);
        i = i + 1;
        assert(r@ =~= s@.subrange(from as int, i as int));
    }
    r
}

/// `a` followed by `b`.
pub fn concat(a: &Vec<char>, b: &Vec<char>) -> (r: Vec<char>)
    ensures
        r@ == a@ + b@,
{
    let mut r = slice(a, 0, a.len());
    let mut i: usize = 0;
    while i < b.len()
        invariant
            i <= b@.len(),
            r@ == a@ + b@.subrange(0, i as int),
        decreases b.len() - i,
    {
        r.push(b[i]);
        i = i + 1;
        assert(r@ =~= a@ + b@.subrange(0, i as int));
    }
    assert(b@.subrange(0, b@.len() as int) =~= b@);
    assert(a@.subrange(0, a@.len() as int) =~= a@);
    r
}

// ------------------------------------------------------------- whitespace

/// `char::is_whitespace`: the Unicode `White_Space` property.
pub fn is_whitespace(c: char) -> (r: bool)
    ensures
        r == is_ws(c),
{
    let u = c as u32;
    (0x9 <= u && u <= 0xd) || u == 0x20 || u == 0x85 || u == 0xa0 || u == 0x1680 || (0x2000 <= u
        && u <= 0x200a) || u == 0x2028 || u == 0x2029 || u == 0x202f || u == 0x205f || u
        == 0x3000
}


// ----------------------------------------------------------------- lemmas

/// A run of `m` non-blanks followed by a blank (or the end) is a word of length `m`.
pub proof fn lemma_word_len_run(t: Seq<char>, m: nat)
    requires
        m <= t.len(),
        forall|k: int| 0 <= k < m ==> !is_ws(#[trigger] t[k]),
        m == t.len() || is_ws(t[m as int]),
    ensures
        word_len(t) == m,
    decreases m,
{
    if m > 0 {
        assert forall|k: int| 0 <= k < m - 1 implies !is_ws(#[trigger] t.drop_first()[k]) by {
            assert(t.drop_first()[k] == t[k + 1]);
        }
        lemma_word_len_run(t.drop_first(), (m - 1) as nat);
    }
}

/// The first `c` after `m` characters without one is found at `m`.
pub proof fn lemma_find_at(t: Seq<char>, c: char, m: nat)
    requires
        m <= t.len(),
        forall|k: int| 0 <= k < m ==> #[trigger] t[k] != c,
    ensures
        m < t.len() && t[m as int] == c ==> find(t, c) == Some(m),
        m == t.len() ==> find(t, c) is None,
    decreases m,
{
    if m > 0 {
        assert forall|k: int| 0 <= k < m - 1 implies #[trigger] t.drop_first()[k] != c by {
            assert(t.drop_first()[k] == t[k + 1]);
        }
        lemma_find_at(t.drop_first(), c, (m - 1) as nat);
    }
}

proof fn lemma_trim_start_at(s: Seq<char>, a: nat)
    requires
        a <= s.len(),
        forall|k: int| 0 <= k < a ==> is_ws(#[trigger] s[k]),
        a == s.len() || !is_ws(s[a as int]),
    ensures
        trim_start(s) == s.skip(a as int),
    decreases a,
{
    if a == 0 {
        assert(s.skip(0) =~= s);
    } else {
        assert forall|k: int| 0 <= k < a - 1 implies is_ws(#[trigger] s.drop_first()[k]) by {
            assert(s.drop_first()[k] == s[k + 1]);
        }
        lemma_trim_start_at(s.drop_first(), (a - 1) as nat);
        assert(s.drop_first().skip(a - 1) =~= s.skip(a as int));
    }
}

proof fn lemma_trim_end_at(s: Seq<char>, b: nat)
    requires
        b <= s.len(),
        forall|k: int| b <= k < s.len() ==> is_ws(#[trigger] s[k]),
        b == 0 || !is_ws(s[b - 1]),
    ensures
        trim_end(s) == s.take(b as int),
    decreases s.len() - b,
{
    if b == s.len() {
        assert(s.take(b as int) =~= s);
    } else {
        assert forall|k: int| b <= k < s.drop_last().len() implies is_ws(
            #[trigger] s.drop_last()[k],
        ) by {
            assert(s.drop_last()[k] == s[k]);
        }
        lemma_trim_end_at(s.drop_last(), b);
        assert(s.drop_last().take(b as int) =~= s.take(b as int));
    }
}

proof fn lemma_decimal_prefix_le(d: Seq<char>, k: nat)
    requires
        k <= d.len(),
        forall|i: int| 0 <= i < d.len() ==> is_digit(#[trigger] d[i]),
    ensures
        decimal_value(d.take(k as int)) <= decimal_value(d),
    decreases d.len() - k,
{
    if k < d.len() {
        lemma_decimal_prefix_le(d, k + 1);
        assert(d.take(k as int + 1).drop_last() =~= d.take(k as int));
        assert(is_digit(d[k as int]));
    } else {
        assert(d.take(k as int) =~= d);
    }
}

// ------------------------------------------------------------- splitting

/// The first index at or after `from` that holds `c`.
pub fn find_from(s: &Vec<char>, c: char, from: usize) -> (r: Option<usize>)
    requires
        from <= s@.len(),
    ensures
        match r {
            Some(j) => from <= j < s.len() && find(s@.skip(from as int), c) == Some((j - from) as nat),
            None => find(s@.skip(from as int), c) is None,
        },
{
    let mut j = from;
    while j < s.len()
        invariant
            from <= j <= s@.len(),
            forall|k: int| from <= k < j ==> s@[k] != c,
        decreases s.len() - j,
    {
        if s[j] == c {
            proof {
                let t = s@.skip(from as int);
                assert forall|k: int| 0 <= k < j - from implies #[trigger] t[k] != c by {
                    assert(t[k] == s@[k + from]);
                }
                lemma_find_at(t, c, (j - from) as nat);
            }
            return Some(j);
        }
        j = j + 1;
    }
    proof {
        let t = s@.skip(from as int);
        assert forall|k: int| 0 <= k < j - from implies #[trigger] t[k] != c by {
            assert(t[k] == s@[k + from]);
        }
        lemma_find_at(t, c, (j - from) as nat);
    }
    None
}

/// `str::split_whitespace`: the words of `s`.
pub fn split_whitespace(s: &Vec<char>) -> (r: Vec<Vec<char>>)
    ensures
        views(r@) == words(s@),
{
    let mut r: Vec<Vec<char>> = Vec::new();
    let mut i: usize = 0;
    assert(s@.skip(0) =~= s@);
    while i < s.len()
        invariant
            i <= s@.len(),
            views(r@) + words(s@.skip(i as int)) == words(s@),
        decreases s.len() - i,
    {
        let ghost t = s@.skip(i as int);
        if is_whitespace(s[i]) {
            assert(t.drop_first() =~= s@.skip(i + 1));
            i = i + 1;
        } else {
            let mut j = i;
            while j < s.len() && !is_whitespace(s[j])
                invariant
                    i <= j <= s@.len(),
                    forall|k: int| i <= k < j ==> !is_ws(#[trigger] s@[k]),
                decreases s.len() - j,
            {
                j = j + 1;
            }
            let w = slice(s, i, j);
            proof {
                assert forall|k: int| 0 <= k < j - i implies !is_ws(#[trigger] t[k]) by {
                    assert(t[k] == s@[k + i]);
                }
                lemma_word_len_run(t, (j - i) as nat);
                assert(t.take(j - i) =~= w@);
                assert(t.skip(j - i) =~= s@.skip(j as int));
            }
            let ghost before = views(r@);
            r.push(w);
            assert(views(r@) =~= before.push(w@));
            assert(before.push(w@) + words(s@.skip(j as int)) =~= before + (seq![w@] + words(
                s@.skip(j as int),
            )));
            i = j;
        }
    }
    assert(words(s@.skip(i as int)) =~= Seq::<Seq<char>>::empty());
    assert(views(r@) + Seq::<Seq<char>>::empty() =~= views(r@));
    r
}

/// `str::trim`: `s` without leading and trailing whitespace.
pub fn trim_chars(s: &Vec<char>) -> (r: Vec<char>)
    ensures
        r@ == trim(s@),
{
    let mut a: usize = 0;
    while a < s.len() && is_whitespace(s[a])
        invariant
            a <= s@.len(),
            forall|k: int| 0 <= k < a ==> is_ws(#[trigger] s@[k]),
        decreases s.len() - a,
    {
        a = a + 1;
    }
    proof {
        lemma_trim_start_at(s@, a as nat);
    }
    let mut b: usize = s.len();
    while b > a && is_whitespace(s[b - 1])
        invariant
            a <= b <= s@.len(),
            forall|k: int| b <= k < s@.len() ==> is_ws(#[trigger] s@[k]),
        decreases b,
    {
        b = b - 1;
    }
    proof {
        let t = s@.skip(a as int);
        assert forall|k: int| b - a <= k < t.len() implies is_ws(#[trigger] t[k]) by {
            assert(t[k] == s@[k + a]);
        }
        if b > a {
            assert(t[b - a - 1] == s@[b - 1]);
        }
        lemma_trim_end_at(t, (b - a) as nat);
        assert(t.take(b - a) =~= s@.subrange(a as int, b as int));
    }
    slice(s, a, b)
}

/// `s` without leading whitespace.
pub fn trim_start_chars(s: &Vec<char>) -> (r: Vec<char>)
    ensures
        r@ == trim_start(s@),
{
    let mut a: usize = 0;
    while a < s.len() && is_whitespace(s[a])
        invariant
            a <= s@.len(),
            forall|k: int| 0 <= k < a ==> is_ws(#[trigger] s@[k]),
        decreases s.len() - a,
    {
        a = a + 1;
    }
    proof {
        lemma_trim_start_at(s@, a as nat);
    }
    let r = slice(s, a, s.len());
    assert(r@ =~= s@.skip(a as int));
    r
}

/// `str::trim` on a string slice.
pub fn trim_str(s: &str) -> (r: Vec<char>)
    ensures
        r@ == trim(s@),
{
    let v = chars_of(s);
    trim_chars(&v)
}

/// `str::split`: the pieces of `s` between occurrences of `c`.
pub fn split_at_char(s: &Vec<char>, c: char) -> (r: Vec<Vec<char>>)
    ensures
        views(r@) == split(s@, c),
{
    let mut r: Vec<Vec<char>> = Vec::new();
    let mut i: usize = 0;
    assert(s@.skip(0) =~= s@);
    loop
        invariant
            i <= s@.len(),
            views(r@) + split(s@.skip(i as int), c) == split(s@, c),
        decreases s@.len() - i,
    {
        let ghost t = s@.skip(i as int);
        match find_from(s, c, i) {
            None => {
                let rest = slice(s, i, s.len());
                assert(rest@ =~= t);
                let ghost before = views(r@);
                r.push(rest);
                assert(views(r@) =~= before + seq![t]);
                return r;
            },
            Some(j) => {
                let piece = slice(s, i, j);
                assert(piece@ =~= t.take(j - i));
                assert(t.skip(j - i + 1) =~= s@.skip(j + 1));
                let ghost before = views(r@);
                r.push(piece);
                assert(views(r@) =~= before.push(piece@));
                assert(before.push(piece@) + split(s@.skip(j + 1), c) =~= before + (seq![piece@]
                    + split(s@.skip(j + 1), c)));
                i = j + 1;
            },
        }
    }
}

/// `str::splitn`: at most `n` pieces of `s` split at `c`, the last one holding the rest.
pub fn splitn_at_char(s: &Vec<char>, c: char, n: usize) -> (r: Vec<Vec<char>>)
    ensures
        views(r@) == splitn(s@, c, n as nat),
{
    let mut r: Vec<Vec<char>> = Vec::new();
    let mut i: usize = 0;
    let mut left = n;
    assert(s@.skip(0) =~= s@);
    while left > 0
        invariant
            i <= s@.len(),
            views(r@) + splitn(s@.skip(i as int), c, left as nat) == splitn(s@, c, n as nat),
        decreases left,
    {
        let ghost t = s@.skip(i as int);
        let found = if left == 1 {
            None
        } else {
            find_from(s, c, i)
        };
        match found {
            None => {
                let rest = slice(s, i, s.len());
                assert(rest@ =~= t);
                let ghost before = views(r@);
                r.push(rest);
                assert(views(r@) =~= before + seq![t]);
                return r;
            },
            Some(j) => {
                let piece = slice(s, i, j);
                assert(piece@ =~= t.take(j - i));
                assert(t.skip(j - i + 1) =~= s@.skip(j + 1));
                let ghost before = views(r@);
                r.push(piece);
                assert(views(r@) =~= before.push(piece@));
                assert(before.push(piece@) + splitn(s@.skip(j + 1), c, (left - 1) as nat)
                    =~= before + (seq![piece@] + splitn(s@.skip(j + 1), c, (left - 1) as nat)));
                i = j + 1;
                left = left - 1;
            },
        }
    }
    assert(views(r@) + Seq::<Seq<char>>::empty() =~= views(r@));
    r
}

/// `str::split_once`: the parts before and after the first `c`.
pub fn split_once_at(s: &Vec<char>, c: char) -> (r: Option<(Vec<char>, Vec<char>)>)
    ensures
        match r {
            Some((a, b)) => split_once(s@, c) == Some((a@, b@)),
            None => split_once(s@, c) is None,
        },
{
    assert(s@.skip(0) =~= s@);
    match find_from(s, c, 0) {
        None => None,
        Some(j) => {
            let a = slice(s, 0, j);
            let b = slice(s, j + 1, s.len());
            assert(a@ =~= s@.take(j as int));
            assert(b@ =~= s@.skip(j + 1));
            Some((a, b))
        },
    }
}

/// `str::strip_prefix`.
pub fn strip_prefix_chars(s: &Vec<char>, p: &Vec<char>) -> (r: Option<Vec<char>>)
    ensures
        match r {
            Some(t) => strip_prefix(s@, p@) == Some(t@),
            None => strip_prefix(s@, p@) is None,
        },
{
    if p.len() > s.len() {
        return None;
    }
    let head = slice(s, 0, p.len());
    if same(&head, p) {
        Some(slice(s, p.len(), s.len()))
    } else {
        None
    }
}

// ---------------------------------------------------------------- numbers

/// `str::parse::<u64>`.
pub fn parse_u64(s: &Vec<char>) -> (r: Option<u64>)
    ensures
        match parse_unsigned(s@, u64::MAX as nat) {
            Some(v) => r == Some(v as u64),
            None => r is None,
        },
{
    let start: usize = if s.len() > 0 && s[0] == '+' {
        1
    } else {
        0
    };
    let ghost d = s@.skip(start as int);
    assert(start == 1 ==> d =~= s@.drop_first());
    assert(start == 0 ==> d =~= s@);
    assert(d == sign_stripped(s@));
    if start == s.len() {
        return None;
    }
    let mut i = start;
    while i < s.len()
        invariant
            start <= i <= s@.len(),
            d == s@.skip(start as int),
            d == sign_stripped(s@),
            forall|k: int| 0 <= k < i - start ==> is_digit(#[trigger] d[k]),
        decreases s.len() - i,
    {
        if !('0' <= s[i] && s[i] <= '9') {
            assert(d[i - start] == s@[i as int]);
            assert(!is_digit(d[i - start]));
            return None;
        }
        i = i + 1;
    }
    let mut v: u64 = 0;
    let mut i = start;
    while i < s.len()
        invariant
            start <= i <= s@.len(),
            d == s@.skip(start as int),
            d == sign_stripped(s@),
            d.len() > 0,
            forall|k: int| 0 <= k < d.len() ==> is_digit(#[trigger] d[k]),
            v == decimal_value(d.take(i - start)),
        decreases s.len() - i,
    {
        assert(d[i - start] == s@[i as int]);
        assert(is_digit(d[i - start]));
        let dg = (s[i] as u32 - '0' as u32) as u64;
        assert(d.take(i - start + 1).drop_last() =~= d.take(i - start));
        assert(d[i - start] == s@[i as int]);
        if v > (u64::MAX - dg) / 10 {
            proof {
                lemma_decimal_prefix_le(d, (i - start + 1) as nat);
            }
            return None;
        }
        v = v * 10 + dg;
        i = i + 1;
    }
    assert(d.take(d.len() as int) =~= d);
    Some(v)
}

/// `str::parse::<u32>`.
pub fn parse_u32(s: &Vec<char>) -> (r: Option<u32>)
    ensures
        match parse_unsigned(s@, u32::MAX as nat) {
            Some(v) => r == Some(v as u32),
            None => r is None,
        },
{
    match parse_u64(s) {
        Some(v) => {
            if v <= u32::MAX as u64 {
                Some(v as u32)
            } else {
                None
            }
        },
        None => None,
    }
}

/// `str::parse::<u8>`.
pub fn parse_u8(s: &Vec<char>) -> (r: Option<u8>)
    ensures
        match parse_unsigned(s@, u8::MAX as nat) {
            Some(v) => r == Some(v as u8),
            None => r is None,
        },
{
    match parse_u64(s) {
        Some(v) => {
            if v <= u8::MAX as u64 {
                Some(v as u8)
            } else {
                None
            }
        },
        None => None,
    }
}

/// The decimal notation of `n`.
pub fn decimal_chars(n: u64) -> (r: Vec<char>)
    ensures
        r@ == decimal(n as nat),
    decreases n,
{
    let dg = ((n % 10) as u8 + 48u8) as char;
    if n < 10 {
        let mut r: Vec<char> = Vec::new();
        r.push(dg);
        assert(r@ =~= seq![digit_char(n as nat)]);
        r
    } else {
        let mut r = decimal_chars(n / 10);
        r.push(dg);
        assert(r@ =~= decimal((n / 10) as nat) + seq![digit_char((n % 10) as nat)]);
        r
    }
}

/// The decimal notation of `n` with leading zeros up to `width` characters
/// (`format!("{n:0width$}")`).
pub fn decimal_padded_chars(n: u64, width: usize) -> (r: Vec<char>)
    ensures
        r@ == decimal_padded(n as nat, width as nat),
{
    let d = decimal_chars(n);
    if d.len() < width {
        let mut r: Vec<char> = Vec::new();
        while r.len() < width - d.len()
            invariant
                d.len() < width,
                r@.len() <= width - d@.len(),
                forall|k: int| 0 <= k < r@.len() ==> r@[k] == '0',
            decreases width - d.len() - r.len(),
        {
            r.push('0');
        }
        let out = concat(&r, &d);
        assert(r@ =~= Seq::new((width - d@.len()) as nat, |i: int| '0'));
        out
    } else {
        d
    }
}

/// `str::lines`: the lines of `s`.
pub fn lines_of(s: &Vec<char>) -> (r: Vec<Vec<char>>)
    ensures
        views(r@) == lines(s@),
{
    let mut r: Vec<Vec<char>> = Vec::new();
    let mut i: usize = 0;
    assert(s@.skip(0) =~= s@);
    while i < s.len()
        invariant
            i <= s@.len(),
            views(r@) + lines(s@.skip(i as int)) == lines(s@),
        decreases s@.len() - i,
    {
        let ghost t = s@.skip(i as int);
        match find_from(s, '\n', i) {
            None => {
                let rest = slice(s, i, s.len());
                assert(rest@ =~= t);
                let ghost before = views(r@);
                r.push(rest);
                assert(views(r@) =~= before + seq![t]);
                assert(s@.skip(s@.len() as int) =~= Seq::<char>::empty());
                i = s.len();
            },
            Some(j) => {
                let end = if j > i && s[j - 1] == '\r' {
                    j - 1
                } else {
                    j
                };
                let piece = slice(s, i, end);
                assert(piece@ =~= strip_cr(t.take(j - i)));
                assert(t.skip(j - i + 1) =~= s@.skip(j + 1));
                let ghost before = views(r@);
                r.push(piece);
                assert(views(r@) =~= before.push(piece@));
                assert(before.push(piece@) + lines(s@.skip(j + 1)) =~= before + (seq![piece@] + lines(
                    s@.skip(j + 1),
                )));
                i = j + 1;
            },
        }
    }
    assert(lines(s@.skip(i as int)) =~= Seq::<Seq<char>>::empty());
    assert(views(r@) + Seq::<Seq<char>>::empty() =~= views(r@));
    r
}

/// Whether `c` occurs in `s`.
pub fn contains_char(s: &Vec<char>, c: char) -> (r: bool)
    ensures
        r == s@.contains(c),
{
    let mut i: usize = 0;
    while i < s.len()
        invariant
            i <= s@.len(),
            forall|k: int| 0 <= k < i ==> s@[k] != c,
        decreases s.len() - i,
    {
        if s[i] == c {
            return true;
        }
        i = i + 1;
    }
    false
}

/// Whether `p` occurs in `s` as a contiguous piece (`str::contains` with a `&str` pattern).
pub fn contains_seq(s: &Vec<char>, p: &Vec<char>) -> (r: bool)
    ensures
        r == has_infix(s@, p@),
{
    if p.len() > s.len() {
        return false;
    }
    let mut i: usize = 0;
    loop
        invariant
            p@.len() <= s@.len(),
            i <= s@.len() - p@.len(),
            forall|k: int| 0 <= k < i ==> #[trigger] s@.subrange(k, k + p@.len()) != p@,
        decreases s.len() - p.len() - i,
    {
        let piece = slice(s, i, i + p.len());
        if same(&piece, p) {
            return true;
        }
        if i == s.len() - p.len() {
            return false;
        }
        i = i + 1;
    }
}

// ------------------------------------------------------------ upper case

/// What `char::to_uppercase` yields for a character.
pub uninterp spec fn upper(c: char) -> Seq<char>;

/// `char::to_uppercase`, collected. Stated: the result depends on the character alone, and an
/// ASCII lowercase letter becomes its uppercase letter; other mappings are left unsaid.
#[verifier::external_body]
pub(crate) fn to_uppercase(c: char) -> (r: Vec<char>)
    ensures
        r@ == upper(c),
        'a' <= c <= 'z' ==> r@ == seq![((c as u32) - 32) as char],
{
    c.to_uppercase().collect()
}

/// The text with its first character in upper case.
pub open spec fn capitalized(s: Seq<char>) -> Seq<char> {
    if s.len() == 0 {
        s
    } else {
        upper(s[0]) + s.drop_first()
    }
}

/// The text with its first character in upper case.
pub fn capitalize(s: &Vec<char>) -> (r: Vec<char>)
    ensures
        r@ == capitalized(s@),
{
    if s.len() == 0 {
        return slice(s, 0, 0);
    }
    let first = to_uppercase(s[0]);
    let rest = slice(s, 1, s.len());
    assert(rest@ =~= s@.drop_first());
    concat(&first, &rest)
}

/// The pieces joined with `sep` between them.
pub fn join_with(parts: &Vec<Vec<char>>, sep: &Vec<char>) -> (s: Vec<char>)
    ensures
        s@ == join(views(parts@), sep@),
{
    let mut s: Vec<char> = Vec::new();
    let mut i = parts.len();
    if i == 0 {
        return s;
    }
    i = i - 1;
    s = concat(&parts[i], &s);
    assert(s@ =~= parts@[i as int]@);
    assert(views(parts@).skip(i as int) =~= seq![parts@[i as int]@]);
    while i > 0
        invariant
            i < parts@.len(),
            s@ == join(views(parts@).skip(i as int), sep@),
        decreases i,
    {
        i = i - 1;
        let t = concat(sep, &s);
        s = concat(&parts[i], &t);
        let ghost vs = views(parts@).skip(i as int);
        assert(vs.drop_first() =~= views(parts@).skip(i + 1));
        assert(vs[0] == parts@[i as int]@);
        assert(s@ =~= vs[0] + sep@ + join(vs.drop_first(), sep@));
    }
    assert(views(parts@).skip(0) =~= views(parts@));
    s
}

/// Splitting always gives at least one piece.
pub proof fn lemma_split_nonempty(s: Seq<char>, c: char)
    ensures
        split(s, c).len() >= 1,
    decreases s.len(),
{
    lemma_find_bound(s, c);
    if let Some(i) = find(s, c) {
        lemma_split_nonempty(s.skip(i as int + 1), c);
    }
}

/// Splitting into at most `n` pieces gives between one and `n` pieces.
pub proof fn lemma_splitn_nonempty(s: Seq<char>, c: char, n: nat)
    requires
        n >= 1,
    ensures
        1 <= splitn(s, c, n).len() <= n,
    decreases s.len(), n,
{
    lemma_find_bound(s, c);
    if n > 1 {
        if let Some(i) = find(s, c) {
            lemma_splitn_nonempty(s.skip(i as int + 1), c, (n - 1) as nat);
        }
    }
}

// ------------------------------------------------------------ order

/// Whether `a` comes before `b` in the lexicographic order of code points (the order of
/// `str`'s comparison: UTF-8 keeps the order of code points).
pub open spec fn lex_kleiner(a: Seq<char>, b: Seq<char>) -> bool
    decreases a.len(),
{
    if a.len() == 0 {
        b.len() > 0
    } else if b.len() == 0 {
        false
    } else if a[0] != b[0] {
        (a[0] as u32) < (b[0] as u32)
    } else {
        lex_kleiner(a.skip(1), b.skip(1))
    }
}

/// The code-point order of texts is a strict total order: never reflexive, transitive, and
/// any two different texts are ordered one way.
pub proof fn lemma_lex_ordnung(a: Seq<char>, b: Seq<char>, c: Seq<char>)
    ensures
        !lex_kleiner(a, a),
        lex_kleiner(a, b) && lex_kleiner(b, c) ==> lex_kleiner(a, c),
        a != b ==> lex_kleiner(a, b) || lex_kleiner(b, a),
    decreases a.len(),
{
    if a.len() > 0 {
        lemma_lex_ordnung(a.skip(1), b.skip(1), c.skip(1));
        lemma_lex_ordnung(a.skip(1), a.skip(1), a.skip(1));
        if b.len() > 0 && a[0] != b[0] {
            vstd::utf8::char_u32_cast(a[0], a[0] as u32);
            vstd::utf8::char_u32_cast(b[0], b[0] as u32);
        }
        if b.len() > 0 && a[0] == b[0] && a != b {
            assert(a.skip(1) != b.skip(1)) by {
                if a.skip(1) == b.skip(1) {
                    assert(a =~= seq![a[0]] + a.skip(1));
                    assert(b =~= seq![b[0]] + b.skip(1));
                }
            }
        }
    } else if b.len() == 0 && a != b {
        assert(a =~= b);
    }
}

pub fn lex_kleiner_exec(a: &Vec<char>, b: &Vec<char>) -> (r: bool)
    ensures
        r == lex_kleiner(a@, b@),
{
    let mut i: usize = 0;
    assert(a@.skip(0) =~= a@ && b@.skip(0) =~= b@);
    while i < a.len() && i < b.len() && a[i] == b[i]
        invariant
            i <= a@.len(),
            i <= b@.len(),
            lex_kleiner(a@.skip(i as int), b@.skip(i as int)) == lex_kleiner(a@, b@),
        decreases a.len() - i,
    {
        assert(a@.skip(i as int).skip(1) =~= a@.skip(i + 1));
        assert(b@.skip(i as int).skip(1) =~= b@.skip(i + 1));
        i = i + 1;
    }
    if i == a.len() {
        i < b.len()
    } else if i == b.len() {
        false
    } else {
        (a[i] as u32) < (b[i] as u32)
    }
}

/// Index of the last `c` in `s`.
pub open spec fn rfind(s: Seq<char>, c: char) -> Option<nat>
    decreases s.len(),
{
    if s.len() == 0 {
        None
    } else if s.last() == c {
        Some((s.len() - 1) as nat)
    } else {
        rfind(s.drop_last(), c)
    }
}

// ------------------------------------------------------------ lower case

/// What `str::to_lowercase` yields for a text.
pub uninterp spec fn klein(s: Seq<char>) -> Seq<char>;

/// `str::to_lowercase`. Stated: the result depends on the text alone; the Unicode case
/// mapping itself is left unsaid.
#[verifier::external_body]
pub(crate) fn zu_klein(s: &str) -> (r: String)
    ensures
        r@ == klein(s@),
{
    s.to_lowercase()
}

// ------------------------------------------------------------ lemmas on pieces

/// In `x`, `c`, `rest` with no `c` in `x`, the first `c` follows `x`, and the parts
/// around it are `x` and `rest`.
pub proof fn lemma_vor_zeichen(x: Seq<char>, c: char, rest: Seq<char>)
    requires
        !x.contains(c),
    ensures
        find(x + seq![c] + rest, c) == Some(x.len()),
        (x + seq![c] + rest).take(x.len() as int) == x,
        (x + seq![c] + rest).skip(x.len() + 1int) == rest,
{
    let s = x + seq![c] + rest;
    assert forall|k: int| 0 <= k < x.len() implies #[trigger] s[k] != c by {
        assert(s[k] == x[k]);
        if x[k] == c {
            assert(x.contains(c));
        }
    }
    lemma_find_at(s, c, x.len());
    assert(s.take(x.len() as int) =~= x);
    assert(s.skip(x.len() + 1int) =~= rest);
}

/// A text without `c` has no `c` to find and splits into itself.
pub proof fn lemma_ohne_zeichen(x: Seq<char>, c: char)
    requires
        !x.contains(c),
    ensures
        find(x, c) is None,
        split(x, c) == seq![x],
{
    assert forall|k: int| 0 <= k < x.len() implies #[trigger] x[k] != c by {
        if x[k] == c {
            assert(x.contains(c));
        }
    }
    lemma_find_at(x, c, x.len());
}

/// The lines of a text ending in a line break, followed by more, are its lines followed by
/// the lines of the rest.
pub proof fn lemma_lines_anhaengen(a: Seq<char>, b: Seq<char>)
    requires
        a.len() > 0,
        a.last() == '\n',
    ensures
        lines(a + b) == lines(a) + lines(b),
    decreases a.len(),
{
    lemma_find_bound(a, '\n');
    let i = find(a, '\n').unwrap() as int;
    let s = a + b;
    assert forall|k: int| 0 <= k < i implies #[trigger] s[k] != '\n' by {
        assert(s[k] == a[k]);
    }
    assert(s[i] == a[i]);
    lemma_find_at(s, '\n', i as nat);
    assert(s.take(i) =~= a.take(i));
    assert(s.len() > 0);
    assert(lines(s) == seq![strip_cr(s.take(i))] + lines(s.skip(i + 1)));
    assert(lines(a) == seq![strip_cr(a.take(i))] + lines(a.skip(i + 1)));
    if i == a.len() - 1 {
        assert(s.skip(i + 1) =~= b);
        assert(a.skip(i + 1) =~= Seq::<char>::empty());
        assert(lines(a.skip(i + 1)) == Seq::<Seq<char>>::empty());
        assert(lines(a) =~= seq![strip_cr(a.take(i))]);
        assert(lines(s) =~= lines(a) + lines(b));
    } else {
        let a2 = a.skip(i + 1);
        assert(a2.last() == a.last());
        lemma_lines_anhaengen(a2, b);
        assert(s.skip(i + 1) =~= a2 + b);
        assert(lines(s) =~= lines(a) + lines(b));
    }
}

/// Two texts without `c` joined have no `c` either.
pub proof fn lemma_ohne_in_summe(a: Seq<char>, b: Seq<char>, c: char)
    requires
        !a.contains(c),
        !b.contains(c),
    ensures
        !(a + b).contains(c),
{
    if (a + b).contains(c) {
        let k = choose|k: int| 0 <= k < (a + b).len() && (a + b)[k] == c;
        if k < a.len() {
            assert(a[k] == (a + b)[k]);
        } else {
            assert(b[k - a.len()] == (a + b)[k]);
        }
    }
}

/// The digit written for a value below ten is a digit of that value.
pub proof fn lemma_ziffer(v: nat)
    requires
        v < 10,
    ensures
        crate::text::digit_value(digit_char(v)) == v,
        is_digit(digit_char(v)),
{
    assert(digit_char(v) as int == v + 48);
}

/// A number's decimal text is made of digits and reads back as the number.
pub proof fn lemma_ziffern(n: nat)
    ensures
        decimal(n).len() > 0,
        forall|i: int| 0 <= i < decimal(n).len() ==> is_digit(#[trigger] decimal(n)[i]),
        decimal_value(decimal(n)) == n,
    decreases n,
{
    if n >= 10 {
        lemma_ziffern(n / 10);
        lemma_ziffer(n % 10);
        let d = decimal(n / 10) + seq![digit_char(n % 10)];
        assert(d.drop_last() =~= decimal(n / 10));
        assert(d.last() == digit_char(n % 10));
        assert(decimal_value(d) == decimal_value(decimal(n / 10)) * 10 + crate::text::digit_value(
            digit_char(n % 10),
        ));
        assert forall|i: int| 0 <= i < d.len() implies is_digit(#[trigger] d[i]) by {
            if i < d.len() - 1 {
                assert(d[i] == decimal(n / 10)[i]);
            }
        }
    } else {
        lemma_ziffer(n);
        assert(seq![digit_char(n)].drop_last() =~= Seq::<char>::empty());
        assert(decimal_value(Seq::<char>::empty()) == 0);
    }
}

/// A number's decimal text parses back to it (within the bound), and holds no blank or line
/// break.
pub proof fn lemma_zahl_rund(n: nat, max: nat)
    requires
        n <= max,
    ensures
        parse_unsigned(decimal(n), max) == Some(n),
        !decimal(n).contains('\t'),
        !decimal(n).contains('\n'),
        decimal(n).last() != '\r',
        !is_ws(decimal(n).last()),
{
    lemma_ziffern(n);
    let d = decimal(n);
    assert(is_digit(d[0]));
    assert(sign_stripped(d) == d);
    assert(is_digit(d[d.len() - 1]));
    if d.contains('\t') {
        let k = choose|k: int| 0 <= k < d.len() && d[k] == '\t';
        assert(is_digit(d[k]));
    }
    if d.contains('\n') {
        let k = choose|k: int| 0 <= k < d.len() && d[k] == '\n';
        assert(is_digit(d[k]));
    }
}

} // verus!
