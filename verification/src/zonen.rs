//! The bar layout text: three zones separated by `|`, widget keys separated by whitespace.

use vstd::prelude::*;
use crate::text::{
    concat, is_ws, join, lemma_find_at, lemma_word_len_run, split_whitespace, splitn, splitn_at_char,
    views, words,
};

verus! {

/// The whitespace-separated words of each of the three zones of a layout text; a zone
/// that the text does not reach is empty.
pub open spec fn zonen_woerter(konf: Seq<char>) -> (Seq<Seq<char>>, Seq<Seq<char>>, Seq<Seq<char>>) {
    let z = splitn(konf, '|', 3);
    (
        if z.len() > 0 { words(z[0]) } else { seq![] },
        if z.len() > 1 { words(z[1]) } else { seq![] },
        if z.len() > 2 { words(z[2]) } else { seq![] },
    )
}

/// The layout text of three zones of keys: `a b | c | d e`.
pub open spec fn zonen_text(l: Seq<Seq<char>>, m: Seq<Seq<char>>, r: Seq<Seq<char>>) -> Seq<char> {
    join(l, seq![' ']) + seq![' ', '|', ' '] + join(m, seq![' ']) + seq![' ', '|', ' '] + join(
        r,
        seq![' '],
    )
}

/// A key that can stand in a layout text: not empty, no whitespace, no `|`.
pub open spec fn schluessel_ok(k: Seq<char>) -> bool {
    k.len() > 0 && forall|i: int| 0 <= i < k.len() ==> !is_ws(#[trigger] k[i]) && k[i] != '|'
}

/// The words of each zone of a layout text.
pub fn zonen_woerter_lesen(konf: &Vec<char>) -> (r: (Vec<Vec<char>>, Vec<Vec<char>>, Vec<Vec<char>>))
    ensures
        (views(r.0@), views(r.1@), views(r.2@)) == zonen_woerter(konf@),
{
    let z = splitn_at_char(konf, '|', 3);
    let ghost zs = views(z@);
    let l = if z.len() > 0 {
        split_whitespace(&z[0])
    } else {
        Vec::new()
    };
    let m = if z.len() > 1 {
        split_whitespace(&z[1])
    } else {
        Vec::new()
    };
    let r = if z.len() > 2 {
        split_whitespace(&z[2])
    } else {
        Vec::new()
    };
    proof {
        if z.len() == 0 {
            assert(views(l@) =~= Seq::<Seq<char>>::empty());
        }
        if z.len() <= 1 {
            assert(views(m@) =~= Seq::<Seq<char>>::empty());
        }
        if z.len() <= 2 {
            assert(views(r@) =~= Seq::<Seq<char>>::empty());
        }
    }
    (l, m, r)
}

/// The layout text of three zones of keys.
pub fn zonen_text_bauen(l: &Vec<Vec<char>>, m: &Vec<Vec<char>>, r: &Vec<Vec<char>>) -> (s: Vec<char>)
    ensures
        s@ == zonen_text(views(l@), views(m@), views(r@)),
{
    let a = join_words(l);
    let b = join_words(m);
    let c = join_words(r);
    let mut trenner: Vec<char> = Vec::new();
    trenner.push(' ');
    trenner.push('|');
    trenner.push(' ');
    let s1 = concat(&a, &trenner);
    let s2 = concat(&s1, &b);
    let s3 = concat(&s2, &trenner);
    let s4 = concat(&s3, &c);
    assert(trenner@ =~= seq![' ', '|', ' ']);
    s4
}

/// The words joined with single spaces.
pub fn join_words(w: &Vec<Vec<char>>) -> (s: Vec<char>)
    ensures
        s@ == join(views(w@), seq![' ']),
{
    let mut s: Vec<char> = Vec::new();
    let mut i = w.len();
    // build from the back: s == join(views(w@).skip(i))
    if i == 0 {
        return s;
    }
    i = i - 1;
    s = concat(&w[i], &s);
    assert(s@ =~= w@[i as int]@);
    assert(views(w@).skip(i as int) =~= seq![w@[i as int]@]);
    while i > 0
        invariant
            i < w@.len(),
            s@ == join(views(w@).skip(i as int), seq![' ']),
        decreases i,
    {
        i = i - 1;
        let mut sp: Vec<char> = Vec::new();
        sp.push(' ');
        let t = concat(&sp, &s);
        s = concat(&w[i], &t);
        let ghost vs = views(w@).skip(i as int);
        assert(vs.drop_first() =~= views(w@).skip(i + 1));
        assert(vs[0] == w@[i as int]@);
        assert(s@ =~= vs[0] + seq![' '] + join(vs.drop_first(), seq![' ']));
    }
    assert(views(w@).skip(0) =~= views(w@));
    s
}

// ---------------------------------------------------------------- lemmas

proof fn lemma_words_space_first(t: Seq<char>)
    ensures
        words(seq![' '] + t) == words(t),
{
    assert((seq![' '] + t).drop_first() =~= t);
}

proof fn lemma_words_key_first(k: Seq<char>, t: Seq<char>)
    requires
        schluessel_ok(k),
        t.len() == 0 || is_ws(t[0]),
    ensures
        words(k + t) == seq![k] + words(t),
{
    let s = k + t;
    assert forall|i: int| 0 <= i < k.len() implies !is_ws(#[trigger] s[i]) by {
        assert(s[i] == k[i]);
    }
    lemma_word_len_run(s, k.len());
    assert(s.take(k.len() as int) =~= k);
    assert(s.skip(k.len() as int) =~= t);
}

proof fn lemma_words_empty()
    ensures
        words(seq![]) == Seq::<Seq<char>>::empty(),
        words(seq![' ']) == Seq::<Seq<char>>::empty(),
{
    lemma_words_space_first(seq![]);
    assert(seq![' '] + Seq::<char>::empty() =~= seq![' ']);
}

/// The words of keys joined with spaces, maybe with one more space, are the keys.
proof fn lemma_words_join(keys: Seq<Seq<char>>, tail: Seq<char>)
    requires
        forall|i: int| 0 <= i < keys.len() ==> schluessel_ok(#[trigger] keys[i]),
        tail == Seq::<char>::empty() || tail == seq![' '],
    ensures
        words(join(keys, seq![' ']) + tail) == keys,
    decreases keys.len(),
{
    lemma_words_empty();
    if keys.len() == 0 {
        assert(join(keys, seq![' ']) + tail =~= tail);
        assert(keys =~= Seq::<Seq<char>>::empty());
    } else if keys.len() == 1 {
        assert(join(keys, seq![' ']) + tail =~= keys[0] + tail);
        lemma_words_key_first(keys[0], tail);
        assert(seq![keys[0]] + Seq::<Seq<char>>::empty() =~= keys);
    } else {
        let rest = keys.drop_first();
        assert forall|i: int| 0 <= i < rest.len() implies schluessel_ok(#[trigger] rest[i]) by {
            assert(rest[i] == keys[i + 1]);
        }
        lemma_words_join(rest, tail);
        let t = seq![' '] + (join(rest, seq![' ']) + tail);
        assert(join(keys, seq![' ']) + tail =~= keys[0] + t);
        lemma_words_key_first(keys[0], t);
        lemma_words_space_first(join(rest, seq![' ']) + tail);
        assert(seq![keys[0]] + rest =~= keys);
    }
}

proof fn lemma_no_bar_join(keys: Seq<Seq<char>>, i: int)
    requires
        forall|j: int| 0 <= j < keys.len() ==> schluessel_ok(#[trigger] keys[j]),
        0 <= i < join(keys, seq![' ']).len(),
    ensures
        join(keys, seq![' '])[i] != '|',
    decreases keys.len(),
{
    if keys.len() == 1 {
        assert(schluessel_ok(keys[0]));
    } else if keys.len() > 1 {
        let rest = keys.drop_first();
        assert forall|j: int| 0 <= j < rest.len() implies schluessel_ok(#[trigger] rest[j]) by {
            assert(rest[j] == keys[j + 1]);
        }
        assert(schluessel_ok(keys[0]));
        let k0 = keys[0];
        if i >= k0.len() + 1 {
            lemma_no_bar_join(rest, i - k0.len() - 1);
        }
    }
}

/// Splitting a layout text gives back the words of each zone.
pub proof fn lemma_zonen_rund(l: Seq<Seq<char>>, m: Seq<Seq<char>>, r: Seq<Seq<char>>)
    requires
        forall|i: int| 0 <= i < l.len() ==> schluessel_ok(#[trigger] l[i]),
        forall|i: int| 0 <= i < m.len() ==> schluessel_ok(#[trigger] m[i]),
        forall|i: int| 0 <= i < r.len() ==> schluessel_ok(#[trigger] r[i]),
    ensures
        zonen_woerter(zonen_text(l, m, r)) == (l, m, r),
{
    let a = join(l, seq![' ']);
    let b = join(m, seq![' ']);
    let c = join(r, seq![' ']);
    let s = zonen_text(l, m, r);
    assert(s =~= a + seq![' ', '|', ' '] + b + seq![' ', '|', ' '] + c);
    // first bar
    assert forall|k: int| 0 <= k < a.len() + 1 implies #[trigger] s[k] != '|' by {
        if k < a.len() {
            lemma_no_bar_join(l, k);
        }
    }
    lemma_find_at(s, '|', (a.len() + 1) as nat);
    let s2 = s.skip(a.len() as int + 2);
    assert(s2 =~= seq![' '] + b + seq![' ', '|', ' '] + c);
    assert forall|k: int| 0 <= k < b.len() + 2 implies #[trigger] s2[k] != '|' by {
        if 1 <= k < b.len() + 1 {
            lemma_no_bar_join(m, k - 1);
        }
    }
    lemma_find_at(s2, '|', (b.len() + 2) as nat);
    let s3 = s2.skip(b.len() as int + 3);
    assert(s3 =~= seq![' '] + c);
    let z = splitn(s, '|', 3);
    assert(s.take(a.len() as int + 1) =~= a + seq![' ']);
    assert(s2.take(b.len() as int + 2) =~= seq![' '] + b + seq![' ']);
    assert(splitn(s3, '|', 1) == seq![s3]);
    assert(splitn(s2, '|', 2) == seq![s2.take(b.len() as int + 2)] + splitn(s3, '|', 1));
    assert(z == seq![s.take(a.len() as int + 1)] + splitn(s2, '|', 2));
    assert(z =~= seq![a + seq![' '], seq![' '] + b + seq![' '], s3]);
    lemma_words_join(l, seq![' ']);
    lemma_words_join(m, seq![' ']);
    lemma_words_join(r, seq![]);
    assert(seq![' '] + b + seq![' '] =~= seq![' '] + (b + seq![' ']));
    lemma_words_space_first(b + seq![' ']);
    assert(c + Seq::<char>::empty() =~= c);
    lemma_words_space_first(c);
}

} // verus!
