//! Screenshots and screen recordings: where they are stored (the XDG user folders), how they
//! are named, which file is the newest, and the status file of a running recording.

use vstd::prelude::*;
use crate::text::{
    chars_of, concat, decimal, decimal_chars, lemma_lines_anhaengen, lemma_ohne_in_summe,
    lemma_vor_zeichen, lines, lines_of, same, slice, string_of, strip_cr, strip_prefix,
    strip_prefix_chars, trim, trim_chars, views,
};

verus! {

// ---------------------------------------------------------------- paths

/// A path with another appended (what `PathBuf::push` documents): an absolute path
/// replaces it; otherwise a separator goes between them where the first does not end in one.
pub open spec fn pfad_join(a: Seq<char>, b: Seq<char>) -> Seq<char> {
    if b.len() > 0 && b[0] == '/' {
        b
    } else if a.len() == 0 || a.last() == '/' {
        a + b
    } else {
        a + seq!['/'] + b
    }
}

/// A path with another appended.
pub fn pfad_join_exec(a: &str, b: &str) -> (r: String)
    ensures
        r@ == pfad_join(a@, b@),
{
    let av = chars_of(a);
    let bv = chars_of(b);
    if bv.len() > 0 && bv[0] == '/' {
        string_of(&bv)
    } else if av.len() == 0 || av[av.len() - 1] == '/' {
        string_of(&concat(&av, &bv))
    } else {
        let mut s: Vec<char> = Vec::new();
        s.push('/');
        assert(s@ =~= seq!['/']);
        string_of(&concat(&concat(&av, &s), &bv))
    }
}

/// `s` with every `p` replaced by `r`, left to right (what `str::replace` yields).
pub open spec fn ersetzt(s: Seq<char>, p: Seq<char>, r: Seq<char>) -> Seq<char>
    decreases s.len(),
{
    if s.len() == 0 || p.len() == 0 {
        s
    } else if p.len() <= s.len() && s.take(p.len() as int) == p {
        r + ersetzt(s.skip(p.len() as int), p, r)
    } else {
        seq![s[0]] + ersetzt(s.skip(1), p, r)
    }
}

pub(crate) fn ersetzt_exec(s: &Vec<char>, p: &Vec<char>, r: &Vec<char>) -> (out: Vec<char>)
    requires
        p@.len() > 0,
    ensures
        out@ == ersetzt(s@, p@, r@),
{
    let mut out: Vec<char> = Vec::new();
    let mut i: usize = 0;
    assert(s@.skip(0) =~= s@);
    while i < s.len()
        invariant
            i <= s@.len(),
            p@.len() > 0,
            out@ + ersetzt(s@.skip(i as int), p@, r@) == ersetzt(s@, p@, r@),
        decreases s.len() - i,
    {
        let ghost t = s@.skip(i as int);
        let passt = if p.len() <= s.len() - i {
            let st = slice(s, i, i + p.len());
            assert(st@ =~= t.take(p@.len() as int));
            same(&st, p)
        } else {
            false
        };
        if passt {
            assert(t.skip(p@.len() as int) =~= s@.skip(i + p@.len()));
            assert(out@ + r@ + ersetzt(s@.skip(i + p@.len()), p@, r@) =~= out@ + (r@ + ersetzt(
                t.skip(p@.len() as int),
                p@,
                r@,
            )));
            out = concat(&out, r);
            i = i + p.len();
        } else {
            proof {
                if p@.len() <= t.len() {
                    assert(s@.subrange(i as int, i + p@.len()) =~= t.take(p@.len() as int));
                }
            }
            assert(t.skip(1) =~= s@.skip(i + 1));
            assert(out@.push(s@[i as int]) + ersetzt(s@.skip(i + 1), p@, r@) =~= out@ + (seq![t[0]]
                + ersetzt(t.skip(1), p@, r@)));
            out.push(s[i]);
            i = i + 1;
        }
    }
    assert(ersetzt(s@.skip(i as int), p@, r@) == s@.skip(i as int));
    assert(out@ =~= out@ + s@.skip(i as int));
    out
}

/// `s` without trailing double quotes.
pub open spec fn ohne_anfuehrung_hinten(s: Seq<char>) -> Seq<char>
    decreases s.len(),
{
    if s.len() > 0 && s.last() == '"' {
        ohne_anfuehrung_hinten(s.drop_last())
    } else {
        s
    }
}

/// The value of the first line `XDG_<key>_DIR="…"` (trimmed) of `user-dirs.dirs`.
pub open spec fn xdg_wert(ls: Seq<Seq<char>>, praefix: Seq<char>) -> Option<Seq<char>>
    decreases ls.len(),
{
    if ls.len() == 0 {
        None
    } else {
        match xdg_wert(ls.drop_last(), praefix) {
            Some(w) => Some(w),
            None => strip_prefix(trim(ls.last()), praefix),
        }
    }
}

/// A user folder from `user-dirs.dirs` (`$HOME` standing for the home folder), else the
/// fallback name inside the home folder.
pub open spec fn xdg_ordner_spec(konf: Option<Seq<char>>, home: Seq<char>, key: Seq<char>, fallback: Seq<char>) -> Seq<char> {
    let praefix = "XDG_"@ + key + "_DIR=\""@;
    match konf {
        Some(t) => match xdg_wert(lines(t), praefix) {
            Some(rest) => ersetzt(ohne_anfuehrung_hinten(rest), "$HOME"@, home),
            None => pfad_join(home, fallback),
        },
        None => pfad_join(home, fallback),
    }
}

proof fn lemma_xdg_rest(ls: Seq<Seq<char>>, p: Seq<char>, i: int)
    requires
        0 <= i < ls.len(),
        xdg_wert(ls.take(i + 1), p) is Some,
    ensures
        xdg_wert(ls, p) == xdg_wert(ls.take(i + 1), p),
    decreases ls.len() - i,
{
    if i + 1 < ls.len() {
        assert(ls.take(i + 2).drop_last() =~= ls.take(i + 1));
        lemma_xdg_rest(ls, p, i + 1);
    } else {
        assert(ls.take(i + 1) =~= ls);
    }
}

/// A user folder (`PICTURES`, `VIDEOS`, …) from the text of `user-dirs.dirs`, if it could be
/// read.
pub fn xdg_ordner(konf: Option<&str>, home: &str, key: &str, fallback: &str) -> (r: String)
    ensures
        r@ == xdg_ordner_spec(
            match konf {
                Some(t) => Some(t@),
                None => None,
            },
            home@,
            key@,
            fallback@,
        ),
{
    if let Some(t) = konf {
        let praefix = concat(&concat(&chars_of("XDG_"), &chars_of(key)), &chars_of("_DIR=\""));
        let ls = lines_of(&chars_of(t));
        let mut i: usize = 0;
        assert(views(ls@).take(0) =~= Seq::<Seq<char>>::empty());
        while i < ls.len()
            invariant
                i <= ls@.len(),
                konf == Some(t),
                views(ls@) == lines(t@),
                praefix@ == "XDG_"@ + key@ + "_DIR=\""@,
                xdg_wert(views(ls@).take(i as int), praefix@) is None,
            decreases ls.len() - i,
        {
            assert(views(ls@).take(i + 1).drop_last() =~= views(ls@).take(i as int));
            assert(views(ls@).take(i + 1).last() == ls@[i as int]@);
            if let Some(rest) = strip_prefix_chars(&trim_chars(&ls[i]), &praefix) {
                proof {
                    lemma_xdg_rest(views(ls@), praefix@, i as int);
                }
                let mut e = rest.len();
                assert(rest@.take(e as int) =~= rest@);
                while e > 0 && rest[e - 1] == '"'
                    invariant
                        e <= rest@.len(),
                        ohne_anfuehrung_hinten(rest@.take(e as int)) == ohne_anfuehrung_hinten(
                            rest@,
                        ),
                    decreases e,
                {
                    assert(rest@.take(e as int).drop_last() =~= rest@.take(e - 1));
                    e = e - 1;
                }
                let wert = slice(&rest, 0, e);
                assert(wert@ =~= rest@.take(e as int));
                let h = chars_of("$HOME");
                proof {
                    reveal_strlit("$HOME");
                }
                return string_of(&ersetzt_exec(&wert, &h, &chars_of(home)));
            }
            i = i + 1;
        }
        assert(views(ls@).take(ls@.len() as int) =~= views(ls@));
    }
    pfad_join_exec(home, fallback)
}

/// The folder of screenshots: `Bildschirmfotos` in the pictures folder.
pub fn schirm_ordner(konf: Option<&str>, home: &str) -> (r: String)
    ensures
        r@ == pfad_join(
            xdg_ordner_spec(
                match konf {
                    Some(t) => Some(t@),
                    None => None,
                },
                home@,
                "PICTURES"@,
                "Bilder"@,
            ),
            "Bildschirmfotos"@,
        ),
{
    let o = xdg_ordner(konf, home, "PICTURES", "Bilder");
    pfad_join_exec(o.as_str(), "Bildschirmfotos")
}

/// The folder of screen recordings: `Bildschirmaufnahmen` in the videos folder.
pub fn film_ordner(konf: Option<&str>, home: &str) -> (r: String)
    ensures
        r@ == pfad_join(
            xdg_ordner_spec(
                match konf {
                    Some(t) => Some(t@),
                    None => None,
                },
                home@,
                "VIDEOS"@,
                "Videos"@,
            ),
            "Bildschirmaufnahmen"@,
        ),
{
    let o = xdg_ordner(konf, home, "VIDEOS", "Videos");
    pfad_join_exec(o.as_str(), "Bildschirmaufnahmen")
}

/// The name of a capture: `Bildschirmfoto 2026-07-17 um 00.31.12.png`.
pub fn zeitstempel_name(prefix: &str, zeit: &str, endung: &str) -> (r: String)
    ensures
        r@ == prefix@ + seq![' '] + zeit@ + seq!['.'] + endung@,
{
    let mut sp: Vec<char> = Vec::new();
    sp.push(' ');
    let mut pk: Vec<char> = Vec::new();
    pk.push('.');
    assert(sp@ =~= seq![' '] && pk@ =~= seq!['.']);
    string_of(
        &concat(&concat(&concat(&concat(&chars_of(prefix), &sp), &chars_of(zeit)), &pk), &chars_of(endung)),
    )
}

/// The file a capture made: the one changed last, the later listed of equal times.
pub open spec fn neueste_spec(d: Seq<(Seq<char>, i128)>) -> Option<nat>
    decreases d.len(),
{
    if d.len() == 0 {
        None
    } else {
        match neueste_spec(d.drop_last()) {
            Some(i) => if d.last().1 >= d[i as int].1 {
                Some((d.len() - 1) as nat)
            } else {
                Some(i)
            },
            None => Some((d.len() - 1) as nat),
        }
    }
}

proof fn lemma_neueste(d: Seq<(Seq<char>, i128)>)
    ensures
        neueste_spec(d) matches Some(i) ==> i < d.len() && forall|k: int| 0 <= k < d.len() ==> (
        #[trigger] d[k]).1 <= d[i as int].1,
        d.len() > 0 ==> neueste_spec(d) is Some,
    decreases d.len(),
{
    if d.len() > 0 {
        let u = d.drop_last();
        lemma_neueste(u);
        assert forall|k: int| 0 <= k < u.len() implies u[k] == d[k] by {}
    }
}

/// The newest of the listed files (path, time of change in nanoseconds).
pub fn neueste(dateien: &Vec<(String, i128)>) -> (r: Option<String>)
    ensures
        match neueste_spec(dateien@.map_values(|p: (String, i128)| (p.0@, p.1))) {
            Some(i) => r matches Some(p) && p@ == dateien@[i as int].0@,
            None => r is None,
        },
{
    let ghost d = dateien@.map_values(|p: (String, i128)| (p.0@, p.1));
    let mut best: Option<usize> = None;
    let mut i: usize = 0;
    assert(d.take(0) =~= Seq::<(Seq<char>, i128)>::empty());
    while i < dateien.len()
        invariant
            i <= dateien@.len(),
            d == dateien@.map_values(|p: (String, i128)| (p.0@, p.1)),
            match neueste_spec(d.take(i as int)) {
                Some(k) => best == Some(k as usize) && k < i,
                None => best is None,
            },
        decreases dateien.len() - i,
    {
        assert(d.take(i + 1).drop_last() =~= d.take(i as int));
        assert(d.take(i + 1).last() == d[i as int]);
        match best {
            Some(b) => {
                assert(d.take(i + 1)[b as int] == d[b as int]);
                if dateien[i].1 >= dateien[b].1 {
                    best = Some(i);
                }
            },
            None => {
                best = Some(i);
            },
        }
        i = i + 1;
    }
    assert(d.take(dateien@.len() as int) =~= d);
    match best {
        Some(b) => Some(dateien[b].0.clone()),
        None => None,
    }
}

// --------------------------------------------------------- recording status

/// The status file of a running recording: the recorder's process id, the target file and
/// the start time, one per line.
pub open spec fn status_spec(pid: u32, pfad: Seq<char>, start: Seq<char>) -> Seq<char> {
    decimal(pid as nat) + seq!['\n'] + pfad + seq!['\n'] + start + seq!['\n']
}

/// The status file of a running recording.
pub fn status_text(pid: u32, pfad: &str, start: &str) -> (r: String)
    ensures
        r@ == status_spec(pid, pfad@, start@),
{
    let mut nl: Vec<char> = Vec::new();
    nl.push('\n');
    assert(nl@ =~= seq!['\n']);
    let t = concat(&concat(&decimal_chars(pid as u64), &nl), &chars_of(pfad));
    let t = concat(&concat(&concat(&t, &nl), &chars_of(start)), &nl);
    string_of(&t)
}

/// Process id and target file from a status file: its first two lines (empty where missing).
pub open spec fn status_lesen_spec(inhalt: Seq<char>) -> (Seq<char>, Seq<char>) {
    let ls = lines(inhalt);
    (
        if ls.len() > 0 {
            ls[0]
        } else {
            Seq::empty()
        },
        if ls.len() > 1 {
            ls[1]
        } else {
            Seq::empty()
        },
    )
}

/// Process id and target file from a status file.
pub fn status_lesen(inhalt: &str) -> (r: (String, String))
    ensures
        (r.0@, r.1@) == status_lesen_spec(inhalt@),
{
    let ls = lines_of(&chars_of(inhalt));
    let pid = if ls.len() > 0 {
        assert(views(ls@)[0] == ls@[0]@);
        string_of(&ls[0])
    } else {
        String::new()
    };
    let pfad = if ls.len() > 1 {
        assert(views(ls@)[1] == ls@[1]@);
        string_of(&ls[1])
    } else {
        String::new()
    };
    (pid, pfad)
}

proof fn lemma_zeile_ohne_umbruch(x: Seq<char>, rest: Seq<char>)
    requires
        !x.contains('\n'),
        x.len() == 0 || x.last() != '\r',
    ensures
        lines(x + seq!['\n'] + rest) == seq![x] + lines(rest),
{
    lemma_vor_zeichen(x, '\n', rest);
    let s = x + seq!['\n'] + rest;
    assert(s.len() > 0);
    assert(strip_cr(s.take(x.len() as int)) == x);
}

proof fn lemma_ziffern_ohne_umbruch(n: nat)
    ensures
        !decimal(n).contains('\n'),
        decimal(n).len() > 0,
        decimal(n).last() != '\r',
{
    crate::text::lemma_ziffern(n);
    let d = decimal(n);
    if d.contains('\n') {
        let k = choose|k: int| 0 <= k < d.len() && d[k] == '\n';
        assert(crate::text::is_digit(d[k]));
    }
    assert(crate::text::is_digit(d[d.len() - 1]));
}

/// The status file reads back: the process id and target file written are read again, and
/// the bar reads the start time written (where the file name and start have no line break
/// and do not end in a carriage return, and the start is a decimal number).
pub proof fn lemma_status_rundreise(pid: u32, pfad: Seq<char>, start: nat)
    requires
        !pfad.contains('\n'),
        pfad.len() == 0 || pfad.last() != '\r',
        start <= u64::MAX,
    ensures
        status_lesen_spec(status_spec(pid, pfad, decimal(start))) == (decimal(pid as nat), pfad),
        crate::bar::film_start_spec(status_spec(pid, pfad, decimal(start))) == Some(start as u64),
{
    lemma_ziffern_ohne_umbruch(pid as nat);
    lemma_ziffern_ohne_umbruch(start);
    let d = decimal(pid as nat);
    let z = decimal(start);
    let rest2 = z + seq!['\n'];
    let rest1 = pfad + seq!['\n'] + rest2;
    let s = status_spec(pid, pfad, z);
    assert(s =~= d + seq!['\n'] + rest1);
    lemma_zeile_ohne_umbruch(d, rest1);
    lemma_zeile_ohne_umbruch(pfad, rest2);
    assert(rest2 =~= z + seq!['\n'] + Seq::<char>::empty());
    lemma_zeile_ohne_umbruch(z, Seq::<char>::empty());
    assert(lines(Seq::<char>::empty()) == Seq::<Seq<char>>::empty());
    assert(lines(s) =~= seq![d, pfad, z]);
    crate::text::lemma_zahl_rund(start, u64::MAX as nat);
}

} // verus!
