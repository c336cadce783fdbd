//! The context menus: what the canvas menu's entries start, and what the dock hands its tile
//! menu on the command line.

use vstd::prelude::*;
use crate::dock::texte_sicht;
use crate::text::{split_whitespace, words};
use crate::text::{
    chars_of, lemma_split_nonempty, lemma_splitn_nonempty, parse_u64, parse_unsigned, split,
    split_at_char, splitn, splitn_at_char, string_of, views,
};

verus! {

/// What each entry of the canvas menu starts: an app, and after a blank the area to open.
pub open spec fn eintrag_ziel_spec(i: int) -> Seq<char> {
    if i == 0 {
        "matrix-start"@
    } else if i == 1 {
        "matrix-web"@
    } else if i == 2 {
        "matrix-einstellungen hintergrund"@
    } else {
        "matrix-einstellungen"@
    }
}

/// The title of each entry of the canvas menu.
pub open spec fn eintrag_titel_spec(i: int) -> Seq<char> {
    if i == 0 {
        "Apps …"@
    } else if i == 1 {
        "Neues Browserfenster"@
    } else if i == 2 {
        "Hintergrund ändern …"@
    } else {
        "Einstellungen …"@
    }
}

/// The number of entries of the canvas menu.
pub const EINTRAEGE: usize = 4;

pub fn eintrag_titel(i: usize) -> (r: &'static str)
    requires
        i < EINTRAEGE,
    ensures
        r@ == eintrag_titel_spec(i as int),
{
    match i {
        0 => "Apps …",
        1 => "Neues Browserfenster",
        2 => "Hintergrund ändern …",
        _ => "Einstellungen …",
    }
}

fn eintrag_ziel(i: usize) -> (r: &'static str)
    requires
        i < EINTRAEGE,
    ensures
        r@ == eintrag_ziel_spec(i as int),
{
    match i {
        0 => "matrix-start",
        1 => "matrix-web",
        2 => "matrix-einstellungen hintergrund",
        _ => "matrix-einstellungen",
    }
}

/// What an entry starts: the app (the text up to the first blank), and the area it should
/// open (the rest), where there is one.
pub open spec fn start_spec(i: int) -> (Seq<char>, Option<Seq<char>>) {
    let t = splitn(eintrag_ziel_spec(i), ' ', 2);
    (t[0], if t.len() > 1 { Some(t[1]) } else { None })
}

pub fn eintrag_start(i: usize) -> (r: (String, Option<String>))
    requires
        i < EINTRAEGE,
    ensures
        r.0@ == start_spec(i as int).0,
        match r.1 {
            Some(b) => start_spec(i as int).1 == Some(b@),
            None => start_spec(i as int).1 is None,
        },
{
    let ziel = chars_of(eintrag_ziel(i));
    let teile = splitn_at_char(&ziel, ' ', 2);
    proof {
        lemma_splitn_nonempty(ziel@, ' ', 2);
    }
    assert(views(teile@)[0] == teile@[0]@);
    let name = string_of(&teile[0]);
    let bereich = if teile.len() > 1 {
        assert(views(teile@)[1] == teile@[1]@);
        Some(string_of(&teile[1]))
    } else {
        None
    };
    (name, bereich)
}

/// The window ids that the dock hands on (comma-separated; pieces that are no number are
/// left out, so `-` gives none).
pub open spec fn ids_spec(teile: Seq<Seq<char>>) -> Seq<u64>
    decreases teile.len(),
{
    if teile.len() == 0 {
        seq![]
    } else {
        let v = ids_spec(teile.drop_last());
        match parse_unsigned(teile.last(), u64::MAX as nat) {
            Some(n) => v.push(n as u64),
            None => v,
        }
    }
}

pub fn fenster_ids(arg: &str) -> (r: Vec<u64>)
    ensures
        r@ == ids_spec(split(arg@, ',')),
{
    let teile = split_at_char(&chars_of(arg), ',');
    let ghost tv = views(teile@);
    let mut r: Vec<u64> = Vec::new();
    let mut i: usize = 0;
    assert(tv.take(0) =~= Seq::<Seq<char>>::empty());
    while i < teile.len()
        invariant
            i <= teile@.len(),
            tv == views(teile@),
            r@ == ids_spec(tv.take(i as int)),
        decreases teile.len() - i,
    {
        assert(tv.take(i + 1).drop_last() =~= tv.take(i as int));
        assert(tv.take(i + 1).last() == teile@[i as int]@);
        match parse_u64(&teile[i]) {
            Some(n) => r.push(n),
            None => {},
        }
        i = i + 1;
    }
    assert(tv.take(teile@.len() as int) =~= tv);
    r
}

/// The stored pins as the tile menu reads them: one app id per word, none where nothing is
/// stored.
pub fn pins_lesen(gespeichert: Option<&str>) -> (r: Vec<String>)
    ensures
        texte_sicht(r@) == match gespeichert {
            Some(g) => words(g@),
            None => Seq::<Seq<char>>::empty(),
        },
{
    let text = match gespeichert {
        Some(g) => chars_of(g),
        None => Vec::new(),
    };
    proof {
        if gespeichert is None {
            assert(words(text@) =~= Seq::<Seq<char>>::empty());
        }
    }
    let ws = split_whitespace(&text);
    let mut r: Vec<String> = Vec::new();
    let mut i: usize = 0;
    while i < ws.len()
        invariant
            i <= ws@.len(),
            texte_sicht(r@) == views(ws@).take(i as int),
        decreases ws.len() - i,
    {
        let ghost vorher = texte_sicht(r@);
        r.push(string_of(&ws[i]));
        assert(texte_sicht(r@) =~= vorher.push(ws@[i as int]@));
        assert(views(ws@).take(i + 1) =~= views(ws@).take(i as int).push(ws@[i as int]@));
        i = i + 1;
    }
    assert(views(ws@).take(ws@.len() as int) =~= views(ws@));
    r
}

/// The clipboard history that the dock keeps, as the clips menu reads it: the JSON list in
/// its file, empty where there is none or it does not read as one.
pub fn clips_aus(datei: Option<&str>) -> (r: Vec<String>)
    ensures
        texte_sicht(r@) == crate::dock::zw_gespeichert(
            match datei {
                Some(d) => Some(d@),
                None => None,
            },
        ),
{
    let r = match datei {
        Some(d) => match crate::json::liste_lesen(d) {
            Some(v) => v,
            None => Vec::new(),
        },
        None => Vec::new(),
    };
    proof {
        if datei is None || crate::json::json_liste(datei.unwrap()@) is None {
            assert(texte_sicht(r@) =~= Seq::<Seq<char>>::empty());
        }
    }
    r
}

} // verus!
