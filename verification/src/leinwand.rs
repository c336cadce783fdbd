//! The canvas and wallpaper settings: the window ghost and navigation switches, which
//! picture each mode gets, and the gallery of candidate pictures.

use vstd::prelude::*;
use crate::dateien::{endung_von_name, letzter_teil, pfad_gleich, pfade_gleich, schlichter_name};
use crate::json::{feld_text, json_feld};
use crate::text::{chars_of, concat, klein, same_str, string_of, zu_klein};

verus! {

/// The window ghost modes, in the order shown: on scrolling, always on empty space, off.
pub open spec fn geist_wert_spec(i: nat) -> Seq<char> {
    if i == 0 {
        "scrollen"@
    } else if i == 1 {
        "immer"@
    } else {
        "aus"@
    }
}

pub open spec fn opt_sicht(o: Option<&str>) -> Option<Seq<char>> {
    match o {
        Some(s) => Some(s@),
        None => None,
    }
}

/// The stored window ghost mode: `immer` 1, `aus` 2, anything else (or nothing) 0.
pub open spec fn geist_modus_spec(g: Option<Seq<char>>) -> usize {
    match g {
        Some(g) => if g == "immer"@ {
            1usize
        } else if g == "aus"@ {
            2usize
        } else {
            0usize
        },
        None => 0usize,
    }
}

/// A stored switch is on unless it says `aus`.
pub open spec fn schalter_spec(g: Option<Seq<char>>) -> bool {
    match g {
        Some(g) => g != "aus"@,
        None => true,
    }
}

pub fn geist_modus_aus(gespeichert: Option<&str>) -> (r: usize)
    ensures
        r == geist_modus_spec(opt_sicht(gespeichert)),
{
    match gespeichert {
        Some(g) => {
            let v = chars_of(g);
            if same_str(&v, "immer") {
                1
            } else if same_str(&v, "aus") {
                2
            } else {
                0
            }
        },
        None => 0,
    }
}

pub fn schalter_an(gespeichert: Option<&str>) -> (r: bool)
    ensures
        r == schalter_spec(opt_sicht(gespeichert)),
{
    match gespeichert {
        Some(g) => !same_str(&chars_of(g), "aus"),
        None => true,
    }
}

/// The picture assigned to the light and to the dark mode in the shell's session file
/// (`wallpaperPathLight`, `wallpaperPathDark`), each unless empty.
pub open spec fn zuordnung_spec(sitzung: Option<Seq<char>>, feld: Seq<char>) -> Option<Seq<char>> {
    match sitzung {
        Some(s) => match json_feld(s, feld) {
            Some(p) => if p.len() > 0 {
                Some(p)
            } else {
                None
            },
            None => None,
        },
        None => None,
    }
}

fn feld_nicht_leer(sitzung: Option<&str>, feld: &str) -> (r: Option<String>)
    ensures
        match r {
            Some(t) => zuordnung_spec(
                match sitzung {
                    Some(s) => Some(s@),
                    None => None,
                },
                feld@,
            ) == Some(t@),
            None => zuordnung_spec(
                match sitzung {
                    Some(s) => Some(s@),
                    None => None,
                },
                feld@,
            ) is None,
        },
{
    match sitzung {
        Some(s) => match feld_text(s, feld) {
            Some(p) => if chars_of(p.as_str()).len() > 0 {
                Some(p)
            } else {
                None
            },
            None => None,
        },
        None => None,
    }
}

pub fn wallpaper_zuordnung(sitzung: Option<&str>) -> (r: (Option<String>, Option<String>))
    ensures
        ({
            let s = match sitzung {
                Some(s) => Some(s@),
                None => None,
            };
            &&& match r.0 {
                Some(t) => zuordnung_spec(s, "wallpaperPathLight"@) == Some(t@),
                None => zuordnung_spec(s, "wallpaperPathLight"@) is None,
            }
            &&& match r.1 {
                Some(t) => zuordnung_spec(s, "wallpaperPathDark"@) == Some(t@),
                None => zuordnung_spec(s, "wallpaperPathDark"@) is None,
            }
        }),
{
    (feld_nicht_leer(sitzung, "wallpaperPathLight"), feld_nicht_leer(sitzung, "wallpaperPathDark"))
}

// ------------------------------------------------------------------ gallery

/// What `Path::extension` yields for a path, as text.
pub uninterp spec fn endung_von(p: Seq<char>) -> Option<Seq<char>>;

/// `Path::new(p).extension()` as text (`None` where there is none or it is no valid text).
/// Stated: the result depends on the path alone, and where the path ends in a plain name
/// after its last `/` (its file name), the extension is that name's as the documentation
/// gives it; how other paths are split into components is left unsaid.
#[verifier::external_body]
pub(crate) fn endung(p: &str) -> (r: Option<String>)
    ensures
        match r {
            Some(e) => endung_von(p@) == Some(e@) && (schlichter_name(letzter_teil(p@))
                ==> endung_von_name(letzter_teil(p@)) == Some(e@)),
            None => endung_von(p@) is None && (schlichter_name(letzter_teil(p@))
                ==> endung_von_name(letzter_teil(p@)) is None),
        },
{
    std::path::Path::new(p).extension().and_then(|x| x.to_str()).map(String::from)
}

/// What `Path`'s `<` says of two paths.
pub uninterp spec fn pfad_kleiner(a: Seq<char>, b: Seq<char>) -> bool;

/// `Path::new(a) < Path::new(b)`: the order of paths, component by component. Stated: the
/// result depends on the two texts alone.
#[verifier::external_body]
pub(crate) fn pfad_vor(a: &str, b: &str) -> (r: bool)
    ensures
        r == pfad_kleiner(a@, b@),
{
    std::path::Path::new(a) < std::path::Path::new(b)
}

/// Whether a file is a picture for the gallery: its extension, lower-cased, is `jpg`,
/// `jpeg` or `png`.
pub open spec fn ist_bild(p: Seq<char>) -> bool {
    match endung_von(p) {
        Some(e) => klein(e) == "jpg"@ || klein(e) == "jpeg"@ || klein(e) == "png"@,
        None => false,
    }
}

/// Whether a folder is the system's picture folder (under `/usr/share`).
pub open spec fn ist_system(ordner: Seq<char>) -> bool {
    "/usr/share"@.len() <= ordner.len() && ordner.take("/usr/share"@.len() as int) == "/usr/share"@
}

/// The order of gallery entries: by path, then the user's before the system's.
pub open spec fn eintrag_kleiner(a: (Seq<char>, bool), b: (Seq<char>, bool)) -> bool {
    pfad_kleiner(a.0, b.0) || (pfade_gleich(a.0, b.0) && !a.1 && b.1)
}

/// Whether two gallery entries are the same: the same path and the same origin.
pub open spec fn eintrag_gleich(a: (Seq<char>, bool), b: (Seq<char>, bool)) -> bool {
    pfade_gleich(a.0, b.0) && a.1 == b.1
}

/// The pictures among the files found (each with the folder it was found in), tagged with
/// whether they are the system's, in the order found.
pub open spec fn kandidaten(funde: Seq<(Seq<char>, Seq<char>)>) -> Seq<(Seq<char>, bool)>
    decreases funde.len(),
{
    if funde.len() == 0 {
        seq![]
    } else {
        let v = kandidaten(funde.drop_last());
        if ist_bild(funde.last().1) {
            v.push((funde.last().1, ist_system(funde.last().0)))
        } else {
            v
        }
    }
}

/// Where an entry goes in a sorted list: behind every entry it is not less than.
pub open spec fn galerie_stelle(s: Seq<(Seq<char>, bool)>, x: (Seq<char>, bool)) -> nat
    decreases s.len(),
{
    if s.len() == 0 {
        0
    } else if !eintrag_kleiner(x, s.last()) {
        s.len()
    } else {
        galerie_stelle(s.drop_last(), x)
    }
}

/// The entries sorted (a stable insertion by `eintrag_kleiner`).
pub open spec fn galerie_sortiert(s: Seq<(Seq<char>, bool)>) -> Seq<(Seq<char>, bool)>
    decreases s.len(),
{
    if s.len() == 0 {
        s
    } else {
        let t = galerie_sortiert(s.drop_last());
        t.insert(galerie_stelle(t, s.last()) as int, s.last())
    }
}

/// The entries without those equal to the entry kept before them.
pub open spec fn ohne_folgedoppel(s: Seq<(Seq<char>, bool)>) -> Seq<(Seq<char>, bool)>
    decreases s.len(),
{
    if s.len() == 0 {
        s
    } else {
        let t = ohne_folgedoppel(s.drop_last());
        if t.len() > 0 && eintrag_gleich(s.last(), t.last()) {
            t
        } else {
            t.push(s.last())
        }
    }
}

/// The largest gallery.
pub const GALERIE_MAX: usize = 24;

/// The gallery: the pictures found, sorted, repeats removed, at most 24.
pub open spec fn galerie_spec(funde: Seq<(Seq<char>, Seq<char>)>) -> Seq<(Seq<char>, bool)> {
    let d = ohne_folgedoppel(galerie_sortiert(kandidaten(funde)));
    if d.len() > GALERIE_MAX {
        d.take(GALERIE_MAX as int)
    } else {
        d
    }
}

pub open spec fn funde_sicht(v: Seq<(String, String)>) -> Seq<(Seq<char>, Seq<char>)> {
    v.map_values(|f: (String, String)| (f.0@, f.1@))
}

pub open spec fn galerie_sicht(v: Seq<(String, bool)>) -> Seq<(Seq<char>, bool)> {
    v.map_values(|e: (String, bool)| (e.0@, e.1))
}

fn ist_bild_exec(p: &str) -> (r: bool)
    ensures
        r == ist_bild(p@),
{
    match endung(p) {
        Some(e) => {
            let k = chars_of(zu_klein(e.as_str()).as_str());
            same_str(&k, "jpg") || same_str(&k, "jpeg") || same_str(&k, "png")
        },
        None => false,
    }
}

fn ist_system_exec(ordner: &str) -> (r: bool)
    ensures
        r == ist_system(ordner@),
{
    let o = chars_of(ordner);
    let p = chars_of("/usr/share");
    if p.len() > o.len() {
        return false;
    }
    let t = crate::text::slice(&o, 0, p.len());
    crate::text::same(&t, &p)
}

fn eintrag_kleiner_exec(a: &(String, bool), b: &(String, bool)) -> (r: bool)
    ensures
        r == eintrag_kleiner((a.0@, a.1), (b.0@, b.1)),
{
    pfad_vor(a.0.as_str(), b.0.as_str()) || (pfad_gleich(a.0.as_str(), b.0.as_str()) && !a.1
        && b.1)
}

/// The gallery from the files found, each with the folder it was found in.
pub fn galerie_auswahl(funde: &Vec<(String, String)>) -> (r: Vec<(String, bool)>)
    ensures
        galerie_sicht(r@) == galerie_spec(funde_sicht(funde@)),
{
    let ghost fv = funde_sicht(funde@);
    // the pictures
    let mut k: Vec<(String, bool)> = Vec::new();
    let mut i: usize = 0;
    assert(fv.take(0) =~= Seq::<(Seq<char>, Seq<char>)>::empty());
    while i < funde.len()
        invariant
            i <= funde@.len(),
            fv == funde_sicht(funde@),
            galerie_sicht(k@) == kandidaten(fv.take(i as int)),
        decreases funde.len() - i,
    {
        assert(fv.take(i + 1).drop_last() =~= fv.take(i as int));
        assert(fv.take(i + 1).last() == (funde@[i as int].0@, funde@[i as int].1@));
        if ist_bild_exec(funde[i].1.as_str()) {
            let sys = ist_system_exec(funde[i].0.as_str());
            let ghost vorher = galerie_sicht(k@);
            k.push((funde[i].1.clone(), sys));
            assert(galerie_sicht(k@) =~= vorher.push((funde@[i as int].1@, sys)));
        }
        i = i + 1;
    }
    assert(fv.take(funde@.len() as int) =~= fv);
    // sorted
    let ghost g = galerie_sicht(k@);
    let mut t: Vec<(String, bool)> = Vec::new();
    let mut j: usize = 0;
    assert(g.take(0) =~= Seq::<(Seq<char>, bool)>::empty());
    while j < k.len()
        invariant
            j <= k@.len(),
            g == galerie_sicht(k@),
            galerie_sicht(t@) == galerie_sortiert(g.take(j as int)),
        decreases k.len() - j,
    {
        assert(g.take(j + 1).drop_last() =~= g.take(j as int));
        assert(g.take(j + 1).last() == (k@[j as int].0@, k@[j as int].1));
        let x = (k[j].0.clone(), k[j].1);
        let ghost s = galerie_sicht(t@);
        let mut p = t.len();
        assert(s.take(p as int) =~= s);
        while p > 0 && eintrag_kleiner_exec(&x, &t[p - 1])
            invariant
                p <= t@.len(),
                s == galerie_sicht(t@),
                galerie_stelle(s.take(p as int), (x.0@, x.1)) == galerie_stelle(s, (x.0@, x.1)),
            decreases p,
        {
            assert(s.take(p as int).drop_last() =~= s.take(p - 1));
            p = p - 1;
        }
        if p > 0 {
            assert(s.take(p as int).last() == s[p - 1]);
        }
        let ghost vorher = t@;
        t.insert(p, x);
        assert(galerie_sicht(t@) =~= galerie_sicht(vorher).insert(p as int, (x.0@, x.1)));
        j = j + 1;
    }
    assert(g.take(g.len() as int) =~= g);
    // repeats removed
    let ghost h = galerie_sicht(t@);
    let mut d: Vec<(String, bool)> = Vec::new();
    let mut m: usize = 0;
    assert(h.take(0) =~= Seq::<(Seq<char>, bool)>::empty());
    while m < t.len()
        invariant
            m <= t@.len(),
            h == galerie_sicht(t@),
            galerie_sicht(d@) == ohne_folgedoppel(h.take(m as int)),
        decreases t.len() - m,
    {
        assert(h.take(m + 1).drop_last() =~= h.take(m as int));
        assert(h.take(m + 1).last() == (t@[m as int].0@, t@[m as int].1));
        let doppelt = if d.len() > 0 {
            let l = d.len() - 1;
            pfad_gleich(t[m].0.as_str(), d[l].0.as_str()) && t[m].1 == d[l].1
        } else {
            false
        };
        if !doppelt {
            let ghost vorher = galerie_sicht(d@);
            d.push((t[m].0.clone(), t[m].1));
            assert(galerie_sicht(d@) =~= vorher.push((t@[m as int].0@, t@[m as int].1)));
        }
        m = m + 1;
    }
    assert(h.take(t@.len() as int) =~= h);
    if d.len() > GALERIE_MAX {
        d.truncate(GALERIE_MAX);
        assert(galerie_sicht(d@) =~= ohne_folgedoppel(h).take(GALERIE_MAX as int));
    }
    d
}

// ------------------------------------------------------------------ panel

/// The canvas and wallpaper panel.
pub struct Panel {
    /// The window ghost mode (0 on scrolling, 1 always, 2 off).
    pub geist_modus: usize,
    pub blaettern: bool,
    pub klick_holt: bool,
    pub heimweg: bool,
    /// The last confirmation shown in the footer.
    pub gespeichert: Option<String>,
    /// The mode a picture is set for (0 light, 1 dark).
    pub ziel_modus: usize,
    /// The gallery: paths, and whether each is the system's.
    pub galerie: Vec<(String, bool)>,
    pub galerie_laedt: bool,
    pub hell_pfad: Option<String>,
    pub dunkel_pfad: Option<String>,
}

/// What happens in the panel.
pub enum Msg {
    GeistModus(usize),
    Blaettern(bool),
    KlickHolt(bool),
    Heimweg(bool),
    ZielModus(usize),
    /// Set gallery picture `i` for the chosen mode; the flag tells whether the desktop is
    /// light right now.
    HintergrundSetzen(usize, bool),
    GalerieGeladen(Vec<(String, bool)>),
    /// The host's tick: the confirmation fades.
    Tick,
}

/// What the panel asks the system to do.
pub enum Auftrag {
    Keiner,
    /// Store a setting.
    Speichern(&'static str, &'static str),
    /// Assign a picture to a mode in the session file, and show it at once where that mode
    /// is the current one.
    Hintergrund { pfad: String, hell: bool, live: bool },
}

/// The confirmation for a changed setting.
pub open spec fn quittung_spec(t: Seq<char>) -> Seq<char> {
    t + " \u{2713} — wirkt sofort"@
}

fn quittung(t: &str) -> (r: String)
    ensures
        r@ == quittung_spec(t@),
{
    string_of(&concat(&chars_of(t), &chars_of(" \u{2713} — wirkt sofort")))
}

pub open spec fn text_sicht(t: Option<String>) -> Option<Seq<char>> {
    match t {
        Some(x) => Some(x@),
        None => None,
    }
}

impl Panel {
    /// The panel over the stored settings; the target mode follows the desktop's.
    pub fn neu(
        geist: Option<&str>,
        blaettern: Option<&str>,
        klick_holt: Option<&str>,
        heimweg: Option<&str>,
        sitzung: Option<&str>,
        ist_hell: bool,
    ) -> (r: Panel)
        ensures
            r.geist_modus == geist_modus_spec(opt_sicht(geist)),
            r.blaettern == schalter_spec(opt_sicht(blaettern)),
            r.klick_holt == schalter_spec(opt_sicht(klick_holt)),
            r.heimweg == schalter_spec(opt_sicht(heimweg)),
            r.gespeichert is None,
            r.ziel_modus == (if ist_hell { 0usize } else { 1usize }),
            r.galerie@.len() == 0,
            r.galerie_laedt,
            text_sicht(r.hell_pfad) == zuordnung_spec(opt_sicht(sitzung), "wallpaperPathLight"@),
            text_sicht(r.dunkel_pfad) == zuordnung_spec(opt_sicht(sitzung), "wallpaperPathDark"@),
    {
        let (hell_pfad, dunkel_pfad) = wallpaper_zuordnung(sitzung);
        Panel {
            geist_modus: geist_modus_aus(geist),
            blaettern: schalter_an(blaettern),
            klick_holt: schalter_an(klick_holt),
            heimweg: schalter_an(heimweg),
            gespeichert: None,
            ziel_modus: if ist_hell {
                0
            } else {
                1
            },
            galerie: Vec::new(),
            galerie_laedt: true,
            hell_pfad,
            dunkel_pfad,
        }
    }

    /// One message: the new state, and what the system is asked to do.
    pub fn update(&mut self, msg: Msg) -> (r: Auftrag)
        ensures
            !(msg is GeistModus) ==> final(self).geist_modus == old(self).geist_modus,
            !(msg is Blaettern) ==> final(self).blaettern == old(self).blaettern,
            !(msg is KlickHolt) ==> final(self).klick_holt == old(self).klick_holt,
            !(msg is Heimweg) ==> final(self).heimweg == old(self).heimweg,
            !(msg is ZielModus) ==> final(self).ziel_modus == old(self).ziel_modus,
            !(msg is GalerieGeladen) ==> galerie_sicht(final(self).galerie@) == galerie_sicht(
                old(self).galerie@,
            ) && final(self).galerie_laedt == old(self).galerie_laedt,
            !(msg is HintergrundSetzen) ==> text_sicht(final(self).hell_pfad) == text_sicht(
                old(self).hell_pfad,
            ) && text_sicht(final(self).dunkel_pfad) == text_sicht(old(self).dunkel_pfad),
            (msg is ZielModus || msg is GalerieGeladen) ==> text_sicht(final(self).gespeichert)
                == text_sicht(old(self).gespeichert),
            match msg {
                Msg::GeistModus(i) => {
                    let m = if i < 2 { i } else { 2 };
                    &&& final(self).geist_modus == m
                    &&& r matches Auftrag::Speichern(n, w) && n@ == "leinwand-geist"@ && w@
                        == geist_wert_spec(m as nat)
                    &&& text_sicht(final(self).gespeichert) == Some(quittung_spec("Fenster-Geist"@))
                },
                Msg::Blaettern(an) => {
                    &&& final(self).blaettern == an
                    &&& r matches Auftrag::Speichern(n, w) && n@ == "leinwand-blaettern"@ && w@
                        == (if an { "an"@ } else { "aus"@ })
                    &&& text_sicht(final(self).gespeichert) == Some(quittung_spec("Rad-Blättern"@))
                },
                Msg::KlickHolt(an) => {
                    &&& final(self).klick_holt == an
                    &&& r matches Auftrag::Speichern(n, w) && n@ == "leinwand-klick-holt"@ && w@
                        == (if an { "an"@ } else { "aus"@ })
                    &&& text_sicht(final(self).gespeichert) == Some(
                        quittung_spec("Klick holt Fenster"@),
                    )
                },
                Msg::Heimweg(an) => {
                    &&& final(self).heimweg == an
                    &&& r matches Auftrag::Speichern(n, w) && n@ == "leinwand-heimweg"@ && w@ == (
                    if an { "an"@ } else { "aus"@ })
                    &&& text_sicht(final(self).gespeichert) == Some(quittung_spec("Heimweg"@))
                },
                Msg::ZielModus(i) => final(self).ziel_modus == (if i < 1 { i } else { 1 })
                    && r is Keiner,
                Msg::HintergrundSetzen(i, jetzt_hell) => if i < old(self).galerie@.len() {
                    let pfad = old(self).galerie@[i as int].0@;
                    let hell = old(self).ziel_modus == 0;
                    &&& r matches Auftrag::Hintergrund { pfad: p, hell: h, live: l } && p@ == pfad
                        && h == hell && l == (hell == jetzt_hell)
                    &&& if hell {
                        text_sicht(final(self).hell_pfad) == Some(pfad) && text_sicht(
                            final(self).dunkel_pfad,
                        ) == text_sicht(old(self).dunkel_pfad)
                    } else {
                        text_sicht(final(self).dunkel_pfad) == Some(pfad) && text_sicht(
                            final(self).hell_pfad,
                        ) == text_sicht(old(self).hell_pfad)
                    }
                    &&& text_sicht(final(self).gespeichert) == Some(
                        quittung_spec(
                            if hell {
                                "Hintergrund (Hell)"@
                            } else {
                                "Hintergrund (Dunkel)"@
                            },
                        ),
                    )
                } else {
                    r is Keiner && text_sicht(final(self).gespeichert) == text_sicht(
                        old(self).gespeichert,
                    ) && text_sicht(final(self).hell_pfad) == text_sicht(old(self).hell_pfad)
                        && text_sicht(final(self).dunkel_pfad) == text_sicht(old(self).dunkel_pfad)
                },
                Msg::GalerieGeladen(g) => galerie_sicht(final(self).galerie@) == galerie_sicht(g@)
                    && !final(self).galerie_laedt && r is Keiner,
                Msg::Tick => final(self).gespeichert is None && r is Keiner,
            },
    {
        match msg {
            Msg::GeistModus(i) => {
                let m = if i < 2 {
                    i
                } else {
                    2
                };
                self.geist_modus = m;
                self.gespeichert = Some(quittung("Fenster-Geist"));
                let w = if m == 0 {
                    "scrollen"
                } else if m == 1 {
                    "immer"
                } else {
                    "aus"
                };
                Auftrag::Speichern("leinwand-geist", w)
            },
            Msg::Blaettern(an) => {
                self.blaettern = an;
                self.gespeichert = Some(quittung("Rad-Blättern"));
                Auftrag::Speichern("leinwand-blaettern", if an { "an" } else { "aus" })
            },
            Msg::KlickHolt(an) => {
                self.klick_holt = an;
                self.gespeichert = Some(quittung("Klick holt Fenster"));
                Auftrag::Speichern("leinwand-klick-holt", if an { "an" } else { "aus" })
            },
            Msg::Heimweg(an) => {
                self.heimweg = an;
                self.gespeichert = Some(quittung("Heimweg"));
                Auftrag::Speichern("leinwand-heimweg", if an { "an" } else { "aus" })
            },
            Msg::ZielModus(i) => {
                self.ziel_modus = if i < 1 {
                    i
                } else {
                    1
                };
                Auftrag::Keiner
            },
            Msg::HintergrundSetzen(i, jetzt_hell) => {
                if i >= self.galerie.len() {
                    return Auftrag::Keiner;
                }
                let pfad = self.galerie[i].0.clone();
                let hell = self.ziel_modus == 0;
                if hell {
                    self.hell_pfad = Some(pfad.clone());
                    self.gespeichert = Some(quittung("Hintergrund (Hell)"));
                } else {
                    self.dunkel_pfad = Some(pfad.clone());
                    self.gespeichert = Some(quittung("Hintergrund (Dunkel)"));
                }
                Auftrag::Hintergrund { pfad, hell, live: hell == jetzt_hell }
            },
            Msg::GalerieGeladen(g) => {
                self.galerie = g;
                self.galerie_laedt = false;
                Auftrag::Keiner
            },
            Msg::Tick => {
                self.gespeichert = None;
                Auftrag::Keiner
            },
        }
    }
}

} // verus!
