//! The settings app: its areas, how one is asked for, the history of visited areas, the
//! sidebar search, the appearance choices and what the system facts read as.

use vstd::prelude::*;
use crate::text::{
    chars_of, concat, contains_seq, find, has_infix, klein, lines, lines_of, parse_u64,
    parse_u8, parse_unsigned, same, same_str, slice, split_whitespace, string_of,
    strip_prefix, strip_prefix_chars, trim, trim_chars, trim_str, views, words, zu_klein,
};

verus! {

/// The number of areas.
pub const BEREICHE: usize = 8;

/// The title of each area.
pub open spec fn titel_spec(i: int) -> Seq<char> {
    if i == 0 {
        "Übersicht"@
    } else if i == 1 {
        "Allgemein"@
    } else if i == 2 {
        "Verbindungen"@
    } else if i == 3 {
        "Leinwand"@
    } else if i == 4 {
        "Hintergrund"@
    } else if i == 5 {
        "Leiste & Dock"@
    } else if i == 6 {
        "Ton"@
    } else {
        "Entwickler"@
    }
}

/// The keywords by which the search finds each area.
pub open spec fn schlagworte_spec(i: int) -> Seq<char> {
    if i == 0 {
        "dashboard monitor system info prozessor cpu ram arbeitsspeicher speicher akku batterie netzwerk ip kernel temperatur"@
    } else if i == 1 {
        "erscheinung hell dunkel modus name rechnername uhr zeit format endung dateiendung erweitert"@
    } else if i == 2 {
        "wlan wifi netz netzwerk internet funk bluetooth geraete kopfhoerer maus tastatur verbinden hotspot"@
    } else if i == 3 {
        "geist modi navigation maus scrollen klebe wisch touch"@
    } else if i == 4 {
        "wallpaper bild bilder hintergrundbild hell dunkel galerie"@
    } else if i == 5 {
        "bar dock topbar widgets anpassen wackeln pins zeile zwischenablage"@
    } else if i == 6 {
        "klaenge toene ton sound audio gong hoerprobe stumm master anmeldung fehler ausgabe eingabe mikrofon lautsprecher geraet pegel test lautstaerke hdmi kopfhoerer"@
    } else {
        "dev developer ssh netz zugang schluessel update partner freigabe"@
    }
}

/// The title of an area; a number past the last area names the last one.
pub fn bereich_titel(i: usize) -> (r: &'static str)
    ensures
        r@ == titel_spec(if i < BEREICHE { i as int } else { BEREICHE - 1 }),
{
    match i {
        0 => "Übersicht",
        1 => "Allgemein",
        2 => "Verbindungen",
        3 => "Leinwand",
        4 => "Hintergrund",
        5 => "Leiste & Dock",
        6 => "Ton",
        _ => "Entwickler",
    }
}

/// The keywords of an area; a number past the last area names the last one.
pub fn schlagworte(i: usize) -> (r: &'static str)
    ensures
        r@ == schlagworte_spec(if i < BEREICHE { i as int } else { BEREICHE - 1 }),
{
    match i {
        0 => "dashboard monitor system info prozessor cpu ram arbeitsspeicher speicher akku batterie netzwerk ip kernel temperatur",
        1 => "erscheinung hell dunkel modus name rechnername uhr zeit format endung dateiendung erweitert",
        2 => "wlan wifi netz netzwerk internet funk bluetooth geraete kopfhoerer maus tastatur verbinden hotspot",
        3 => "geist modi navigation maus scrollen klebe wisch touch",
        4 => "wallpaper bild bilder hintergrundbild hell dunkel galerie",
        5 => "bar dock topbar widgets anpassen wackeln pins zeile zwischenablage",
        6 => "klaenge toene ton sound audio gong hoerprobe stumm master anmeldung fehler ausgabe eingabe mikrofon lautsprecher geraet pegel test lautstaerke hdmi kopfhoerer",
        _ => "dev developer ssh netz zugang schluessel update partner freigabe",
    }
}

// ------------------------------------------------------------------ wishes

/// The area that a wish (from the bar, the dock or a menu) names, trimmed.
pub open spec fn wunsch_spec(w: Seq<char>) -> Option<nat> {
    let t = trim(w);
    if t == "uebersicht"@ || t == "dashboard"@ {
        Some(0)
    } else if t == "verbindungen"@ || t == "wlan"@ || t == "bluetooth"@ || t == "netz"@ {
        Some(2)
    } else if t == "leinwand"@ {
        Some(3)
    } else if t == "hintergrund"@ {
        Some(4)
    } else if t == "leisten"@ || t == "anpassen"@ {
        Some(5)
    } else if t == "klaenge"@ || t == "klänge"@ || t == "ton"@ {
        Some(6)
    } else if t == "dev"@ || t == "entwickler"@ || t == "entwicklerzugang"@ {
        Some(7)
    } else if t == "allgemein"@ {
        Some(1)
    } else {
        None
    }
}

/// The area that a wish names.
pub fn bereich_aus_wunsch(wunsch: &str) -> (r: Option<usize>)
    ensures
        match r {
            Some(b) => wunsch_spec(wunsch@) == Some(b as nat),
            None => wunsch_spec(wunsch@) is None,
        },
{
    let t = trim_str(wunsch);
    if same_str(&t, "uebersicht") || same_str(&t, "dashboard") {
        Some(0)
    } else if same_str(&t, "verbindungen") || same_str(&t, "wlan") || same_str(&t, "bluetooth")
        || same_str(&t, "netz") {
        Some(2)
    } else if same_str(&t, "leinwand") {
        Some(3)
    } else if same_str(&t, "hintergrund") {
        Some(4)
    } else if same_str(&t, "leisten") || same_str(&t, "anpassen") {
        Some(5)
    } else if same_str(&t, "klaenge") || same_str(&t, "klänge") || same_str(&t, "ton") {
        Some(6)
    } else if same_str(&t, "dev") || same_str(&t, "entwickler") || same_str(
        &t,
        "entwicklerzugang",
    ) {
        Some(7)
    } else if same_str(&t, "allgemein") {
        Some(1)
    } else {
        None
    }
}

/// The area that the first command-line argument names, as it stands.
pub open spec fn arg_spec(a: Seq<char>) -> Option<nat> {
    if a == "uebersicht"@ || a == "dashboard"@ {
        Some(0)
    } else if a == "verbindungen"@ || a == "wlan"@ || a == "bluetooth"@ {
        Some(2)
    } else if a == "leinwand"@ {
        Some(3)
    } else if a == "hintergrund"@ {
        Some(4)
    } else if a == "leisten"@ || a == "anpassen"@ {
        Some(5)
    } else if a == "klaenge"@ {
        Some(6)
    } else if a == "dev"@ || a == "entwickler"@ {
        Some(7)
    } else {
        None
    }
}

/// The area that the first command-line argument names.
pub fn bereich_aus_arg(arg: &str) -> (r: Option<usize>)
    ensures
        match r {
            Some(b) => arg_spec(arg@) == Some(b as nat),
            None => arg_spec(arg@) is None,
        },
{
    let a = chars_of(arg);
    if same_str(&a, "uebersicht") || same_str(&a, "dashboard") {
        Some(0)
    } else if same_str(&a, "verbindungen") || same_str(&a, "wlan") || same_str(&a, "bluetooth") {
        Some(2)
    } else if same_str(&a, "leinwand") {
        Some(3)
    } else if same_str(&a, "hintergrund") {
        Some(4)
    } else if same_str(&a, "leisten") || same_str(&a, "anpassen") {
        Some(5)
    } else if same_str(&a, "klaenge") {
        Some(6)
    } else if same_str(&a, "dev") || same_str(&a, "entwickler") {
        Some(7)
    } else {
        None
    }
}

/// The area to start in: the argument's, else the wish's, else the overview; never past the
/// last area.
pub fn start_bereich(arg: Option<usize>, wunsch: Option<usize>) -> (r: usize)
    ensures
        r == (match arg {
            Some(a) => if a < BEREICHE { a } else { (BEREICHE - 1) as usize },
            None => match wunsch {
                Some(w) => if w < BEREICHE { w } else { (BEREICHE - 1) as usize },
                None => 0,
            },
        }),
{
    let b = match arg {
        Some(a) => a,
        None => match wunsch {
            Some(w) => w,
            None => 0,
        },
    };
    if b < BEREICHE {
        b
    } else {
        BEREICHE - 1
    }
}

// ------------------------------------------------------------------ history

/// Which area is shown, the areas visited, the place in that history, and the search text.
pub struct Navigation {
    pub bereich: usize,
    pub verlauf: Vec<usize>,
    pub pos: usize,
    pub suche: String,
}

pub struct NavSicht {
    pub bereich: nat,
    pub verlauf: Seq<usize>,
    pub pos: nat,
    pub suche: Seq<char>,
}

impl View for Navigation {
    type V = NavSicht;

    open spec fn view(&self) -> NavSicht {
        NavSicht {
            bereich: self.bereich as nat,
            verlauf: self.verlauf@,
            pos: self.pos as nat,
            suche: self.suche@,
        }
    }
}

/// The history is never empty, its place points into it at the shown area, and every area
/// in it exists.
pub open spec fn nav_wf(n: NavSicht) -> bool {
    &&& n.pos < n.verlauf.len()
    &&& n.verlauf[n.pos as int] == n.bereich
    &&& forall|i: int| 0 <= i < n.verlauf.len() ==> #[trigger] n.verlauf[i] < BEREICHE
}

/// A move to an area: a different one cuts the history after the place, appends the area,
/// and clears the search; the shown one changes nothing.
pub open spec fn gehe_zu_spec(n: NavSicht, b: nat) -> NavSicht {
    let z = if b < BEREICHE { b } else { (BEREICHE - 1) as nat };
    if z == n.bereich {
        n
    } else {
        let v = n.verlauf.take(n.pos + 1int).push(z as usize);
        NavSicht { bereich: z, verlauf: v, pos: (v.len() - 1) as nat, suche: Seq::empty() }
    }
}

/// One step back in the history, where there is one.
pub open spec fn zurueck_spec(n: NavSicht) -> NavSicht {
    if n.pos > 0 {
        NavSicht {
            bereich: n.verlauf[n.pos - 1] as nat,
            verlauf: n.verlauf,
            pos: (n.pos - 1) as nat,
            suche: n.suche,
        }
    } else {
        n
    }
}

/// One step forward in the history, where there is one.
pub open spec fn vor_spec(n: NavSicht) -> NavSicht {
    if n.pos + 1 < n.verlauf.len() {
        NavSicht {
            bereich: n.verlauf[n.pos + 1int] as nat,
            verlauf: n.verlauf,
            pos: n.pos + 1,
            suche: n.suche,
        }
    } else {
        n
    }
}

impl Navigation {
    /// The history of the start area alone.
    pub fn neu(start: usize) -> (r: Navigation)
        ensures
            nav_wf(r@),
            r@.bereich == (if start < BEREICHE { start as nat } else { (BEREICHE - 1) as nat }),
            r@.verlauf == seq![r.bereich],
            r@.pos == 0,
            r@.suche == Seq::<char>::empty(),
    {
        let b = if start < BEREICHE {
            start
        } else {
            BEREICHE - 1
        };
        let mut verlauf: Vec<usize> = Vec::new();
        verlauf.push(b);
        let r = Navigation { bereich: b, verlauf, pos: 0, suche: String::new() };
        assert(r@.verlauf =~= seq![b]);
        r
    }

    pub fn gehe_zu(&mut self, b: usize)
        requires
            nav_wf(old(self)@),
        ensures
            final(self)@ == gehe_zu_spec(old(self)@, b as nat),
            nav_wf(final(self)@),
    {
        let z = if b < BEREICHE {
            b
        } else {
            BEREICHE - 1
        };
        if z == self.bereich {
            return;
        }
        let l = self.verlauf.len();
        assert(self.pos < l);
        self.verlauf.truncate(self.pos + 1);
        self.verlauf.push(z);
        self.pos = self.verlauf.len() - 1;
        self.bereich = z;
        self.suche = String::new();
        proof {
            let v = old(self)@.verlauf.take(old(self)@.pos + 1int).push(z as usize);
            assert(self.verlauf@ =~= v);
        }
    }

    pub fn zurueck(&mut self)
        requires
            nav_wf(old(self)@),
        ensures
            final(self)@ == zurueck_spec(old(self)@),
            nav_wf(final(self)@),
    {
        if self.pos > 0 {
            self.pos = self.pos - 1;
            self.bereich = self.verlauf[self.pos];
        }
    }

    pub fn vor(&mut self)
        requires
            nav_wf(old(self)@),
        ensures
            final(self)@ == vor_spec(old(self)@),
            nav_wf(final(self)@),
    {
        if self.pos < self.verlauf.len() - 1 {
            self.pos = self.pos + 1;
            self.bereich = self.verlauf[self.pos];
        }
    }
}

/// A step back and a step forward bring back the shown area and the history.
pub proof fn lemma_zurueck_vor(n: NavSicht)
    requires
        nav_wf(n),
        n.pos > 0,
    ensures
        vor_spec(zurueck_spec(n)) == n,
{
}

/// After a move to another area, a step back shows the area before the move, and a step
/// forward again shows the new one.
pub proof fn lemma_gehe_zu_zurueck(n: NavSicht, b: nat)
    requires
        nav_wf(n),
        b < BEREICHE,
        b != n.bereich,
    ensures
        nav_wf(gehe_zu_spec(n, b)),
        zurueck_spec(gehe_zu_spec(n, b)).bereich == n.bereich,
        vor_spec(zurueck_spec(gehe_zu_spec(n, b))).bereich == b,
        vor_spec(gehe_zu_spec(n, b)) == gehe_zu_spec(n, b),
{
    let m = gehe_zu_spec(n, b);
    assert(m.verlauf[m.pos - 1] == n.verlauf[n.pos as int]);
}

// ------------------------------------------------------------------ search

/// Whether an area matches a lower-cased search text: by its lower-cased title or by its
/// keywords.
pub open spec fn trifft(i: int, s: Seq<char>) -> bool {
    has_infix(klein(titel_spec(i)), s) || has_infix(schlagworte_spec(i), s)
}

/// The areas below `n` that a lower-cased search text shows, in order; all of them where
/// the text is empty.
pub open spec fn treffer_bis(s: Seq<char>, n: nat) -> Seq<usize>
    decreases n,
{
    if n == 0 {
        seq![]
    } else {
        let v = treffer_bis(s, (n - 1) as nat);
        if s.len() == 0 || trifft(n - 1, s) {
            v.push((n - 1) as usize)
        } else {
            v
        }
    }
}

/// The areas that the sidebar shows for a search text, in order.
pub fn treffer(suche: &str) -> (r: Vec<usize>)
    ensures
        r@ == treffer_bis(klein(suche@), BEREICHE as nat),
{
    let s = chars_of(zu_klein(suche).as_str());
    let mut r: Vec<usize> = Vec::new();
    let mut i: usize = 0;
    while i < BEREICHE
        invariant
            i <= BEREICHE,
            s@ == klein(suche@),
            r@ == treffer_bis(s@, i as nat),
        decreases BEREICHE - i,
    {
        let titel = chars_of(zu_klein(bereich_titel(i)).as_str());
        let worte = chars_of(schlagworte(i));
        if s.len() == 0 || contains_seq(&titel, &s) || contains_seq(&worte, &s) {
            r.push(i);
        }
        i = i + 1;
    }
    r
}

// ------------------------------------------------------------------ choices

/// The words of `s`, each as a `String`.
fn woerter(s: &str) -> (r: Vec<String>)
    ensures
        r@.map_values(|t: String| t@) == words(s@),
{
    let w = split_whitespace(&chars_of(s));
    let mut r: Vec<String> = Vec::new();
    let mut i: usize = 0;
    while i < w.len()
        invariant
            i <= w@.len(),
            views(w@) == words(s@),
            r@.map_values(|t: String| t@) == views(w@).take(i as int),
        decreases w.len() - i,
    {
        let ghost vorher = r@.map_values(|t: String| t@);
        let t = string_of(&w[i]);
        r.push(t);
        assert(r@.map_values(|t: String| t@) =~= vorher.push(w@[i as int]@));
        assert(views(w@).take(i + 1) =~= views(w@).take(i as int).push(w@[i as int]@));
        i = i + 1;
    }
    assert(views(w@).take(w@.len() as int) =~= views(w@));
    r
}

pub open spec fn befehle_sicht(v: Seq<Vec<String>>) -> Seq<Seq<Seq<char>>> {
    v.map_values(|b: Vec<String>| b@.map_values(|t: String| t@))
}

/// What choosing an appearance does: its place in the list, the value stored, the commands
/// run (each a program and its arguments), and the message shown.
pub struct ErscheinungsWahl {
    pub index: usize,
    pub wert: String,
    pub befehle: Vec<Vec<String>>,
    pub meldung: String,
}

/// The place of an appearance label among `Automatisch (Sonne)`, `Hell`, `Dunkel`; the first
/// for any other label.
pub open spec fn erscheinung_index(wahl: Seq<char>) -> nat {
    if wahl == "Hell"@ {
        1
    } else if wahl == "Dunkel"@ {
        2
    } else {
        0
    }
}

pub open spec fn erscheinung_wert(i: nat) -> Seq<char> {
    if i == 1 {
        "hell"@
    } else if i == 2 {
        "dunkel"@
    } else {
        "automatisch"@
    }
}

/// A fixed appearance switches the theme and pauses the sun rhythm; the automatic one
/// starts the rhythm and applies it at once.
pub open spec fn erscheinung_befehle(i: nat) -> Seq<Seq<Seq<char>>> {
    let stopp = words(
        "systemctl --user stop theme-sonne.timer theme-sonne-hell.timer theme-sonne-dunkel.timer"@,
    );
    if i == 1 {
        seq![words("dms ipc call theme light"@), stopp]
    } else if i == 2 {
        seq![words("dms ipc call theme dark"@), stopp]
    } else {
        seq![
            words("systemctl --user start theme-sonne.timer"@),
            words("systemctl --user start theme-sonne.service"@),
        ]
    }
}

pub open spec fn erscheinung_meldung(i: nat) -> Seq<char> {
    if i == 1 {
        "Erscheinung: Hell \u{2713} — Sonnen-Rhythmus pausiert"@
    } else if i == 2 {
        "Erscheinung: Dunkel \u{2713} — Sonnen-Rhythmus pausiert"@
    } else {
        "Erscheinung: Automatisch \u{2713} — folgt der Sonne"@
    }
}

/// Choosing an appearance by its label.
pub fn erscheinung_waehlen(wahl: &str) -> (r: ErscheinungsWahl)
    ensures
        r.index as nat == erscheinung_index(wahl@),
        r.wert@ == erscheinung_wert(r.index as nat),
        befehle_sicht(r.befehle@) == erscheinung_befehle(r.index as nat),
        r.meldung@ == erscheinung_meldung(r.index as nat),
{
    let w = chars_of(wahl);
    let index: usize = if same_str(&w, "Hell") {
        1
    } else if same_str(&w, "Dunkel") {
        2
    } else {
        0
    };
    let mut befehle: Vec<Vec<String>> = Vec::new();
    let (wert, meldung) = if index == 1 {
        befehle.push(woerter("dms ipc call theme light"));
        befehle.push(
            woerter(
                "systemctl --user stop theme-sonne.timer theme-sonne-hell.timer theme-sonne-dunkel.timer",
            ),
        );
        ("hell", "Erscheinung: Hell \u{2713} — Sonnen-Rhythmus pausiert")
    } else if index == 2 {
        befehle.push(woerter("dms ipc call theme dark"));
        befehle.push(
            woerter(
                "systemctl --user stop theme-sonne.timer theme-sonne-hell.timer theme-sonne-dunkel.timer",
            ),
        );
        ("dunkel", "Erscheinung: Dunkel \u{2713} — Sonnen-Rhythmus pausiert")
    } else {
        befehle.push(woerter("systemctl --user start theme-sonne.timer"));
        befehle.push(woerter("systemctl --user start theme-sonne.service"));
        ("automatisch", "Erscheinung: Automatisch \u{2713} — folgt der Sonne")
    };
    assert(befehle_sicht(befehle@) =~= erscheinung_befehle(index as nat));
    ErscheinungsWahl {
        index,
        wert: string_of(&chars_of(wert)),
        befehle,
        meldung: string_of(&chars_of(meldung)),
    }
}

/// The message after choosing a desktop mode (`1`: the endless canvas): the mode of the
/// running session is only switched at the next login.
pub open spec fn modus_meldung(modus: nat, real_leinwand: bool) -> Seq<char> {
    if (modus == 1) == real_leinwand {
        if real_leinwand {
            "Unendliche Leinwand ist aktiv \u{2713}"@
        } else {
            "Klassischer Desktop ist aktiv \u{2713}"@
        }
    } else if modus == 1 {
        "Vorgemerkt — beim n\u{e4}chsten Anmelden im Login \u{201e}Matrix Leinwand\u{201c} w\u{e4}hlen"@
    } else {
        "Vorgemerkt — beim n\u{e4}chsten Anmelden im Login \u{201e}Niri\u{201c} w\u{e4}hlen"@
    }
}

/// Choosing a desktop mode by its label (`Klassisch`, `Unendliche Leinwand`; the first for
/// any other): its place, the value stored, and the message for the running session.
pub fn desktop_modus_waehlen(wahl: &str, real_leinwand: bool) -> (r: (usize, String, String))
    ensures
        r.0 == (if wahl@ == "Unendliche Leinwand"@ { 1usize } else { 0usize }),
        r.1@ == (if r.0 == 1 { "leinwand"@ } else { "klassisch"@ }),
        r.2@ == modus_meldung(r.0 as nat, real_leinwand),
{
    let modus: usize = if same_str(&chars_of(wahl), "Unendliche Leinwand") {
        1
    } else {
        0
    };
    let wert = if modus == 1 {
        "leinwand"
    } else {
        "klassisch"
    };
    let meldung = if (modus == 1) == real_leinwand {
        if real_leinwand {
            "Unendliche Leinwand ist aktiv \u{2713}"
        } else {
            "Klassischer Desktop ist aktiv \u{2713}"
        }
    } else if modus == 1 {
        "Vorgemerkt — beim n\u{e4}chsten Anmelden im Login \u{201e}Matrix Leinwand\u{201c} w\u{e4}hlen"
    } else {
        "Vorgemerkt — beim n\u{e4}chsten Anmelden im Login \u{201e}Niri\u{201c} w\u{e4}hlen"
    };
    (modus, string_of(&chars_of(wert)), string_of(&chars_of(meldung)))
}

/// The stored appearance: `hell` 1, `dunkel` 2, anything else (or nothing) 0.
pub fn erscheinung_aus(gespeichert: Option<&str>) -> (r: usize)
    ensures
        r == (match gespeichert {
            Some(g) => if g@ == "hell"@ { 1usize } else if g@ == "dunkel"@ { 2usize } else { 0usize },
            None => 0usize,
        }),
{
    match gespeichert {
        Some(g) => {
            let v = chars_of(g);
            if same_str(&v, "hell") {
                1
            } else if same_str(&v, "dunkel") {
                2
            } else {
                0
            }
        },
        None => 0,
    }
}

/// The smallest and the largest corner radius.
pub const RADIUS_MIN: u8 = 4;

pub const RADIUS_MAX: u8 = 24;

/// The corner radius one step (2) smaller, not below the smallest.
pub fn radius_minus(r: u8) -> (n: u8)
    ensures
        n == (if r < RADIUS_MIN + 2 { RADIUS_MIN as int } else { r - 2 }),
{
    let k = if r >= 2 {
        r - 2
    } else {
        0
    };
    if k < RADIUS_MIN {
        RADIUS_MIN
    } else {
        k
    }
}

/// The corner radius one step (2) larger, not above the largest.
pub fn radius_plus(r: u8) -> (n: u8)
    requires
        r + 2 <= u8::MAX,
    ensures
        n == (if r + 2 > RADIUS_MAX { RADIUS_MAX as int } else { r + 2 }),
{
    let k = r + 2;
    if k > RADIUS_MAX {
        RADIUS_MAX
    } else {
        k
    }
}

// ------------------------------------------------------------------ system facts

/// The first line that starts with `p`.
pub open spec fn erste_mit(ls: Seq<Seq<char>>, p: Seq<char>) -> Option<Seq<char>>
    decreases ls.len(),
{
    if ls.len() == 0 {
        None
    } else if strip_prefix(ls[0], p) is Some {
        Some(ls[0])
    } else {
        erste_mit(ls.drop_first(), p)
    }
}

/// `s` without every leading copy of `p` (`str::trim_start_matches` with a text).
pub open spec fn ohne_praefixe(s: Seq<char>, p: Seq<char>) -> Seq<char>
    decreases s.len(),
{
    if p.len() > 0 && strip_prefix(s, p) is Some {
        ohne_praefixe(s.skip(p.len() as int), p)
    } else {
        s
    }
}

/// `s` without leading `c`.
pub open spec fn ohne_vorn(s: Seq<char>, c: char) -> Seq<char>
    decreases s.len(),
{
    if s.len() > 0 && s[0] == c {
        ohne_vorn(s.drop_first(), c)
    } else {
        s
    }
}

/// `s` without trailing `c`.
pub open spec fn ohne_hinten(s: Seq<char>, c: char) -> Seq<char>
    decreases s.len(),
{
    if s.len() > 0 && s.last() == c {
        ohne_hinten(s.drop_last(), c)
    } else {
        s
    }
}

/// The system's name in `os-release`: the `PRETTY_NAME=` line, without its key and quotes.
pub open spec fn os_name_spec(os_release: Seq<char>) -> Option<Seq<char>> {
    match erste_mit(lines(os_release), "PRETTY_NAME="@) {
        Some(l) => Some(ohne_hinten(ohne_vorn(ohne_praefixe(l, "PRETTY_NAME="@), '"'), '"')),
        None => None,
    }
}

fn erste_mit_exec(ls: &Vec<Vec<char>>, p: &str) -> (r: Option<usize>)
    ensures
        match r {
            Some(i) => i < ls@.len() && erste_mit(views(ls@), p@) == Some(ls@[i as int]@),
            None => erste_mit(views(ls@), p@) is None,
        },
{
    let pv = chars_of(p);
    let mut i: usize = 0;
    assert(views(ls@).skip(0) =~= views(ls@));
    while i < ls.len()
        invariant
            i <= ls@.len(),
            pv@ == p@,
            erste_mit(views(ls@), p@) == erste_mit(views(ls@).skip(i as int), p@),
        decreases ls.len() - i,
    {
        assert(views(ls@).skip(i as int)[0] == ls@[i as int]@);
        assert(views(ls@).skip(i as int).drop_first() =~= views(ls@).skip(i + 1));
        if strip_prefix_chars(&ls[i], &pv).is_some() {
            return Some(i);
        }
        i = i + 1;
    }
    None
}

fn ohne_praefixe_exec(s: &Vec<char>, p: &str) -> (r: Vec<char>)
    ensures
        r@ == ohne_praefixe(s@, p@),
{
    let pv = chars_of(p);
    if pv.len() == 0 {
        return slice(s, 0, s.len());
    }
    let mut i: usize = 0;
    assert(s@.skip(0) =~= s@);
    loop
        invariant
            i <= s@.len(),
            pv@ == p@,
            pv@.len() > 0,
            ohne_praefixe(s@, p@) == ohne_praefixe(s@.skip(i as int), p@),
        decreases s.len() - i,
    {
        let rest = slice(s, i, s.len());
        assert(rest@ =~= s@.skip(i as int));
        match strip_prefix_chars(&rest, &pv) {
            Some(_) => {
                assert(s@.skip(i as int).skip(pv@.len() as int) =~= s@.skip(i + pv@.len()));
                i = i + pv.len();
            },
            None => {
                return rest;
            },
        }
    }
}

fn ohne_rand_exec(s: &Vec<char>, c: char) -> (r: Vec<char>)
    ensures
        r@ == ohne_hinten(ohne_vorn(s@, c), c),
{
    let mut a: usize = 0;
    assert(s@.skip(0) =~= s@);
    while a < s.len() && s[a] == c
        invariant
            a <= s@.len(),
            ohne_vorn(s@, c) == ohne_vorn(s@.skip(a as int), c),
        decreases s.len() - a,
    {
        assert(s@.skip(a as int).drop_first() =~= s@.skip(a + 1));
        a = a + 1;
    }
    let mut e: usize = s.len();
    let ghost v = s@.skip(a as int);
    assert(v =~= s@.subrange(a as int, e as int));
    while e > a && s[e - 1] == c
        invariant
            a <= e <= s@.len(),
            v == ohne_vorn(s@, c),
            ohne_hinten(v, c) == ohne_hinten(s@.subrange(a as int, e as int), c),
        decreases e,
    {
        assert(s@.subrange(a as int, e as int).drop_last() =~= s@.subrange(a as int, e - 1));
        e = e - 1;
    }
    slice(s, a, e)
}

/// The system's name from the content of `os-release`, where it has one, else `ersatz`.
pub fn os_name(os_release: Option<&str>, ersatz: &str) -> (r: String)
    ensures
        r@ == (match os_release {
            Some(t) => match os_name_spec(t@) {
                Some(n) => n,
                None => ersatz@,
            },
            None => ersatz@,
        }),
{
    match os_release {
        Some(t) => {
            let ls = lines_of(&chars_of(t));
            match erste_mit_exec(&ls, "PRETTY_NAME=") {
                Some(i) => {
                    let ohne = ohne_praefixe_exec(&ls[i], "PRETTY_NAME=");
                    string_of(&ohne_rand_exec(&ohne, '"'))
                },
                None => string_of(&chars_of(ersatz)),
            }
        },
        None => string_of(&chars_of(ersatz)),
    }
}

/// The first line of a file's content, trimmed, unless that is empty.
pub open spec fn erste_zeile_spec(t: Seq<char>) -> Option<Seq<char>> {
    let z = trim(if lines(t).len() > 0 { lines(t)[0] } else { Seq::<char>::empty() });
    if z.len() > 0 {
        Some(z)
    } else {
        None
    }
}

pub fn erste_zeile(t: &str) -> (r: Option<String>)
    ensures
        match erste_zeile_spec(t@) {
            Some(z) => r matches Some(s) && s@ == z,
            None => r is None,
        },
{
    let ls = lines_of(&chars_of(t));
    let leer: Vec<char> = Vec::new();
    let z = if ls.len() > 0 {
        trim_chars(&ls[0])
    } else {
        trim_chars(&leer)
    };
    if z.len() > 0 {
        Some(string_of(&z))
    } else {
        None
    }
}

/// The battery from its `capacity` and `status` files: the charge (at most 100), and whether
/// it is charging or full; nothing where the charge cannot be read.
pub open spec fn akku_spec(kapazitaet: Option<Seq<char>>, status: Option<Seq<char>>) -> Option<
    (u8, bool),
> {
    match kapazitaet {
        Some(k) => match erste_zeile_spec(k) {
            Some(z) => match parse_unsigned(z, u8::MAX as nat) {
                Some(v) => Some(
                    (
                        if v < 100 { v as u8 } else { 100u8 },
                        match status {
                            Some(st) => erste_zeile_spec(st) == Some("Charging"@)
                                || erste_zeile_spec(st) == Some("Full"@),
                            None => false,
                        },
                    ),
                ),
                None => None,
            },
            None => None,
        },
        None => None,
    }
}

pub fn akku_aus(kapazitaet: Option<&str>, status: Option<&str>) -> (r: Option<(u8, bool)>)
    ensures
        r == akku_spec(
            match kapazitaet {
                Some(k) => Some(k@),
                None => None,
            },
            match status {
                Some(s) => Some(s@),
                None => None,
            },
        ),
{
    let k = match kapazitaet {
        Some(k) => k,
        None => return None,
    };
    let z = match erste_zeile(k) {
        Some(z) => z,
        None => return None,
    };
    let stand = match parse_u8(&chars_of(z.as_str())) {
        Some(v) => v,
        None => return None,
    };
    let laedt = match status {
        Some(st) => match erste_zeile(st) {
            Some(zs) => {
                let v = chars_of(zs.as_str());
                same_str(&v, "Charging") || same_str(&v, "Full")
            },
            None => false,
        },
        None => false,
    };
    Some((if stand < 100 { stand } else { 100 }, laedt))
}

/// The first global IPv4 address in the output of `ip -4 -o addr show scope global`: the
/// fourth word of the first line, before its `/`; a dash where there is none.
pub open spec fn ip_spec(aus: Option<Seq<char>>) -> Seq<char> {
    match aus {
        Some(t) => if lines(t).len() > 0 && words(lines(t)[0]).len() >= 4 {
            let a = words(lines(t)[0])[3];
            match find(a, '/') {
                Some(k) => a.take(k as int),
                None => a,
            }
        } else {
            "—"@
        },
        None => "—"@,
    }
}

pub fn ip_aus(aus: Option<&str>) -> (r: String)
    ensures
        r@ == ip_spec(
            match aus {
                Some(t) => Some(t@),
                None => None,
            },
        ),
{
    let t = match aus {
        Some(t) => t,
        None => return string_of(&chars_of("—")),
    };
    let ls = lines_of(&chars_of(t));
    if ls.len() == 0 {
        return string_of(&chars_of("—"));
    }
    let w = split_whitespace(&ls[0]);
    assert(views(w@) == words(ls@[0]@));
    if w.len() < 4 {
        return string_of(&chars_of("—"));
    }
    assert(w@[3]@ == words(ls@[0]@)[3]);
    let a = &w[3];
    assert(a@.skip(0) =~= a@);
    match crate::text::find_from(a, '/', 0) {
        Some(k) => {
            let vor = slice(a, 0, k);
            assert(vor@ =~= a@.take(k as int));
            string_of(&vor)
        },
        None => string_of(a),
    }
}

/// A disk as the overview sees it: where it is mounted, its size and its free space.
pub struct Platte {
    pub mount: String,
    pub gesamt: u64,
    pub frei: u64,
}

/// The first disk from `i` on that is mounted at `m`.
pub open spec fn mount_ab(v: Seq<Platte>, m: Seq<char>, i: int) -> Option<int>
    decreases v.len() - i,
{
    if i < 0 || i >= v.len() {
        None
    } else if v[i].mount@ == m {
        Some(i)
    } else {
        mount_ab(v, m, i + 1)
    }
}

/// The last of the largest disks among the first `n`.
pub open spec fn groesste_bis(v: Seq<Platte>, n: int) -> Option<int>
    decreases n,
{
    if n <= 0 || n > v.len() {
        None
    } else {
        match groesste_bis(v, n - 1) {
            Some(j) => if v[n - 1].gesamt >= v[j].gesamt {
                Some(n - 1)
            } else {
                Some(j)
            },
            None => Some(n - 1),
        }
    }
}

/// The disk the overview reports: on an image-based system `/` is an overlay, so the disk
/// at `/sysroot`, else `/var/home`, else `/`, else the largest.
pub open spec fn platte_wahl(v: Seq<Platte>) -> Option<int> {
    match mount_ab(v, "/sysroot"@, 0) {
        Some(i) => Some(i),
        None => match mount_ab(v, "/var/home"@, 0) {
            Some(i) => Some(i),
            None => match mount_ab(v, "/"@, 0) {
                Some(i) => Some(i),
                None => groesste_bis(v, v.len() as int),
            },
        },
    }
}

fn mount_suchen(v: &Vec<Platte>, m: &str) -> (r: Option<usize>)
    ensures
        match r {
            Some(i) => mount_ab(v@, m@, 0) == Some(i as int),
            None => mount_ab(v@, m@, 0) is None,
        },
{
    let mv = chars_of(m);
    let mut i: usize = 0;
    while i < v.len()
        invariant
            i <= v@.len(),
            mv@ == m@,
            mount_ab(v@, m@, 0) == mount_ab(v@, m@, i as int),
        decreases v.len() - i,
    {
        if same(&chars_of(v[i].mount.as_str()), &mv) {
            return Some(i);
        }
        i = i + 1;
    }
    None
}

/// The size and the used space of the disk the overview reports, where there is one.
pub fn platte_waehlen(platten: &Vec<Platte>) -> (r: Option<(u64, u64)>)
    requires
        match platte_wahl(platten@) {
            Some(i) => platten@[i].frei <= platten@[i].gesamt,
            None => true,
        },
    ensures
        match platte_wahl(platten@) {
            Some(i) => r == Some(
                (platten@[i].gesamt, (platten@[i].gesamt - platten@[i].frei) as u64),
            ),
            None => r is None,
        },
{
    let mut wahl = mount_suchen(platten, "/sysroot");
    if wahl.is_none() {
        wahl = mount_suchen(platten, "/var/home");
    }
    if wahl.is_none() {
        wahl = mount_suchen(platten, "/");
    }
    if wahl.is_none() {
        let mut i: usize = 0;
        while i < platten.len()
            invariant
                i <= platten@.len(),
                match wahl {
                    Some(j) => groesste_bis(platten@, i as int) == Some(j as int) && j < i,
                    None => groesste_bis(platten@, i as int) is None,
                },
            decreases platten.len() - i,
        {
            proof {
                lemma_groesste_im_bereich(platten@, i as int);
            }
            wahl = match wahl {
                Some(j) => if platten[i].gesamt >= platten[j].gesamt {
                    Some(i)
                } else {
                    Some(j)
                },
                None => Some(i),
            };
            i = i + 1;
        }
    }
    proof {
        if let Some(j) = wahl {
            assert(0 <= j < platten@.len()) by {
                lemma_wahl_im_bereich(platten@);
            }
        }
    }
    match wahl {
        Some(j) => Some((platten[j].gesamt, platten[j].gesamt - platten[j].frei)),
        None => None,
    }
}

proof fn lemma_mount_im_bereich(v: Seq<Platte>, m: Seq<char>, i: int)
    ensures
        mount_ab(v, m, i) matches Some(j) ==> 0 <= j < v.len(),
    decreases v.len() - i,
{
    if 0 <= i < v.len() && v[i].mount@ != m {
        lemma_mount_im_bereich(v, m, i + 1);
    }
}

proof fn lemma_groesste_im_bereich(v: Seq<Platte>, n: int)
    ensures
        groesste_bis(v, n) matches Some(j) ==> 0 <= j < n <= v.len(),
    decreases n,
{
    if 0 < n <= v.len() {
        lemma_groesste_im_bereich(v, n - 1);
    }
}

proof fn lemma_wahl_im_bereich(v: Seq<Platte>)
    ensures
        platte_wahl(v) matches Some(j) ==> 0 <= j < v.len(),
{
    lemma_mount_im_bereich(v, "/sysroot"@, 0);
    lemma_mount_im_bereich(v, "/var/home"@, 0);
    lemma_mount_im_bereich(v, "/"@, 0);
    lemma_groesste_im_bereich(v, v.len() as int);
}

/// The bytes received and sent by the network interfaces, loopback (`lo`) left out.
pub open spec fn netz_summe_spec(v: Seq<(Seq<char>, u64, u64)>) -> (int, int)
    decreases v.len(),
{
    if v.len() == 0 {
        (0, 0)
    } else {
        let (rx, tx) = netz_summe_spec(v.drop_last());
        if v.last().0 == "lo"@ {
            (rx, tx)
        } else {
            (rx + v.last().1, tx + v.last().2)
        }
    }
}

pub open spec fn netze_sicht(v: Seq<(String, u64, u64)>) -> Seq<(Seq<char>, u64, u64)> {
    v.map_values(|n: (String, u64, u64)| (n.0@, n.1, n.2))
}

proof fn lemma_netz_summe_wachsend(v: Seq<(Seq<char>, u64, u64)>, n: int)
    requires
        0 <= n <= v.len(),
    ensures
        netz_summe_spec(v.take(n)).0 <= netz_summe_spec(v).0,
        netz_summe_spec(v.take(n)).1 <= netz_summe_spec(v).1,
        netz_summe_spec(v.take(n)).0 >= 0,
        netz_summe_spec(v.take(n)).1 >= 0,
    decreases v.len() - n,
{
    lemma_netz_summe_positiv(v.take(n));
    if n < v.len() {
        lemma_netz_summe_wachsend(v, n + 1);
        assert(v.take(n + 1).drop_last() =~= v.take(n));
    } else {
        assert(v.take(n) =~= v);
        lemma_netz_summe_positiv(v);
    }
}

proof fn lemma_netz_summe_positiv(v: Seq<(Seq<char>, u64, u64)>)
    ensures
        netz_summe_spec(v).0 >= 0,
        netz_summe_spec(v).1 >= 0,
    decreases v.len(),
{
    if v.len() > 0 {
        lemma_netz_summe_positiv(v.drop_last());
    }
}

/// The received and the sent bytes of all interfaces but loopback, summed.
pub fn netz_summe(netze: &Vec<(String, u64, u64)>) -> (r: (u64, u64))
    requires
        netz_summe_spec(netze_sicht(netze@)).0 <= u64::MAX,
        netz_summe_spec(netze_sicht(netze@)).1 <= u64::MAX,
    ensures
        r.0 == netz_summe_spec(netze_sicht(netze@)).0,
        r.1 == netz_summe_spec(netze_sicht(netze@)).1,
{
    let ghost v = netze_sicht(netze@);
    let mut rx: u64 = 0;
    let mut tx: u64 = 0;
    let mut i: usize = 0;
    assert(v.take(0) =~= Seq::<(Seq<char>, u64, u64)>::empty());
    while i < netze.len()
        invariant
            i <= netze@.len(),
            v == netze_sicht(netze@),
            netz_summe_spec(v).0 <= u64::MAX,
            netz_summe_spec(v).1 <= u64::MAX,
            rx == netz_summe_spec(v.take(i as int)).0,
            tx == netz_summe_spec(v.take(i as int)).1,
        decreases netze.len() - i,
    {
        assert(v.take(i + 1).drop_last() =~= v.take(i as int));
        assert(v.take(i + 1).last() == v[i as int]);
        proof {
            lemma_netz_summe_wachsend(v, i + 1);
        }
        if !same_str(&chars_of(netze[i].0.as_str()), "lo") {
            rx = rx + netze[i].1;
            tx = tx + netze[i].2;
        }
        i = i + 1;
    }
    assert(v.take(netze@.len() as int) =~= v);
    (rx, tx)
}

} // verus!
