//! Bar and dock layout as the settings edit it: the three bar zones, the dock pins and the
//! second dock row.

use vstd::prelude::*;
use crate::text::{
    chars_of, join, join_with, same_str, split_whitespace, string_of, views, words,
};
use crate::zonen::{
    lemma_zonen_rund, schluessel_ok, zonen_text, zonen_text_bauen, zonen_woerter,
    zonen_woerter_lesen,
};

verus! {

// ----------------------------------------------------------------- zones

/// A zone of the bar.
#[derive(Debug, Clone, Copy, PartialEq, Eq, Structural)]
pub enum Zone {
    Links,
    Mitte,
    Rechts,
}

impl Zone {
    pub fn titel(self) -> (r: &'static str)
        ensures
            r@ == match self {
                Zone::Links => "Links"@,
                Zone::Mitte => "Mitte"@,
                Zone::Rechts => "Rechts"@,
            },
    {
        match self {
            Zone::Links => "Links",
            Zone::Mitte => "Mitte",
            Zone::Rechts => "Rechts",
        }
    }
}

// --------------------------------------------------------------- widgets

/// The ten bar widgets.
#[derive(Debug, Clone, Copy, PartialEq, Eq, Structural)]
pub enum BarWidget {
    Matrix,
    Fokus,
    Uhr,
    Puls,
    Glocke,
    Tray,
    Akku,
    Zentrale,
    Nutzer,
    Aufnahme,
}

/// The key under which a widget stands in the layout text.
pub open spec fn schluessel_spec(w: BarWidget) -> Seq<char> {
    match w {
        BarWidget::Matrix => "matrix"@,
        BarWidget::Fokus => "fokus"@,
        BarWidget::Uhr => "uhr"@,
        BarWidget::Puls => "puls"@,
        BarWidget::Glocke => "glocke"@,
        BarWidget::Tray => "tray"@,
        BarWidget::Akku => "akku"@,
        BarWidget::Zentrale => "zentrale"@,
        BarWidget::Nutzer => "nutzer"@,
        BarWidget::Aufnahme => "aufnahme"@,
    }
}

/// The widget with the given key.
pub open spec fn aus_spec(name: Seq<char>) -> Option<BarWidget> {
    if name == "matrix"@ {
        Some(BarWidget::Matrix)
    } else if name == "fokus"@ {
        Some(BarWidget::Fokus)
    } else if name == "uhr"@ {
        Some(BarWidget::Uhr)
    } else if name == "puls"@ {
        Some(BarWidget::Puls)
    } else if name == "glocke"@ {
        Some(BarWidget::Glocke)
    } else if name == "tray"@ {
        Some(BarWidget::Tray)
    } else if name == "akku"@ {
        Some(BarWidget::Akku)
    } else if name == "zentrale"@ {
        Some(BarWidget::Zentrale)
    } else if name == "nutzer"@ {
        Some(BarWidget::Nutzer)
    } else if name == "aufnahme"@ {
        Some(BarWidget::Aufnahme)
    } else {
        None
    }
}

/// The widgets that the words name, in order; unknown words drop out.
pub open spec fn widgets_aus(w: Seq<Seq<char>>) -> Seq<BarWidget>
    decreases w.len(),
{
    if w.len() == 0 {
        seq![]
    } else {
        match aus_spec(w.last()) {
            Some(x) => widgets_aus(w.drop_last()).push(x),
            None => widgets_aus(w.drop_last()),
        }
    }
}

/// The keys of the widgets.
pub open spec fn schluessel_von(z: Seq<BarWidget>) -> Seq<Seq<char>> {
    z.map_values(|w: BarWidget| schluessel_spec(w))
}

/// The three zones that a layout text names.
pub open spec fn zonen_parse_spec(konf: Seq<char>) -> (Seq<BarWidget>, Seq<BarWidget>, Seq<BarWidget>) {
    let (l, m, r) = zonen_woerter(konf);
    (widgets_aus(l), widgets_aus(m), widgets_aus(r))
}

/// The layout text of three zones.
pub open spec fn zonen_string_spec(l: Seq<BarWidget>, m: Seq<BarWidget>, r: Seq<BarWidget>) -> Seq<char> {
    zonen_text(schluessel_von(l), schluessel_von(m), schluessel_von(r))
}

impl BarWidget {
    pub fn schluessel(self) -> (r: &'static str)
        ensures
            r@ == schluessel_spec(self),
    {
        match self {
            BarWidget::Matrix => "matrix",
            BarWidget::Fokus => "fokus",
            BarWidget::Uhr => "uhr",
            BarWidget::Puls => "puls",
            BarWidget::Glocke => "glocke",
            BarWidget::Tray => "tray",
            BarWidget::Akku => "akku",
            BarWidget::Zentrale => "zentrale",
            BarWidget::Nutzer => "nutzer",
            BarWidget::Aufnahme => "aufnahme",
        }
    }

    /// The widget whose key is `name`.
    pub fn aus(name: &str) -> (r: Option<Self>)
        ensures
            r == aus_spec(name@),
    {
        let v = chars_of(name);
        aus_chars(&v)
    }

    pub fn titel(self) -> (r: &'static str)
        ensures
            r@ == match self {
                BarWidget::Matrix => "Matrix-Menü"@,
                BarWidget::Fokus => "Fokus"@,
                BarWidget::Uhr => "Uhr"@,
                BarWidget::Puls => "Puls"@,
                BarWidget::Glocke => "Glocke"@,
                BarWidget::Tray => "Ablage"@,
                BarWidget::Akku => "Akku"@,
                BarWidget::Zentrale => "Zentrale"@,
                BarWidget::Nutzer => "Nutzer"@,
                BarWidget::Aufnahme => "Aufnahme"@,
            },
    {
        match self {
            BarWidget::Matrix => "Matrix-Menü",
            BarWidget::Fokus => "Fokus",
            BarWidget::Uhr => "Uhr",
            BarWidget::Puls => "Puls",
            BarWidget::Glocke => "Glocke",
            BarWidget::Tray => "Ablage",
            BarWidget::Akku => "Akku",
            BarWidget::Zentrale => "Zentrale",
            BarWidget::Nutzer => "Nutzer",
            BarWidget::Aufnahme => "Aufnahme",
        }
    }

    pub fn untertitel(self) -> (r: &'static str)
        ensures
            r@ == match self {
                BarWidget::Matrix => "Das Systemmenü ganz links"@,
                BarWidget::Fokus => "Titel der aktiven App"@,
                BarWidget::Uhr => "Uhrzeit und Datum"@,
                BarWidget::Puls => "CPU, RAM, Ton, Netz"@,
                BarWidget::Glocke => "Mitteilungen & Nicht stören"@,
                BarWidget::Tray => "System-Tray-Symbole"@,
                BarWidget::Akku => "Ladestand"@,
                BarWidget::Zentrale => "Kontrollzentrum"@,
                BarWidget::Nutzer => "Sitzungsmenü"@,
                BarWidget::Aufnahme => "Bildschirmfoto & -film"@,
            },
    {
        match self {
            BarWidget::Matrix => "Das Systemmenü ganz links",
            BarWidget::Fokus => "Titel der aktiven App",
            BarWidget::Uhr => "Uhrzeit und Datum",
            BarWidget::Puls => "CPU, RAM, Ton, Netz",
            BarWidget::Glocke => "Mitteilungen & Nicht stören",
            BarWidget::Tray => "System-Tray-Symbole",
            BarWidget::Akku => "Ladestand",
            BarWidget::Zentrale => "Kontrollzentrum",
            BarWidget::Nutzer => "Sitzungsmenü",
            BarWidget::Aufnahme => "Bildschirmfoto & -film",
        }
    }
}

fn aus_chars(v: &Vec<char>) -> (r: Option<BarWidget>)
    ensures
        r == aus_spec(v@),
{
    if same_str(v, "matrix") {
        Some(BarWidget::Matrix)
    } else if same_str(v, "fokus") {
        Some(BarWidget::Fokus)
    } else if same_str(v, "uhr") {
        Some(BarWidget::Uhr)
    } else if same_str(v, "puls") {
        Some(BarWidget::Puls)
    } else if same_str(v, "glocke") {
        Some(BarWidget::Glocke)
    } else if same_str(v, "tray") {
        Some(BarWidget::Tray)
    } else if same_str(v, "akku") {
        Some(BarWidget::Akku)
    } else if same_str(v, "zentrale") {
        Some(BarWidget::Zentrale)
    } else if same_str(v, "nutzer") {
        Some(BarWidget::Nutzer)
    } else if same_str(v, "aufnahme") {
        Some(BarWidget::Aufnahme)
    } else {
        None
    }
}

fn widgets_lesen(w: &Vec<Vec<char>>) -> (r: Vec<BarWidget>)
    ensures
        r@ == widgets_aus(views(w@)),
{
    let mut r: Vec<BarWidget> = Vec::new();
    let mut i: usize = 0;
    assert(views(w@).take(0) =~= Seq::<Seq<char>>::empty());
    while i < w.len()
        invariant
            i <= w@.len(),
            r@ == widgets_aus(views(w@).take(i as int)),
        decreases w.len() - i,
    {
        assert(views(w@).take(i + 1).drop_last() =~= views(w@).take(i as int));
        assert(views(w@).take(i + 1).last() == w@[i as int]@);
        if let Some(x) = aus_chars(&w[i]) {
            r.push(x);
        }
        i = i + 1;
    }
    assert(views(w@).take(w@.len() as int) =~= views(w@));
    r
}

fn schluessel_liste(z: &[BarWidget]) -> (r: Vec<Vec<char>>)
    ensures
        views(r@) == schluessel_von(z@),
{
    let mut r: Vec<Vec<char>> = Vec::new();
    let mut i: usize = 0;
    while i < z.len()
        invariant
            i <= z@.len(),
            views(r@) == schluessel_von(z@.take(i as int)),
        decreases z.len() - i,
    {
        let k = chars_of(z[i].schluessel());
        let ghost before = r@;
        r.push(k);
        assert(views(r@) =~= views(before).push(k@));
        assert(z@.take(i + 1).drop_last() =~= z@.take(i as int));
        assert(schluessel_von(z@.take(i + 1)) =~= schluessel_von(z@.take(i as int)).push(
            schluessel_spec(z@[i as int]),
        ));
        i = i + 1;
    }
    assert(z@.take(z@.len() as int) =~= z@);
    r
}

/// The three zones of a layout text: zones separated by `|`, widgets by whitespace;
/// unknown keys drop out, zones that are missing stay empty.
pub fn zonen_parse(konf: &str) -> (r: (Vec<BarWidget>, Vec<BarWidget>, Vec<BarWidget>))
    ensures
        (r.0@, r.1@, r.2@) == zonen_parse_spec(konf@),
{
    let k = chars_of(konf);
    let (l, m, r) = zonen_woerter_lesen(&k);
    (widgets_lesen(&l), widgets_lesen(&m), widgets_lesen(&r))
}

/// The layout text of three zones: `keys | keys | keys`.
pub fn zonen_string(l: &[BarWidget], m: &[BarWidget], r: &[BarWidget]) -> (s: String)
    ensures
        s@ == zonen_string_spec(l@, m@, r@),
{
    let a = schluessel_liste(l);
    let b = schluessel_liste(m);
    let c = schluessel_liste(r);
    let t = zonen_text_bauen(&a, &b, &c);
    string_of(&t)
}

/// Texts joined by blanks.
fn mit_blanks(v: &Vec<String>) -> (r: String)
    ensures
        r@ == join(texte(v@), seq![' ']),
{
    let mut teile: Vec<Vec<char>> = Vec::new();
    let mut i: usize = 0;
    while i < v.len()
        invariant
            i <= v@.len(),
            views(teile@) == texte(v@).take(i as int),
        decreases v.len() - i,
    {
        let ghost vorher = views(teile@);
        teile.push(chars_of(v[i].as_str()));
        assert(views(teile@) =~= vorher.push(v@[i as int]@));
        assert(texte(v@).take(i + 1) =~= texte(v@).take(i as int).push(v@[i as int]@));
        i = i + 1;
    }
    assert(texte(v@).take(v@.len() as int) =~= texte(v@));
    let mut blank: Vec<char> = Vec::new();
    blank.push(' ');
    assert(blank@ =~= seq![' ']);
    string_of(&join_with(&teile, &blank))
}

// ------------------------------------------------------------------ laws

proof fn lemma_schluessel_eigenschaften(w: BarWidget)
    ensures
        schluessel_ok(schluessel_spec(w)),
        aus_spec(schluessel_spec(w)) == Some(w),
{
    reveal_strlit("matrix");
    reveal_strlit("fokus");
    reveal_strlit("uhr");
    reveal_strlit("puls");
    reveal_strlit("glocke");
    reveal_strlit("tray");
    reveal_strlit("akku");
    reveal_strlit("zentrale");
    reveal_strlit("nutzer");
    reveal_strlit("aufnahme");
    let k = schluessel_spec(w);
    assert(k.len() >= 3);
    assert(k[0] == 'm' ==> k.len() == 6);
    match w {
        BarWidget::Matrix => {},
        BarWidget::Fokus => {
            assert(k[0] != "matrix"@[0]);
        },
        BarWidget::Uhr => {
            assert(k[0] != "matrix"@[0]);
            assert(k.len() != "fokus"@.len());
        },
        BarWidget::Puls => {
            assert(k.len() != "matrix"@.len());
            assert(k.len() != "fokus"@.len());
            assert(k.len() != "uhr"@.len());
        },
        BarWidget::Glocke => {
            assert(k[0] != "matrix"@[0]);
            assert(k.len() != "fokus"@.len());
            assert(k.len() != "uhr"@.len());
            assert(k.len() != "puls"@.len());
        },
        BarWidget::Tray => {
            assert(k.len() != "matrix"@.len());
            assert(k.len() != "fokus"@.len());
            assert(k.len() != "uhr"@.len());
            assert(k[0] != "puls"@[0]);
            assert(k.len() != "glocke"@.len());
        },
        BarWidget::Akku => {
            assert(k.len() != "matrix"@.len());
            assert(k.len() != "fokus"@.len());
            assert(k.len() != "uhr"@.len());
            assert(k[0] != "puls"@[0]);
            assert(k.len() != "glocke"@.len());
            assert(k[0] != "tray"@[0]);
        },
        BarWidget::Zentrale => {
            assert(k.len() != "matrix"@.len());
            assert(k.len() != "fokus"@.len());
            assert(k.len() != "uhr"@.len());
            assert(k.len() != "puls"@.len());
            assert(k.len() != "glocke"@.len());
            assert(k.len() != "tray"@.len());
            assert(k.len() != "akku"@.len());
        },
        BarWidget::Nutzer => {
            assert(k[0] != "matrix"@[0]);
            assert(k.len() != "fokus"@.len());
            assert(k.len() != "uhr"@.len());
            assert(k.len() != "puls"@.len());
            assert(k[0] != "glocke"@[0]);
            assert(k.len() != "tray"@.len());
            assert(k.len() != "akku"@.len());
            assert(k.len() != "zentrale"@.len());
        },
        BarWidget::Aufnahme => {
            assert(k.len() != "matrix"@.len());
            assert(k.len() != "fokus"@.len());
            assert(k.len() != "uhr"@.len());
            assert(k.len() != "puls"@.len());
            assert(k.len() != "glocke"@.len());
            assert(k.len() != "tray"@.len());
            assert(k.len() != "akku"@.len());
            assert(k[0] != "zentrale"@[0]);
            assert(k.len() != "nutzer"@.len());
        },
    }
}

proof fn lemma_widgets_aus_schluessel(z: Seq<BarWidget>)
    ensures
        widgets_aus(schluessel_von(z)) == z,
    decreases z.len(),
{
    if z.len() > 0 {
        lemma_widgets_aus_schluessel(z.drop_last());
        assert(schluessel_von(z).drop_last() =~= schluessel_von(z.drop_last()));
        lemma_schluessel_eigenschaften(z.last());
        assert(z.drop_last().push(z.last()) =~= z);
    } else {
        assert(schluessel_von(z) =~= Seq::<Seq<char>>::empty());
    }
}

/// The settings and the bar know the same widgets: a key names a widget of the settings
/// exactly when it names one of the bar, and each widget's key reads back to that widget.
pub proof fn lemma_gleiche_widgets(name: Seq<char>, w: BarWidget)
    ensures
        aus_spec(name) is Some <==> crate::bar::widget_spec(name) is Some,
        aus_spec(schluessel_spec(w)) == Some(w),
{
    lemma_schluessel_eigenschaften(w);
}

/// Reading a layout text written from three zones gives back the same zones.
pub proof fn lemma_zonen_rundreise(l: Seq<BarWidget>, m: Seq<BarWidget>, r: Seq<BarWidget>)
    ensures
        zonen_parse_spec(zonen_string_spec(l, m, r)) == (l, m, r),
{
    assert forall|i: int| 0 <= i < l.len() implies schluessel_ok(#[trigger] schluessel_von(l)[i]) by {
        lemma_schluessel_eigenschaften(l[i]);
    }
    assert forall|i: int| 0 <= i < m.len() implies schluessel_ok(#[trigger] schluessel_von(m)[i]) by {
        lemma_schluessel_eigenschaften(m[i]);
    }
    assert forall|i: int| 0 <= i < r.len() implies schluessel_ok(#[trigger] schluessel_von(r)[i]) by {
        lemma_schluessel_eigenschaften(r[i]);
    }
    lemma_zonen_rund(schluessel_von(l), schluessel_von(m), schluessel_von(r));
    lemma_widgets_aus_schluessel(l);
    lemma_widgets_aus_schluessel(m);
    lemma_widgets_aus_schluessel(r);
}

// ----------------------------------------------------------------- panel

/// The standard bar layout.
pub const BAR_STANDARD: &'static str = "matrix fokus | uhr | akku puls tray glocke zentrale nutzer";

/// The layout as the settings panel edits it.
pub struct Panel {
    pub links: Vec<BarWidget>,
    pub mitte: Vec<BarWidget>,
    pub rechts: Vec<BarWidget>,
    pub pins: Vec<String>,
    /// The second dock row, known keys only.
    pub zeile2: Vec<String>,
    /// The zone that new widgets go to.
    pub ziel: Zone,
}

/// (left, middle, right, dock pins, second row, target zone)
pub type PanelSicht = (Seq<BarWidget>, Seq<BarWidget>, Seq<BarWidget>, Seq<Seq<char>>, Seq<Seq<char>>, Zone);

/// The character sequences held by a sequence of strings.
pub open spec fn texte(v: Seq<String>) -> Seq<Seq<char>> {
    v.map_values(|x: String| x@)
}

impl View for Panel {
    type V = PanelSicht;

    open spec fn view(&self) -> PanelSicht {
        (self.links@, self.mitte@, self.rechts@, texte(self.pins@), texte(self.zeile2@), self.ziel)
    }
}

/// An edit of the layout.
pub enum Msg {
    ZielWahl(Zone),
    BarHinzu(BarWidget),
    BarWeg(Zone, usize),
    BarLinks(Zone, usize),
    BarRechts(Zone, usize),
    DockHinzu(String),
    DockWeg(usize),
    DockSchieben(usize, i32),
    Zeile2Hinzu(String),
    Zeile2Weg(usize),
    Zeile2Schieben(usize, i32),
    Standard,
}

/// The widgets of one zone.
pub open spec fn zone_von(v: PanelSicht, z: Zone) -> Seq<BarWidget> {
    match z {
        Zone::Links => v.0,
        Zone::Mitte => v.1,
        Zone::Rechts => v.2,
    }
}

/// The view with the widgets of one zone replaced.
pub open spec fn mit_zone(v: PanelSicht, z: Zone, s: Seq<BarWidget>) -> PanelSicht {
    match z {
        Zone::Links => (s, v.1, v.2, v.3, v.4, v.5),
        Zone::Mitte => (v.0, s, v.2, v.3, v.4, v.5),
        Zone::Rechts => (v.0, v.1, s, v.3, v.4, v.5),
    }
}

/// The three zones read as one band, left to right.
pub open spec fn band(v: PanelSicht) -> Seq<BarWidget> {
    v.0 + v.1 + v.2
}

/// Where a zone starts in the band.
pub open spec fn versatz(v: PanelSicht, z: Zone) -> int {
    match z {
        Zone::Links => 0,
        Zone::Mitte => v.0.len() as int,
        Zone::Rechts => (v.0.len() + v.1.len()) as int,
    }
}

/// `s` with the entries at `i` and `j` exchanged.
pub open spec fn vertauscht<T>(s: Seq<T>, i: int, j: int) -> Seq<T> {
    s.update(i, s[j]).update(j, s[i])
}

/// One step to the left: within the zone, swap with the left neighbour; the first widget
/// of the middle or right zone moves to the end of the zone before it.
pub open spec fn links_spec(v: PanelSicht, z: Zone, i: int) -> PanelSicht {
    if i > 0 {
        mit_zone(v, z, vertauscht(zone_von(v, z), i - 1, i))
    } else {
        match z {
            Zone::Links => v,
            Zone::Mitte => if v.1.len() > 0 {
                (v.0.push(v.1[0]), v.1.remove(0), v.2, v.3, v.4, v.5)
            } else {
                v
            },
            Zone::Rechts => if v.2.len() > 0 {
                (v.0, v.1.push(v.2[0]), v.2.remove(0), v.3, v.4, v.5)
            } else {
                v
            },
        }
    }
}

/// One step to the right: within the zone, swap with the right neighbour; the last widget
/// of the left or middle zone moves to the start of the zone after it.
pub open spec fn rechts_spec(v: PanelSicht, z: Zone, i: int) -> PanelSicht {
    if i + 1 < zone_von(v, z).len() {
        mit_zone(v, z, vertauscht(zone_von(v, z), i, i + 1))
    } else {
        match z {
            Zone::Rechts => v,
            Zone::Links => if 0 <= i < v.0.len() {
                (v.0.remove(i), v.1.insert(0, v.0[i]), v.2, v.3, v.4, v.5)
            } else {
                v
            },
            Zone::Mitte => if 0 <= i < v.1.len() {
                (v.0, v.1.remove(i), v.2.insert(0, v.1[i]), v.3, v.4, v.5)
            } else {
                v
            },
        }
    }
}

/// `s` with the entries at `i` and `i + d` exchanged, when `i + d` is an index of `s`.
pub open spec fn geschoben<T>(s: Seq<T>, i: usize, d: i32) -> Seq<T> {
    let j = i as int + d as int;
    if 0 <= j < s.len() {
        vertauscht(s, i as int, j)
    } else {
        s
    }
}

/// The standard layout text.
pub open spec fn bar_standard() -> Seq<char> {
    "matrix fokus | uhr | akku puls tray glocke zentrale nutzer"@
}

/// The standard zones: the layout that `bar_standard()` spells.
pub open spec fn standard_links() -> Seq<BarWidget> {
    seq![BarWidget::Matrix, BarWidget::Fokus]
}

pub open spec fn standard_mitte() -> Seq<BarWidget> {
    seq![BarWidget::Uhr]
}

pub open spec fn standard_rechts() -> Seq<BarWidget> {
    seq![
        BarWidget::Akku,
        BarWidget::Puls,
        BarWidget::Tray,
        BarWidget::Glocke,
        BarWidget::Zentrale,
        BarWidget::Nutzer,
    ]
}

/// What an edit does to the layout, and whether the layout must be saved afterwards.
pub open spec fn update_spec(v: PanelSicht, msg: Msg) -> (PanelSicht, bool) {
    match msg {
        Msg::ZielWahl(z) => ((v.0, v.1, v.2, v.3, v.4, z), false),
        Msg::BarHinzu(w) => if band(v).contains(w) {
            (v, false)
        } else {
            (mit_zone(v, v.5, zone_von(v, v.5).push(w)), true)
        },
        Msg::BarWeg(z, i) => if i < zone_von(v, z).len() {
            (mit_zone(v, z, zone_von(v, z).remove(i as int)), true)
        } else {
            (v, false)
        },
        Msg::BarLinks(z, i) => (links_spec(v, z, i as int), true),
        Msg::BarRechts(z, i) => (rechts_spec(v, z, i as int), true),
        Msg::DockHinzu(id) => if v.3.contains(id@) {
            (v, false)
        } else {
            ((v.0, v.1, v.2, v.3.push(id@), v.4, v.5), true)
        },
        Msg::DockWeg(i) => if i < v.3.len() {
            ((v.0, v.1, v.2, v.3.remove(i as int), v.4, v.5), true)
        } else {
            (v, false)
        },
        Msg::DockSchieben(i, d) => {
            let j = i as int + d as int;
            ((v.0, v.1, v.2, geschoben(v.3, i, d), v.4, v.5), 0 <= j < v.3.len())
        },
        Msg::Zeile2Hinzu(id) => if v.4.contains(id@) {
            (v, false)
        } else {
            ((v.0, v.1, v.2, v.3, v.4.push(id@), v.5), true)
        },
        Msg::Zeile2Weg(i) => if i < v.4.len() {
            ((v.0, v.1, v.2, v.3, v.4.remove(i as int), v.5), true)
        } else {
            (v, false)
        },
        Msg::Zeile2Schieben(i, d) => {
            let j = i as int + d as int;
            ((v.0, v.1, v.2, v.3, geschoben(v.4, i, d), v.5), 0 <= j < v.4.len())
        },
        Msg::Standard => ((standard_links(), standard_mitte(), standard_rechts(), seq![
            "matrix-einstellungen"@,
        ], seq!["apps"@], v.5), true),
    }
}

/// The edits that the panel never panics on: a move to the left names a widget (or the
/// first place), a move to the right an index below `usize::MAX`, and a dock move a row
/// index that fits an `i32` and, when its target is in the row, lies in the row itself.
pub open spec fn msg_zulaessig(v: PanelSicht, msg: Msg) -> bool {
    match msg {
        Msg::BarLinks(z, i) => i == 0 || i < zone_von(v, z).len(),
        Msg::BarRechts(_, i) => i < usize::MAX,
        Msg::DockSchieben(i, d) => schieben_zulaessig(v.3.len(), i, d),
        Msg::Zeile2Schieben(i, d) => schieben_zulaessig(v.4.len(), i, d),
        _ => true,
    }
}

pub open spec fn schieben_zulaessig(len: nat, i: usize, d: i32) -> bool {
    &&& i <= i32::MAX
    &&& i32::MIN <= (i as int + d as int) && (i as int + d as int) <= i32::MAX
    &&& (0 <= (i as int + d as int) && (i as int + d as int) < len ==> i < len)
}

fn tausche<T>(v: &mut Vec<T>, i: usize, j: usize)
    requires
        i < old(v)@.len(),
        j < old(v)@.len(),
    ensures
        final(v)@ == vertauscht(old(v)@, i as int, j as int),
{
    if i == j {
        assert(vertauscht(old(v)@, i as int, j as int) =~= old(v)@);
        return ;
    }
    let (a, b) = if i < j {
        (i, j)
    } else {
        (j, i)
    };
    let ghost s = v@;
    let y = v.remove(b);
    let x = v.remove(a);
    v.insert(a, y);
    v.insert(b, x);
    assert(v@ =~= vertauscht(s, i as int, j as int));
}

fn string_gleich(a: &String, b: &String) -> (r: bool)
    ensures
        r == (a@ == b@),
{
    a.eq(b)
}

fn enthaelt(v: &Vec<String>, x: &String) -> (r: bool)
    ensures
        r == texte(v@).contains(x@),
{
    let mut i: usize = 0;
    while i < v.len()
        invariant
            i <= v@.len(),
            forall|k: int| 0 <= k < i ==> v@[k]@ != x@,
        decreases v.len() - i,
    {
        if string_gleich(&v[i], x) {
            assert(texte(v@)[i as int] == x@);
            return true;
        }
        i = i + 1;
    }
    assert forall|k: int| 0 <= k < texte(v@).len() implies texte(v@)[k] != x@ by {
        assert(texte(v@)[k] == v@[k]@);
    }
    false
}

fn schieben(v: &mut Vec<String>, i: usize, d: i32) -> (moved: bool)
    requires
        schieben_zulaessig(old(v)@.len(), i, d),
    ensures
        texte(final(v)@) == geschoben(texte(old(v)@), i, d),
        moved == (0 <= (i as int + d as int) && (i as int + d as int) < old(v)@.len()),
{
    let j = i as i32 + d;
    if j >= 0 && (j as usize) < v.len() {
        let ghost s = v@;
        tausche(v, i, j as usize);
        assert(texte(v@) =~= vertauscht(texte(s), i as int, j as int));
        true
    } else {
        false
    }
}

impl Panel {
    /// The layout from the three settings (`None` for a missing one): the bar zones, the
    /// dock pins, and the second dock row with unknown keys left out.
    pub fn aus_einstellungen(bar: Option<&str>, pins: Option<&str>, zeile2: Option<&str>) -> (r:
        Panel)
        ensures
            r@.0 == zonen_parse_spec(match bar {
                Some(b) => b@,
                None => bar_standard(),
            }).0,
            r@.1 == zonen_parse_spec(match bar {
                Some(b) => b@,
                None => bar_standard(),
            }).1,
            r@.2 == zonen_parse_spec(match bar {
                Some(b) => b@,
                None => bar_standard(),
            }).2,
            r@.3 == words(match pins {
                Some(p) => p@,
                None => "matrix-einstellungen"@,
            }),
            r@.4 == words(match zeile2 {
                Some(z) => z@,
                None => "apps"@,
            }).filter(|k: Seq<char>| zeile2_bekannt(k)),
            r@.5 == Zone::Rechts,
    {
        let (links, mitte, rechts) = zonen_parse(
            match bar {
                Some(b) => b,
                None => "matrix fokus | uhr | akku puls tray glocke zentrale nutzer",
            },
        );
        let pv = chars_of(
            match pins {
                Some(p) => p,
                None => "matrix-einstellungen",
            },
        );
        let pw = split_whitespace(&pv);
        let zv = chars_of(
            match zeile2 {
                Some(z) => z,
                None => "apps",
            },
        );
        let zw = split_whitespace(&zv);
        let mut pins_s: Vec<String> = Vec::new();
        let mut i: usize = 0;
        while i < pw.len()
            invariant
                i <= pw@.len(),
                texte(pins_s@) == views(pw@).take(i as int),
            decreases pw.len() - i,
        {
            let ghost before = pins_s@;
            pins_s.push(string_of(&pw[i]));
            assert(texte(pins_s@) =~= texte(before).push(pw@[i as int]@));
            assert(texte(pins_s@) =~= views(pw@).take(i + 1));
            i = i + 1;
        }
        assert(views(pw@).take(pw@.len() as int) =~= views(pw@));
        let mut zeile2_s: Vec<String> = Vec::new();
        let mut i: usize = 0;
        assert(views(zw@).take(0) =~= Seq::<Seq<char>>::empty());
        while i < zw.len()
            invariant
                i <= zw@.len(),
                texte(zeile2_s@) == views(zw@).take(i as int).filter(
                    |k: Seq<char>| zeile2_bekannt(k),
                ),
            decreases zw.len() - i,
        {
            proof {
                reveal(Seq::filter);
            }
            assert(views(zw@).take(i + 1).drop_last() =~= views(zw@).take(i as int));
            if zeile2_eintrag_chars(&zw[i]).is_some() {
                let ghost before = zeile2_s@;
                zeile2_s.push(string_of(&zw[i]));
                assert(texte(zeile2_s@) =~= texte(before).push(zw@[i as int]@));
            }
            i = i + 1;
        }
        assert(views(zw@).take(zw@.len() as int) =~= views(zw@));
        Panel { links, mitte, rechts, pins: pins_s, zeile2: zeile2_s, ziel: Zone::Rechts }
    }

    /// Whether the widget already stands in one of the zones.
    pub fn platziert(&self, w: BarWidget) -> (r: bool)
        ensures
            r == band(self@).contains(w),
    {
        let r = vec_enthaelt(&self.links, w) || vec_enthaelt(&self.mitte, w) || vec_enthaelt(
            &self.rechts,
            w,
        );
        proof {
            let b = band(self@);
            if b.contains(w) {
                let k = choose|k: int| 0 <= k < b.len() && b[k] == w;
                if k < self.links@.len() {
                    assert(self.links@[k] == w);
                } else if k < self.links@.len() + self.mitte@.len() {
                    assert(self.mitte@[k - self.links@.len()] == w);
                } else {
                    assert(self.rechts@[k - self.links@.len() - self.mitte@.len()] == w);
                }
            }
            if r {
                if self.links@.contains(w) {
                    let k = choose|k: int| 0 <= k < self.links@.len() && self.links@[k] == w;
                    assert(b[k] == w);
                } else if self.mitte@.contains(w) {
                    let k = choose|k: int| 0 <= k < self.mitte@.len() && self.mitte@[k] == w;
                    assert(b[k + self.links@.len()] == w);
                } else {
                    let k = choose|k: int| 0 <= k < self.rechts@.len() && self.rechts@[k] == w;
                    assert(b[k + self.links@.len() + self.mitte@.len()] == w);
                }
            }
        }
        r
    }

    /// One step to the left (see `links_spec`).
    pub fn bar_links(&mut self, z: Zone, i: usize)
        requires
            i == 0 || i < zone_von(old(self)@, z).len(),
        ensures
            final(self)@ == links_spec(old(self)@, z, i as int),
    {
        if i > 0 {
            match z {
                Zone::Links => tausche(&mut self.links, i - 1, i),
                Zone::Mitte => tausche(&mut self.mitte, i - 1, i),
                Zone::Rechts => tausche(&mut self.rechts, i - 1, i),
            }
            return ;
        }
        match z {
            Zone::Links => {},
            Zone::Mitte => {
                if self.mitte.len() > 0 {
                    let w = self.mitte.remove(0);
                    self.links.push(w);
                }
            },
            Zone::Rechts => {
                if self.rechts.len() > 0 {
                    let w = self.rechts.remove(0);
                    self.mitte.push(w);
                }
            },
        }
    }

    /// One step to the right (see `rechts_spec`).
    pub fn bar_rechts(&mut self, z: Zone, i: usize)
        requires
            i < usize::MAX,
        ensures
            final(self)@ == rechts_spec(old(self)@, z, i as int),
    {
        let len = match z {
            Zone::Links => self.links.len(),
            Zone::Mitte => self.mitte.len(),
            Zone::Rechts => self.rechts.len(),
        };
        if i + 1 < len {
            match z {
                Zone::Links => tausche(&mut self.links, i, i + 1),
                Zone::Mitte => tausche(&mut self.mitte, i, i + 1),
                Zone::Rechts => tausche(&mut self.rechts, i, i + 1),
            }
            return ;
        }
        match z {
            Zone::Rechts => {},
            Zone::Links => {
                if i < self.links.len() {
                    let w = self.links.remove(i);
                    self.mitte.insert(0, w);
                }
            },
            Zone::Mitte => {
                if i < self.mitte.len() {
                    let w = self.mitte.remove(i);
                    self.rechts.insert(0, w);
                }
            },
        }
    }

    /// The three settings texts that saving writes: `bar-widgets` (the zones), `dock-pins`
    /// and `dock-widgets` (the pins and the second row, each joined by blanks).
    pub fn speicher_texte(&self) -> (r: (String, String, String))
        ensures
            r.0@ == zonen_string_spec(self.links@, self.mitte@, self.rechts@),
            r.1@ == join(texte(self.pins@), seq![' ']),
            r.2@ == join(texte(self.zeile2@), seq![' ']),
    {
        (
            zonen_string(self.links.as_slice(), self.mitte.as_slice(), self.rechts.as_slice()),
            mit_blanks(&self.pins),
            mit_blanks(&self.zeile2),
        )
    }

    /// Applies an edit; the result says whether the layout must be saved (then the texts of
    /// `speicher_texte` are written).
    pub fn update(&mut self, msg: Msg) -> (sichern: bool)
        requires
            msg_zulaessig(old(self)@, msg),
        ensures
            (final(self)@, sichern) == update_spec(old(self)@, msg),
    {
        match msg {
            Msg::ZielWahl(z) => {
                self.ziel = z;
                false
            },
            Msg::BarHinzu(w) => {
                if !self.platziert(w) {
                    match self.ziel {
                        Zone::Links => self.links.push(w),
                        Zone::Mitte => self.mitte.push(w),
                        Zone::Rechts => self.rechts.push(w),
                    }
                    true
                } else {
                    false
                }
            },
            Msg::BarWeg(z, i) => {
                match z {
                    Zone::Links => if i < self.links.len() {
                        self.links.remove(i);
                        return true;
                    },
                    Zone::Mitte => if i < self.mitte.len() {
                        self.mitte.remove(i);
                        return true;
                    },
                    Zone::Rechts => if i < self.rechts.len() {
                        self.rechts.remove(i);
                        return true;
                    },
                }
                false
            },
            Msg::BarLinks(z, i) => {
                self.bar_links(z, i);
                true
            },
            Msg::BarRechts(z, i) => {
                self.bar_rechts(z, i);
                true
            },
            Msg::DockHinzu(id) => {
                if !enthaelt(&self.pins, &id) {
                    let ghost before = self.pins@;
                    let ghost idv = id@;
                    self.pins.push(id);
                    assert(texte(self.pins@) =~= texte(before).push(idv));
                    true
                } else {
                    false
                }
            },
            Msg::DockWeg(i) => {
                if i < self.pins.len() {
                    let ghost before = self.pins@;
                    self.pins.remove(i);
                    assert(texte(self.pins@) =~= texte(before).remove(i as int));
                    true
                } else {
                    false
                }
            },
            Msg::DockSchieben(i, d) => schieben(&mut self.pins, i, d),
            Msg::Zeile2Hinzu(id) => {
                if !enthaelt(&self.zeile2, &id) {
                    let ghost before = self.zeile2@;
                    let ghost idv = id@;
                    self.zeile2.push(id);
                    assert(texte(self.zeile2@) =~= texte(before).push(idv));
                    true
                } else {
                    false
                }
            },
            Msg::Zeile2Weg(i) => {
                if i < self.zeile2.len() {
                    let ghost before = self.zeile2@;
                    self.zeile2.remove(i);
                    assert(texte(self.zeile2@) =~= texte(before).remove(i as int));
                    true
                } else {
                    false
                }
            },
            Msg::Zeile2Schieben(i, d) => schieben(&mut self.zeile2, i, d),
            Msg::Standard => {
                self.links = vec![BarWidget::Matrix, BarWidget::Fokus];
                self.mitte = vec![BarWidget::Uhr];
                self.rechts = vec![
                    BarWidget::Akku,
                    BarWidget::Puls,
                    BarWidget::Tray,
                    BarWidget::Glocke,
                    BarWidget::Zentrale,
                    BarWidget::Nutzer,
                ];
                assert(self.links@ =~= standard_links());
                assert(self.mitte@ =~= standard_mitte());
                assert(self.rechts@ =~= standard_rechts());
                let mut pins: Vec<String> = Vec::new();
                pins.push(string_of(&chars_of("matrix-einstellungen")));
                let mut z2: Vec<String> = Vec::new();
                z2.push(string_of(&chars_of("apps")));
                assert(texte(pins@) =~= seq!["matrix-einstellungen"@]);
                assert(texte(z2@) =~= seq!["apps"@]);
                self.pins = pins;
                self.zeile2 = z2;
                true
            },
        }
    }
}

fn vec_enthaelt(v: &Vec<BarWidget>, w: BarWidget) -> (r: bool)
    ensures
        r == v@.contains(w),
{
    let mut i: usize = 0;
    while i < v.len()
        invariant
            i <= v@.len(),
            forall|k: int| 0 <= k < i ==> v@[k] != w,
        decreases v.len() - i,
    {
        if v[i] == w {
            return true;
        }
        i = i + 1;
    }
    false
}

// ------------------------------------------------------------ second row

/// Whether a key belongs to the second dock row catalogue.
pub open spec fn zeile2_bekannt(k: Seq<char>) -> bool {
    k == "apps"@ || k == "zentrale"@ || k == "uhr"@ || k == "zwischenablage"@ || k == "aufnahme"@
}

/// The catalogue entry (key, title, subtitle) of a second-row widget.
pub open spec fn zeile2_spec(k: Seq<char>) -> Option<(Seq<char>, Seq<char>, Seq<char>)> {
    if k == "apps"@ {
        Some(("apps"@, "Apps"@, "Der App-Launcher-Knopf"@))
    } else if k == "zentrale"@ {
        Some(("zentrale"@, "Zentrale"@, "Kontrollzentrum"@))
    } else if k == "uhr"@ {
        Some(("uhr"@, "Uhr"@, "Uhrzeit"@))
    } else if k == "zwischenablage"@ {
        Some(("zwischenablage"@, "Zwischenablage"@, "Kopien-Verlauf"@))
    } else if k == "aufnahme"@ {
        Some(("aufnahme"@, "Aufnahme"@, "Bildschirmfoto & -film"@))
    } else {
        None
    }
}

fn zeile2_eintrag_chars(k: &Vec<char>) -> (r: Option<(&'static str, &'static str, &'static str)>)
    ensures
        match zeile2_spec(k@) {
            Some(e) => r matches Some(x) && (x.0@, x.1@, x.2@) == e,
            None => r is None,
        },
        r is Some <==> zeile2_bekannt(k@),
{
    if same_str(k, "apps") {
        Some(("apps", "Apps", "Der App-Launcher-Knopf"))
    } else if same_str(k, "zentrale") {
        Some(("zentrale", "Zentrale", "Kontrollzentrum"))
    } else if same_str(k, "uhr") {
        Some(("uhr", "Uhr", "Uhrzeit"))
    } else if same_str(k, "zwischenablage") {
        Some(("zwischenablage", "Zwischenablage", "Kopien-Verlauf"))
    } else if same_str(k, "aufnahme") {
        Some(("aufnahme", "Aufnahme", "Bildschirmfoto & -film"))
    } else {
        None
    }
}

/// The catalogue entry (key, title, subtitle) of a second-row widget.
pub fn zeile2_eintrag(schluessel: &str) -> (r: Option<(&'static str, &'static str, &'static str)>)
    ensures
        match zeile2_spec(schluessel@) {
            Some(e) => r matches Some(x) && (x.0@, x.1@, x.2@) == e,
            None => r is None,
        },
{
    let k = chars_of(schluessel);
    zeile2_eintrag_chars(&k)
}

// ------------------------------------------------------------------ dock

/// The title of a pinnable app: its catalogue title, or the app id itself.
pub open spec fn dock_titel_spec(app_id: Seq<char>) -> Seq<char> {
    if app_id == "matrix-einstellungen"@ {
        "Einstellungen"@
    } else if app_id == "matrix-farben"@ {
        "Farben"@
    } else if app_id == "matrix-start"@ {
        "Start"@
    } else if app_id == "matrix-dateien"@ {
        "Dateien"@
    } else if app_id == "matrix-web"@ {
        "Web"@
    } else if app_id == "matrix-codes"@ {
        "Codes"@
    } else if app_id == "matrix-schluessel"@ {
        "Schlüssel"@
    } else if app_id == "matrix-updater"@ {
        "Updater"@
    } else if app_id == "matrix-mitteilungen"@ {
        "Mitteilungen"@
    } else if app_id == "matrix-klaenge"@ {
        "Klänge"@
    } else if app_id == "matrix-sysmon"@ {
        "Systemmonitor"@
    } else if app_id == "matrix-icons-app"@ {
        "Icon Composer"@
    } else if app_id == "matrix-aufnahme"@ {
        "Aufnahme"@
    } else if app_id == "matrix-hilfe"@ {
        "Hilfe"@
    } else {
        app_id
    }
}

/// The title of a pinnable app: its catalogue title, or the app id itself.
pub fn dock_titel<'a>(app_id: &'a str) -> (r: &'a str)
    ensures
        r@ == dock_titel_spec(app_id@),
{
    let k = chars_of(app_id);
    if same_str(&k, "matrix-einstellungen") {
        "Einstellungen"
    } else if same_str(&k, "matrix-farben") {
        "Farben"
    } else if same_str(&k, "matrix-start") {
        "Start"
    } else if same_str(&k, "matrix-dateien") {
        "Dateien"
    } else if same_str(&k, "matrix-web") {
        "Web"
    } else if same_str(&k, "matrix-codes") {
        "Codes"
    } else if same_str(&k, "matrix-schluessel") {
        "Schlüssel"
    } else if same_str(&k, "matrix-updater") {
        "Updater"
    } else if same_str(&k, "matrix-mitteilungen") {
        "Mitteilungen"
    } else if same_str(&k, "matrix-klaenge") {
        "Klänge"
    } else if same_str(&k, "matrix-sysmon") {
        "Systemmonitor"
    } else if same_str(&k, "matrix-icons-app") {
        "Icon Composer"
    } else if same_str(&k, "matrix-aufnahme") {
        "Aufnahme"
    } else if same_str(&k, "matrix-hilfe") {
        "Hilfe"
    } else {
        app_id
    }
}

// ------------------------------------------------------------ panel laws

/// No entry occurs twice.
pub open spec fn ohne_dubletten<T>(s: Seq<T>) -> bool {
    forall|i: int, j: int| 0 <= i < j < s.len() ==> s[i] != s[j]
}

/// The zone to the right of `z` (the right zone has none; it maps to itself).
pub open spec fn naechste(z: Zone) -> Zone {
    match z {
        Zone::Links => Zone::Mitte,
        _ => Zone::Rechts,
    }
}

/// The zone to the left of `z` (the left zone maps to itself).
pub open spec fn vorige(z: Zone) -> Zone {
    match z {
        Zone::Rechts => Zone::Mitte,
        _ => Zone::Links,
    }
}

/// A step to the right only ever swaps two neighbours of the band, or leaves the band as it
/// is (a widget that crosses into the next zone keeps its place in the band).
pub proof fn lemma_band_rechts(v: PanelSicht, z: Zone, i: int)
    requires
        0 <= i,
    ensures
        band(rechts_spec(v, z, i)) == if i + 1 < zone_von(v, z).len() {
            vertauscht(band(v), versatz(v, z) + i, versatz(v, z) + i + 1)
        } else {
            band(v)
        },
{
    let n = rechts_spec(v, z, i);
    if i + 1 < zone_von(v, z).len() {
        assert(band(n) =~= vertauscht(band(v), versatz(v, z) + i, versatz(v, z) + i + 1));
    } else {
        assert(band(n) =~= band(v));
    }
}

/// A step to the left only ever swaps two neighbours of the band, or leaves the band as it is.
pub proof fn lemma_band_links(v: PanelSicht, z: Zone, i: int)
    requires
        i == 0 || 0 < i < zone_von(v, z).len(),
    ensures
        band(links_spec(v, z, i)) == if i > 0 {
            vertauscht(band(v), versatz(v, z) + i - 1, versatz(v, z) + i)
        } else {
            band(v)
        },
{
    let n = links_spec(v, z, i);
    if i > 0 {
        assert(band(n) =~= vertauscht(band(v), versatz(v, z) + i - 1, versatz(v, z) + i));
    } else {
        assert(band(n) =~= band(v));
    }
}

/// A step to the left undoes a step to the right: the widget at `i` of zone `z` that moved
/// right (within its zone, or to the front of the next zone) moves back to where it was.
pub proof fn lemma_links_hebt_rechts_auf(v: PanelSicht, z: Zone, i: int)
    requires
        0 <= i < zone_von(v, z).len(),
        !(z == Zone::Rechts && i + 1 == zone_von(v, z).len()),
    ensures
        ({
            let n = rechts_spec(v, z, i);
            if i + 1 < zone_von(v, z).len() {
                links_spec(n, z, i + 1) == v
            } else {
                links_spec(n, naechste(z), 0) == v
            }
        }),
{
    let n = rechts_spec(v, z, i);
    if i + 1 < zone_von(v, z).len() {
        let back = links_spec(n, z, i + 1);
        assert(zone_von(back, z) =~= zone_von(v, z));
        assert(back.0 =~= v.0 && back.1 =~= v.1 && back.2 =~= v.2);
    } else {
        let back = links_spec(n, naechste(z), 0);
        assert(back.0 =~= v.0 && back.1 =~= v.1 && back.2 =~= v.2);
    }
}

/// A step to the right undoes a step to the left: the widget at `i` of zone `z` that moved
/// left (within its zone, or to the end of the zone before) moves back to where it was.
pub proof fn lemma_rechts_hebt_links_auf(v: PanelSicht, z: Zone, i: int)
    requires
        0 <= i < zone_von(v, z).len(),
        !(z == Zone::Links && i == 0),
    ensures
        ({
            let n = links_spec(v, z, i);
            if i > 0 {
                rechts_spec(n, z, i - 1) == v
            } else {
                rechts_spec(n, vorige(z), zone_von(v, vorige(z)).len() as int) == v
            }
        }),
{
    let n = links_spec(v, z, i);
    if i > 0 {
        let back = rechts_spec(n, z, i - 1);
        assert(back.0 =~= v.0 && back.1 =~= v.1 && back.2 =~= v.2);
    } else {
        let back = rechts_spec(n, vorige(z), zone_von(v, vorige(z)).len() as int);
        assert(back.0 =~= v.0 && back.1 =~= v.1 && back.2 =~= v.2);
    }
}

proof fn lemma_vertauscht_ohne<T>(s: Seq<T>, i: int, j: int)
    requires
        ohne_dubletten(s),
        0 <= i < s.len(),
        0 <= j < s.len(),
    ensures
        ohne_dubletten(vertauscht(s, i, j)),
{
    let t = vertauscht(s, i, j);
    assert forall|a: int, b: int| 0 <= a < b < t.len() implies t[a] != t[b] by {
        let sa = if a == j {
            i
        } else if a == i {
            j
        } else {
            a
        };
        let sb = if b == j {
            i
        } else if b == i {
            j
        } else {
            b
        };
        assert(t[a] == s[sa] && t[b] == s[sb]);
        if sa < sb {
            assert(s[sa] != s[sb]);
        } else {
            assert(s[sb] != s[sa]);
        }
    }
}

proof fn lemma_remove_ohne<T>(s: Seq<T>, k: int)
    requires
        ohne_dubletten(s),
        0 <= k < s.len(),
    ensures
        ohne_dubletten(s.remove(k)),
{
    let t = s.remove(k);
    assert forall|a: int, b: int| 0 <= a < b < t.len() implies t[a] != t[b] by {
        let sa = if a < k {
            a
        } else {
            a + 1
        };
        let sb = if b < k {
            b
        } else {
            b + 1
        };
        assert(t[a] == s[sa] && t[b] == s[sb]);
    }
}

proof fn lemma_insert_ohne<T>(s: Seq<T>, k: int, x: T)
    requires
        ohne_dubletten(s),
        0 <= k <= s.len(),
        !s.contains(x),
    ensures
        ohne_dubletten(s.insert(k, x)),
{
    let t = s.insert(k, x);
    assert forall|a: int, b: int| 0 <= a < b < t.len() implies t[a] != t[b] by {
        if a == k {
            assert(t[b] == s[b - 1]);
        } else if b == k {
            assert(t[a] == s[a]);
        } else {
            let sa = if a < k {
                a
            } else {
                a - 1
            };
            let sb = if b < k {
                b
            } else {
                b - 1
            };
            assert(t[a] == s[sa] && t[b] == s[sb]);
        }
    }
}

/// No widget appears twice: an allowed message keeps the bar, the dock pins and the second
/// row free of repeats.
#[verifier::rlimit(60)]
pub proof fn lemma_keine_dubletten(v: PanelSicht, msg: Msg)
    requires
        ohne_dubletten(band(v)),
        ohne_dubletten(v.3),
        ohne_dubletten(v.4),
        msg_zulaessig(v, msg),
    ensures
        ohne_dubletten(band(update_spec(v, msg).0)),
        ohne_dubletten(update_spec(v, msg).0.3),
        ohne_dubletten(update_spec(v, msg).0.4),
{
    let n = update_spec(v, msg).0;
    match msg {
        Msg::ZielWahl(z) => {
            assert(band(n) =~= band(v));
        },
        Msg::BarHinzu(w) => {
            if !band(v).contains(w) {
                let k = versatz(v, v.5) + zone_von(v, v.5).len();
                lemma_insert_ohne(band(v), k, w);
                assert(band(n) =~= band(v).insert(k, w));
            }
        },
        Msg::BarWeg(z, i) => {
            if i < zone_von(v, z).len() {
                lemma_remove_ohne(band(v), versatz(v, z) + i);
                assert(band(n) =~= band(v).remove(versatz(v, z) + i));
            }
        },
        Msg::BarLinks(z, i) => {
            lemma_band_links(v, z, i as int);
            if i > 0 {
                lemma_vertauscht_ohne(band(v), versatz(v, z) + i - 1, versatz(v, z) + i);
            }
        },
        Msg::BarRechts(z, i) => {
            lemma_band_rechts(v, z, i as int);
            if i + 1 < zone_von(v, z).len() {
                lemma_vertauscht_ohne(band(v), versatz(v, z) + i, versatz(v, z) + i + 1);
            }
        },
        Msg::DockHinzu(id) => {
            if !v.3.contains(id@) {
                lemma_insert_ohne(v.3, v.3.len() as int, id@);
                assert(v.3.push(id@) =~= v.3.insert(v.3.len() as int, id@));
            }
            assert(band(n) =~= band(v));
        },
        Msg::DockWeg(i) => {
            if i < v.3.len() {
                lemma_remove_ohne(v.3, i as int);
            }
            assert(band(n) =~= band(v));
        },
        Msg::DockSchieben(i, d) => {
            let j = i as int + d as int;
            if 0 <= j < v.3.len() {
                lemma_vertauscht_ohne(v.3, i as int, j);
            }
            assert(band(n) =~= band(v));
        },
        Msg::Zeile2Hinzu(id) => {
            if !v.4.contains(id@) {
                lemma_insert_ohne(v.4, v.4.len() as int, id@);
                assert(v.4.push(id@) =~= v.4.insert(v.4.len() as int, id@));
            }
            assert(band(n) =~= band(v));
        },
        Msg::Zeile2Weg(i) => {
            if i < v.4.len() {
                lemma_remove_ohne(v.4, i as int);
            }
            assert(band(n) =~= band(v));
        },
        Msg::Zeile2Schieben(i, d) => {
            let j = i as int + d as int;
            if 0 <= j < v.4.len() {
                lemma_vertauscht_ohne(v.4, i as int, j);
            }
            assert(band(n) =~= band(v));
        },
        Msg::Standard => {
            let b = band(n);
            assert(b =~= seq![
                BarWidget::Matrix,
                BarWidget::Fokus,
                BarWidget::Uhr,
                BarWidget::Akku,
                BarWidget::Puls,
                BarWidget::Tray,
                BarWidget::Glocke,
                BarWidget::Zentrale,
                BarWidget::Nutzer,
            ]);
        },
    }
}

} // verus!
