//! The dock: its tiles (pinned apps and running ones) built from the open windows, which
//! window a click goes to, the widget row, the clipboard history and the pin list.

use vstd::prelude::*;
use crate::json::{json_liste, json_liste_text, liste_lesen, liste_schreiben};
use crate::text::{
    chars_of, concat, is_ws, rfind, same, same_str, slice, split_whitespace, string_of,
    to_uppercase, trim, trim_chars, upper, views, words, join, join_with,
};

verus! {

/// An open window as the compositor reports it.
pub struct Fenster {
    pub id: u64,
    pub app_id: String,
    pub fokus: bool,
}

pub struct FensterSicht {
    pub id: u64,
    pub app_id: Seq<char>,
    pub fokus: bool,
}

impl View for Fenster {
    type V = FensterSicht;

    open spec fn view(&self) -> FensterSicht {
        FensterSicht { id: self.id, app_id: self.app_id@, fokus: self.fokus }
    }
}

impl Fenster {
    pub fn kopie(&self) -> (r: Fenster)
        ensures
            r@ == self@,
    {
        Fenster { id: self.id, app_id: self.app_id.clone(), fokus: self.fokus }
    }
}

pub open spec fn fenster_sicht(v: Seq<Fenster>) -> Seq<FensterSicht> {
    v.map_values(|f: Fenster| f@)
}

/// A dock tile: a pinned and/or running app.
pub struct Kachel {
    pub app_id: String,
    /// Its windows, oldest first.
    pub fenster: Vec<Fenster>,
    pub gepinnt: bool,
    /// One of its windows has the focus.
    pub fokus: bool,
    /// A small note over the icon.
    pub abzeichen: Option<String>,
}

pub struct KachelSicht {
    pub app_id: Seq<char>,
    pub fenster: Seq<FensterSicht>,
    pub gepinnt: bool,
    pub fokus: bool,
    pub abzeichen: Option<Seq<char>>,
}

impl View for Kachel {
    type V = KachelSicht;

    open spec fn view(&self) -> KachelSicht {
        KachelSicht {
            app_id: self.app_id@,
            fenster: fenster_sicht(self.fenster@),
            gepinnt: self.gepinnt,
            fokus: self.fokus,
            abzeichen: match self.abzeichen {
                Some(a) => Some(a@),
                None => None,
            },
        }
    }
}

pub open spec fn kacheln_sicht(v: Seq<Kachel>) -> Seq<KachelSicht> {
    v.map_values(|k: Kachel| k@)
}

/// The first focused window among them.
pub open spec fn erster_fokus(w: Seq<FensterSicht>) -> Option<nat>
    decreases w.len(),
{
    if w.len() == 0 {
        None
    } else if w[0].fokus {
        Some(0)
    } else {
        match erster_fokus(w.drop_first()) {
            Some(k) => Some(k + 1),
            None => None,
        }
    }
}

/// Where a click on a tile goes: for the focused app with several windows, the window after
/// the focused one (round), none if none is focused; otherwise the oldest window.
pub open spec fn ziel_spec(k: KachelSicht) -> Option<u64> {
    if k.fokus && k.fenster.len() > 1 {
        match erster_fokus(k.fenster) {
            Some(an) => Some(k.fenster[((an + 1) % k.fenster.len()) as int].id),
            None => None,
        }
    } else if k.fenster.len() > 0 {
        Some(k.fenster[0].id)
    } else {
        None
    }
}

proof fn lemma_erster_fokus(w: Seq<FensterSicht>)
    ensures
        erster_fokus(w) matches Some(k) ==> k < w.len() && w[k as int].fokus && forall|j: int|
            0 <= j < k ==> !(#[trigger] w[j]).fokus,
        erster_fokus(w) is None ==> forall|j: int| 0 <= j < w.len() ==> !(#[trigger] w[j]).fokus,
    decreases w.len(),
{
    if w.len() > 0 && !w[0].fokus {
        lemma_erster_fokus(w.drop_first());
        assert forall|j: int| 0 < j < w.len() implies w[j] == w.drop_first()[j - 1] by {}
    }
}

impl Kachel {
    /// Whether the app runs: it has a window.
    pub fn laeuft(&self) -> (r: bool)
        ensures
            r == (self.fenster@.len() > 0),
    {
        self.fenster.len() > 0
    }

    /// The window a click goes to.
    pub fn ziel(&self) -> (r: Option<u64>)
        ensures
            r == ziel_spec(self@),
    {
        let n = self.fenster.len();
        let ghost w = fenster_sicht(self.fenster@);
        proof {
            lemma_erster_fokus(w);
        }
        if self.fokus && n > 1 {
            let mut i: usize = 0;
            while i < n
                invariant
                    i <= n,
                    n > 1,
                    self.fokus,
                    n == self.fenster@.len(),
                    w == fenster_sicht(self.fenster@),
                    forall|j: int| 0 <= j < i ==> !(#[trigger] w[j]).fokus,
                decreases n - i,
            {
                if self.fenster[i].fokus {
                    assert(w[i as int].fokus);
                    proof {
                        lemma_erster_fokus(w);
                    }
                    assert(erster_fokus(w) == Some(i as nat)) by {
                        if erster_fokus(w) is None {
                        } else {
                            let k = erster_fokus(w)->0;
                            if k < i {
                                assert(!w[k as int].fokus);
                            } else if k > i {
                                assert(!w[i as int].fokus);
                            }
                        }
                    }
                    let j = (i + 1) % n;
                    assert(w.len() == n);
                    assert(j as int == ((i as nat + 1) % w.len()) as int);
                    assert(w[j as int].id == self.fenster@[j as int].id);
                    return Some(self.fenster[j].id);
                }
                i = i + 1;
            }
            return None;
        }
        if n > 0 {
            Some(self.fenster[0].id)
        } else {
            None
        }
    }
}

// ------------------------------------------------------------------ initial

/// The letter shown for an app without an icon: the first character of the part after the
/// last dot, upper-cased (`org.mozilla.firefox` gives `F`); `?` where that part is empty.
pub open spec fn initial_spec(app_id: Seq<char>) -> Seq<char> {
    let teil = match rfind(app_id, '.') {
        Some(k) => app_id.skip(k + 1int),
        None => app_id,
    };
    if teil.len() == 0 {
        "?"@
    } else {
        upper(teil[0])
    }
}

pub fn initial(app_id: &str) -> (r: String)
    ensures
        r@ == initial_spec(app_id@),
{
    let v = chars_of(app_id);
    let mut k: usize = v.len();
    assert(v@.take(v@.len() as int) =~= v@);
    while k > 0 && v[k - 1] != '.'
        invariant
            k <= v@.len(),
            rfind(v@, '.') == rfind(v@.take(k as int), '.'),
        decreases k,
    {
        assert(v@.take(k as int).drop_last() =~= v@.take(k - 1));
        k = k - 1;
    }
    proof {
        assert(v@.take(v@.len() as int) =~= v@);
        if k > 0 {
            assert(v@.take(k as int).last() == '.');
        }
    }
    let start: usize = if k > 0 {
        k
    } else {
        0
    };
    proof {
        if k > 0 {
            assert(rfind(v@, '.') == Some((k - 1) as nat));
        } else {
            assert(rfind(v@, '.') is None);
            assert(v@.skip(0) =~= v@);
        }
    }
    if start < v.len() {
        assert(v@.skip(start as int)[0] == v@[start as int]);
        string_of(&to_uppercase(v[start]))
    } else {
        string_of(&chars_of("?"))
    }
}

// ------------------------------------------------------------------ widgets

/// The widgets of the dock's second row.
#[derive(Clone, Copy, Debug, PartialEq, Eq, Structural)]
pub enum Widget {
    Apps,
    Zentrale,
    Uhr,
    Zwischenablage,
    Aufnahme,
}

pub open spec fn widget_spec(name: Seq<char>) -> Option<Widget> {
    if name == "apps"@ {
        Some(Widget::Apps)
    } else if name == "zentrale"@ {
        Some(Widget::Zentrale)
    } else if name == "uhr"@ {
        Some(Widget::Uhr)
    } else if name == "zwischenablage"@ {
        Some(Widget::Zwischenablage)
    } else if name == "aufnahme"@ {
        Some(Widget::Aufnahme)
    } else {
        None
    }
}

impl Widget {
    /// The widget a stored name stands for.
    pub fn aus(name: &str) -> (r: Option<Widget>)
        ensures
            r == widget_spec(name@),
    {
        widget_aus_chars(&chars_of(name))
    }
}

fn widget_aus_chars(v: &Vec<char>) -> (r: Option<Widget>)
    ensures
        r == widget_spec(v@),
{
    if same_str(v, "apps") {
        Some(Widget::Apps)
    } else if same_str(v, "zentrale") {
        Some(Widget::Zentrale)
    } else if same_str(v, "uhr") {
        Some(Widget::Uhr)
    } else if same_str(v, "zwischenablage") {
        Some(Widget::Zwischenablage)
    } else if same_str(v, "aufnahme") {
        Some(Widget::Aufnahme)
    } else {
        None
    }
}

/// The widgets that the words name, in order, unknown words left out.
pub open spec fn widgets_spec(ws: Seq<Seq<char>>) -> Seq<Widget>
    decreases ws.len(),
{
    if ws.len() == 0 {
        seq![]
    } else {
        let v = widgets_spec(ws.drop_last());
        match widget_spec(ws.last()) {
            Some(w) => v.push(w),
            None => v,
        }
    }
}

/// The stored widget row (the apps widget alone where nothing is stored).
pub open spec fn widgets_aus_spec(gespeichert: Option<Seq<char>>) -> Seq<Widget> {
    widgets_spec(
        words(
            match gespeichert {
                Some(g) => g,
                None => "apps"@,
            },
        ),
    )
}

pub fn widgets_aus(gespeichert: Option<&str>) -> (r: Vec<Widget>)
    ensures
        r@ == widgets_aus_spec(
            match gespeichert {
                Some(g) => Some(g@),
                None => None,
            },
        ),
{
    let text = match gespeichert {
        Some(g) => chars_of(g),
        None => chars_of("apps"),
    };
    let ws = split_whitespace(&text);
    let ghost wv = views(ws@);
    let mut r: Vec<Widget> = Vec::new();
    let mut i: usize = 0;
    assert(wv.take(0) =~= Seq::<Seq<char>>::empty());
    while i < ws.len()
        invariant
            i <= ws@.len(),
            wv == views(ws@),
            r@ == widgets_spec(wv.take(i as int)),
        decreases ws.len() - i,
    {
        assert(wv.take(i + 1).drop_last() =~= wv.take(i as int));
        assert(wv.take(i + 1).last() == ws@[i as int]@);
        match widget_aus_chars(&ws[i]) {
            Some(w) => r.push(w),
            None => {},
        }
        i = i + 1;
    }
    assert(wv.take(ws@.len() as int) =~= wv);
    r
}

/// The stored pins, one app id per word (the settings app alone where nothing is stored).
pub open spec fn pins_spec(gespeichert: Option<Seq<char>>) -> Seq<Seq<char>> {
    words(
        match gespeichert {
            Some(g) => g,
            None => "matrix-einstellungen"@,
        },
    )
}

pub open spec fn texte_sicht(v: Seq<String>) -> Seq<Seq<char>> {
    v.map_values(|t: String| t@)
}

pub fn pins_aus(gespeichert: Option<&str>) -> (r: Vec<String>)
    ensures
        texte_sicht(r@) == pins_spec(
            match gespeichert {
                Some(g) => Some(g@),
                None => None,
            },
        ),
{
    let text = match gespeichert {
        Some(g) => chars_of(g),
        None => chars_of("matrix-einstellungen"),
    };
    let ws = split_whitespace(&text);
    let mut r: Vec<String> = Vec::new();
    let mut i: usize = 0;
    while i < ws.len()
        invariant
            i <= ws@.len(),
            texte_sicht(r@) == views(ws@).take(i as int),
        decreases ws.len() - i,
    {
        let ghost vorher = texte_sicht(r@);
        r.push(string_of(&ws[i]));
        assert(texte_sicht(r@) =~= vorher.push(ws@[i as int]@));
        assert(views(ws@).take(i + 1) =~= views(ws@).take(i as int).push(ws@[i as int]@));
        i = i + 1;
    }
    assert(views(ws@).take(ws@.len() as int) =~= views(ws@));
    r
}

// ------------------------------------------------------------------ tiles

/// The windows of an app, in the order given.
pub open spec fn von_app(fs: Seq<FensterSicht>, a: Seq<char>) -> Seq<FensterSicht>
    decreases fs.len(),
{
    if fs.len() == 0 {
        seq![]
    } else {
        let v = von_app(fs.drop_last(), a);
        if fs.last().app_id == a {
            v.push(fs.last())
        } else {
            v
        }
    }
}

/// Where a window goes in a list sorted by id: behind every window whose id is not larger.
pub open spec fn id_stelle(s: Seq<FensterSicht>, x: FensterSicht) -> nat
    decreases s.len(),
{
    if s.len() == 0 {
        0
    } else if !(x.id < s.last().id) {
        s.len()
    } else {
        id_stelle(s.drop_last(), x)
    }
}

/// The windows sorted by id; windows with equal ids keep their order.
pub open spec fn nach_id(s: Seq<FensterSicht>) -> Seq<FensterSicht>
    decreases s.len(),
{
    if s.len() == 0 {
        s
    } else {
        let t = nach_id(s.drop_last());
        t.insert(id_stelle(t, s.last()) as int, s.last())
    }
}

/// Whether one of the windows has the focus.
pub open spec fn hat_fokus(w: Seq<FensterSicht>) -> bool {
    exists|k: int| 0 <= k < w.len() && (#[trigger] w[k]).fokus
}

/// The tile of the `j`-th pin: its app's windows sorted by id (none for a pin that came
/// before), pinned, no note yet.
pub open spec fn pin_kachel(pins: Seq<Seq<char>>, j: int, fs: Seq<FensterSicht>) -> KachelSicht {
    let w = if pins.take(j).contains(pins[j]) {
        Seq::<FensterSicht>::empty()
    } else {
        nach_id(von_app(fs, pins[j]))
    };
    KachelSicht { app_id: pins[j], fenster: w, gepinnt: true, fokus: hat_fokus(w), abzeichen: None }
}

/// The apps with windows that are not pinned, each once, in the order of their first window.
pub open spec fn laufende_apps(fs: Seq<FensterSicht>, pins: Seq<Seq<char>>) -> Seq<Seq<char>>
    decreases fs.len(),
{
    if fs.len() == 0 {
        seq![]
    } else {
        let v = laufende_apps(fs.drop_last(), pins);
        let a = fs.last().app_id;
        if pins.contains(a) || v.contains(a) {
            v
        } else {
            v.push(a)
        }
    }
}

/// The tile of a running app that is not pinned.
pub open spec fn lauf_kachel(fs: Seq<FensterSicht>, a: Seq<char>) -> KachelSicht {
    let w = nach_id(von_app(fs, a));
    KachelSicht { app_id: a, fenster: w, gepinnt: false, fokus: hat_fokus(w), abzeichen: None }
}

/// The id of a tile's oldest window.
pub open spec fn erste_id(k: KachelSicht) -> u64 {
    if k.fenster.len() > 0 {
        k.fenster[0].id
    } else {
        0
    }
}

pub open spec fn kachel_stelle(s: Seq<KachelSicht>, x: KachelSicht) -> nat
    decreases s.len(),
{
    if s.len() == 0 {
        0
    } else if !(erste_id(x) < erste_id(s.last())) {
        s.len()
    } else {
        kachel_stelle(s.drop_last(), x)
    }
}

/// The tiles sorted by the id of their oldest window; equal ones keep their order.
pub open spec fn nach_erster_id(s: Seq<KachelSicht>) -> Seq<KachelSicht>
    decreases s.len(),
{
    if s.len() == 0 {
        s
    } else {
        let t = nach_erster_id(s.drop_last());
        t.insert(kachel_stelle(t, s.last()) as int, s.last())
    }
}

/// The dock's tiles: the pins first, in pin order, then the other running apps by age.
pub open spec fn kacheln_spec(pins: Seq<Seq<char>>, fs: Seq<FensterSicht>) -> Seq<KachelSicht> {
    Seq::new(pins.len(), |j: int| pin_kachel(pins, j, fs)) + nach_erster_id(
        laufende_apps(fs, pins).map_values(|a: Seq<char>| lauf_kachel(fs, a)),
    )
}

proof fn lemma_id_stelle(s: Seq<FensterSicht>, x: FensterSicht)
    ensures
        id_stelle(s, x) <= s.len(),
    decreases s.len(),
{
    if s.len() > 0 && x.id < s.last().id {
        lemma_id_stelle(s.drop_last(), x);
    }
}

proof fn lemma_kachel_stelle(s: Seq<KachelSicht>, x: KachelSicht)
    ensures
        kachel_stelle(s, x) <= s.len(),
    decreases s.len(),
{
    if s.len() > 0 && erste_id(x) < erste_id(s.last()) {
        lemma_kachel_stelle(s.drop_last(), x);
    }
}

fn gleicher_text(a: &String, b: &String) -> (r: bool)
    ensures
        r == (a@ == b@),
{
    same(&chars_of(a.as_str()), &chars_of(b.as_str()))
}

/// Whether `a` is among the first `n` texts.
fn unter_den_ersten(v: &Vec<String>, n: usize, a: &String) -> (r: bool)
    requires
        n <= v@.len(),
    ensures
        r == texte_sicht(v@).take(n as int).contains(a@),
{
    let ghost t = texte_sicht(v@).take(n as int);
    let mut i: usize = 0;
    while i < n
        invariant
            i <= n <= v@.len(),
            t == texte_sicht(v@).take(n as int),
            forall|k: int| 0 <= k < i ==> t[k] != a@,
        decreases n - i,
    {
        if gleicher_text(&v[i], a) {
            assert(t[i as int] == a@);
            return true;
        }
        i = i + 1;
    }
    false
}

/// The windows of an app, in the order given.
fn fenster_der_app(fs: &Vec<Fenster>, a: &String) -> (r: Vec<Fenster>)
    ensures
        fenster_sicht(r@) == von_app(fenster_sicht(fs@), a@),
{
    let ghost g = fenster_sicht(fs@);
    let mut r: Vec<Fenster> = Vec::new();
    let mut i: usize = 0;
    assert(g.take(0) =~= Seq::<FensterSicht>::empty());
    while i < fs.len()
        invariant
            i <= fs@.len(),
            g == fenster_sicht(fs@),
            fenster_sicht(r@) == von_app(g.take(i as int), a@),
        decreases fs.len() - i,
    {
        assert(g.take(i + 1).drop_last() =~= g.take(i as int));
        assert(g.take(i + 1).last() == fs@[i as int]@);
        if gleicher_text(&fs[i].app_id, a) {
            let ghost vorher = fenster_sicht(r@);
            r.push(fs[i].kopie());
            assert(fenster_sicht(r@) =~= vorher.push(fs@[i as int]@));
        }
        i = i + 1;
    }
    assert(g.take(fs@.len() as int) =~= g);
    r
}

/// The windows sorted by id, equal ids kept in order.
fn nach_id_sortieren(v: Vec<Fenster>) -> (r: Vec<Fenster>)
    ensures
        fenster_sicht(r@) == nach_id(fenster_sicht(v@)),
{
    let ghost g = fenster_sicht(v@);
    let mut t: Vec<Fenster> = Vec::new();
    let mut j: usize = 0;
    assert(g.take(0) =~= Seq::<FensterSicht>::empty());
    while j < v.len()
        invariant
            j <= v@.len(),
            g == fenster_sicht(v@),
            fenster_sicht(t@) == nach_id(g.take(j as int)),
        decreases v.len() - j,
    {
        assert(g.take(j + 1).drop_last() =~= g.take(j as int));
        assert(g.take(j + 1).last() == v@[j as int]@);
        let x = v[j].kopie();
        let ghost s = fenster_sicht(t@);
        let mut p = t.len();
        assert(s.take(p as int) =~= s);
        while p > 0 && x.id < t[p - 1].id
            invariant
                p <= t@.len(),
                s == fenster_sicht(t@),
                id_stelle(s.take(p as int), x@) == id_stelle(s, x@),
            decreases p,
        {
            assert(s.take(p as int).drop_last() =~= s.take(p - 1));
            p = p - 1;
        }
        if p > 0 {
            assert(s.take(p as int).last() == s[p - 1]);
        }
        let ghost vorher = t@;
        t.insert(p, x);
        assert(fenster_sicht(t@) =~= fenster_sicht(vorher).insert(p as int, x@));
        j = j + 1;
    }
    assert(g.take(g.len() as int) =~= g);
    t
}

fn hat_fokus_exec(w: &Vec<Fenster>) -> (r: bool)
    ensures
        r == hat_fokus(fenster_sicht(w@)),
{
    let ghost g = fenster_sicht(w@);
    let mut i: usize = 0;
    while i < w.len()
        invariant
            i <= w@.len(),
            g == fenster_sicht(w@),
            forall|k: int| 0 <= k < i ==> !(#[trigger] g[k]).fokus,
        decreases w.len() - i,
    {
        if w[i].fokus {
            assert(g[i as int].fokus);
            return true;
        }
        i = i + 1;
    }
    false
}

fn erste_id_exec(k: &Kachel) -> (r: u64)
    ensures
        r == erste_id(k@),
{
    if k.fenster.len() > 0 {
        k.fenster[0].id
    } else {
        0
    }
}

/// The tiles sorted by the id of their oldest window, equal ones kept in order.
fn nach_erster_id_sortieren(v: Vec<Kachel>) -> (r: Vec<Kachel>)
    ensures
        kacheln_sicht(r@) == nach_erster_id(kacheln_sicht(v@)),
{
    let ghost g = kacheln_sicht(v@);
    let mut rest = v;
    let mut t: Vec<Kachel> = Vec::new();
    let ghost mut j: int = 0;
    assert(g.take(0) =~= Seq::<KachelSicht>::empty());
    assert(g.skip(0) =~= g);
    while rest.len() > 0
        invariant
            0 <= j <= g.len(),
            kacheln_sicht(rest@) == g.skip(j),
            kacheln_sicht(t@) == nach_erster_id(g.take(j)),
        decreases rest.len(),
    {
        assert(kacheln_sicht(rest@).len() == rest@.len());
        assert(j < g.len());
        assert(g.take(j + 1).drop_last() =~= g.take(j));
        assert(g.skip(j)[0] == g[j]);
        assert(g.take(j + 1).last() == g[j]);
        let ghost rest_vorher = rest@;
        let x = rest.remove(0);
        assert(kacheln_sicht(rest@) =~= g.skip(j + 1)) by {
            assert(rest@ =~= rest_vorher.remove(0));
            assert forall|k: int| 0 <= k < rest@.len() implies kacheln_sicht(rest@)[k] == g.skip(
                j + 1,
            )[k] by {
                assert(rest@[k] == rest_vorher[k + 1]);
                assert(kacheln_sicht(rest_vorher)[k + 1] == g.skip(j)[k + 1]);
            }
        }
        let ghost s = kacheln_sicht(t@);
        let kx = erste_id_exec(&x);
        let mut p = t.len();
        assert(s.take(p as int) =~= s);
        while p > 0 && kx < erste_id_exec(&t[p - 1])
            invariant
                p <= t@.len(),
                s == kacheln_sicht(t@),
                kx == erste_id(x@),
                kachel_stelle(s.take(p as int), x@) == kachel_stelle(s, x@),
            decreases p,
        {
            assert(s.take(p as int).drop_last() =~= s.take(p - 1));
            p = p - 1;
        }
        if p > 0 {
            assert(s.take(p as int).last() == s[p - 1]);
        }
        let ghost vorher = t@;
        t.insert(p, x);
        assert(kacheln_sicht(t@) =~= kacheln_sicht(vorher).insert(p as int, x@));
        proof {
            j = j + 1;
        }
    }
    assert(g.take(g.len() as int) =~= g);
    t
}

/// The dock's tiles from the pins and the open windows: each pin with its app's windows
/// (oldest first; a repeated pin gets none), then every other app with windows, by the age
/// of its oldest window. Notes are left empty.
pub fn kacheln_bilden(pins: &Vec<String>, fenster: &Vec<Fenster>) -> (r: Vec<Kachel>)
    ensures
        kacheln_sicht(r@) == kacheln_spec(texte_sicht(pins@), fenster_sicht(fenster@)),
{
    let ghost pv = texte_sicht(pins@);
    let ghost fv = fenster_sicht(fenster@);
    let mut r: Vec<Kachel> = Vec::new();
    let mut j: usize = 0;
    while j < pins.len()
        invariant
            j <= pins@.len(),
            pv == texte_sicht(pins@),
            fv == fenster_sicht(fenster@),
            kacheln_sicht(r@) == Seq::new(j as nat, |x: int| pin_kachel(pv, x, fv)),
        decreases pins.len() - j,
    {
        let schon = unter_den_ersten(pins, j, &pins[j]);
        let w = if schon {
            Vec::new()
        } else {
            nach_id_sortieren(fenster_der_app(fenster, &pins[j]))
        };
        proof {
            if schon {
                assert(fenster_sicht(w@) =~= Seq::<FensterSicht>::empty());
            }
        }
        let fokus = hat_fokus_exec(&w);
        let k = Kachel { app_id: pins[j].clone(), fenster: w, gepinnt: true, fokus, abzeichen: None };
        assert(k@ == pin_kachel(pv, j as int, fv));
        let ghost vorher = kacheln_sicht(r@);
        r.push(k);
        assert(kacheln_sicht(r@) =~= Seq::new((j + 1) as nat, |x: int| pin_kachel(pv, x, fv))) by {
            assert(kacheln_sicht(r@) =~= vorher.push(k@));
        }
        j = j + 1;
    }
    // the apps with windows that are not pinned
    let mut apps: Vec<String> = Vec::new();
    let mut i: usize = 0;
    assert(fv.take(0) =~= Seq::<FensterSicht>::empty());
    while i < fenster.len()
        invariant
            i <= fenster@.len(),
            pv == texte_sicht(pins@),
            fv == fenster_sicht(fenster@),
            texte_sicht(apps@) == laufende_apps(fv.take(i as int), pv),
        decreases fenster.len() - i,
    {
        assert(fv.take(i + 1).drop_last() =~= fv.take(i as int));
        assert(fv.take(i + 1).last() == fenster@[i as int]@);
        let a = &fenster[i].app_id;
        let gepinnt = unter_den_ersten(pins, pins.len(), a);
        let gesehen = unter_den_ersten(&apps, apps.len(), a);
        assert(texte_sicht(pins@).take(pins@.len() as int) =~= pv);
        assert(texte_sicht(apps@).take(apps@.len() as int) =~= texte_sicht(apps@));
        if !gepinnt && !gesehen {
            let ghost vorher = texte_sicht(apps@);
            apps.push(a.clone());
            assert(texte_sicht(apps@) =~= vorher.push(a@));
        }
        i = i + 1;
    }
    assert(fv.take(fenster@.len() as int) =~= fv);
    let ghost av = texte_sicht(apps@);
    let mut lauf: Vec<Kachel> = Vec::new();
    let mut m: usize = 0;
    while m < apps.len()
        invariant
            m <= apps@.len(),
            av == texte_sicht(apps@),
            fv == fenster_sicht(fenster@),
            kacheln_sicht(lauf@) == av.take(m as int).map_values(|a: Seq<char>| lauf_kachel(fv, a)),
        decreases apps.len() - m,
    {
        let w = nach_id_sortieren(fenster_der_app(fenster, &apps[m]));
        let fokus = hat_fokus_exec(&w);
        let k = Kachel { app_id: apps[m].clone(), fenster: w, gepinnt: false, fokus, abzeichen: None };
        assert(k@ == lauf_kachel(fv, av[m as int]));
        let ghost vorher = kacheln_sicht(lauf@);
        lauf.push(k);
        assert(kacheln_sicht(lauf@) =~= av.take(m + 1).map_values(|a: Seq<char>| lauf_kachel(fv, a))) by {
            assert(kacheln_sicht(lauf@) =~= vorher.push(k@));
        }
        m = m + 1;
    }
    assert(av.take(apps@.len() as int) =~= av);
    let sortiert = nach_erster_id_sortieren(lauf);
    let ghost erst = kacheln_sicht(r@);
    let mut sortiert = sortiert;
    r.append(&mut sortiert);
    assert(kacheln_sicht(r@) =~= erst + nach_erster_id(av.map_values(|a: Seq<char>| lauf_kachel(fv, a))));
    r
}

// ------------------------------------------------------------------ clicks

/// What a click on a tile does.
pub enum Klick {
    /// Focus this window.
    Fokus(u64),
    /// Start the pinned app (and let its icon bounce until a window shows).
    Starten(String),
    Nichts,
}

/// A click on a tile: to the window it aims at; a resting pin starts its app.
pub fn klick(k: &Kachel) -> (r: Klick)
    ensures
        match ziel_spec(k@) {
            Some(id) => r matches Klick::Fokus(z) && z == id,
            None => if k.gepinnt {
                r matches Klick::Starten(a) && a@ == k.app_id@
            } else {
                r is Nichts
            },
        },
{
    match k.ziel() {
        Some(id) => Klick::Fokus(id),
        None => if k.gepinnt {
            Klick::Starten(k.app_id.clone())
        } else {
            Klick::Nichts
        },
    }
}

/// Whether a bouncing icon keeps bouncing: for less than 8 seconds, and only while its app
/// has no window.
pub fn huepfer_behalten(sekunden: u64, app_id: &str, kacheln: &Vec<Kachel>) -> (r: bool)
    ensures
        r == (sekunden < 8 && !(exists|i: int|
            0 <= i < kacheln@.len() && (#[trigger] kacheln@[i]).app_id@ == app_id@
                && kacheln@[i].fenster@.len() > 0)),
{
    if sekunden >= 8 {
        return false;
    }
    let a = chars_of(app_id);
    let mut i: usize = 0;
    while i < kacheln.len()
        invariant
            i <= kacheln@.len(),
            a@ == app_id@,
            forall|j: int| 0 <= j < i ==> !((#[trigger] kacheln@[j]).app_id@ == app_id@
                && kacheln@[j].fenster@.len() > 0),
        decreases kacheln.len() - i,
    {
        if same(&chars_of(kacheln[i].app_id.as_str()), &a) && kacheln[i].laeuft() {
            return false;
        }
        i = i + 1;
    }
    true
}

// ------------------------------------------------------------------ lists

/// The texts without any copy of `t`, in order.
pub open spec fn ohne(v: Seq<Seq<char>>, t: Seq<char>) -> Seq<Seq<char>>
    decreases v.len(),
{
    if v.len() == 0 {
        seq![]
    } else {
        let w = ohne(v.drop_last(), t);
        if v.last() == t {
            w
        } else {
            w.push(v.last())
        }
    }
}

fn ohne_exec(v: Vec<String>, t: &str) -> (r: Vec<String>)
    ensures
        texte_sicht(r@) == ohne(texte_sicht(v@), t@),
{
    let ghost g = texte_sicht(v@);
    let tv = chars_of(t);
    let mut r: Vec<String> = Vec::new();
    let mut i: usize = 0;
    assert(g.take(0) =~= Seq::<Seq<char>>::empty());
    while i < v.len()
        invariant
            i <= v@.len(),
            g == texte_sicht(v@),
            tv@ == t@,
            texte_sicht(r@) == ohne(g.take(i as int), t@),
        decreases v.len() - i,
    {
        assert(g.take(i + 1).drop_last() =~= g.take(i as int));
        assert(g.take(i + 1).last() == v@[i as int]@);
        if !same(&chars_of(v[i].as_str()), &tv) {
            let ghost vorher = texte_sicht(r@);
            r.push(v[i].clone());
            assert(texte_sicht(r@) =~= vorher.push(v@[i as int]@));
        }
        i = i + 1;
    }
    assert(g.take(v@.len() as int) =~= g);
    r
}

/// The largest copy kept in the clipboard history, in characters, and the history's length.
pub const ZW_MAX_ZEICHEN: usize = 10000;

pub const ZW_MAX_EINTRAEGE: usize = 8;

/// The clipboard history after a read of the clipboard: a successful read of a text that is
/// not blank and not too long goes to the front, its older copies leave, and at most 8
/// entries stay; otherwise the history stays as it is. The flag says whether it changed.
pub open spec fn zw_spec(verlauf: Seq<Seq<char>>, text: Seq<char>, erfolg: bool) -> (
    Seq<Seq<char>>,
    bool,
) {
    if erfolg && trim(text).len() > 0 && text.len() <= ZW_MAX_ZEICHEN {
        let neu = seq![text] + ohne(verlauf, text);
        (if neu.len() > ZW_MAX_EINTRAEGE { neu.take(ZW_MAX_EINTRAEGE as int) } else { neu }, true)
    } else {
        (verlauf, false)
    }
}

pub fn zw_verlauf(verlauf: Vec<String>, text: &str, erfolg: bool) -> (r: (Vec<String>, bool))
    ensures
        (texte_sicht(r.0@), r.1) == zw_spec(texte_sicht(verlauf@), text@, erfolg),
{
    let tv = chars_of(text);
    if !(erfolg && trim_chars(&tv).len() > 0 && tv.len() <= ZW_MAX_ZEICHEN) {
        return (verlauf, false);
    }
    let rest = ohne_exec(verlauf, text);
    let mut neu: Vec<String> = Vec::new();
    neu.push(string_of(&tv));
    let ghost r0 = texte_sicht(rest@);
    let mut rest = rest;
    neu.append(&mut rest);
    assert(texte_sicht(neu@) =~= seq![text@] + r0);
    if neu.len() > ZW_MAX_EINTRAEGE {
        neu.truncate(ZW_MAX_EINTRAEGE);
        assert(texte_sicht(neu@) =~= (seq![text@] + r0).take(ZW_MAX_EINTRAEGE as int));
    }
    (neu, true)
}

/// The pin list after a tile's pin is switched, as stored (app ids joined by blanks): a
/// pinned app leaves it, an unpinned one is appended.
pub open spec fn pins_wechsel_spec(pins: Seq<Seq<char>>, app_id: Seq<char>, gepinnt: bool) -> Seq<
    char,
> {
    join(if gepinnt { ohne(pins, app_id) } else { pins.push(app_id) }, seq![' '])
}

pub fn pins_wechseln(pins: Vec<String>, app_id: &str, gepinnt: bool) -> (r: String)
    ensures
        r@ == pins_wechsel_spec(texte_sicht(pins@), app_id@, gepinnt),
{
    let neu = if gepinnt {
        ohne_exec(pins, app_id)
    } else {
        let mut p = pins;
        let ghost vorher = texte_sicht(p@);
        p.push(string_of(&chars_of(app_id)));
        assert(texte_sicht(p@) =~= vorher.push(app_id@));
        p
    };
    let mut teile: Vec<Vec<char>> = Vec::new();
    let mut i: usize = 0;
    while i < neu.len()
        invariant
            i <= neu@.len(),
            views(teile@) == texte_sicht(neu@).take(i as int),
        decreases neu.len() - i,
    {
        let ghost vorher = views(teile@);
        teile.push(chars_of(neu[i].as_str()));
        assert(views(teile@) =~= vorher.push(neu@[i as int]@));
        assert(texte_sicht(neu@).take(i + 1) =~= texte_sicht(neu@).take(i as int).push(
            neu@[i as int]@,
        ));
        i = i + 1;
    }
    assert(texte_sicht(neu@).take(neu@.len() as int) =~= texte_sicht(neu@));
    let mut blank: Vec<char> = Vec::new();
    blank.push(' ');
    assert(blank@ =~= seq![' ']);
    string_of(&join_with(&teile, &blank))
}

// ------------------------------------------------------------------ laws of the tiles

proof fn lemma_nach_id_laenge(s: Seq<FensterSicht>)
    ensures
        nach_id(s).len() == s.len(),
    decreases s.len(),
{
    if s.len() > 0 {
        lemma_nach_id_laenge(s.drop_last());
        lemma_id_stelle(nach_id(s.drop_last()), s.last());
    }
}

proof fn lemma_von_app_nicht_leer(fs: Seq<FensterSicht>, a: Seq<char>, i: int)
    requires
        0 <= i < fs.len(),
        fs[i].app_id == a,
    ensures
        von_app(fs, a).len() > 0,
    decreases fs.len(),
{
    if i < fs.len() - 1 {
        lemma_von_app_nicht_leer(fs.drop_last(), a, i);
    }
}

proof fn lemma_laufende_apps(fs: Seq<FensterSicht>, pins: Seq<Seq<char>>)
    ensures
        forall|k: int|
            0 <= k < laufende_apps(fs, pins).len() ==> !pins.contains(
                #[trigger] laufende_apps(fs, pins)[k],
            ) && von_app(fs, laufende_apps(fs, pins)[k]).len() > 0,
    decreases fs.len(),
{
    if fs.len() > 0 {
        let v = laufende_apps(fs.drop_last(), pins);
        lemma_laufende_apps(fs.drop_last(), pins);
        let a = fs.last().app_id;
        assert forall|k: int| 0 <= k < laufende_apps(fs, pins).len() implies !pins.contains(
            #[trigger] laufende_apps(fs, pins)[k],
        ) && von_app(fs, laufende_apps(fs, pins)[k]).len() > 0 by {
            let b = laufende_apps(fs, pins)[k];
            if k < v.len() {
                assert(b == v[k]);
                assert(von_app(fs.drop_last(), b).len() > 0);
            } else {
                assert(b == a);
                lemma_von_app_nicht_leer(fs, a, fs.len() - 1);
            }
        }
    }
}

proof fn lemma_nach_erster_id_aus(s: Seq<KachelSicht>)
    ensures
        nach_erster_id(s).len() == s.len(),
        forall|k: int| 0 <= k < s.len() ==> s.contains(#[trigger] nach_erster_id(s)[k]),
    decreases s.len(),
{
    if s.len() > 0 {
        let t = nach_erster_id(s.drop_last());
        lemma_nach_erster_id_aus(s.drop_last());
        lemma_kachel_stelle(t, s.last());
        let p = kachel_stelle(t, s.last()) as int;
        assert forall|k: int| 0 <= k < s.len() implies s.contains(
            #[trigger] nach_erster_id(s)[k],
        ) by {
            let r = nach_erster_id(s);
            if k < p {
                assert(r[k] == t[k]);
                assert(s.drop_last().contains(t[k]));
                let q = choose|q: int| 0 <= q < s.drop_last().len() && s.drop_last()[q] == t[k];
                assert(s[q] == t[k]);
            } else if k == p {
                assert(r[k] == s[s.len() - 1]);
            } else {
                assert(r[k] == t[k - 1]);
                assert(s.drop_last().contains(t[k - 1]));
                let q = choose|q: int|
                    0 <= q < s.drop_last().len() && s.drop_last()[q] == t[k - 1];
                assert(s[q] == t[k - 1]);
            }
        }
    }
}

proof fn lemma_kachel_stelle_sortiert(t: Seq<KachelSicht>, x: KachelSicht)
    requires
        forall|i: int, j: int| 0 <= i <= j < t.len() ==> erste_id(t[i]) <= erste_id(t[j]),
    ensures
        kachel_stelle(t, x) <= t.len(),
        forall|i: int| 0 <= i < kachel_stelle(t, x) ==> erste_id(#[trigger] t[i]) <= erste_id(x),
        forall|i: int| kachel_stelle(t, x) <= i < t.len() ==> erste_id(x) < erste_id(#[trigger] t[i]),
    decreases t.len(),
{
    lemma_kachel_stelle(t, x);
    if t.len() > 0 && erste_id(x) < erste_id(t.last()) {
        let u = t.drop_last();
        lemma_kachel_stelle_sortiert(u, x);
        assert forall|i: int| kachel_stelle(t, x) <= i < t.len() implies erste_id(x) < erste_id(
            #[trigger] t[i],
        ) by {
            if i < t.len() - 1 {
                assert(t[i] == u[i]);
            }
        }
        assert forall|i: int| 0 <= i < kachel_stelle(t, x) implies erste_id(#[trigger] t[i])
            <= erste_id(x) by {
            assert(t[i] == u[i]);
        }
    }
}

proof fn lemma_nach_erster_id_sortiert(s: Seq<KachelSicht>)
    ensures
        forall|i: int, j: int|
            0 <= i <= j < nach_erster_id(s).len() ==> erste_id(#[trigger] nach_erster_id(s)[i])
                <= erste_id(#[trigger] nach_erster_id(s)[j]),
    decreases s.len(),
{
    if s.len() > 0 {
        let t = nach_erster_id(s.drop_last());
        let x = s.last();
        lemma_nach_erster_id_sortiert(s.drop_last());
        lemma_kachel_stelle_sortiert(t, x);
        let p = kachel_stelle(t, x) as int;
        let r = nach_erster_id(s);
        assert(r == t.insert(p, x));
        assert forall|i: int, j: int| 0 <= i <= j < r.len() implies erste_id(#[trigger] r[i])
            <= erste_id(#[trigger] r[j]) by {
            if i < p {
                assert(r[i] == t[i]);
            } else if i > p {
                assert(r[i] == t[i - 1]);
            }
            if j < p {
                assert(r[j] == t[j]);
            } else if j > p {
                assert(r[j] == t[j - 1]);
            }
        }
    }
}

/// The tiles keep their promise: first every pin, in pin order and pinned, then only apps
/// that are not pinned, each with a window, by the age of their oldest window.
pub proof fn lemma_kachel_ordnung(pins: Seq<Seq<char>>, fs: Seq<FensterSicht>)
    ensures
        kacheln_spec(pins, fs).len() >= pins.len(),
        forall|j: int|
            0 <= j < pins.len() ==> (#[trigger] kacheln_spec(pins, fs)[j]).app_id == pins[j]
                && kacheln_spec(pins, fs)[j].gepinnt,
        forall|j: int|
            pins.len() <= j < kacheln_spec(pins, fs).len() ==> !(#[trigger] kacheln_spec(
                pins,
                fs,
            )[j]).gepinnt && !pins.contains(kacheln_spec(pins, fs)[j].app_id)
                && kacheln_spec(pins, fs)[j].fenster.len() > 0,
        forall|i: int, j: int|
            pins.len() <= i <= j < kacheln_spec(pins, fs).len() ==> erste_id(
                #[trigger] kacheln_spec(pins, fs)[i],
            ) <= erste_id(#[trigger] kacheln_spec(pins, fs)[j]),
{
    let la = laufende_apps(fs, pins);
    let lk = la.map_values(|a: Seq<char>| lauf_kachel(fs, a));
    let n = pins.len() as int;
    let k = kacheln_spec(pins, fs);
    lemma_laufende_apps(fs, pins);
    lemma_nach_erster_id_aus(lk);
    lemma_nach_erster_id_sortiert(lk);
    let sortiert = nach_erster_id(lk);
    assert(k == Seq::new(pins.len(), |j: int| pin_kachel(pins, j, fs)) + sortiert);
    assert forall|j: int| n <= j < k.len() implies !(#[trigger] k[j]).gepinnt && !pins.contains(
        k[j].app_id,
    ) && k[j].fenster.len() > 0 by {
        assert(k[j] == sortiert[j - n]);
        assert(lk.contains(sortiert[j - n]));
        let q = choose|q: int| 0 <= q < lk.len() && lk[q] == sortiert[j - n];
        assert(lk[q] == lauf_kachel(fs, la[q]));
        lemma_nach_id_laenge(von_app(fs, la[q]));
    }
    assert forall|i: int, j: int| n <= i <= j < k.len() implies erste_id(#[trigger] k[i])
        <= erste_id(#[trigger] k[j]) by {
        assert(k[i] == sortiert[i - n]);
        assert(k[j] == sortiert[j - n]);
    }
}

/// The stored clipboard history: the JSON list in its file, empty where there is no file or
/// it does not read as one.
pub open spec fn zw_gespeichert(datei: Option<Seq<char>>) -> Seq<Seq<char>> {
    match datei {
        Some(d) => match json_liste(d) {
            Some(v) => v,
            None => seq![],
        },
        None => seq![],
    }
}

/// One read of the clipboard against the stored history: the JSON text to store where the
/// history changed (none where it did not), and the newest entry.
pub fn zw_pflegen(datei: Option<&str>, text: &str, erfolg: bool) -> (r: (
    Option<String>,
    Option<String>,
))
    ensures
        ({
            let (neu, geaendert) = zw_spec(
                zw_gespeichert(
                    match datei {
                        Some(d) => Some(d@),
                        None => None,
                    },
                ),
                text@,
                erfolg,
            );
            &&& geaendert ==> (r.0 matches Some(j) && j@ == json_liste_text(neu))
            &&& !geaendert ==> r.0 is None
            &&& match r.1 {
                Some(t) => neu.len() > 0 && t@ == neu[0],
                None => neu.len() == 0,
            }
        }),
{
    let verlauf = match datei {
        Some(d) => match liste_lesen(d) {
            Some(v) => v,
            None => Vec::new(),
        },
        None => Vec::new(),
    };
    proof {
        if datei is None || json_liste(datei.unwrap()@) is None {
            assert(texte_sicht(verlauf@) =~= Seq::<Seq<char>>::empty());
        }
    }
    let (neu, geaendert) = zw_verlauf(verlauf, text, erfolg);
    let json = if geaendert {
        liste_schreiben(&neu)
    } else {
        None
    };
    let erster = if neu.len() > 0 {
        Some(neu[0].clone())
    } else {
        None
    };
    (json, erster)
}

proof fn lemma_ohne(v: Seq<Seq<char>>, t: Seq<char>)
    ensures
        !ohne(v, t).contains(t),
        ohne(v, t).len() <= v.len(),
        forall|i: int| 0 <= i < ohne(v, t).len() ==> v.contains(#[trigger] ohne(v, t)[i]),
    decreases v.len(),
{
    if v.len() > 0 {
        let u = v.drop_last();
        lemma_ohne(u, t);
        let w = ohne(u, t);
        assert forall|i: int| 0 <= i < ohne(v, t).len() implies v.contains(
            #[trigger] ohne(v, t)[i],
        ) by {
            if i < w.len() {
                assert(u.contains(w[i]));
                let q = choose|q: int| 0 <= q < u.len() && u[q] == w[i];
                assert(v[q] == w[i]);
            } else {
                assert(ohne(v, t)[i] == v[v.len() - 1]);
            }
        }
        if v.last() != t {
            assert forall|i: int| 0 <= i < w.push(v.last()).len() implies w.push(v.last())[i]
                != t by {
                if i < w.len() {
                    assert(!w.contains(t));
                    if w[i] == t {
                        assert(w.contains(t));
                    }
                }
            }
        }
    }
}

/// The clipboard history keeps its promise: a kept copy comes first, exactly once, with
/// at most 8 entries, all of them ones that were there or the new copy; a copy that is
/// blank or too long changes nothing.
pub proof fn lemma_zw_verlauf(verlauf: Seq<Seq<char>>, text: Seq<char>, erfolg: bool)
    ensures
        ({
            let (neu, geaendert) = zw_spec(verlauf, text, erfolg);
            &&& geaendert ==> neu.len() <= ZW_MAX_EINTRAEGE && neu.len() > 0 && neu[0] == text
                && (forall|i: int| 1 <= i < neu.len() ==> #[trigger] neu[i] != text)
                && (forall|i: int| 0 <= i < neu.len() ==> #[trigger] neu[i] == text
                || verlauf.contains(neu[i]))
            &&& (trim(text).len() == 0 || text.len() > ZW_MAX_ZEICHEN || !erfolg) ==> neu
                == verlauf && !geaendert
        }),
{
    lemma_ohne(verlauf, text);
    let (neu, geaendert) = zw_spec(verlauf, text, erfolg);
    if geaendert {
        let voll = seq![text] + ohne(verlauf, text);
        assert forall|i: int| 1 <= i < neu.len() implies #[trigger] neu[i] != text by {
            assert(neu[i] == voll[i]);
            assert(voll[i] == ohne(verlauf, text)[i - 1]);
            if ohne(verlauf, text)[i - 1] == text {
                assert(ohne(verlauf, text).contains(text));
            }
        }
        assert forall|i: int| 0 <= i < neu.len() implies #[trigger] neu[i] == text
            || verlauf.contains(neu[i]) by {
            assert(neu[i] == voll[i]);
            if i > 0 {
                assert(voll[i] == ohne(verlauf, text)[i - 1]);
            }
        }
    }
}

} // verus!
