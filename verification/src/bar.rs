//! The top bar: its widget zones, the session menu with its confirming second click, and
//! the texts it derives from what the system reports.

use vstd::prelude::*;
use crate::text::{
    capitalize, capitalized, chars_of, concat, contains_seq, has_infix, join, join_with, lines,
    lines_of, parse_u64, parse_u8, parse_unsigned, same_str, slice, split, split_at_char,
    splitn, splitn_at_char, string_of, trim, trim_str, views,
};
use crate::zonen::{zonen_woerter, zonen_woerter_lesen};

verus! {

// --------------------------------------------------------------- widgets

/// A bar widget: the building blocks of the three zones.
#[derive(Debug, Clone, Copy, PartialEq, Eq, Structural)]
pub enum Widget {
    Matrix,
    Tray,
    Fokus,
    Uhr,
    Puls,
    Glocke,
    Akku,
    Zentrale,
    Nutzer,
    Aufnahme,
}

/// The widget with the given key.
pub open spec fn widget_spec(name: Seq<char>) -> Option<Widget> {
    if name == "matrix"@ {
        Some(Widget::Matrix)
    } else if name == "fokus"@ {
        Some(Widget::Fokus)
    } else if name == "uhr"@ {
        Some(Widget::Uhr)
    } else if name == "puls"@ {
        Some(Widget::Puls)
    } else if name == "glocke"@ {
        Some(Widget::Glocke)
    } else if name == "tray"@ {
        Some(Widget::Tray)
    } else if name == "akku"@ {
        Some(Widget::Akku)
    } else if name == "zentrale"@ {
        Some(Widget::Zentrale)
    } else if name == "nutzer"@ {
        Some(Widget::Nutzer)
    } else if name == "aufnahme"@ {
        Some(Widget::Aufnahme)
    } else {
        None
    }
}

/// The widgets that the words name, in order; unknown words drop out.
pub open spec fn widgets_spec(w: Seq<Seq<char>>) -> Seq<Widget>
    decreases w.len(),
{
    if w.len() == 0 {
        seq![]
    } else {
        match widget_spec(w.last()) {
            Some(x) => widgets_spec(w.drop_last()).push(x),
            None => widgets_spec(w.drop_last()),
        }
    }
}

/// The three zones that a layout text names.
pub open spec fn zonen_parse_spec(konf: Seq<char>) -> (Seq<Widget>, Seq<Widget>, Seq<Widget>) {
    let (l, m, r) = zonen_woerter(konf);
    (widgets_spec(l), widgets_spec(m), widgets_spec(r))
}

fn widget_chars(v: &Vec<char>) -> (r: Option<Widget>)
    ensures
        r == widget_spec(v@),
{
    if same_str(v, "matrix") {
        Some(Widget::Matrix)
    } else if same_str(v, "fokus") {
        Some(Widget::Fokus)
    } else if same_str(v, "uhr") {
        Some(Widget::Uhr)
    } else if same_str(v, "puls") {
        Some(Widget::Puls)
    } else if same_str(v, "glocke") {
        Some(Widget::Glocke)
    } else if same_str(v, "tray") {
        Some(Widget::Tray)
    } else if same_str(v, "akku") {
        Some(Widget::Akku)
    } else if same_str(v, "zentrale") {
        Some(Widget::Zentrale)
    } else if same_str(v, "nutzer") {
        Some(Widget::Nutzer)
    } else if same_str(v, "aufnahme") {
        Some(Widget::Aufnahme)
    } else {
        None
    }
}

impl Widget {
    /// The widget with the given key.
    pub fn aus(name: &str) -> (r: Option<Self>)
        ensures
            r == widget_spec(name@),
    {
        let v = chars_of(name);
        widget_chars(&v)
    }
}

fn widgets_lesen(w: &Vec<Vec<char>>) -> (r: Vec<Widget>)
    ensures
        r@ == widgets_spec(views(w@)),
{
    let mut r: Vec<Widget> = Vec::new();
    let mut i: usize = 0;
    assert(views(w@).take(0) =~= Seq::<Seq<char>>::empty());
    while i < w.len()
        invariant
            i <= w@.len(),
            r@ == widgets_spec(views(w@).take(i as int)),
        decreases w.len() - i,
    {
        assert(views(w@).take(i + 1).drop_last() =~= views(w@).take(i as int));
        assert(views(w@).take(i + 1).last() == w@[i as int]@);
        if let Some(x) = widget_chars(&w[i]) {
            r.push(x);
        }
        i = i + 1;
    }
    assert(views(w@).take(w@.len() as int) =~= views(w@));
    r
}

/// The zones of a layout text: three zones separated by `|`, widgets by whitespace;
/// unknown keys drop out silently, missing zones stay empty.
pub fn zonen_parse(konf: &str) -> (r: (Vec<Widget>, Vec<Widget>, Vec<Widget>))
    ensures
        (r.0@, r.1@, r.2@) == zonen_parse_spec(konf@),
{
    let k = chars_of(konf);
    let (l, m, r) = zonen_woerter_lesen(&k);
    (widgets_lesen(&l), widgets_lesen(&m), widgets_lesen(&r))
}

// --------------------------------------------------------------- session

/// The entries of the session menu.
#[derive(Debug, Clone, Copy, PartialEq, Eq, Structural)]
pub enum Aktion {
    Sperren,
    Abmelden,
    Standby,
    Neustart,
    Herunterfahren,
    Wiederherstellung,
}

/// Irrevocable actions want a second, red click.
pub open spec fn endgueltig_spec(a: Aktion) -> bool {
    a == Aktion::Neustart || a == Aktion::Herunterfahren
}

impl Aktion {
    pub fn titel(self) -> (r: &'static str)
        ensures
            r@ == match self {
                Aktion::Sperren => "Sperren"@,
                Aktion::Abmelden => "Abmelden …"@,
                Aktion::Standby => "Standby"@,
                Aktion::Neustart => "Neustart"@,
                Aktion::Herunterfahren => "Herunterfahren"@,
                Aktion::Wiederherstellung => "Wiederherstellung"@,
            },
    {
        match self {
            Aktion::Sperren => "Sperren",
            Aktion::Abmelden => "Abmelden …",
            Aktion::Standby => "Standby",
            Aktion::Neustart => "Neustart",
            Aktion::Herunterfahren => "Herunterfahren",
            Aktion::Wiederherstellung => "Wiederherstellung",
        }
    }

    /// Irrevocable actions want a second, red click.
    pub fn endgueltig(self) -> (r: bool)
        ensures
            r == endgueltig_spec(self),
    {
        match self {
            Aktion::Neustart | Aktion::Herunterfahren => true,
            _ => false,
        }
    }

    /// The question shown before the second click.
    pub fn frage(self) -> (r: &'static str)
        ensures
            r@ == match self {
                Aktion::Neustart => "Wirklich neu starten?"@,
                Aktion::Herunterfahren => "Wirklich ausschalten?"@,
                _ => ""@,
            },
    {
        match self {
            Aktion::Neustart => "Wirklich neu starten?",
            Aktion::Herunterfahren => "Wirklich ausschalten?",
            _ => "",
        }
    }
}

/// What the menus of the bar show: the session menu, the matrix menu, and the action that
/// waits for its confirming click.
#[derive(Debug, Clone, Copy, PartialEq, Eq, Structural)]
pub struct Menue {
    pub menue_offen: bool,
    pub matrix_offen: bool,
    pub bestaetigung: Option<Aktion>,
}

/// A click in the bar's menus.
#[derive(Debug, Clone, Copy, PartialEq, Eq, Structural)]
pub enum MenueMsg {
    /// The session menu opens.
    MenueAuf,
    /// The matrix menu opens.
    MatrixAuf,
    /// A click outside closes the menus.
    MenueZu,
    /// An app was picked from the matrix menu.
    AppGestartet,
    /// A session action was clicked.
    Aktion(Aktion),
}

/// What the bar does after a click: nothing, grow for an open menu, shrink back, or carry out
/// an action and shrink back.
#[derive(Debug, Clone, Copy, PartialEq, Eq, Structural)]
pub enum Folge {
    Nichts,
    Oeffnen,
    Schliessen,
    Ausfuehren(Aktion),
}

/// All menus closed, nothing waiting.
pub open spec fn zu() -> Menue {
    Menue { menue_offen: false, matrix_offen: false, bestaetigung: None }
}

/// The menus after a click, and what follows from it.
pub open spec fn menue_spec(m: Menue, msg: MenueMsg) -> (Menue, Folge) {
    match msg {
        MenueMsg::MenueAuf => (
            Menue { menue_offen: true, matrix_offen: false, bestaetigung: None },
            Folge::Oeffnen,
        ),
        MenueMsg::MatrixAuf => (
            Menue { menue_offen: false, matrix_offen: true, bestaetigung: None },
            Folge::Oeffnen,
        ),
        MenueMsg::MenueZu => (zu(), Folge::Schliessen),
        MenueMsg::AppGestartet => (zu(), Folge::Schliessen),
        MenueMsg::Aktion(a) => if endgueltig_spec(a) && m.bestaetigung != Some(a) {
            (Menue { bestaetigung: Some(a), ..m }, Folge::Nichts)
        } else {
            (zu(), Folge::Ausfuehren(a))
        },
    }
}

impl Menue {
    pub fn neu() -> (r: Menue)
        ensures
            r == zu(),
    {
        Menue { menue_offen: false, matrix_offen: false, bestaetigung: None }
    }

    /// Applies a click: an irrevocable action first only asks, the next click on it acts.
    pub fn klick(&mut self, msg: MenueMsg) -> (r: Folge)
        ensures
            (*final(self), r) == menue_spec(*old(self), msg),
    {
        match msg {
            MenueMsg::MenueAuf => {
                self.menue_offen = true;
                self.matrix_offen = false;
                self.bestaetigung = None;
                Folge::Oeffnen
            },
            MenueMsg::MatrixAuf => {
                self.matrix_offen = true;
                self.menue_offen = false;
                self.bestaetigung = None;
                Folge::Oeffnen
            },
            MenueMsg::MenueZu | MenueMsg::AppGestartet => {
                self.menue_offen = false;
                self.matrix_offen = false;
                self.bestaetigung = None;
                Folge::Schliessen
            },
            MenueMsg::Aktion(a) => {
                if a.endgueltig() && self.bestaetigung != Some(a) {
                    self.bestaetigung = Some(a);
                    Folge::Nichts
                } else {
                    self.menue_offen = false;
                    self.matrix_offen = false;
                    self.bestaetigung = None;
                    Folge::Ausfuehren(a)
                }
            },
        }
    }
}

/// An irrevocable action is carried out only by a click on it while it was already waiting
/// for confirmation; any other click takes the waiting confirmation back or replaces it.
pub proof fn lemma_zweiter_klick(m: Menue, msg: MenueMsg)
    ensures
        forall|a: Aktion|
            #![auto]
            menue_spec(m, msg).1 == Folge::Ausfuehren(a) && endgueltig_spec(a) ==> m.bestaetigung
                == Some(a) && msg == MenueMsg::Aktion(a),
        forall|a: Aktion|
            #![auto]
            menue_spec(m, msg).0.bestaetigung == Some(a) ==> msg == MenueMsg::Aktion(a)
                && endgueltig_spec(a),
{
}

/// Two clicks on the same irrevocable action carry it out: the first only asks.
pub proof fn lemma_zwei_klicks(m: Menue, a: Aktion)
    requires
        endgueltig_spec(a),
        m.bestaetigung != Some(a),
    ensures
        ({
            let (m1, f1) = menue_spec(m, MenueMsg::Aktion(a));
            let (m2, f2) = menue_spec(m1, MenueMsg::Aktion(a));
            f1 == Folge::Nichts && f2 == Folge::Ausfuehren(a) && m2 == zu()
        }),
{
}

/// The menus are sound: never both open, and only an irrevocable action waits.
pub open spec fn menue_wf(m: Menue) -> bool {
    &&& !(m.menue_offen && m.matrix_offen)
    &&& (m.bestaetigung matches Some(b) ==> endgueltig_spec(b))
}

/// Every click keeps the menus sound; opening one menu closes the other, and every click
/// but the first on an irrevocable action leaves nothing waiting.
pub proof fn lemma_menue_invariante(m: Menue, msg: MenueMsg)
    requires
        menue_wf(m),
    ensures
        menue_wf(menue_spec(m, msg).0),
        msg == MenueMsg::MenueAuf ==> menue_spec(m, msg).0.menue_offen && !menue_spec(
            m,
            msg,
        ).0.matrix_offen,
        msg == MenueMsg::MatrixAuf ==> menue_spec(m, msg).0.matrix_offen && !menue_spec(
            m,
            msg,
        ).0.menue_offen,
        (msg == MenueMsg::MenueZu || msg == MenueMsg::AppGestartet || menue_spec(m, msg).1
            is Ausfuehren) ==> menue_spec(m, msg).0 == zu(),
        !(msg is Aktion) ==> menue_spec(m, msg).0.bestaetigung is None,
{
}

// ------------------------------------------------------------------ names

/// The capitalization of account names: the first letter in upper case; the default
/// account `nicolas` shows as "Nutzer".
pub open spec fn gross_spec(s: Seq<char>) -> Seq<char> {
    if s == "nicolas"@ {
        "Nutzer"@
    } else {
        capitalized(s)
    }
}

/// First letter in upper case: account names stand upright in the bar.
pub fn gross(s: &str) -> (r: String)
    ensures
        r@ == gross_spec(s@),
{
    let v = chars_of(s);
    if same_str(&v, "nicolas") {
        return string_of(&chars_of("Nutzer"));
    }
    string_of(&capitalize(&v))
}

/// The display name of an account from the lines of `/etc/passwd`: the first GECOS field of
/// the first line of `login` that has a non-empty one (trimmed, capitalized), else the login.
pub open spec fn nutzer_spec(login: Seq<char>, passwd: Option<Seq<char>>) -> Seq<char> {
    match passwd {
        None => gross_spec(login),
        Some(p) => match gecos_name(lines(p), login) {
            Some(n) => gross_spec(n),
            None => gross_spec(login),
        },
    }
}

/// The trimmed first comma field of the fifth colon field of a passwd line.
pub open spec fn gecos_von(l: Seq<char>) -> Option<Seq<char>> {
    let f = split(l, ':');
    if f.len() > 4 {
        Some(trim(split(f[4], ',')[0]))
    } else {
        None
    }
}

/// The first non-empty GECOS name among the lines that start with `login:`.
pub open spec fn gecos_name(ls: Seq<Seq<char>>, login: Seq<char>) -> Option<Seq<char>>
    decreases ls.len(),
{
    if ls.len() == 0 {
        None
    } else {
        let l = ls[0];
        let p = login + seq![':'];
        let hier = if p.len() <= l.len() && l.take(p.len() as int) == p {
            match gecos_von(l) {
                Some(n) => if n.len() > 0 {
                    Some(n)
                } else {
                    None
                },
                None => None,
            }
        } else {
            None
        };
        match hier {
            Some(n) => Some(n),
            None => gecos_name(ls.drop_first(), login),
        }
    }
}

fn gecos_in(l: &Vec<char>) -> (r: Option<Vec<char>>)
    ensures
        match gecos_von(l@) {
            Some(n) => r matches Some(x) && x@ == n,
            None => r is None,
        },
{
    let f = split_at_char(l, ':');
    if f.len() > 4 {
        let g = split_at_char(&f[4], ',');
        proof {
            crate::text::lemma_split_nonempty(f@[4]@, ',');
        }
        let n = crate::text::trim_chars(&g[0]);
        assert(views(f@)[4] == f@[4]@);
        assert(views(g@)[0] == g@[0]@);
        Some(n)
    } else {
        None
    }
}

/// The display name of an account: GECOS from `/etc/passwd` (`None` when it cannot be
/// read), else the login name.
pub fn nutzer_anzeige(login: &str, passwd: Option<&str>) -> (r: String)
    ensures
        r@ == nutzer_spec(login@, match passwd {
            Some(p) => Some(p@),
            None => None,
        }),
{
    let lv = chars_of(login);
    if let Some(p) = passwd {
        let pv = chars_of(p);
        let ls = lines_of(&pv);
        let mut prefix = chars_of(login);
        prefix.push(':');
        let mut i: usize = 0;
        assert(views(ls@).skip(0) =~= views(ls@));
        while i < ls.len()
            invariant
                i <= ls@.len(),
                prefix@ == login@ + seq![':'],
                passwd == Some(p),
                gecos_name(views(ls@).skip(i as int), login@) == gecos_name(lines(p@), login@),
                views(ls@) == lines(p@),
            decreases ls.len() - i,
        {
            let ghost rest = views(ls@).skip(i as int);
            assert(rest[0] == ls@[i as int]@);
            assert(rest.drop_first() =~= views(ls@).skip(i + 1));
            let l = &ls[i];
            if l.len() >= prefix.len() {
                let kopf = slice(l, 0, prefix.len());
                if crate::text::same(&kopf, &prefix) {
                    if let Some(n) = gecos_in(l) {
                        if n.len() > 0 {
                            assert(kopf@ =~= ls@[i as int]@.take(prefix@.len() as int));
                            assert(gecos_name(rest, login@) == Some(n@));
                            let s = string_of(&n);
                            assert(gecos_name(lines(p@), login@) == Some(n@));
                            let r = gross(s.as_str());
                            assert(r@ == gross_spec(n@));
                            return r;
                        }
                    }
                }
            }
            i = i + 1;
        }
        assert(views(ls@).skip(i as int) =~= Seq::<Seq<char>>::empty());
    }
    gross(login)
}

/// The window title of the focused app: the app id's last dotted part with each dash part
/// capitalized and joined by spaces, then ` — ` and the title when there is one and it
/// differs; more than 64 characters are cut to 63 and an ellipsis.
pub open spec fn fokus_spec(app_id: Seq<char>, titel: Seq<char>) -> Seq<char> {
    let teile = split(app_id, '.');
    let letzt = teile[teile.len() - 1];
    let kurz = join(split(letzt, '-').map_values(|w: Seq<char>| capitalized(w)), seq![' ']);
    let s = if titel.len() == 0 || titel == kurz {
        kurz
    } else {
        kurz + " — "@ + titel
    };
    if s.len() > 64 {
        s.take(63) + seq!['…']
    } else {
        s
    }
}

/// The focused window as "App — Title" (shortened).
pub fn fokus_text(app_id: &str, titel: &str) -> (r: String)
    ensures
        r@ == fokus_spec(app_id@, titel@),
{
    let a = chars_of(app_id);
    let t = chars_of(titel);
    let teile = split_at_char(&a, '.');
    proof {
        crate::text::lemma_split_nonempty(a@, '.');
    }
    let letzt = &teile[teile.len() - 1];
    assert(views(teile@)[teile@.len() - 1] == letzt@);
    let stuecke = split_at_char(letzt, '-');
    let mut gross_teile: Vec<Vec<char>> = Vec::new();
    let mut i: usize = 0;
    while i < stuecke.len()
        invariant
            i <= stuecke@.len(),
            views(gross_teile@) == views(stuecke@).take(i as int).map_values(
                |w: Seq<char>| capitalized(w),
            ),
        decreases stuecke.len() - i,
    {
        let c = capitalize(&stuecke[i]);
        let ghost before = views(gross_teile@);
        gross_teile.push(c);
        assert(views(gross_teile@) =~= before.push(capitalized(stuecke@[i as int]@)));
        assert(views(stuecke@).take(i + 1) =~= views(stuecke@).take(i as int).push(
            stuecke@[i as int]@,
        ));
        assert(views(gross_teile@) =~= views(stuecke@).take(i + 1).map_values(
            |w: Seq<char>| capitalized(w),
        ));
        i = i + 1;
    }
    assert(views(stuecke@).take(stuecke@.len() as int) =~= views(stuecke@));
    let mut sp: Vec<char> = Vec::new();
    sp.push(' ');
    let kurz = join_with(&gross_teile, &sp);
    assert(sp@ =~= seq![' ']);
    let s = if t.len() == 0 || crate::text::same(&t, &kurz) {
        kurz
    } else {
        let strich = chars_of(" — ");
        let k2 = concat(&kurz, &strich);
        concat(&k2, &t)
    };
    if s.len() > 64 {
        let mut k = slice(&s, 0, 63);
        k.push('…');
        assert(k@ =~= s@.take(63) + seq!['…']);
        string_of(&k)
    } else {
        string_of(&s)
    }
}

// ------------------------------------------------------------- readings

/// One power supply: the charge from its `capacity` text (trimmed, at most 100) and whether
/// its `status` text (trimmed) says "Charging"; `None` when the capacity is no `u8`.
pub open spec fn akku_spec(capacity: Seq<char>, status: Option<Seq<char>>) -> Option<(u8, bool)> {
    match parse_unsigned(trim(capacity), 255) {
        None => None,
        Some(p) => Some((
            if p > 100 {
                100u8
            } else {
                p as u8
            },
            match status {
                Some(s) => trim(s) == "Charging"@,
                None => false,
            },
        )),
    }
}

/// The charge state of one power supply from its `capacity` and `status` files.
pub fn akku_eintrag(capacity: &str, status: Option<&str>) -> (r: Option<(u8, bool)>)
    ensures
        r == akku_spec(capacity@, match status {
            Some(s) => Some(s@),
            None => None,
        }),
{
    let c = trim_str(capacity);
    let prozent = match parse_u8(&c) {
        Some(p) => p,
        None => return None,
    };
    let laedt = match status {
        Some(s) => {
            let t = trim_str(s);
            same_str(&t, "Charging")
        },
        None => false,
    };
    Some((
        if prozent > 100 {
            100
        } else {
            prozent
        },
        laedt,
    ))
}

/// The active connection's name from `nmcli -t -f NAME,TYPE connection show --active`: the
/// part before the first `:` of the first line that does not mention "loopback".
pub open spec fn netz_spec(ausgabe: Seq<char>) -> Option<Seq<char>> {
    match erste_ohne(lines(ausgabe), "loopback"@) {
        Some(l) => Some(split(l, ':')[0]),
        None => None,
    }
}

/// The first line that does not contain `p`.
pub open spec fn erste_ohne(ls: Seq<Seq<char>>, p: Seq<char>) -> Option<Seq<char>>
    decreases ls.len(),
{
    if ls.len() == 0 {
        None
    } else if !has_infix(ls[0], p) {
        Some(ls[0])
    } else {
        erste_ohne(ls.drop_first(), p)
    }
}

/// The name of the active network connection.
pub fn netz_name(ausgabe: &str) -> (r: Option<String>)
    ensures
        match netz_spec(ausgabe@) {
            Some(n) => r matches Some(s) && s@ == n,
            None => r is None,
        },
{
    let v = chars_of(ausgabe);
    let ls = lines_of(&v);
    let lb = chars_of("loopback");
    let mut i: usize = 0;
    assert(views(ls@).skip(0) =~= views(ls@));
    while i < ls.len()
        invariant
            i <= ls@.len(),
            lb@ == "loopback"@,
            views(ls@) == lines(v@),
            v@ == ausgabe@,
            erste_ohne(views(ls@).skip(i as int), "loopback"@) == erste_ohne(lines(v@), "loopback"@),
        decreases ls.len() - i,
    {
        let ghost rest = views(ls@).skip(i as int);
        assert(rest[0] == ls@[i as int]@);
        assert(rest.drop_first() =~= views(ls@).skip(i + 1));
        if !contains_seq(&ls[i], &lb) {
            let f = split_at_char(&ls[i], ':');
            proof {
                crate::text::lemma_split_nonempty(ls@[i as int]@, ':');
            }
            assert(views(f@)[0] == f@[0]@);
            return Some(string_of(&f[0]));
        }
        i = i + 1;
    }
    assert(views(ls@).skip(i as int) =~= Seq::<Seq<char>>::empty());
    None
}

/// The start time of a running screen recording: the third line of the status file as a
/// `u64`.
pub open spec fn film_start_spec(status: Seq<char>) -> Option<u64> {
    let ls = lines(status);
    if ls.len() > 2 {
        match parse_unsigned(ls[2], u64::MAX as nat) {
            Some(v) => Some(v as u64),
            None => None,
        }
    } else {
        None
    }
}

/// The start time of a running screen recording from its status file.
pub fn film_start(status: &str) -> (r: Option<u64>)
    ensures
        r == film_start_spec(status@),
{
    let v = chars_of(status);
    let ls = lines_of(&v);
    if ls.len() > 2 {
        assert(views(ls@)[2] == ls@[2]@);
        parse_u64(&ls[2])
    } else {
        None
    }
}

/// An app entry of the matrix menu, "name area": the app to start and the area it should
/// open at.
pub open spec fn app_wunsch_spec(id: Seq<char>) -> (Seq<char>, Option<Seq<char>>) {
    let t = splitn(id, ' ', 2);
    (t[0], if t.len() > 1 {
        Some(t[1])
    } else {
        None
    })
}

/// Splits an app entry "name area" at its first space.
pub fn app_wunsch(id: &str) -> (r: (String, Option<String>))
    ensures
        (r.0@, match r.1 {
            Some(b) => Some(b@),
            None => None,
        }) == app_wunsch_spec(id@),
{
    let v = chars_of(id);
    let t = splitn_at_char(&v, ' ', 2);
    proof {
        crate::text::lemma_splitn_nonempty(v@, ' ', 2);
    }
    assert(views(t@)[0] == t@[0]@);
    let name = string_of(&t[0]);
    if t.len() > 1 {
        assert(views(t@)[1] == t@[1]@);
        (name, Some(string_of(&t[1])))
    } else {
        (name, None)
    }
}

/// The pulse counter after one pulse (it wraps), and whether the slow readings (network,
/// battery, shell) are due: on every fifth pulse, or while the network is unknown.
pub fn puls_weiter(zaehler: u8, netz_unbekannt: bool) -> (r: (u8, bool))
    ensures
        r.0 == (if zaehler == 255 { 0 } else { zaehler + 1 }),
        r.1 == (r.0 % 5 == 0 || netz_unbekannt),
{
    let z = zaehler.wrapping_add(1);
    (z, z % 5 == 0 || netz_unbekannt)
}

/// Whether the charging chime sounds: only when a battery that did not charge starts to,
/// never when it is unplugged.
pub fn lade_klang(alt: Option<(u8, bool)>, neu: Option<(u8, bool)>) -> (r: bool)
    ensures
        r == (match (alt, neu) {
            (Some((_, a)), Some((_, n))) => !a && n,
            _ => false,
        }),
{
    match (alt, neu) {
        (Some((_, a)), Some((_, n))) => !a && n,
        _ => false,
    }
}

/// The clock's `date` format: 12 hours with a marker where the locale prints one for `%p`,
/// else 24 hours.
pub fn uhr_format(am_pm: Option<&str>) -> (r: &'static str)
    ensures
        r@ == (if match am_pm {
            Some(p) => trim(p@).len() > 0,
            None => false,
        } {
            "+%a. %-I:%M %p"@
        } else {
            "+%a. %H:%M"@
        }),
{
    let zwoelf = match am_pm {
        Some(p) => crate::text::trim_str(p).len() > 0,
        None => false,
    };
    if zwoelf {
        "+%a. %-I:%M %p"
    } else {
        "+%a. %H:%M"
    }
}

} // verus!
