//! The notification daemon: what the `org.freedesktop.Notifications` service answers, the
//! ids it hands out, and the popups and history of the notification centre.

use vstd::prelude::*;
use crate::text::{chars_of, has_infix, lemma_infix_teil, string_of};

verus! {

/// Most notifications the history keeps.
pub const VERLAUF_MAX: usize = 40;

/// How long a popup stays, in milliseconds.
pub const STANDZEIT_MS: u64 = 5000;

/// Width of the popups and the history panel.
pub const BREITE: u32 = 380;

/// One notification.
pub struct Mitteilung {
    pub id: u32,
    pub app: String,
    pub titel: String,
    pub text: String,
    /// (key, label) of each action button.
    pub aktionen: Vec<(String, String)>,
}

impl Mitteilung {
    /// A copy.
    pub fn kopie(&self) -> (r: Mitteilung)
        ensures
            r.id == self.id,
            r.app@ == self.app@,
            r.titel@ == self.titel@,
            r.text@ == self.text@,
            r.aktionen@.len() == self.aktionen@.len(),
            forall|i: int|
                0 <= i < r.aktionen@.len() ==> r.aktionen@[i].0@ == self.aktionen@[i].0@
                    && r.aktionen@[i].1@ == self.aktionen@[i].1@,
    {
        let mut a: Vec<(String, String)> = Vec::new();
        let mut i: usize = 0;
        while i < self.aktionen.len()
            invariant
                i <= self.aktionen@.len(),
                a@.len() == i,
                forall|k: int|
                    0 <= k < i ==> a@[k].0@ == self.aktionen@[k].0@ && a@[k].1@
                        == self.aktionen@[k].1@,
            decreases self.aktionen.len() - i,
        {
            a.push((self.aktionen[i].0.clone(), self.aktionen[i].1.clone()));
            i = i + 1;
        }
        Mitteilung {
            id: self.id,
            app: self.app.clone(),
            titel: self.titel.clone(),
            text: self.text.clone(),
            aktionen: a,
        }
    }
}

// ---------------------------------------------------------------- service

/// What the service can do.
pub fn capabilities() -> (r: Vec<String>)
    ensures
        r@.map_values(|s: String| s@) == seq!["body"@, "actions"@, "persistence"@],
{
    let mut r: Vec<String> = Vec::new();
    r.push(string_of(&chars_of("body")));
    r.push(string_of(&chars_of("actions")));
    r.push(string_of(&chars_of("persistence")));
    assert(r@.map_values(|s: String| s@) =~= seq!["body"@, "actions"@, "persistence"@]);
    r
}

/// Name, vendor, version and specification version of the service.
pub fn server_information(version: &str) -> (r: (String, String, String, String))
    ensures
        r.0@ == "Matrix Mitteilungen"@,
        r.1@ == "Matrix"@,
        r.2@ == version@,
        r.3@ == "1.2"@,
{
    (
        string_of(&chars_of("Matrix Mitteilungen")),
        string_of(&chars_of("Matrix")),
        string_of(&chars_of(version)),
        string_of(&chars_of("1.2")),
    )
}

/// The ids the service hands out: a replaced notification keeps its id; a new one gets the
/// next, counting on from 1 and wrapping around.
pub struct IdGeber {
    pub naechste: u32,
}

impl IdGeber {
    pub fn neu() -> (r: IdGeber)
        ensures
            r.naechste == 1,
    {
        IdGeber { naechste: 1 }
    }

    /// The id of a notification that replaces `replaces_id` (0: replaces none).
    pub fn vergeben(&mut self, replaces_id: u32) -> (r: u32)
        ensures
            replaces_id != 0 ==> r == replaces_id && final(self).naechste == old(self).naechste,
            replaces_id == 0 ==> r == old(self).naechste && final(self).naechste == (if old(
                self,
            ).naechste == u32::MAX {
                0
            } else {
                (old(self).naechste + 1) as u32
            }),
    {
        if replaces_id != 0 {
            replaces_id
        } else {
            let id = self.naechste;
            self.naechste = self.naechste.wrapping_add(1);
            id
        }
    }
}

/// The actions of a notification from the flat list `[key1, label1, key2, label2, …]`; a
/// key without a label is dropped.
pub open spec fn paare_spec(flach: Seq<Seq<char>>) -> Seq<(Seq<char>, Seq<char>)> {
    Seq::new(flach.len() / 2, |i: int| (flach[2 * i], flach[2 * i + 1]))
}

/// The actions of a notification from the flat list.
pub fn aktionen_aus(flach: &Vec<String>) -> (r: Vec<(String, String)>)
    ensures
        r@.map_values(|p: (String, String)| (p.0@, p.1@)) == paare_spec(
            flach@.map_values(|s: String| s@),
        ),
{
    let ghost f = flach@.map_values(|s: String| s@);
    let mut r: Vec<(String, String)> = Vec::new();
    let mut i: usize = 0;
    let len = flach.len();
    let n = len / 2;
    while i < n
        invariant
            len == flach@.len(),
            n == len / 2,
            f == flach@.map_values(|s: String| s@),
            i <= n,
            r@.len() == i,
            forall|k: int| 0 <= k < i ==> (#[trigger] r@[k]).0@ == f[2 * k] && r@[k].1@ == f[2 * k + 1],
        decreases n - i,
    {
        assert(2 * i + 1 < len) by (nonlinear_arith)
            requires
                i < n,
                n == len / 2,
        ;
        r.push((flach[2 * i].clone(), flach[2 * i + 1].clone()));
        i = i + 1;
    }
    assert(r@.map_values(|p: (String, String)| (p.0@, p.1@)) =~= paare_spec(f));
    r
}

// ---------------------------------------------------------------- centre

/// A sound the centre plays.
#[derive(Debug, Clone, Copy, PartialEq, Eq, Structural)]
pub enum Klang {
    /// The screenshot trigger.
    Screenshot,
    /// A plain notice.
    Hinweis,
}

/// A signal back to the sender of a notification.
pub enum Befehl {
    /// An action was invoked: id and key.
    Aktion(u32, String),
    /// The notification was closed: id and reason.
    Geschlossen(u32, u32),
}

/// The popups and the history.
pub struct Zentrale {
    /// The popups with the time they appeared, in milliseconds.
    pub stapel: Vec<(Mitteilung, u64)>,
    /// The history, newest first.
    pub verlauf: Vec<Mitteilung>,
    pub verlauf_offen: bool,
    /// Do not disturb: no popups, the history still collects.
    pub dnd: bool,
    pub letzte_hoehe: u32,
}

/// Whether a notification reports a screenshot: its title or app says so.
pub open spec fn ist_foto(titel: Seq<char>, app: Seq<char>) -> bool {
    has_infix(titel, "creenshot"@) || has_infix(titel, "ildschirmfoto"@) || has_infix(app, "niri"@)
}

/// Whether a notification's title speaks of a screenshot, in English or German.
pub open spec fn titel_spricht_von_foto(titel: Seq<char>) -> bool {
    has_infix(titel, "Screenshot"@) || has_infix(titel, "screenshot"@) || has_infix(
        titel,
        "Bildschirmfoto"@,
    )
}

/// A notification whose title speaks of a screenshot ("Screenshot", "screenshot",
/// "Bildschirmfoto") reports a screenshot, whatever app sent it.
pub proof fn lemma_foto_titel(titel: Seq<char>, app: Seq<char>)
    requires
        titel_spricht_von_foto(titel),
    ensures
        ist_foto(titel, app),
{
    reveal_strlit("Screenshot");
    reveal_strlit("screenshot");
    reveal_strlit("creenshot");
    reveal_strlit("Bildschirmfoto");
    reveal_strlit("ildschirmfoto");
    if has_infix(titel, "Screenshot"@) {
        lemma_infix_teil(titel, "Screenshot"@, 1, 10);
        assert("Screenshot"@.subrange(1, 10) =~= "creenshot"@);
    } else if has_infix(titel, "screenshot"@) {
        lemma_infix_teil(titel, "screenshot"@, 1, 10);
        assert("screenshot"@.subrange(1, 10) =~= "creenshot"@);
    } else {
        lemma_infix_teil(titel, "Bildschirmfoto"@, 1, 14);
        assert("Bildschirmfoto"@.subrange(1, 14) =~= "ildschirmfoto"@);
    }
}

/// The ids of the history.
pub open spec fn verlauf_ids(v: Seq<Mitteilung>) -> Seq<u32> {
    v.map_values(|m: Mitteilung| m.id)
}

/// The ids of the popups.
pub open spec fn stapel_ids(v: Seq<(Mitteilung, u64)>) -> Seq<u32> {
    v.map_values(|p: (Mitteilung, u64)| p.0.id)
}

/// The ids of `s` other than `id`, in order.
pub open spec fn ohne_id(s: Seq<u32>, id: u32) -> Seq<u32>
    decreases s.len(),
{
    if s.len() == 0 {
        s
    } else if s.last() != id {
        ohne_id(s.drop_last(), id).push(s.last())
    } else {
        ohne_id(s.drop_last(), id)
    }
}

/// No id twice.
pub open spec fn ids_einmalig(s: Seq<u32>) -> bool {
    forall|i: int, j: int| 0 <= i < j < s.len() ==> s[i] != s[j]
}

fn verlauf_ohne(v: &mut Vec<Mitteilung>, id: u32)
    ensures
        verlauf_ids(final(v)@) == ohne_id(verlauf_ids(old(v)@), id),
        forall|i: int|
            0 <= i < final(v)@.len() ==> exists|j: int|
                0 <= j < old(v)@.len() && #[trigger] final(v)@[i] == old(v)@[j],
{
    let ghost s = verlauf_ids(v@);
    let n = v.len();
    let mut neu: Vec<Mitteilung> = Vec::new();
    let mut alt: Vec<Mitteilung> = Vec::new();
    std::mem::swap(&mut alt, v);
    let ghost a = alt@;
    let mut i: usize = 0;
    assert(s.take(0) =~= Seq::<u32>::empty());
    while alt.len() > 0
        invariant
            a == old(v)@,
            a.len() == n,
            s == verlauf_ids(a),
            i + alt@.len() == a.len(),
            alt@ == a.skip(i as int),
            verlauf_ids(neu@) == ohne_id(s.take(i as int), id),
            forall|k: int| 0 <= k < neu@.len() ==> exists|j: int| 0 <= j < a.len() && #[trigger] neu@[k] == a[j],
        decreases alt@.len(),
    {
        let m = alt.remove(0);
        assert(m == a[i as int]);
        assert(alt@ =~= a.skip(i + 1));
        assert(s.take(i + 1).drop_last() =~= s.take(i as int));
        assert(s.take(i + 1).last() == m.id);
        let ghost vorher = neu@;
        if m.id != id {
            neu.push(m);
            assert(verlauf_ids(neu@) =~= verlauf_ids(vorher).push(a[i as int].id));
            assert forall|k: int| 0 <= k < neu@.len() implies exists|j: int| 0 <= j < a.len() && #[trigger] neu@[k] == a[j] by {
                if k == neu@.len() - 1 {
                    assert(neu@[k] == a[i as int]);
                } else {
                    assert(neu@[k] == vorher[k]);
                }
            }
        }
        i = i + 1;
    }
    assert(s.take(a.len() as int) =~= s);
    *v = neu;
}

proof fn lemma_ohne_id(s: Seq<u32>, id: u32)
    ensures
        forall|k: int| 0 <= k < ohne_id(s, id).len() ==> ohne_id(s, id)[k] != id && s.contains(
            #[trigger] ohne_id(s, id)[k],
        ),
        ohne_id(s, id).len() <= s.len(),
        ids_einmalig(s) ==> ids_einmalig(ohne_id(s, id)),
    decreases s.len(),
{
    if s.len() > 0 {
        let u = s.drop_last();
        lemma_ohne_id(u, id);
        let t = ohne_id(u, id);
        assert forall|k: int| 0 <= k < t.len() implies s.contains(#[trigger] t[k]) by {
            let j = choose|j: int| 0 <= j < u.len() && u[j] == t[k];
            assert(s[j] == u[j]);
        }
        if s.last() != id {
            let r = t.push(s.last());
            assert forall|k: int| 0 <= k < r.len() implies r[k] != id && s.contains(#[trigger] r[k]) by {
                if k == t.len() {
                    assert(s[s.len() - 1] == s.last());
                } else {
                    assert(r[k] == t[k]);
                }
            }
            if ids_einmalig(s) {
                assert(ids_einmalig(u)) by {
                    assert forall|i: int, j: int| 0 <= i < j < u.len() implies u[i] != u[j] by {
                        assert(u[i] == s[i] && u[j] == s[j]);
                    }
                }
                assert forall|i: int, j: int| 0 <= i < j < r.len() implies r[i] != r[j] by {
                    if j == t.len() {
                        assert(r[i] == t[i]);
                        let q = choose|q: int| 0 <= q < u.len() && u[q] == t[i];
                        assert(s[q] == u[q]);
                    } else {
                        assert(r[i] == t[i] && r[j] == t[j]);
                    }
                }
            }
        } else if ids_einmalig(s) {
            assert(ids_einmalig(u)) by {
                assert forall|i: int, j: int| 0 <= i < j < u.len() implies u[i] != u[j] by {
                    assert(u[i] == s[i] && u[j] == s[j]);
                }
            }
        }
    }
}

/// The popups as (id, time it appeared).
pub open spec fn stapel_sicht(v: Seq<(Mitteilung, u64)>) -> Seq<(u32, u64)> {
    v.map_values(|p: (Mitteilung, u64)| (p.0.id, p.1))
}

/// The popups other than `id`, in order.
pub open spec fn stapel_ohne_spec(s: Seq<(u32, u64)>, id: u32) -> Seq<(u32, u64)>
    decreases s.len(),
{
    if s.len() == 0 {
        s
    } else if s.last().0 != id {
        stapel_ohne_spec(s.drop_last(), id).push(s.last())
    } else {
        stapel_ohne_spec(s.drop_last(), id)
    }
}

/// How old a popup is at `jetzt` (0 for a time after it).
pub open spec fn alter(seit: u64, jetzt: u64) -> int {
    if jetzt >= seit {
        jetzt - seit
    } else {
        0
    }
}

/// The popups still young enough at `jetzt`, in order.
pub open spec fn frisch_spec(s: Seq<(u32, u64)>, jetzt: u64) -> Seq<(u32, u64)>
    decreases s.len(),
{
    if s.len() == 0 {
        s
    } else if alter(s.last().1, jetzt) < STANDZEIT_MS {
        frisch_spec(s.drop_last(), jetzt).push(s.last())
    } else {
        frisch_spec(s.drop_last(), jetzt)
    }
}

fn stapel_behalten(v: &mut Vec<(Mitteilung, u64)>, id: u32, jetzt: u64, nach_zeit: bool)
    ensures
        stapel_sicht(final(v)@) == (if nach_zeit {
            frisch_spec(stapel_sicht(old(v)@), jetzt)
        } else {
            stapel_ohne_spec(stapel_sicht(old(v)@), id)
        }),
{
    let ghost s = stapel_sicht(v@);
    let n = v.len();
    let mut neu: Vec<(Mitteilung, u64)> = Vec::new();
    let mut alt: Vec<(Mitteilung, u64)> = Vec::new();
    std::mem::swap(&mut alt, v);
    let ghost a = alt@;
    let mut i: usize = 0;
    assert(s.take(0) =~= Seq::<(u32, u64)>::empty());
    while alt.len() > 0
        invariant
            a == old(v)@,
            a.len() == n,
            s == stapel_sicht(a),
            i + alt@.len() == a.len(),
            alt@ == a.skip(i as int),
            stapel_sicht(neu@) == (if nach_zeit {
                frisch_spec(s.take(i as int), jetzt)
            } else {
                stapel_ohne_spec(s.take(i as int), id)
            }),
        decreases alt@.len(),
    {
        let m = alt.remove(0);
        assert(m == a[i as int]);
        assert(alt@ =~= a.skip(i + 1));
        assert(s.take(i + 1).drop_last() =~= s.take(i as int));
        assert(s.take(i + 1).last() == (m.0.id, m.1));
        let behalten = if nach_zeit {
            (if jetzt >= m.1 {
                jetzt - m.1
            } else {
                0
            }) < STANDZEIT_MS
        } else {
            m.0.id != id
        };
        if behalten {
            let ghost vorher = neu@;
            neu.push(m);
            assert(stapel_sicht(neu@) =~= stapel_sicht(vorher).push(s[i as int]));
        }
        i = i + 1;
    }
    assert(s.take(a.len() as int) =~= s);
    *v = neu;
}

/// The first `VERLAUF_MAX` of a history.
pub open spec fn gekuerzt(s: Seq<u32>) -> Seq<u32> {
    if s.len() <= VERLAUF_MAX {
        s
    } else {
        s.take(VERLAUF_MAX as int)
    }
}

impl Zentrale {
    /// The centre with nothing shown.
    pub fn neu(dnd: bool) -> (r: Zentrale)
        ensures
            r.stapel@.len() == 0,
            r.verlauf@.len() == 0,
            !r.verlauf_offen,
            r.dnd == dnd,
            r.letzte_hoehe == 1,
    {
        Zentrale { stapel: Vec::new(), verlauf: Vec::new(), verlauf_offen: false, dnd, letzte_hoehe: 1 }
    }

    /// A notification arrives at `jetzt`: it goes to the front of the history (once, at most
    /// `VERLAUF_MAX` kept); unless do-not-disturb is on it also pops up, with the sound to
    /// play.
    pub fn ankunft(&mut self, m: Mitteilung, jetzt: u64) -> (r: Option<Klang>)
        ensures
            verlauf_ids(final(self).verlauf@) == gekuerzt(
                seq![m.id] + ohne_id(verlauf_ids(old(self).verlauf@), m.id),
            ),
            final(self).verlauf@.len() > 0 && final(self).verlauf@[0].id == m.id
                && final(self).verlauf@[0].titel@ == m.titel@,
            final(self).dnd == old(self).dnd,
            final(self).verlauf_offen == old(self).verlauf_offen,
            final(self).letzte_hoehe == old(self).letzte_hoehe,
            old(self).dnd ==> r is None && stapel_sicht(final(self).stapel@) == stapel_sicht(
                old(self).stapel@,
            ),
            !old(self).dnd ==> stapel_sicht(final(self).stapel@) == stapel_ohne_spec(
                stapel_sicht(old(self).stapel@),
                m.id,
            ).push((m.id, jetzt)) && r == Some(
                if ist_foto(m.titel@, m.app@) {
                    Klang::Screenshot
                } else {
                    Klang::Hinweis
                },
            ),
            !old(self).dnd && titel_spricht_von_foto(m.titel@) ==> r == Some(Klang::Screenshot),
    {
        proof {
            if titel_spricht_von_foto(m.titel@) {
                lemma_foto_titel(m.titel@, m.app@);
            }
        }
        verlauf_ohne(&mut self.verlauf, m.id);
        let ghost rest = verlauf_ids(self.verlauf@);
        let kopie = m.kopie();
        let ghost vorher = self.verlauf@;
        self.verlauf.insert(0, kopie);
        assert(verlauf_ids(self.verlauf@) =~= seq![m.id] + rest);
        if self.verlauf.len() > VERLAUF_MAX {
            let ghost lang = self.verlauf@;
            self.verlauf.truncate(VERLAUF_MAX);
            assert(verlauf_ids(self.verlauf@) =~= verlauf_ids(lang).take(VERLAUF_MAX as int));
        }
        if self.dnd {
            return None;
        }
        let foto = has_infix_str(m.titel.as_str(), "creenshot") || has_infix_str(
            m.titel.as_str(),
            "ildschirmfoto",
        ) || has_infix_str(m.app.as_str(), "niri");
        stapel_behalten(&mut self.stapel, m.id, jetzt, false);
        let ghost vs = self.stapel@;
        let id = m.id;
        self.stapel.push((m, jetzt));
        assert(stapel_sicht(self.stapel@) =~= stapel_sicht(vs).push((id, jetzt)));
        if foto {
            Some(Klang::Screenshot)
        } else {
            Some(Klang::Hinweis)
        }
    }

    /// A notification is closed by its sender: its popup goes.
    pub fn weg(&mut self, id: u32)
        ensures
            stapel_sicht(final(self).stapel@) == stapel_ohne_spec(stapel_sicht(old(self).stapel@), id),
            verlauf_ids(final(self).verlauf@) == verlauf_ids(old(self).verlauf@),
            final(self).dnd == old(self).dnd,
            final(self).verlauf_offen == old(self).verlauf_offen,
            final(self).letzte_hoehe == old(self).letzte_hoehe,
    {
        stapel_behalten(&mut self.stapel, id, 0, false);
    }

    /// The clock ticks: popups older than their standing time go.
    pub fn altern(&mut self, jetzt: u64)
        ensures
            stapel_sicht(final(self).stapel@) == frisch_spec(stapel_sicht(old(self).stapel@), jetzt),
            verlauf_ids(final(self).verlauf@) == verlauf_ids(old(self).verlauf@),
            final(self).dnd == old(self).dnd,
            final(self).verlauf_offen == old(self).verlauf_offen,
            final(self).letzte_hoehe == old(self).letzte_hoehe,
    {
        stapel_behalten(&mut self.stapel, 0, jetzt, true);
    }

    /// A click on a popup dismisses it; the sender learns it was dismissed.
    pub fn klick(&mut self, id: u32) -> (r: Befehl)
        ensures
            stapel_sicht(final(self).stapel@) == stapel_ohne_spec(stapel_sicht(old(self).stapel@), id),
            verlauf_ids(final(self).verlauf@) == verlauf_ids(old(self).verlauf@),
            final(self).dnd == old(self).dnd,
            final(self).verlauf_offen == old(self).verlauf_offen,
            r matches Befehl::Geschlossen(i, grund) && i == id && grund == 2,
    {
        stapel_behalten(&mut self.stapel, id, 0, false);
        Befehl::Geschlossen(id, 2)
    }

    /// An action button: the sender learns the action, then that the popup was dismissed.
    pub fn aktion(&mut self, id: u32, key: String) -> (r: (Befehl, Befehl))
        ensures
            stapel_sicht(final(self).stapel@) == stapel_ohne_spec(stapel_sicht(old(self).stapel@), id),
            verlauf_ids(final(self).verlauf@) == verlauf_ids(old(self).verlauf@),
            final(self).dnd == old(self).dnd,
            final(self).verlauf_offen == old(self).verlauf_offen,
            r.0 matches Befehl::Aktion(i, k) && i == id && k@ == key@,
            r.1 matches Befehl::Geschlossen(i, grund) && i == id && grund == 2,
    {
        stapel_behalten(&mut self.stapel, id, 0, false);
        (Befehl::Aktion(id, key), Befehl::Geschlossen(id, 2))
    }

    /// The bell toggles the history panel.
    pub fn glocke(&mut self)
        ensures
            final(self).verlauf_offen == !old(self).verlauf_offen,
            final(self).dnd == old(self).dnd,
            stapel_sicht(final(self).stapel@) == stapel_sicht(old(self).stapel@),
            verlauf_ids(final(self).verlauf@) == verlauf_ids(old(self).verlauf@),
    {
        self.verlauf_offen = !self.verlauf_offen;
    }

    /// Close the history panel.
    pub fn verlauf_zu(&mut self)
        ensures
            !final(self).verlauf_offen,
            final(self).dnd == old(self).dnd,
            stapel_sicht(final(self).stapel@) == stapel_sicht(old(self).stapel@),
            verlauf_ids(final(self).verlauf@) == verlauf_ids(old(self).verlauf@),
    {
        self.verlauf_offen = false;
    }

    /// Empty the history.
    pub fn alle_loeschen(&mut self)
        ensures
            final(self).verlauf@.len() == 0,
            final(self).dnd == old(self).dnd,
            final(self).verlauf_offen == old(self).verlauf_offen,
            stapel_sicht(final(self).stapel@) == stapel_sicht(old(self).stapel@),
    {
        self.verlauf = Vec::new();
    }

    /// Toggle do-not-disturb; turning it on clears the popups. The new setting, to store.
    pub fn dnd_umschalten(&mut self) -> (r: bool)
        ensures
            r == !old(self).dnd,
            final(self).dnd == r,
            final(self).verlauf_offen == old(self).verlauf_offen,
            verlauf_ids(final(self).verlauf@) == verlauf_ids(old(self).verlauf@),
            r ==> final(self).stapel@.len() == 0,
            !r ==> stapel_sicht(final(self).stapel@) == stapel_sicht(old(self).stapel@),
    {
        self.dnd = !self.dnd;
        if self.dnd {
            self.stapel = Vec::new();
        }
        self.dnd
    }

    /// The size the surface needs: the history panel, else the popups, else a single pixel.
    pub open spec fn mass_spec(&self) -> (u32, u32) {
        if self.verlauf_offen {
            (
                BREITE,
                (44 + (if self.verlauf@.len() > 1 {
                    self.verlauf@.len()
                } else {
                    1
                }) * 84 + 16) as u32,
            )
        } else if self.stapel@.len() > 0 {
            (BREITE, (self.stapel@.len() * 108 + 8) as u32)
        } else {
            (1, 1)
        }
    }

    /// The new size of the surface, where its height changed (capped at 1400).
    pub fn mass(&mut self) -> (r: Option<(u32, u32)>)
        requires
            old(self).verlauf@.len() <= VERLAUF_MAX,
            old(self).stapel@.len() * 108 + 8 <= u32::MAX,
        ensures
            final(self).letzte_hoehe == old(self).mass_spec().1,
            final(self).verlauf_offen == old(self).verlauf_offen,
            final(self).dnd == old(self).dnd,
            stapel_sicht(final(self).stapel@) == stapel_sicht(old(self).stapel@),
            verlauf_ids(final(self).verlauf@) == verlauf_ids(old(self).verlauf@),
            match r {
                Some((b, h)) => old(self).mass_spec().1 != old(self).letzte_hoehe && b == old(
                    self,
                ).mass_spec().0 && h == (if old(self).mass_spec().1 < 1400 {
                    old(self).mass_spec().1
                } else {
                    1400
                }),
                None => old(self).mass_spec().1 == old(self).letzte_hoehe,
            },
    {
        let (breite, hoehe): (u32, u32) = if self.verlauf_offen {
            let n: u32 = if self.verlauf.len() > 1 {
                self.verlauf.len() as u32
            } else {
                1
            };
            (BREITE, 44 + n * 84 + 16)
        } else if self.stapel.len() > 0 {
            (BREITE, (self.stapel.len() as u32) * 108 + 8)
        } else {
            (1, 1)
        };
        if hoehe != self.letzte_hoehe {
            self.letzte_hoehe = hoehe;
            return Some((breite, if hoehe < 1400 {
                hoehe
            } else {
                1400
            }));
        }
        None
    }
}

fn has_infix_str(s: &str, p: &str) -> (r: bool)
    ensures
        r == has_infix(s@, p@),
{
    crate::text::contains_seq(&chars_of(s), &chars_of(p))
}

/// The history never holds an id twice nor more than `VERLAUF_MAX` notifications, the
/// popups never an id twice; and while do-not-disturb is on, nothing pops up.
pub proof fn lemma_verlauf_einmalig(verlauf: Seq<u32>, stapel: Seq<(u32, u64)>, id: u32, jetzt: u64)
    requires
        ids_einmalig(verlauf),
        ids_einmalig(stapel.map_values(|p: (u32, u64)| p.0)),
    ensures
        ids_einmalig(gekuerzt(seq![id] + ohne_id(verlauf, id))),
        gekuerzt(seq![id] + ohne_id(verlauf, id)).len() <= VERLAUF_MAX,
        ids_einmalig(stapel_ohne_spec(stapel, id).push((id, jetzt)).map_values(|p: (u32, u64)| p.0)),
{
    lemma_ohne_id(verlauf, id);
    let t = ohne_id(verlauf, id);
    let v = seq![id] + t;
    assert forall|i: int, j: int| 0 <= i < j < v.len() implies v[i] != v[j] by {
        if i == 0 {
            assert(v[j] == t[j - 1]);
        } else {
            assert(v[i] == t[i - 1] && v[j] == t[j - 1]);
        }
    }
    let g = gekuerzt(v);
    assert forall|i: int, j: int| 0 <= i < j < g.len() implies g[i] != g[j] by {
        assert(g[i] == v[i] && g[j] == v[j]);
    }
    lemma_stapel_ohne(stapel, id);
    let so = stapel_ohne_spec(stapel, id);
    let w = so.push((id, jetzt)).map_values(|p: (u32, u64)| p.0);
    let wo = so.map_values(|p: (u32, u64)| p.0);
    assert forall|i: int, j: int| 0 <= i < j < w.len() implies w[i] != w[j] by {
        if j == so.len() {
            assert(w[i] == so[i].0);
        } else {
            assert(w[i] == wo[i] && w[j] == wo[j]);
        }
    }
}

proof fn lemma_stapel_ohne(s: Seq<(u32, u64)>, id: u32)
    requires
        ids_einmalig(s.map_values(|p: (u32, u64)| p.0)),
    ensures
        ids_einmalig(stapel_ohne_spec(s, id).map_values(|p: (u32, u64)| p.0)),
        forall|k: int|
            0 <= k < stapel_ohne_spec(s, id).len() ==> (#[trigger] stapel_ohne_spec(s, id)[k]).0
                != id && s.contains(stapel_ohne_spec(s, id)[k]),
    decreases s.len(),
{
    if s.len() > 0 {
        let u = s.drop_last();
        assert(ids_einmalig(u.map_values(|p: (u32, u64)| p.0))) by {
            let a = s.map_values(|p: (u32, u64)| p.0);
            let b = u.map_values(|p: (u32, u64)| p.0);
            assert forall|i: int, j: int| 0 <= i < j < b.len() implies b[i] != b[j] by {
                assert(b[i] == a[i] && b[j] == a[j]);
            }
        }
        lemma_stapel_ohne(u, id);
        let t = stapel_ohne_spec(u, id);
        assert forall|k: int| 0 <= k < t.len() implies s.contains(#[trigger] t[k]) by {
            let j = choose|j: int| 0 <= j < u.len() && u[j] == t[k];
            assert(s[j] == u[j]);
        }
        if s.last().0 != id {
            let r = t.push(s.last());
            let a = s.map_values(|p: (u32, u64)| p.0);
            let tb = t.map_values(|p: (u32, u64)| p.0);
            let rb = r.map_values(|p: (u32, u64)| p.0);
            assert forall|k: int| 0 <= k < r.len() implies (#[trigger] r[k]).0 != id && s.contains(r[k]) by {
                if k == t.len() {
                    assert(s[s.len() - 1] == s.last());
                } else {
                    assert(r[k] == t[k]);
                }
            }
            assert forall|i: int, j: int| 0 <= i < j < rb.len() implies rb[i] != rb[j] by {
                if j == t.len() {
                    assert(rb[i] == t[i].0);
                    let q = choose|q: int| 0 <= q < u.len() && u[q] == t[i];
                    assert(a[q] == s[q].0);
                    assert(a[s.len() - 1] == s.last().0);
                } else {
                    assert(rb[i] == tb[i] && rb[j] == tb[j]);
                }
            }
        }
    }
}

} // verus!
