//! Developer access: what the network addresses and tool outputs say, the texts shown for
//! them, and the decisions of the panel.

use vstd::prelude::*;
use crate::text::{
    chars_of, concat, find, lines, lines_of, same, same_str, slice, split_whitespace, string_of,
    trim, trim_chars, views, words,
};

verus! {

/// A snapshot of the access state.
pub struct Status {
    pub rechner: String,
    pub heim_ip: Option<String>,
    pub hotspot_ip: Option<String>,
    pub ssh_server: bool,
    /// Whether the firewall lets SSH in; none where there is no firewall tool.
    pub firewall_ssh: Option<bool>,
    pub schluessel_kurz: Option<String>,
    pub schluessel_voll: Option<String>,
    pub polkit_frei: bool,
    pub bau_umgebung: bool,
    pub quellen: bool,
}

/// The view of an optional string.
pub open spec fn opt_sicht(t: Option<String>) -> Option<Seq<char>> {
    match t {
        Some(x) => Some(x@),
        None => None,
    }
}

/// (rechner, heim_ip, hotspot_ip, ssh_server, firewall_ssh, schluessel_kurz,
/// schluessel_voll, polkit_frei, bau_umgebung, quellen)
pub type StatusSicht = (
    Seq<char>,
    Option<Seq<char>>,
    Option<Seq<char>>,
    bool,
    Option<bool>,
    Option<Seq<char>>,
    Option<Seq<char>>,
    bool,
    bool,
    bool,
);

impl View for Status {
    type V = StatusSicht;

    open spec fn view(&self) -> StatusSicht {
        (
            self.rechner@,
            opt_sicht(self.heim_ip),
            opt_sicht(self.hotspot_ip),
            self.ssh_server,
            self.firewall_ssh,
            opt_sicht(self.schluessel_kurz),
            opt_sicht(self.schluessel_voll),
            self.polkit_frei,
            self.bau_umgebung,
            self.quellen,
        )
    }
}

/// The network line: the home network wins, then the phone hotspot.
pub open spec fn netz_text_spec(heim: Option<Seq<char>>, hotspot: Option<Seq<char>>) -> Seq<char> {
    match (heim, hotspot) {
        (Some(ip), _) => "Heimnetz · "@ + ip,
        (None, Some(ip)) => "Handy-Hotspot · "@ + ip,
        (None, None) => "Offline"@,
    }
}

impl Status {
    /// The status before anything was read.
    pub fn leer() -> (r: Status)
        ensures
            r.rechner@ == Seq::<char>::empty(),
            r.heim_ip is None,
            r.hotspot_ip is None,
            !r.ssh_server,
            r.firewall_ssh is None,
            r.schluessel_kurz is None,
            r.schluessel_voll is None,
            !r.polkit_frei,
            !r.bau_umgebung,
            !r.quellen,
    {
        Status {
            rechner: String::new(),
            heim_ip: None,
            hotspot_ip: None,
            ssh_server: false,
            firewall_ssh: None,
            schluessel_kurz: None,
            schluessel_voll: None,
            polkit_frei: false,
            bau_umgebung: false,
            quellen: false,
        }
    }

    /// The network line of the panel.
    pub fn netz_text(&self) -> (r: String)
        ensures
            r@ == netz_text_spec(opt_sicht(self.heim_ip), opt_sicht(self.hotspot_ip)),
    {
        match (&self.heim_ip, &self.hotspot_ip) {
            (Some(ip), _) => string_of(&concat(&chars_of("Heimnetz · "), &chars_of(ip.as_str()))),
            (None, Some(ip)) => string_of(
                &concat(&chars_of("Handy-Hotspot · "), &chars_of(ip.as_str())),
            ),
            (None, None) => string_of(&chars_of("Offline")),
        }
    }
}

// -------------------------------------------------------------- addresses

/// Whether `s` starts with `p`.
pub open spec fn beginnt(s: Seq<char>, p: Seq<char>) -> bool {
    p.len() <= s.len() && s.take(p.len() as int) == p
}

/// The address in a word of `ip -brief addr`: without a `/24` suffix, else the part before
/// the first slash.
pub open spec fn adresse(wort: Seq<char>) -> Seq<char> {
    if "/24"@.len() <= wort.len() && wort.skip(wort.len() - "/24"@.len()) == "/24"@ {
        wort.take(wort.len() - "/24"@.len())
    } else {
        match find(wort, '/') {
            Some(i) => wort.take(i as int),
            None => wort,
        }
    }
}

/// The first address among the words that starts with `netz`.
pub open spec fn erste_adresse(ws: Seq<Seq<char>>, netz: Seq<char>) -> Option<Seq<char>>
    decreases ws.len(),
{
    if ws.len() == 0 {
        None
    } else {
        match erste_adresse(ws.drop_last(), netz) {
            Some(a) => Some(a),
            None => if beginnt(adresse(ws.last()), netz) {
                Some(adresse(ws.last()))
            } else {
                None
            },
        }
    }
}

fn beginnt_mit(s: &Vec<char>, p: &str) -> (r: bool)
    ensures
        r == beginnt(s@, p@),
{
    let pv = chars_of(p);
    if pv.len() > s.len() {
        return false;
    }
    same(&slice(s, 0, pv.len()), &pv)
}

fn adresse_exec(w: &Vec<char>) -> (r: Vec<char>)
    ensures
        r@ == adresse(w@),
{
    proof {
        reveal_strlit("/24");
        assert("/24"@ =~= seq!['/', '2', '4']);
    }
    assert(w@.skip(0) =~= w@);
    if w.len() >= 3 && w[w.len() - 3] == '/' && w[w.len() - 2] == '2' && w[w.len() - 1] == '4' {
        assert(w@.skip(w@.len() - 3) =~= seq!['/', '2', '4']);
        return slice(w, 0, w.len() - 3);
    }
    proof {
        if 3 <= w@.len() {
            let t = w@.skip(w@.len() - 3);
            if t == "/24"@ {
                assert(t[0] == w@[w@.len() - 3]);
                assert(t[1] == w@[w@.len() - 2]);
                assert(t[2] == w@[w@.len() - 1]);
            }
        }
    }
    match crate::text::find_from(w, '/', 0) {
        Some(i) => slice(w, 0, i),
        None => slice(w, 0, w.len()),
    }
}

/// The home-network and hotspot addresses in the output of `ip -brief addr`: the first
/// address in `192.168.` and the first in `172.20.10.`.
pub fn netz_adressen(addr: &str) -> (r: (Option<String>, Option<String>))
    ensures
        opt_sicht(r.0) == erste_adresse(words(addr@), "192.168."@),
        opt_sicht(r.1) == erste_adresse(words(addr@), "172.20.10."@),
{
    let ws = split_whitespace(&chars_of(addr));
    let mut heim: Option<String> = None;
    let mut hotspot: Option<String> = None;
    let mut i: usize = 0;
    assert(views(ws@).take(0) =~= Seq::<Seq<char>>::empty());
    while i < ws.len()
        invariant
            i <= ws@.len(),
            views(ws@) == words(addr@),
            opt_sicht(heim) == erste_adresse(views(ws@).take(i as int), "192.168."@),
            opt_sicht(hotspot) == erste_adresse(views(ws@).take(i as int), "172.20.10."@),
        decreases ws.len() - i,
    {
        assert(views(ws@).take(i + 1).drop_last() =~= views(ws@).take(i as int));
        assert(views(ws@).take(i + 1).last() == ws@[i as int]@);
        let ip = adresse_exec(&ws[i]);
        if beginnt_mit(&ip, "192.168.") {
            if heim.is_none() {
                heim = Some(string_of(&ip));
            }
        } else if beginnt_mit(&ip, "172.20.10.") {
            if hotspot.is_none() {
                hotspot = Some(string_of(&ip));
            }
        }
        proof {
            reveal_strlit("192.168.");
            reveal_strlit("172.20.10.");
            if beginnt(ip@, "192.168."@) {
                assert(ip@.take(8)[1] == ip@[1]);
                assert(ip@[1] == '9');
                if beginnt(ip@, "172.20.10."@) {
                    assert(ip@.take(10)[1] == ip@[1]);
                }
            }
        }
        i = i + 1;
    }
    assert(views(ws@).take(ws@.len() as int) =~= views(ws@));
    (heim, hotspot)
}

// ------------------------------------------------------------ tool output

/// Whether `systemctl is-active sshd` (trimmed) says the server runs.
pub fn ssh_aktiv(aus: Option<&str>) -> (r: bool)
    ensures
        r == (aus matches Some(s) && s@ == "active"@),
{
    match aus {
        Some(s) => same_str(&chars_of(s), "active"),
        None => false,
    }
}

/// The firewall state: the answer of `firewall-cmd --query-service=ssh`; without an
/// answer, closed where the tool exists and unknown where it does not.
pub fn firewall_aus(abfrage: Option<&str>, werkzeug_da: bool) -> (r: Option<bool>)
    ensures
        r == match abfrage {
            Some(s) => Some(s@ == "yes"@),
            None => if werkzeug_da {
                Some(false)
            } else {
                None
            },
        },
{
    match abfrage {
        Some(s) => Some(same_str(&chars_of(s), "yes")),
        None => if werkzeug_da {
            Some(false)
        } else {
            None
        },
    }
}

/// The fingerprint in the output of `ssh-keygen -lf`: its second word.
pub fn fingerabdruck(aus: Option<&str>) -> (r: Option<String>)
    ensures
        match aus {
            Some(s) => if words(s@).len() >= 2 {
                r matches Some(f) && f@ == words(s@)[1]
            } else {
                r is None
            },
            None => r is None,
        },
{
    match aus {
        Some(s) => {
            let ws = split_whitespace(&chars_of(s));
            if ws.len() >= 2 {
                assert(views(ws@)[1] == ws@[1]@);
                Some(string_of(&ws[1]))
            } else {
                None
            }
        },
        None => None,
    }
}

/// The public key: the file's text trimmed, if anything is left.
pub fn schluessel_text(datei: Option<&str>) -> (r: Option<String>)
    ensures
        match datei {
            Some(s) => if trim(s@).len() > 0 {
                r matches Some(k) && k@ == trim(s@)
            } else {
                r is None
            },
            None => r is None,
        },
{
    match datei {
        Some(s) => {
            let t = trim_chars(&chars_of(s));
            if t.len() > 0 {
                Some(string_of(&t))
            } else {
                None
            }
        },
        None => None,
    }
}

/// Whether a key is already allowed: some line of `authorized_keys`, trimmed, is the key
/// trimmed.
pub open spec fn schon_erlaubt_spec(vorhanden: Seq<char>, key: Seq<char>) -> bool {
    exists|i: int| 0 <= i < lines(vorhanden).len() && trim(#[trigger] lines(vorhanden)[i]) == trim(key)
}

/// Whether a key is already allowed.
pub fn schon_erlaubt(vorhanden: &str, key: &str) -> (r: bool)
    ensures
        r == schon_erlaubt_spec(vorhanden@, key@),
{
    let ls = lines_of(&chars_of(vorhanden));
    let k = trim_chars(&chars_of(key));
    let mut i: usize = 0;
    while i < ls.len()
        invariant
            i <= ls@.len(),
            views(ls@) == lines(vorhanden@),
            k@ == trim(key@),
            forall|j: int| 0 <= j < i ==> trim(#[trigger] lines(vorhanden@)[j]) != trim(key@),
        decreases ls.len() - i,
    {
        assert(lines(vorhanden@)[i as int] == ls@[i as int]@);
        if same(&trim_chars(&ls[i]), &k) {
            return true;
        }
        i = i + 1;
    }
    false
}

/// The firewall line of the panel.
pub fn firewall_text(f: Option<bool>) -> (r: &'static str)
    ensures
        r@ == match f {
            Some(true) => "offen"@,
            Some(false) => "blockiert"@,
            None => "—"@,
        },
{
    match f {
        Some(true) => "offen",
        Some(false) => "blockiert",
        None => "—",
    }
}

/// The label of the test button: what the last test found.
pub fn test_text(erreichbar: Option<bool>) -> (r: &'static str)
    ensures
        r@ == match erreichbar {
            Some(true) => "erreichbar ✓"@,
            Some(false) => "nicht erreichbar"@,
            None => "Testen"@,
        },
{
    match erreichbar {
        Some(true) => "erreichbar ✓",
        Some(false) => "nicht erreichbar",
        None => "Testen",
    }
}

// ------------------------------------------------------------------ panel

/// The developer-access panel.
pub struct Panel {
    pub status: Status,
    pub laedt: bool,
    /// The build machine that updates come from.
    pub update_pc: String,
    pub partner: String,
    pub neuer_schluessel: String,
    /// The last outcome: success, and the text.
    pub meldung: Option<(bool, String)>,
    /// Whether the build machine answered the last test.
    pub pc_erreichbar: Option<bool>,
    pub busy: bool,
    pub netz_text: String,
    pub fp_text: String,
}

/// What happens in the panel.
pub enum Msg {
    Neuladen,
    Geladen(Status),
    UpdatePcInput(String),
    PartnerInput(String),
    Speichern,
    SchluesselInput(String),
    SchluesselErlauben,
    SchluesselKopieren,
    SshServer(bool),
    FreigabeInstallieren,
    GegenstelleTesten,
    GegenstelleGetestet(bool),
    /// Success, the text to show, and whether to read the status anew.
    Fertig(bool, String, bool),
}

/// What the panel asks the system to do.
pub enum Aufgabe {
    Keine,
    /// Read the status (then `Geladen`).
    Erheben,
    /// Store the build machine and the partner.
    Speichern(String, String),
    /// Allow this public key (then `nach_schluessel`).
    SchluesselErlauben(String),
    /// Copy the own public key (then `nach_kopieren`).
    SchluesselKopieren(String),
    /// Switch the SSH server (then `nach_ssh`).
    SshServer(bool),
    /// Install the update permission (then `nach_freigabe`).
    FreigabeInstallieren,
    /// Try to reach the build machine (then `GegenstelleGetestet`).
    GegenstelleTesten(String),
}

/// The views of what the panel asks for.
pub enum AufgabeSicht {
    Keine,
    Erheben,
    Speichern(Seq<char>, Seq<char>),
    SchluesselErlauben(Seq<char>),
    SchluesselKopieren(Seq<char>),
    SshServer(bool),
    FreigabeInstallieren,
    GegenstelleTesten(Seq<char>),
}

impl View for Aufgabe {
    type V = AufgabeSicht;

    open spec fn view(&self) -> AufgabeSicht {
        match self {
            Aufgabe::Keine => AufgabeSicht::Keine,
            Aufgabe::Erheben => AufgabeSicht::Erheben,
            Aufgabe::Speichern(a, b) => AufgabeSicht::Speichern(a@, b@),
            Aufgabe::SchluesselErlauben(k) => AufgabeSicht::SchluesselErlauben(k@),
            Aufgabe::SchluesselKopieren(k) => AufgabeSicht::SchluesselKopieren(k@),
            Aufgabe::SshServer(an) => AufgabeSicht::SshServer(*an),
            Aufgabe::FreigabeInstallieren => AufgabeSicht::FreigabeInstallieren,
            Aufgabe::GegenstelleTesten(z) => AufgabeSicht::GegenstelleTesten(z@),
        }
    }
}

/// The view of an optional outcome.
pub open spec fn meldung_sicht(m: Option<(bool, String)>) -> Option<(bool, Seq<char>)> {
    match m {
        Some((ok, t)) => Some((ok, t@)),
        None => None,
    }
}

/// Whether a text looks like an SSH public key: trimmed, it starts with `ssh-`.
pub open spec fn sieht_nach_schluessel_aus(k: Seq<char>) -> bool {
    beginnt(trim(k), "ssh-"@)
}

impl Panel {
    /// The panel before the first status; the stored build machine and partner, where set.
    pub fn new(update_pc: Option<String>, partner: Option<String>) -> (r: (Panel, Aufgabe))
        ensures
            r.0.laedt,
            !r.0.busy,
            r.0.update_pc@ == (match update_pc {
                Some(u) => u@,
                None => "benutzer@bau-rechner"@,
            }),
            r.0.partner@ == (match partner {
                Some(p) => p@,
                None => Seq::<char>::empty(),
            }),
            r.0.neuer_schluessel@ == Seq::<char>::empty(),
            r.0.meldung is None,
            r.0.pc_erreichbar is None,
            r.0.netz_text@ == "…"@,
            r.0.fp_text@ == "…"@,
            r.1@ == AufgabeSicht::Erheben,
    {
        let pc = match update_pc {
            Some(u) => u,
            None => string_of(&chars_of("benutzer@bau-rechner")),
        };
        let pa = match partner {
            Some(p) => p,
            None => String::new(),
        };
        (
            Panel {
                status: Status::leer(),
                laedt: true,
                update_pc: pc,
                partner: pa,
                neuer_schluessel: String::new(),
                meldung: None,
                pc_erreichbar: None,
                busy: false,
                netz_text: string_of(&chars_of("…")),
                fp_text: string_of(&chars_of("…")),
            },
            Aufgabe::Erheben,
        )
    }

    pub open spec fn status_nach(&self, m: Msg) -> StatusSicht {
        match m {
            Msg::Geladen(s) => s@,
            _ => self.status@,
        }
    }

    pub open spec fn laedt_nach(&self, m: Msg) -> bool {
        match m {
            Msg::Neuladen => true,
            Msg::Geladen(_) => false,
            _ => self.laedt,
        }
    }

    pub open spec fn busy_nach(&self, m: Msg) -> bool {
        match m {
            Msg::SshServer(_) => true,
            Msg::FreigabeInstallieren => true,
            Msg::Fertig(_, _, _) => false,
            _ => self.busy,
        }
    }

    pub open spec fn update_pc_nach(&self, m: Msg) -> Seq<char> {
        match m {
            Msg::UpdatePcInput(v) => v@,
            _ => self.update_pc@,
        }
    }

    pub open spec fn partner_nach(&self, m: Msg) -> Seq<char> {
        match m {
            Msg::PartnerInput(v) => v@,
            _ => self.partner@,
        }
    }

    pub open spec fn schluessel_nach(&self, m: Msg) -> Seq<char> {
        match m {
            Msg::SchluesselInput(v) => v@,
            Msg::SchluesselErlauben => if sieht_nach_schluessel_aus(self.neuer_schluessel@) {
                Seq::empty()
            } else {
                self.neuer_schluessel@
            },
            _ => self.neuer_schluessel@,
        }
    }

    pub open spec fn meldung_nach(&self, m: Msg) -> Option<(bool, Seq<char>)> {
        match m {
            Msg::Speichern => Some((true, "Gegenstellen gespeichert."@)),
            Msg::SchluesselErlauben => if sieht_nach_schluessel_aus(self.neuer_schluessel@) {
                meldung_sicht(self.meldung)
            } else {
                Some((false, "Das sieht nicht nach einem SSH-Schlüssel aus."@))
            },
            Msg::Fertig(ok, t, _) => Some((ok, t@)),
            _ => meldung_sicht(self.meldung),
        }
    }

    pub open spec fn erreichbar_nach(&self, m: Msg) -> Option<bool> {
        match m {
            Msg::Neuladen => None,
            Msg::GegenstelleTesten => None,
            Msg::GegenstelleGetestet(ok) => Some(ok),
            _ => self.pc_erreichbar,
        }
    }

    pub open spec fn netz_text_nach(&self, m: Msg) -> Seq<char> {
        match m {
            Msg::Geladen(s) => netz_text_spec(opt_sicht(s.heim_ip), opt_sicht(s.hotspot_ip)),
            _ => self.netz_text@,
        }
    }

    pub open spec fn fp_text_nach(&self, m: Msg) -> Seq<char> {
        match m {
            Msg::Geladen(s) => match s.schluessel_kurz {
                Some(k) => k@,
                None => "kein Schlüssel"@,
            },
            _ => self.fp_text@,
        }
    }

    pub open spec fn aufgabe_nach(&self, m: Msg) -> AufgabeSicht {
        match m {
            Msg::Neuladen => AufgabeSicht::Erheben,
            Msg::Speichern => AufgabeSicht::Speichern(trim(self.update_pc@), trim(self.partner@)),
            Msg::SchluesselErlauben => if sieht_nach_schluessel_aus(self.neuer_schluessel@) {
                AufgabeSicht::SchluesselErlauben(trim(self.neuer_schluessel@))
            } else {
                AufgabeSicht::Keine
            },
            Msg::SchluesselKopieren => match self.status.schluessel_voll {
                Some(k) => AufgabeSicht::SchluesselKopieren(k@),
                None => AufgabeSicht::Keine,
            },
            Msg::SshServer(an) => AufgabeSicht::SshServer(an),
            Msg::FreigabeInstallieren => AufgabeSicht::FreigabeInstallieren,
            Msg::GegenstelleTesten => AufgabeSicht::GegenstelleTesten(trim(self.update_pc@)),
            Msg::Fertig(_, _, neu) => if neu {
                AufgabeSicht::Erheben
            } else {
                AufgabeSicht::Keine
            },
            _ => AufgabeSicht::Keine,
        }
    }

    /// One message: the new state, and what the system is asked to do.
    pub fn update(&mut self, msg: Msg) -> (r: Aufgabe)
        ensures
            final(self).status@ == old(self).status_nach(msg),
            final(self).laedt == old(self).laedt_nach(msg),
            final(self).busy == old(self).busy_nach(msg),
            final(self).update_pc@ == old(self).update_pc_nach(msg),
            final(self).partner@ == old(self).partner_nach(msg),
            final(self).neuer_schluessel@ == old(self).schluessel_nach(msg),
            meldung_sicht(final(self).meldung) == old(self).meldung_nach(msg),
            final(self).pc_erreichbar == old(self).erreichbar_nach(msg),
            final(self).netz_text@ == old(self).netz_text_nach(msg),
            final(self).fp_text@ == old(self).fp_text_nach(msg),
            r@ == old(self).aufgabe_nach(msg),
    {
        match msg {
            Msg::Neuladen => {
                self.laedt = true;
                self.pc_erreichbar = None;
                Aufgabe::Erheben
            },
            Msg::Geladen(s) => {
                self.netz_text = s.netz_text();
                self.fp_text = match &s.schluessel_kurz {
                    Some(k) => k.clone(),
                    None => string_of(&chars_of("kein Schlüssel")),
                };
                self.status = s;
                self.laedt = false;
                Aufgabe::Keine
            },
            Msg::UpdatePcInput(v) => {
                self.update_pc = v;
                Aufgabe::Keine
            },
            Msg::PartnerInput(v) => {
                self.partner = v;
                Aufgabe::Keine
            },
            Msg::Speichern => {
                let pc = string_of(&trim_chars(&chars_of(self.update_pc.as_str())));
                let pa = string_of(&trim_chars(&chars_of(self.partner.as_str())));
                self.meldung = Some((true, string_of(&chars_of("Gegenstellen gespeichert."))));
                Aufgabe::Speichern(pc, pa)
            },
            Msg::SchluesselInput(v) => {
                self.neuer_schluessel = v;
                Aufgabe::Keine
            },
            Msg::SchluesselErlauben => {
                let key = trim_chars(&chars_of(self.neuer_schluessel.as_str()));
                if !beginnt_mit(&key, "ssh-") {
                    self.meldung = Some(
                        (
                            false,
                            string_of(&chars_of("Das sieht nicht nach einem SSH-Schlüssel aus.")),
                        ),
                    );
                    return Aufgabe::Keine;
                }
                self.neuer_schluessel = String::new();
                Aufgabe::SchluesselErlauben(string_of(&key))
            },
            Msg::SchluesselKopieren => match &self.status.schluessel_voll {
                Some(k) => Aufgabe::SchluesselKopieren(k.clone()),
                None => Aufgabe::Keine,
            },
            Msg::SshServer(an) => {
                self.busy = true;
                Aufgabe::SshServer(an)
            },
            Msg::FreigabeInstallieren => {
                self.busy = true;
                Aufgabe::FreigabeInstallieren
            },
            Msg::GegenstelleTesten => {
                let ziel = string_of(&trim_chars(&chars_of(self.update_pc.as_str())));
                self.pc_erreichbar = None;
                Aufgabe::GegenstelleTesten(ziel)
            },
            Msg::GegenstelleGetestet(ok) => {
                self.pc_erreichbar = Some(ok);
                Aufgabe::Keine
            },
            Msg::Fertig(ok, text, neu) => {
                self.busy = false;
                self.meldung = Some((ok, text));
                if neu {
                    Aufgabe::Erheben
                } else {
                    Aufgabe::Keine
                }
            },
        }
    }
}

/// The outcome of allowing a key; the status is read anew.
pub fn nach_schluessel(ok: bool) -> (r: Msg)
    ensures
        r matches Msg::Fertig(o, t, neu) && o == ok && neu && t@ == (if ok {
            "Schlüssel erlaubt — dieses Gerät ist jetzt erreichbar."@
        } else {
            "Konnte den Schlüssel nicht hinterlegen."@
        }),
{
    Msg::Fertig(
        ok,
        string_of(
            &chars_of(
                if ok {
                    "Schlüssel erlaubt — dieses Gerät ist jetzt erreichbar."
                } else {
                    "Konnte den Schlüssel nicht hinterlegen."
                },
            ),
        ),
        true,
    )
}

/// The outcome of copying the own key; nothing is read anew.
pub fn nach_kopieren(ok: bool) -> (r: Msg)
    ensures
        r matches Msg::Fertig(o, t, neu) && o == ok && !neu && t@ == (if ok {
            "Schlüssel in die Zwischenablage kopiert."@
        } else {
            "wl-copy fehlt — Schlüssel steht oben zum Abtippen."@
        }),
{
    Msg::Fertig(
        ok,
        string_of(
            &chars_of(
                if ok {
                    "Schlüssel in die Zwischenablage kopiert."
                } else {
                    "wl-copy fehlt — Schlüssel steht oben zum Abtippen."
                },
            ),
        ),
        false,
    )
}

/// The outcome of switching the SSH server; the status is read anew.
pub fn nach_ssh(ok: bool) -> (r: Msg)
    ensures
        r matches Msg::Fertig(o, t, neu) && o == ok && neu && t@ == (if ok {
            "SSH-Server umgeschaltet."@
        } else {
            "Abgebrochen oder fehlgeschlagen."@
        }),
{
    Msg::Fertig(
        ok,
        string_of(
            &chars_of(
                if ok {
                    "SSH-Server umgeschaltet."
                } else {
                    "Abgebrochen oder fehlgeschlagen."
                },
            ),
        ),
        true,
    )
}

/// The outcome of installing the update permission; the status is read anew.
pub fn nach_freigabe(ok: bool) -> (r: Msg)
    ensures
        r matches Msg::Fertig(o, t, neu) && o == ok && neu && t@ == (if ok {
            "Update-Freigabe aktiv — Updates nun ohne Passwort."@
        } else {
            "Freigabe nicht gesetzt (abgebrochen?)."@
        }),
{
    Msg::Fertig(
        ok,
        string_of(
            &chars_of(
                if ok {
                    "Update-Freigabe aktiv — Updates nun ohne Passwort."
                } else {
                    "Freigabe nicht gesetzt (abgebrochen?)."
                },
            ),
        ),
        true,
    )
}

/// Only what looks like an SSH key is ever allowed, and it is allowed as typed, trimmed.
pub proof fn lemma_nur_ssh_schluessel(p: Panel, m: Msg)
    ensures
        p.aufgabe_nach(m) matches AufgabeSicht::SchluesselErlauben(k) ==> {
            &&& m is SchluesselErlauben
            &&& k == trim(p.neuer_schluessel@)
            &&& beginnt(k, "ssh-"@)
        },
{
}

} // verus!
