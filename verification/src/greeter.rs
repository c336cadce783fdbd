//! The login screen: who logs in, which sessions exist, the decisions of the screen, and
//! the conversation with the login daemon (greetd) from creating a session to starting it.

use vstd::prelude::*;
use crate::text::{
    capitalize, capitalized, chars_of, has_infix, lines, lines_of, parse_u32, parse_unsigned, same,
    same_str, split, split_at_char, string_of, strip_prefix, strip_prefix_chars, trim, trim_chars,
    views,
};

verus! {

// ---------------------------------------------------------------- accounts

/// The person a passwd line names, if it is a real account: seven fields or more, a user id
/// from 1000 to 59999, a shell that is not `nologin`, and not the recovery account. The name
/// shown is the first GECOS field trimmed, else the login, with its first letter upright.
pub open spec fn konto_aus_zeile(l: Seq<char>) -> Option<(Seq<char>, Seq<char>)> {
    let f = split(l, ':');
    if f.len() >= 7 {
        let uid: nat = match parse_unsigned(f[2], u32::MAX as nat) {
            Some(u) => u,
            None => 0,
        };
        if 1000 <= uid < 60000 && !has_infix(f[6], "nologin"@) && f[0] != "wache"@ {
            let gecos = trim(split(f[4], ',')[0]);
            Some(
                (
                    f[0],
                    if gecos.len() == 0 {
                        capitalized(f[0])
                    } else {
                        capitalized(gecos)
                    },
                ),
            )
        } else {
            None
        }
    } else {
        None
    }
}

/// The first real account among the lines.
pub open spec fn erstes_konto(ls: Seq<Seq<char>>) -> Option<(Seq<char>, Seq<char>)>
    decreases ls.len(),
{
    if ls.len() == 0 {
        None
    } else {
        match erstes_konto(ls.drop_last()) {
            Some(k) => Some(k),
            None => konto_aus_zeile(ls.last()),
        }
    }
}

/// Login and shown name of the person at this device: the first real account of
/// `/etc/passwd`, or the default account where there is none or the file is unreadable.
pub open spec fn nutzer_finden_spec(passwd: Option<Seq<char>>) -> (Seq<char>, Seq<char>) {
    match passwd {
        Some(p) => match erstes_konto(lines(p)) {
            Some(k) => k,
            None => ("nicolas"@, "Nutzer"@),
        },
        None => ("nicolas"@, "Nutzer"@),
    }
}

fn konto_aus(l: &Vec<char>) -> (r: Option<(Vec<char>, Vec<char>)>)
    ensures
        match konto_aus_zeile(l@) {
            Some(k) => r matches Some(x) && x.0@ == k.0 && x.1@ == k.1,
            None => r is None,
        },
{
    let f = split_at_char(l, ':');
    if f.len() < 7 {
        return None;
    }
    assert(views(f@)[0] == f@[0]@ && views(f@)[2] == f@[2]@ && views(f@)[4] == f@[4]@
        && views(f@)[6] == f@[6]@);
    let uid: u32 = match parse_u32(&f[2]) {
        Some(u) => u,
        None => 0,
    };
    let nologin = chars_of("nologin");
    if !(1000 <= uid && uid < 60000) || crate::text::contains_seq(&f[6], &nologin) || same_str(
        &f[0],
        "wache",
    ) {
        return None;
    }
    let g = split_at_char(&f[4], ',');
    proof {
        crate::text::lemma_split_nonempty(f@[4]@, ',');
    }
    assert(views(g@)[0] == g@[0]@);
    let gecos = trim_chars(&g[0]);
    let name = crate::text::slice(&f[0], 0, f[0].len());
    assert(name@ =~= f@[0]@);
    let anzeige = if gecos.len() == 0 {
        capitalize(&f[0])
    } else {
        capitalize(&gecos)
    };
    Some((name, anzeige))
}

/// Login and shown name of the person at this device.
pub fn nutzer_finden(passwd: Option<&str>) -> (r: (String, String))
    ensures
        (r.0@, r.1@) == nutzer_finden_spec(
            match passwd {
                Some(p) => Some(p@),
                None => None,
            },
        ),
{
    if let Some(p) = passwd {
        let ls = lines_of(&chars_of(p));
        let mut i: usize = 0;
        assert(views(ls@).take(0) =~= Seq::<Seq<char>>::empty());
        while i < ls.len()
            invariant
                i <= ls@.len(),
                passwd == Some(p),
                views(ls@) == lines(p@),
                erstes_konto(views(ls@).take(i as int)) is None,
            decreases ls.len() - i,
        {
            assert(views(ls@).take(i + 1).drop_last() =~= views(ls@).take(i as int));
            assert(views(ls@).take(i + 1).last() == ls@[i as int]@);
            if let Some(k) = konto_aus(&ls[i]) {
                proof {
                    lemma_erstes_konto_rest(views(ls@), i as int);
                }
                return (string_of(&k.0), string_of(&k.1));
            }
            i = i + 1;
        }
        assert(views(ls@).take(ls@.len() as int) =~= views(ls@));
    }
    (string_of(&chars_of("nicolas")), string_of(&chars_of("Nutzer")))
}

proof fn lemma_erstes_konto_rest(ls: Seq<Seq<char>>, i: int)
    requires
        0 <= i < ls.len(),
        erstes_konto(ls.take(i + 1)) is Some,
    ensures
        erstes_konto(ls) == erstes_konto(ls.take(i + 1)),
    decreases ls.len() - i,
{
    if i + 1 < ls.len() {
        assert(ls.take(i + 2).drop_last() =~= ls.take(i + 1));
        lemma_erstes_konto_rest(ls, i + 1);
    } else {
        assert(ls.take(i + 1) =~= ls);
    }
}

// ---------------------------------------------------------------- sessions

/// The first value of a key in the lines of a desktop file, trimmed.
pub open spec fn erster_wert(ls: Seq<Seq<char>>, schluessel: Seq<char>) -> Option<Seq<char>>
    decreases ls.len(),
{
    if ls.len() == 0 {
        None
    } else {
        match erster_wert(ls.drop_last(), schluessel) {
            Some(v) => Some(v),
            None => match strip_prefix(ls.last(), schluessel) {
                Some(v) => Some(trim(v)),
                None => None,
            },
        }
    }
}

/// Name and command of a session file: the first `Name=` and the first `Exec=`.
pub open spec fn sitzung_spec(inhalt: Seq<char>) -> Option<(Seq<char>, Seq<char>)> {
    match (erster_wert(lines(inhalt), "Name="@), erster_wert(lines(inhalt), "Exec="@)) {
        (Some(n), Some(x)) => Some((n, x)),
        _ => None,
    }
}

fn erster_wert_exec(ls: &Vec<Vec<char>>, schluessel: &str) -> (r: Option<Vec<char>>)
    ensures
        match erster_wert(views(ls@), schluessel@) {
            Some(v) => r matches Some(x) && x@ == v,
            None => r is None,
        },
{
    let k = chars_of(schluessel);
    let mut i: usize = 0;
    assert(views(ls@).take(0) =~= Seq::<Seq<char>>::empty());
    while i < ls.len()
        invariant
            i <= ls@.len(),
            k@ == schluessel@,
            erster_wert(views(ls@).take(i as int), schluessel@) is None,
        decreases ls.len() - i,
    {
        assert(views(ls@).take(i + 1).drop_last() =~= views(ls@).take(i as int));
        assert(views(ls@).take(i + 1).last() == ls@[i as int]@);
        if let Some(v) = strip_prefix_chars(&ls[i], &k) {
            proof {
                lemma_erster_wert_rest(views(ls@), schluessel@, i as int);
            }
            return Some(trim_chars(&v));
        }
        i = i + 1;
    }
    assert(views(ls@).take(ls@.len() as int) =~= views(ls@));
    None
}

proof fn lemma_erster_wert_rest(ls: Seq<Seq<char>>, k: Seq<char>, i: int)
    requires
        0 <= i < ls.len(),
        erster_wert(ls.take(i + 1), k) is Some,
    ensures
        erster_wert(ls, k) == erster_wert(ls.take(i + 1), k),
    decreases ls.len() - i,
{
    if i + 1 < ls.len() {
        assert(ls.take(i + 2).drop_last() =~= ls.take(i + 1));
        lemma_erster_wert_rest(ls, k, i + 1);
    } else {
        assert(ls.take(i + 1) =~= ls);
    }
}

/// Name and command of a session file.
pub fn sitzung_aus(inhalt: &str) -> (r: Option<(String, String)>)
    ensures
        match sitzung_spec(inhalt@) {
            Some(s) => r matches Some(x) && (x.0@, x.1@) == s,
            None => r is None,
        },
{
    let ls = lines_of(&chars_of(inhalt));
    let n = erster_wert_exec(&ls, "Name=");
    let x = erster_wert_exec(&ls, "Exec=");
    match (n, x) {
        (Some(n), Some(x)) => Some((string_of(&n), string_of(&x))),
        _ => None,
    }
}

/// The sessions of the session files in order, each name once (the first file wins).
pub open spec fn sitzungen_spec(dateien: Seq<Seq<char>>) -> Seq<(Seq<char>, Seq<char>)>
    decreases dateien.len(),
{
    if dateien.len() == 0 {
        Seq::empty()
    } else {
        let vorher = sitzungen_spec(dateien.drop_last());
        match sitzung_spec(dateien.last()) {
            Some(s) => if (exists|i: int| 0 <= i < vorher.len() && (#[trigger] vorher[i]).0 == s.0) {
                vorher
            } else {
                vorher.push(s)
            },
            None => vorher,
        }
    }
}

/// The sessions to offer: those of the files, or `Niri` where there is none.
pub open spec fn angebot_spec(dateien: Seq<Seq<char>>) -> Seq<(Seq<char>, Seq<char>)> {
    if sitzungen_spec(dateien).len() == 0 {
        seq![("Niri"@, "niri-session"@)]
    } else {
        sitzungen_spec(dateien)
    }
}

/// The views of a list of sessions.
pub open spec fn paar_sichten(v: Seq<(String, String)>) -> Seq<(Seq<char>, Seq<char>)> {
    v.map_values(|p: (String, String)| (p.0@, p.1@))
}

/// The sessions to offer, from the texts of the session files in the order they were found.
pub fn sitzungen(dateien: &Vec<String>) -> (r: Vec<(String, String)>)
    ensures
        paar_sichten(r@) == angebot_spec(dateien@.map_values(|d: String| d@)),
        r@.len() > 0,
{
    let ghost ds = dateien@.map_values(|d: String| d@);
    let mut r: Vec<(String, String)> = Vec::new();
    let mut i: usize = 0;
    assert(ds.take(0) =~= Seq::<Seq<char>>::empty());
    while i < dateien.len()
        invariant
            i <= dateien@.len(),
            ds == dateien@.map_values(|d: String| d@),
            paar_sichten(r@) == sitzungen_spec(ds.take(i as int)),
        decreases dateien.len() - i,
    {
        assert(ds.take(i + 1).drop_last() =~= ds.take(i as int));
        assert(ds.take(i + 1).last() == dateien@[i as int]@);
        let ghost vs = paar_sichten(r@);
        if let Some(s) = sitzung_aus(dateien[i].as_str()) {
            let name = chars_of(s.0.as_str());
            let mut j: usize = 0;
            let mut da = false;
            while j < r.len() && !da
                invariant
                    j <= r@.len(),
                    vs == paar_sichten(r@),
                    name@ == s.0@,
                    da ==> exists|k: int| 0 <= k < vs.len() && (#[trigger] vs[k]).0 == s.0@,
                    !da ==> forall|k: int| 0 <= k < j ==> (#[trigger] vs[k]).0 != s.0@,
                decreases 2 * (r@.len() - j) + (if da {
                    0int
                } else {
                    1int
                }),
            {
                assert(vs[j as int] == (r@[j as int].0@, r@[j as int].1@));
                if same(&chars_of(r[j].0.as_str()), &name) {
                    da = true;
                } else {
                    j = j + 1;
                }
            }
            if !da {
                let ghost vorher = r@;
                r.push(s);
                assert(paar_sichten(r@) =~= paar_sichten(vorher).push((s.0@, s.1@)));
            }
        }
        i = i + 1;
    }
    assert(ds.take(ds.len() as int) =~= ds);
    if r.len() == 0 {
        r.push((string_of(&chars_of("Niri")), string_of(&chars_of("niri-session"))));
        assert(paar_sichten(r@) =~= seq![("Niri"@, "niri-session"@)]);
    }
    r
}

/// The session chosen at the start: the remembered one by name, else the first.
pub fn gewaehlte_sitzung(sitzungen: &Vec<(String, String)>, gemerkt: Option<&str>) -> (r: usize)
    ensures
        match gemerkt {
            Some(g) => (exists|i: int| 0 <= i < sitzungen@.len() && (#[trigger] sitzungen@[i]).0@ == g@)
                ==> r < sitzungen@.len() && sitzungen@[r as int].0@ == g@ && forall|k: int|
                0 <= k < r ==> sitzungen@[k].0@ != g@,
            None => r == 0,
        },
        (gemerkt is None || !(exists|i: int|
            0 <= i < sitzungen@.len() && (#[trigger] sitzungen@[i]).0@ == gemerkt.unwrap()@))
            ==> r == 0,
{
    match gemerkt {
        Some(g) => {
            let gv = chars_of(g);
            let mut i: usize = 0;
            while i < sitzungen.len()
                invariant
                    i <= sitzungen@.len(),
                    gemerkt == Some(g),
                    gv@ == g@,
                    forall|k: int| 0 <= k < i ==> sitzungen@[k].0@ != g@,
                decreases sitzungen.len() - i,
            {
                if same(&chars_of(sitzungen[i].0.as_str()), &gv) {
                    return i;
                }
                i = i + 1;
            }
            0
        },
        None => 0,
    }
}

// ------------------------------------------------------------------ greetd

/// A reply of the login daemon.
pub enum Antwort {
    Success,
    Error { error_type: String, description: String },
    AuthMessage { auth_message_type: String, auth_message: String },
}

/// A request to the login daemon.
pub enum Anfrage {
    CreateSession { username: String },
    /// The answer to a prompt: the password for a secret, nothing for anything else.
    PostAuthMessageResponse { response: Option<String> },
    /// Start the session with this command line.
    StartSession { cmd: Vec<String> },
    CancelSession,
}

/// Where the conversation stands.
#[derive(Debug, Clone, Copy, PartialEq, Eq, Structural)]
pub enum Phase {
    /// Authenticating: prompts are answered until success or refusal.
    Anmelden,
    /// The session start was requested.
    Starten,
    Fertig,
}

/// What the conversation does next.
pub enum Schritt {
    Senden(Anfrage),
    /// Cancel the session (its reply does not matter), then fail with this text.
    Abbrechen(String),
    Ende(Result<(), String>),
}

/// A login conversation with the daemon.
pub struct Login {
    pub passwort: String,
    pub cmd: String,
    pub phase: Phase,
}

/// The text a refusal fails with: the daemon's description, or a default where it is empty.
pub open spec fn abgelehnt_text(d: Seq<char>) -> Seq<char> {
    if d.len() == 0 {
        "Anmeldung abgelehnt"@
    } else {
        d
    }
}

impl Login {
    /// A conversation that logs `nutzer` in with `passwort` and starts `cmd` through the shell;
    /// the first request creates the session.
    pub fn neu(nutzer: &str, passwort: String, cmd: String) -> (r: (Login, Anfrage))
        ensures
            r.0.phase == Phase::Anmelden,
            r.0.passwort@ == passwort@,
            r.0.cmd@ == cmd@,
            r.1 matches Anfrage::CreateSession { username } && username@ == nutzer@,
    {
        (
            Login { passwort, cmd, phase: Phase::Anmelden },
            Anfrage::CreateSession { username: string_of(&chars_of(nutzer)) },
        )
    }

    /// The next step after a reply.
    pub fn antwort(&mut self, a: Antwort) -> (r: Schritt)
        requires
            old(self).phase != Phase::Fertig,
        ensures
            final(self).passwort == old(self).passwort,
            final(self).cmd == old(self).cmd,
            old(self).phase == Phase::Anmelden ==> match a {
                Antwort::Success => final(self).phase == Phase::Starten && (r matches Schritt::Senden(
                    Anfrage::StartSession { cmd },
                ) && cmd@.len() == 3 && cmd@[0]@ == "sh"@ && cmd@[1]@ == "-c"@ && cmd@[2]@
                    == old(self).cmd@),
                Antwort::Error { description, .. } => final(self).phase == Phase::Fertig && (r matches Schritt::Abbrechen(
                    t,
                ) && t@ == abgelehnt_text(description@)),
                Antwort::AuthMessage { auth_message_type, .. } => final(self).phase
                    == Phase::Anmelden && (r matches Schritt::Senden(
                    Anfrage::PostAuthMessageResponse { response },
                ) && if auth_message_type@ == "secret"@ {
                    response matches Some(pw) && pw@ == old(self).passwort@
                } else {
                    response is None
                }),
            },
            old(self).phase == Phase::Starten ==> final(self).phase == Phase::Fertig && match a {
                Antwort::Success => r matches Schritt::Ende(Ok(())),
                Antwort::Error { description, .. } => r matches Schritt::Ende(Err(t)) && t@
                    == description@,
                Antwort::AuthMessage { .. } => r matches Schritt::Ende(Err(t)) && t@
                    == "greetd: unerwartete Antwort auf start_session"@,
            },
    {
        if self.phase == Phase::Anmelden {
            match a {
                Antwort::Success => {
                    self.phase = Phase::Starten;
                    let mut cmd: Vec<String> = Vec::new();
                    cmd.push(string_of(&chars_of("sh")));
                    cmd.push(string_of(&chars_of("-c")));
                    cmd.push(self.cmd.clone());
                    Schritt::Senden(Anfrage::StartSession { cmd })
                },
                Antwort::Error { description, .. } => {
                    self.phase = Phase::Fertig;
                    if chars_of(description.as_str()).len() == 0 {
                        Schritt::Abbrechen(string_of(&chars_of("Anmeldung abgelehnt")))
                    } else {
                        Schritt::Abbrechen(description)
                    }
                },
                Antwort::AuthMessage { auth_message_type, .. } => {
                    let response = if same_str(&chars_of(auth_message_type.as_str()), "secret") {
                        Some(self.passwort.clone())
                    } else {
                        None
                    };
                    Schritt::Senden(Anfrage::PostAuthMessageResponse { response })
                },
            }
        } else {
            self.phase = Phase::Fertig;
            match a {
                Antwort::Success => Schritt::Ende(Ok(())),
                Antwort::Error { description, .. } => Schritt::Ende(Err(description)),
                Antwort::AuthMessage { .. } => Schritt::Ende(
                    Err(string_of(&chars_of("greetd: unerwartete Antwort auf start_session"))),
                ),
            }
        }
    }
}

// ------------------------------------------------------------------ screen

/// The state of the login screen.
#[derive(Debug, Clone, Copy, PartialEq, Eq, Structural)]
pub enum Lage {
    Ruhe,
    Prueft,
    /// The daemon took over; the screen ends.
    Erfolg,
}

/// What happens on the login screen.
pub enum Ereignis {
    Passwort(String),
    Anmelden,
    Ergebnis(Result<(), String>),
    Sitzung(usize),
    /// The key stick was looked for; whether it is there now.
    StickPuls(bool),
    /// "Forgot the password?": the recovery session.
    Wiederherstellung,
}

/// What the screen asks the system to do.
pub enum Aktion {
    Keine,
    /// Log in with this user, password and session command.
    Einloggen(String, String, String),
    /// Play the call of the guardian, then log in as the recovery account.
    Wiederherstellen,
    /// The daemon took over: mark the success and end.
    Beenden,
    /// The login failed: the error feedback, and focus on the password field.
    Fehler,
    /// Remember the chosen session by name.
    Merken(String),
    /// The key stick appeared: its sound.
    StickKlang,
}

/// The login screen.
pub struct Bildschirm {
    pub nutzer: String,
    pub passwort: String,
    pub lage: Lage,
    pub fehler: Option<String>,
    pub sitzungen: Vec<(String, String)>,
    pub gewaehlt: usize,
    pub stick: bool,
}

/// The view of an optional error.
pub open spec fn fehler_sicht(f: Option<String>) -> Option<Seq<char>> {
    match f {
        Some(t) => Some(t@),
        None => None,
    }
}

impl Bildschirm {
    /// The screen is well formed: the chosen session is one of the list.
    pub open spec fn wohlgeformt(&self) -> bool {
        self.gewaehlt < self.sitzungen@.len()
    }

    /// The screen at rest.
    pub fn neu(nutzer: String, sitzungen: Vec<(String, String)>, gewaehlt: usize, stick: bool) -> (r: Bildschirm)
        requires
            gewaehlt < sitzungen@.len(),
        ensures
            r.wohlgeformt(),
            r.nutzer == nutzer,
            r.passwort@ == Seq::<char>::empty(),
            r.lage == Lage::Ruhe,
            r.fehler is None,
            r.sitzungen@ == sitzungen@,
            r.gewaehlt == gewaehlt,
            r.stick == stick,
    {
        Bildschirm {
            nutzer,
            passwort: String::new(),
            lage: Lage::Ruhe,
            fehler: None,
            sitzungen,
            gewaehlt,
            stick,
        }
    }

    pub open spec fn lage_nach(&self, e: Ereignis) -> Lage {
        match e {
            Ereignis::Anmelden => if self.lage == Lage::Ruhe {
                Lage::Prueft
            } else {
                self.lage
            },
            Ereignis::Ergebnis(Ok(())) => Lage::Erfolg,
            Ereignis::Ergebnis(Err(_)) => Lage::Ruhe,
            Ereignis::Wiederherstellung => if self.lage == Lage::Ruhe {
                Lage::Prueft
            } else {
                self.lage
            },
            _ => self.lage,
        }
    }

    pub open spec fn passwort_nach(&self, e: Ereignis) -> Seq<char> {
        match e {
            Ereignis::Passwort(p) => if self.lage == Lage::Ruhe {
                p@
            } else {
                self.passwort@
            },
            Ereignis::Ergebnis(Err(_)) => Seq::empty(),
            _ => self.passwort@,
        }
    }

    pub open spec fn fehler_nach(&self, e: Ereignis) -> Option<Seq<char>> {
        match e {
            Ereignis::Anmelden => if self.lage == Lage::Ruhe {
                None
            } else {
                fehler_sicht(self.fehler)
            },
            Ereignis::Ergebnis(Err(f)) => Some(f@),
            _ => fehler_sicht(self.fehler),
        }
    }

    pub open spec fn gewaehlt_nach(&self, e: Ereignis) -> usize {
        match e {
            Ereignis::Sitzung(i) => if i < self.sitzungen@.len() {
                i
            } else {
                self.gewaehlt
            },
            _ => self.gewaehlt,
        }
    }

    pub open spec fn stick_nach(&self, e: Ereignis) -> bool {
        match e {
            Ereignis::StickPuls(jetzt) => jetzt,
            _ => self.stick,
        }
    }

    /// What the screen asks for after an event.
    pub open spec fn aktion_passt(&self, e: Ereignis, r: Aktion) -> bool {
        match e {
            Ereignis::Anmelden => if self.lage == Lage::Ruhe {
                r matches Aktion::Einloggen(n, p, c) && n@ == self.nutzer@ && p@ == self.passwort@
                    && c@ == self.sitzungen@[self.gewaehlt as int].1@
            } else {
                r is Keine
            },
            Ereignis::Ergebnis(Ok(())) => r is Beenden,
            Ereignis::Ergebnis(Err(_)) => r is Fehler,
            Ereignis::Sitzung(i) => if i < self.sitzungen@.len() {
                r matches Aktion::Merken(n) && n@ == self.sitzungen@[i as int].0@
            } else {
                r is Keine
            },
            Ereignis::StickPuls(jetzt) => if jetzt && !self.stick {
                r is StickKlang
            } else {
                r is Keine
            },
            Ereignis::Wiederherstellung => if self.lage == Lage::Ruhe {
                r is Wiederherstellen
            } else {
                r is Keine
            },
            _ => r is Keine,
        }
    }

    /// One event: the new state and what to do. A login starts only from rest, typing counts
    /// only at rest, and a failure empties the password.
    pub fn update(&mut self, e: Ereignis) -> (r: Aktion)
        requires
            old(self).wohlgeformt(),
        ensures
            final(self).wohlgeformt(),
            final(self).nutzer == old(self).nutzer,
            final(self).sitzungen@ == old(self).sitzungen@,
            final(self).lage == old(self).lage_nach(e),
            final(self).passwort@ == old(self).passwort_nach(e),
            fehler_sicht(final(self).fehler) == old(self).fehler_nach(e),
            final(self).gewaehlt == old(self).gewaehlt_nach(e),
            final(self).stick == old(self).stick_nach(e),
            old(self).aktion_passt(e, r),
    {
        match e {
            Ereignis::Passwort(p) => {
                if self.lage == Lage::Ruhe {
                    self.passwort = p;
                }
                Aktion::Keine
            },
            Ereignis::Anmelden => {
                if self.lage != Lage::Ruhe {
                    return Aktion::Keine;
                }
                self.lage = Lage::Prueft;
                self.fehler = None;
                Aktion::Einloggen(
                    self.nutzer.clone(),
                    self.passwort.clone(),
                    self.sitzungen[self.gewaehlt].1.clone(),
                )
            },
            Ereignis::Ergebnis(Ok(())) => {
                self.lage = Lage::Erfolg;
                Aktion::Beenden
            },
            Ereignis::Ergebnis(Err(f)) => {
                self.lage = Lage::Ruhe;
                self.passwort = String::new();
                self.fehler = Some(f);
                Aktion::Fehler
            },
            Ereignis::Sitzung(i) => {
                if i < self.sitzungen.len() {
                    self.gewaehlt = i;
                    Aktion::Merken(self.sitzungen[i].0.clone())
                } else {
                    Aktion::Keine
                }
            },
            Ereignis::StickPuls(jetzt) => {
                let klang = jetzt && !self.stick;
                self.stick = jetzt;
                if klang {
                    Aktion::StickKlang
                } else {
                    Aktion::Keine
                }
            },
            Ereignis::Wiederherstellung => {
                if self.lage == Lage::Ruhe {
                    self.lage = Lage::Prueft;
                    Aktion::Wiederherstellen
                } else {
                    Aktion::Keine
                }
            },
        }
    }
}

/// The outcome of a login in the demonstration mode: only the password `demo` succeeds.
pub fn demo_ergebnis(passwort: &str) -> (r: Result<(), String>)
    ensures
        passwort@ == "demo"@ ==> r is Ok,
        passwort@ != "demo"@ ==> (r matches Err(t) && t@ == "Demo: Passwort ist „demo“"@),
{
    if same_str(&chars_of(passwort), "demo") {
        Ok(())
    } else {
        Err(string_of(&chars_of("Demo: Passwort ist „demo“")))
    }
}

/// No second login while one is being checked: away from rest, no event starts a login or
/// the recovery, and typing does not change the password.
pub proof fn lemma_keine_doppelte_anmeldung(b: Bildschirm, e: Ereignis, r: Aktion)
    requires
        b.lage != Lage::Ruhe,
        b.aktion_passt(e, r),
    ensures
        !(r is Einloggen),
        !(r is Wiederherstellen),
        e is Passwort ==> b.passwort_nach(e) == b.passwort@,
{
}

/// The fields of the greeter's session file that may name its wallpaper, in the order
/// tried.
pub open spec fn wallpaper_feld(i: int) -> Seq<char> {
    if i == 0 {
        "wallpaperPath"@
    } else if i == 1 {
        "wallpaperPathDark"@
    } else {
        "wallpaperPathLight"@
    }
}

/// The candidates among the first `n` fields: those that hold a text.
pub open spec fn wallpaper_kandidaten(sitzung: Seq<char>, n: nat) -> Seq<Seq<char>>
    decreases n,
{
    if n == 0 {
        seq![]
    } else {
        let v = wallpaper_kandidaten(sitzung, (n - 1) as nat);
        match crate::json::json_feld(sitzung, wallpaper_feld(n - 1)) {
            Some(p) => v.push(p),
            None => v,
        }
    }
}

/// The wallpaper candidates that the greeter's session file names, in the order tried
/// (the first that exists is shown).
pub fn wallpaper_felder(sitzung: &str) -> (r: Vec<String>)
    ensures
        crate::dock::texte_sicht(r@) == wallpaper_kandidaten(sitzung@, 3),
{
    let mut r: Vec<String> = Vec::new();
    let mut i: usize = 0;
    while i < 3
        invariant
            i <= 3,
            crate::dock::texte_sicht(r@) == wallpaper_kandidaten(sitzung@, i as nat),
        decreases 3 - i,
    {
        let feld = if i == 0 {
            "wallpaperPath"
        } else if i == 1 {
            "wallpaperPathDark"
        } else {
            "wallpaperPathLight"
        };
        match crate::json::feld_text(sitzung, feld) {
            Some(p) => {
                let ghost vorher = crate::dock::texte_sicht(r@);
                r.push(p);
                assert(crate::dock::texte_sicht(r@) =~= vorher.push(r@[r@.len() - 1]@));
            },
            None => {},
        }
        i = i + 1;
    }
    r
}

} // verus!
