//! The USB login key: which sticks can become a key, what the helper tool reports of the
//! current setup, how its answers read, and the setup window's decisions.

use vstd::prelude::*;
use crate::aufnahme::{ersetzt, ersetzt_exec};
use crate::text::{
    chars_of, concat, has_infix, join, join_with, lines, lines_of, same, same_str, slice,
    split_once, split_once_at, split_whitespace, string_of, trim, trim_chars, views, words,
    contains_seq, klein, zu_klein,
};

verus! {

// ------------------------------------------------------------------ sticks

/// A USB stick that can be set up as a key.
pub struct Stick {
    /// The device path.
    pub pfad: String,
    /// Vendor and model, as one line.
    pub beschr: String,
    /// The size, as `lsblk` writes it.
    pub groesse: String,
}

pub struct StickSicht {
    pub pfad: Seq<char>,
    pub beschr: Seq<char>,
    pub groesse: Seq<char>,
}

impl View for Stick {
    type V = StickSicht;

    open spec fn view(&self) -> StickSicht {
        StickSicht { pfad: self.pfad@, beschr: self.beschr@, groesse: self.groesse@ }
    }
}

pub open spec fn sticks_sicht(v: Seq<Stick>) -> Seq<StickSicht> {
    v.map_values(|s: Stick| s@)
}

/// Whether `s` ends with `p`.
pub open spec fn endet_mit(s: Seq<char>, p: Seq<char>) -> bool {
    p.len() <= s.len() && s.skip(s.len() - p.len()) == p
}

/// The description from the words after the size: joined, the escaped blanks of `lsblk`
/// turned back into blanks, the blank runs folded; `USB-Stick` where nothing is left.
pub open spec fn beschreibung(rest: Seq<Seq<char>>) -> Seq<char> {
    let b = join(words(ersetzt(join(rest, seq![' ']), "\\x20"@, seq![' '])), seq![' ']);
    if b.len() == 0 {
        "USB-Stick"@
    } else {
        b
    }
}

/// What one line of `lsblk -nro PATH,TYPE,TRAN,RM,SIZE,VENDOR,MODEL` gives: a whole,
/// removable USB disk that is not one of the two system disks and not an empty slot.
pub open spec fn stick_zeile(z: Seq<char>) -> Option<StickSicht> {
    let w = words(z);
    if w.len() < 5 || w[1] != "disk"@ || w[2] != "usb"@ || w[3] != "1"@ || endet_mit(
        w[0],
        "sda"@,
    ) || endet_mit(w[0], "sdb"@) || w[4] == "0B"@ || w[4] == "0"@ {
        None
    } else {
        Some(StickSicht { pfad: w[0], beschr: beschreibung(w.skip(5)), groesse: w[4] })
    }
}

/// The sticks that the lines give, in order.
pub open spec fn sticks_spec(ls: Seq<Seq<char>>) -> Seq<StickSicht>
    decreases ls.len(),
{
    if ls.len() == 0 {
        seq![]
    } else {
        let vorher = sticks_spec(ls.drop_last());
        match stick_zeile(ls.last()) {
            Some(s) => vorher.push(s),
            None => vorher,
        }
    }
}

fn endet_mit_exec(s: &Vec<char>, p: &str) -> (r: bool)
    ensures
        r == endet_mit(s@, p@),
{
    let pv = chars_of(p);
    if pv.len() > s.len() {
        return false;
    }
    let t = slice(s, s.len() - pv.len(), s.len());
    assert(t@ =~= s@.skip(s@.len() - pv@.len()));
    same(&t, &pv)
}

fn stick_aus_zeile(z: &Vec<char>) -> (r: Option<Stick>)
    ensures
        match r {
            Some(s) => stick_zeile(z@) == Some(s@),
            None => stick_zeile(z@) is None,
        },
{
    let w = split_whitespace(z);
    let ghost ws = words(z@);
    assert(views(w@) == ws);
    assert(w@.len() == ws.len());
    if w.len() < 5 {
        return None;
    }
    assert(w@[0]@ == ws[0] && w@[1]@ == ws[1] && w@[2]@ == ws[2] && w@[3]@ == ws[3] && w@[4]@
        == ws[4]);
    if !same_str(&w[1], "disk") || !same_str(&w[2], "usb") || !same_str(&w[3], "1") {
        return None;
    }
    if endet_mit_exec(&w[0], "sda") || endet_mit_exec(&w[0], "sdb") {
        return None;
    }
    if same_str(&w[4], "0B") || same_str(&w[4], "0") {
        return None;
    }
    let mut rest: Vec<Vec<char>> = Vec::new();
    let mut i: usize = 5;
    while i < w.len()
        invariant
            5 <= i <= w@.len(),
            views(w@) == ws,
            views(rest@) == ws.subrange(5, i as int),
        decreases w.len() - i,
    {
        let ghost vorher = views(rest@);
        let teil = slice(&w[i], 0, w[i].len());
        assert(teil@ =~= w@[i as int]@);
        rest.push(teil);
        assert(views(rest@) =~= ws.subrange(5, i + 1)) by {
            assert(views(rest@) =~= vorher.push(w@[i as int]@));
        }
        i = i + 1;
    }
    assert(ws.subrange(5, ws.len() as int) =~= ws.skip(5));
    let mut blank: Vec<char> = Vec::new();
    blank.push(' ');
    assert(blank@ =~= seq![' ']);
    let zusammen = join_with(&rest, &blank);
    let muster = chars_of("\\x20");
    proof {
        reveal_strlit("\\x20");
    }
    let ersetzt_v = ersetzt_exec(&zusammen, &muster, &blank);
    let teile = split_whitespace(&ersetzt_v);
    let b = join_with(&teile, &blank);
    let beschr = if b.len() == 0 {
        string_of(&chars_of("USB-Stick"))
    } else {
        string_of(&b)
    };
    let pfad = slice(&w[0], 0, w[0].len());
    let groesse = slice(&w[4], 0, w[4].len());
    assert(pfad@ =~= ws[0]);
    assert(groesse@ =~= ws[4]);
    Some(
        Stick {
            pfad: string_of(&pfad),
            beschr,
            groesse: string_of(&groesse),
        },
    )
}

/// The sticks in the output of `lsblk -nro PATH,TYPE,TRAN,RM,SIZE,VENDOR,MODEL`, in order.
pub fn sticks_aus(lsblk: &str) -> (r: Vec<Stick>)
    ensures
        sticks_sicht(r@) == sticks_spec(lines(lsblk@)),
{
    let ls = lines_of(&chars_of(lsblk));
    let ghost lv = views(ls@);
    let mut r: Vec<Stick> = Vec::new();
    let mut i: usize = 0;
    assert(lv.take(0) =~= Seq::<Seq<char>>::empty());
    while i < ls.len()
        invariant
            i <= ls@.len(),
            lv == views(ls@),
            sticks_sicht(r@) == sticks_spec(lv.take(i as int)),
        decreases ls.len() - i,
    {
        assert(lv.take(i + 1).drop_last() =~= lv.take(i as int));
        assert(lv.take(i + 1).last() == ls@[i as int]@);
        let ghost vorher = sticks_sicht(r@);
        match stick_aus_zeile(&ls[i]) {
            Some(st) => {
                r.push(st);
                assert(sticks_sicht(r@) =~= vorher.push(st@));
            },
            None => {},
        }
        i = i + 1;
    }
    assert(lv.take(ls@.len() as int) =~= lv);
    r
}

// ------------------------------------------------------------------ status

/// What the helper tool reports of the current setup.
#[derive(Clone, Copy, Debug, PartialEq, Eq, Structural)]
pub struct Status {
    /// A key secret is set up for the account.
    pub konto: bool,
    /// The login accepts the key.
    pub pam: bool,
    /// A key stick is plugged in.
    pub stick_da: bool,
}

/// One `key=value` line of the report applied to what was read so far; other lines change
/// nothing.
pub open spec fn status_zeile(s: Status, z: Seq<char>) -> Status {
    match split_once(z, '=') {
        Some((k, v)) => if k == "konto"@ {
            Status { konto: trim(v) == "1"@, pam: s.pam, stick_da: s.stick_da }
        } else if k == "pam"@ {
            Status { konto: s.konto, pam: trim(v) == "1"@, stick_da: s.stick_da }
        } else if k == "stick"@ {
            Status { konto: s.konto, pam: s.pam, stick_da: trim(v).len() > 0 }
        } else {
            s
        },
        None => s,
    }
}

/// The status that the lines give, starting from nothing set.
pub open spec fn status_spec(ls: Seq<Seq<char>>) -> Status
    decreases ls.len(),
{
    if ls.len() == 0 {
        Status { konto: false, pam: false, stick_da: false }
    } else {
        status_zeile(status_spec(ls.drop_last()), ls.last())
    }
}

fn status_zeile_exec(s: Status, z: &Vec<char>) -> (r: Status)
    ensures
        r == status_zeile(s, z@),
{
    match split_once_at(z, '=') {
        Some((k, v)) => {
            let t = trim_chars(&v);
            if same_str(&k, "konto") {
                Status { konto: same_str(&t, "1"), pam: s.pam, stick_da: s.stick_da }
            } else if same_str(&k, "pam") {
                Status { konto: s.konto, pam: same_str(&t, "1"), stick_da: s.stick_da }
            } else if same_str(&k, "stick") {
                Status { konto: s.konto, pam: s.pam, stick_da: t.len() > 0 }
            } else {
                s
            }
        },
        None => s,
    }
}

/// The report of the helper tool (`status-json`), read line by line; nothing set where the
/// report is empty.
pub fn status_aus(bericht: &str) -> (r: Status)
    ensures
        r == status_spec(lines(bericht@)),
{
    let ls = lines_of(&chars_of(bericht));
    let ghost lv = views(ls@);
    let mut s = Status { konto: false, pam: false, stick_da: false };
    let mut i: usize = 0;
    assert(lv.take(0) =~= Seq::<Seq<char>>::empty());
    while i < ls.len()
        invariant
            i <= ls@.len(),
            lv == views(ls@),
            s == status_spec(lv.take(i as int)),
        decreases ls.len() - i,
    {
        assert(lv.take(i + 1).drop_last() =~= lv.take(i as int));
        assert(lv.take(i + 1).last() == ls@[i as int]@);
        s = status_zeile_exec(s, &ls[i]);
        i = i + 1;
    }
    assert(lv.take(ls@.len() as int) =~= lv);
    s
}

// ------------------------------------------------------------------ answers

/// How an answer of the helper tool (run through `sudo`) reads: on success its trimmed
/// output, or `Fertig.` where it wrote nothing; a refused password as `Passwort falsch.`;
/// any other failure as its trimmed error text, or a general line where it wrote none.
pub open spec fn sudo_ergebnis_spec(erfolg: bool, aus: Seq<char>, fehler: Seq<char>) -> Result<
    Seq<char>,
    Seq<char>,
> {
    let t = trim(aus);
    let e = trim(fehler);
    if erfolg {
        Ok(if t.len() == 0 { "Fertig."@ } else { t })
    } else if has_infix(klein(e), "incorrect password"@) || has_infix(e, "Sorry"@) {
        Err("Passwort falsch."@)
    } else {
        Err(if e.len() == 0 { "Aktion fehlgeschlagen."@ } else { e })
    }
}

pub open spec fn ergebnis_sicht(r: Result<String, String>) -> Result<Seq<char>, Seq<char>> {
    match r {
        Ok(t) => Ok(t@),
        Err(e) => Err(e@),
    }
}

/// The outcome of one run of the helper tool, from whether it succeeded and what it wrote
/// to its output and its error output.
pub fn sudo_ergebnis(erfolg: bool, aus: &str, fehler: &str) -> (r: Result<String, String>)
    ensures
        ergebnis_sicht(r) == sudo_ergebnis_spec(erfolg, aus@, fehler@),
{
    let t = trim_chars(&chars_of(aus));
    let e = trim_chars(&chars_of(fehler));
    if erfolg {
        if t.len() == 0 {
            Ok(string_of(&chars_of("Fertig.")))
        } else {
            Ok(string_of(&t))
        }
    } else {
        let es = string_of(&e);
        let klein_e = chars_of(zu_klein(es.as_str()).as_str());
        if contains_seq(&klein_e, &chars_of("incorrect password")) || contains_seq(
            &e,
            &chars_of("Sorry"),
        ) {
            Err(string_of(&chars_of("Passwort falsch.")))
        } else if e.len() == 0 {
            Err(string_of(&chars_of("Aktion fehlgeschlagen.")))
        } else {
            Err(es)
        }
    }
}

// ------------------------------------------------------------------ window

/// The destructive actions, each asked back before it runs.
#[derive(Clone, Copy, Debug, PartialEq, Eq, Structural)]
pub enum Frage {
    Einrichten,
    Entfernen,
}

/// The setup window.
pub struct Schluessel {
    pub status: Status,
    pub sticks: Vec<Stick>,
    /// The device path of the chosen stick.
    pub gewaehlt: Option<String>,
    /// The account password, as typed.
    pub passwort: String,
    /// The last message, and whether it reports a failure.
    pub meldung: Option<(String, bool)>,
    /// A helper run is under way.
    pub laeuft: bool,
    pub dialog_offen: bool,
    /// The action that the open dialog asks about.
    pub frage: Option<Frage>,
    /// The account the key is for.
    pub benutzer: String,
}

/// What happens in the window.
pub enum Ereignis {
    /// The periodic tick.
    Tick,
    /// The status and the sticks, read anew.
    Gelesen(Status, Vec<Stick>),
    /// A destructive action was asked for.
    Fragen(Frage),
    Bestaetigen,
    Abbrechen,
    /// A stick was chosen, by its device path.
    Waehlen(String),
    Passwort(String),
    Einrichten,
    Entfernen,
    /// The outcome of the helper runs.
    Ergebnis(Result<String, String>),
    Escape,
}

/// What the window asks the system to do.
pub enum Auftrag {
    Keiner,
    /// Read the status and the sticks (then `Gelesen`).
    Lesen,
    /// Run the helper tool through `sudo` with this password, once for each argument list in
    /// turn, stopping at the first failure (then `Ergebnis`, with the last outcome).
    Sudo(String, Vec<Vec<String>>),
}

pub enum AuftragSicht {
    Keiner,
    Lesen,
    Sudo(Seq<char>, Seq<Seq<Seq<char>>>),
}

pub open spec fn args_sicht(v: Seq<Vec<String>>) -> Seq<Seq<Seq<char>>> {
    v.map_values(|a: Vec<String>| a@.map_values(|t: String| t@))
}

impl View for Auftrag {
    type V = AuftragSicht;

    open spec fn view(&self) -> AuftragSicht {
        match self {
            Auftrag::Keiner => AuftragSicht::Keiner,
            Auftrag::Lesen => AuftragSicht::Lesen,
            Auftrag::Sudo(p, a) => AuftragSicht::Sudo(p@, args_sicht(a@)),
        }
    }
}

pub open spec fn text_sicht(t: Option<String>) -> Option<Seq<char>> {
    match t {
        Some(x) => Some(x@),
        None => None,
    }
}

pub open spec fn meldung_sicht(m: Option<(String, bool)>) -> Option<(Seq<char>, bool)> {
    match m {
        Some((t, f)) => Some((t@, f)),
        None => None,
    }
}

/// Whether any of the sticks has this device path.
pub open spec fn hat_pfad(v: Seq<StickSicht>, p: Seq<char>) -> bool {
    exists|i: int| 0 <= i < v.len() && #[trigger] v[i].pfad == p
}

pub open spec fn fehlt_auswahl() -> Seq<char> {
    "Stick wählen und Passwort eingeben."@
}

impl Schluessel {
    /// A window over what was read at start; `dialog_offen` opens the setup question at once.
    pub fn neu(status: Status, sticks: Vec<Stick>, benutzer: String, dialog_offen: bool) -> (r:
        Schluessel)
        ensures
            r.status == status,
            sticks_sicht(r.sticks@) == sticks_sicht(sticks@),
            r.gewaehlt is None,
            r.passwort@ == Seq::<char>::empty(),
            r.meldung is None,
            !r.laeuft,
            r.dialog_offen == dialog_offen,
            r.frage == (if dialog_offen { Some(Frage::Einrichten) } else { None }),
            r.benutzer@ == benutzer@,
    {
        Schluessel {
            status,
            sticks,
            gewaehlt: None,
            passwort: String::new(),
            meldung: None,
            laeuft: false,
            dialog_offen,
            frage: if dialog_offen {
                Some(Frage::Einrichten)
            } else {
                None
            },
            benutzer,
        }
    }

    /// Whether the action may be asked about: a stick chosen (for the setup) and a password.
    pub open spec fn bereit(&self, f: Frage) -> bool {
        match f {
            Frage::Einrichten => self.gewaehlt is Some && self.passwort@.len() > 0,
            Frage::Entfernen => self.passwort@.len() > 0,
        }
    }

    /// The event as it takes effect: a confirmation runs the action asked about.
    pub open spec fn wirksam(&self, e: Ereignis) -> Ereignis {
        match e {
            Ereignis::Bestaetigen => match self.frage {
                Some(Frage::Einrichten) => Ereignis::Einrichten,
                Some(Frage::Entfernen) => Ereignis::Entfernen,
                None => Ereignis::Bestaetigen,
            },
            _ => e,
        }
    }

    pub open spec fn status_nach(&self, e: Ereignis) -> Status {
        match e {
            Ereignis::Gelesen(s, _) => s,
            _ => self.status,
        }
    }

    pub open spec fn sticks_nach(&self, e: Ereignis) -> Seq<StickSicht> {
        match e {
            Ereignis::Gelesen(_, neu) => sticks_sicht(neu@),
            _ => sticks_sicht(self.sticks@),
        }
    }

    pub open spec fn gewaehlt_nach(&self, e: Ereignis) -> Option<Seq<char>> {
        match e {
            Ereignis::Gelesen(_, neu) => match self.gewaehlt {
                Some(g) => if sticks_sicht(neu@) != sticks_sicht(self.sticks@) && !hat_pfad(
                    sticks_sicht(neu@),
                    g@,
                ) {
                    None
                } else {
                    Some(g@)
                },
                None => None,
            },
            Ereignis::Waehlen(p) => Some(p@),
            Ereignis::Ergebnis(_) => None,
            _ => text_sicht(self.gewaehlt),
        }
    }

    pub open spec fn passwort_nach(&self, e: Ereignis) -> Seq<char> {
        match e {
            Ereignis::Passwort(p) => p@,
            Ereignis::Ergebnis(_) => Seq::empty(),
            _ => self.passwort@,
        }
    }

    pub open spec fn meldung_nach(&self, e: Ereignis) -> Option<(Seq<char>, bool)> {
        match self.wirksam(e) {
            Ereignis::Fragen(f) => if !self.bereit(f) {
                Some((fehlt_auswahl(), true))
            } else {
                meldung_sicht(self.meldung)
            },
            Ereignis::Waehlen(_) => None,
            Ereignis::Einrichten => if !self.bereit(Frage::Einrichten) {
                Some((fehlt_auswahl(), true))
            } else {
                Some(("Formatiere und richte ein …"@, false))
            },
            Ereignis::Entfernen => if !self.bereit(Frage::Entfernen) {
                Some(("Passwort eingeben, um zu entfernen."@, true))
            } else {
                meldung_sicht(self.meldung)
            },
            Ereignis::Ergebnis(Ok(t)) => Some((t@, false)),
            Ereignis::Ergebnis(Err(t)) => Some((t@, true)),
            _ => meldung_sicht(self.meldung),
        }
    }

    pub open spec fn laeuft_nach(&self, e: Ereignis) -> bool {
        match self.wirksam(e) {
            Ereignis::Einrichten => self.bereit(Frage::Einrichten) || self.laeuft,
            Ereignis::Entfernen => self.bereit(Frage::Entfernen) || self.laeuft,
            Ereignis::Ergebnis(_) => false,
            _ => self.laeuft,
        }
    }

    pub open spec fn dialog_nach(&self, e: Ereignis) -> bool {
        match e {
            Ereignis::Fragen(f) => if self.bereit(f) && !self.laeuft {
                true
            } else {
                self.dialog_offen
            },
            Ereignis::Abbrechen => false,
            Ereignis::Bestaetigen => false,
            Ereignis::Escape => false,
            _ => self.dialog_offen,
        }
    }

    pub open spec fn frage_nach(&self, e: Ereignis) -> Option<Frage> {
        match e {
            Ereignis::Fragen(f) => if self.bereit(f) && !self.laeuft {
                Some(f)
            } else {
                self.frage
            },
            Ereignis::Bestaetigen => None,
            _ => self.frage,
        }
    }

    /// The helper's argument lists for a setup of this device.
    pub open spec fn einrichten_args(&self, dev: Seq<char>) -> Seq<Seq<Seq<char>>> {
        seq![seq!["einrichten"@, "--device"@, dev, "--user"@, self.benutzer@]]
    }

    /// The helper's argument lists for a removal: first the login link, then the secret.
    pub open spec fn entfernen_args(&self) -> Seq<Seq<Seq<char>>> {
        seq![seq!["pam-deaktivieren"@], seq!["entfernen"@, "--user"@, self.benutzer@]]
    }

    pub open spec fn auftrag_nach(&self, e: Ereignis) -> AuftragSicht {
        match self.wirksam(e) {
            Ereignis::Tick => if self.laeuft {
                AuftragSicht::Keiner
            } else {
                AuftragSicht::Lesen
            },
            Ereignis::Einrichten => match self.gewaehlt {
                Some(dev) => if self.passwort@.len() > 0 {
                    AuftragSicht::Sudo(self.passwort@, self.einrichten_args(dev@))
                } else {
                    AuftragSicht::Keiner
                },
                None => AuftragSicht::Keiner,
            },
            Ereignis::Entfernen => if self.passwort@.len() > 0 {
                AuftragSicht::Sudo(self.passwort@, self.entfernen_args())
            } else {
                AuftragSicht::Keiner
            },
            Ereignis::Ergebnis(_) => AuftragSicht::Lesen,
            _ => AuftragSicht::Keiner,
        }
    }

    fn einrichten(&mut self) -> (r: Auftrag)
        ensures
            final(self).status == old(self).status,
            sticks_sicht(final(self).sticks@) == sticks_sicht(old(self).sticks@),
            text_sicht(final(self).gewaehlt) == text_sicht(old(self).gewaehlt),
            final(self).passwort@ == old(self).passwort@,
            meldung_sicht(final(self).meldung) == old(self).meldung_nach(Ereignis::Einrichten),
            final(self).laeuft == old(self).laeuft_nach(Ereignis::Einrichten),
            final(self).dialog_offen == old(self).dialog_offen,
            final(self).frage == old(self).frage,
            final(self).benutzer@ == old(self).benutzer@,
            r@ == old(self).auftrag_nach(Ereignis::Einrichten),
    {
        let dev = match &self.gewaehlt {
            Some(d) => d.clone(),
            None => {
                self.meldung = Some((string_of(&chars_of("Stick wählen und Passwort eingeben.")), true));
                return Auftrag::Keiner;
            },
        };
        if ist_leer(&self.passwort) {
            self.meldung = Some((string_of(&chars_of("Stick wählen und Passwort eingeben.")), true));
            return Auftrag::Keiner;
        }
        self.laeuft = true;
        self.meldung = Some((string_of(&chars_of("Formatiere und richte ein …")), false));
        let mut args: Vec<String> = Vec::new();
        args.push(string_of(&chars_of("einrichten")));
        args.push(string_of(&chars_of("--device")));
        args.push(dev);
        args.push(string_of(&chars_of("--user")));
        args.push(self.benutzer.clone());
        let mut liste: Vec<Vec<String>> = Vec::new();
        liste.push(args);
        let ghost a = args_sicht(liste@);
        assert(a =~= self.einrichten_args(self.gewaehlt->0@)) by {
            assert(a[0] =~= self.einrichten_args(self.gewaehlt->0@)[0]);
        }
        Auftrag::Sudo(self.passwort.clone(), liste)
    }

    fn entfernen(&mut self) -> (r: Auftrag)
        ensures
            final(self).status == old(self).status,
            sticks_sicht(final(self).sticks@) == sticks_sicht(old(self).sticks@),
            text_sicht(final(self).gewaehlt) == text_sicht(old(self).gewaehlt),
            final(self).passwort@ == old(self).passwort@,
            meldung_sicht(final(self).meldung) == old(self).meldung_nach(Ereignis::Entfernen),
            final(self).laeuft == old(self).laeuft_nach(Ereignis::Entfernen),
            final(self).dialog_offen == old(self).dialog_offen,
            final(self).frage == old(self).frage,
            final(self).benutzer@ == old(self).benutzer@,
            r@ == old(self).auftrag_nach(Ereignis::Entfernen),
    {
        if ist_leer(&self.passwort) {
            self.meldung = Some((string_of(&chars_of("Passwort eingeben, um zu entfernen.")), true));
            return Auftrag::Keiner;
        }
        self.laeuft = true;
        let mut erst: Vec<String> = Vec::new();
        erst.push(string_of(&chars_of("pam-deaktivieren")));
        let mut dann: Vec<String> = Vec::new();
        dann.push(string_of(&chars_of("entfernen")));
        dann.push(string_of(&chars_of("--user")));
        dann.push(self.benutzer.clone());
        let mut liste: Vec<Vec<String>> = Vec::new();
        liste.push(erst);
        liste.push(dann);
        let ghost a = args_sicht(liste@);
        assert(a =~= self.entfernen_args()) by {
            assert(a[0] =~= self.entfernen_args()[0]);
            assert(a[1] =~= self.entfernen_args()[1]);
        }
        Auftrag::Sudo(self.passwort.clone(), liste)
    }

    /// One event: the new state, and what the system is asked to do.
    pub fn update(&mut self, e: Ereignis) -> (r: Auftrag)
        ensures
            final(self).status == old(self).status_nach(e),
            sticks_sicht(final(self).sticks@) == old(self).sticks_nach(e),
            text_sicht(final(self).gewaehlt) == old(self).gewaehlt_nach(e),
            final(self).passwort@ == old(self).passwort_nach(e),
            meldung_sicht(final(self).meldung) == old(self).meldung_nach(e),
            final(self).laeuft == old(self).laeuft_nach(e),
            final(self).dialog_offen == old(self).dialog_nach(e),
            final(self).frage == old(self).frage_nach(e),
            final(self).benutzer@ == old(self).benutzer@,
            r@ == old(self).auftrag_nach(e),
    {
        match e {
            Ereignis::Tick => if self.laeuft {
                Auftrag::Keiner
            } else {
                Auftrag::Lesen
            },
            Ereignis::Gelesen(status, neu) => {
                self.status = status;
                if !gleiche_sticks(&neu, &self.sticks) {
                    let weg = match &self.gewaehlt {
                        Some(g) => !pfad_dabei(&neu, g),
                        None => false,
                    };
                    if weg {
                        self.gewaehlt = None;
                    }
                    self.sticks = neu;
                }
                Auftrag::Keiner
            },
            Ereignis::Fragen(f) => {
                let bereit = match f {
                    Frage::Einrichten => self.gewaehlt.is_some() && !ist_leer(&self.passwort),
                    Frage::Entfernen => !ist_leer(&self.passwort),
                };
                if !bereit {
                    self.meldung = Some(
                        (string_of(&chars_of("Stick wählen und Passwort eingeben.")), true),
                    );
                    return Auftrag::Keiner;
                }
                if self.laeuft {
                    return Auftrag::Keiner;
                }
                self.frage = Some(f);
                self.dialog_offen = true;
                Auftrag::Keiner
            },
            Ereignis::Abbrechen => {
                self.dialog_offen = false;
                Auftrag::Keiner
            },
            Ereignis::Bestaetigen => {
                self.dialog_offen = false;
                let f = self.frage;
                self.frage = None;
                match f {
                    Some(Frage::Einrichten) => self.einrichten(),
                    Some(Frage::Entfernen) => self.entfernen(),
                    None => Auftrag::Keiner,
                }
            },
            Ereignis::Waehlen(p) => {
                self.gewaehlt = Some(p);
                self.meldung = None;
                Auftrag::Keiner
            },
            Ereignis::Passwort(p) => {
                self.passwort = p;
                Auftrag::Keiner
            },
            Ereignis::Einrichten => self.einrichten(),
            Ereignis::Entfernen => self.entfernen(),
            Ereignis::Ergebnis(r) => {
                self.laeuft = false;
                self.passwort = String::new();
                match r {
                    Ok(t) => self.meldung = Some((t, false)),
                    Err(t) => self.meldung = Some((t, true)),
                }
                self.gewaehlt = None;
                Auftrag::Lesen
            },
            Ereignis::Escape => {
                self.dialog_offen = false;
                Auftrag::Keiner
            },
        }
    }
}

fn ist_leer(s: &String) -> (r: bool)
    ensures
        r == (s@.len() == 0),
{
    chars_of(s.as_str()).len() == 0
}

fn gleicher_text(a: &String, b: &String) -> (r: bool)
    ensures
        r == (a@ == b@),
{
    same(&chars_of(a.as_str()), &chars_of(b.as_str()))
}

/// Whether two lists of sticks agree in every field.
fn gleiche_sticks(a: &Vec<Stick>, b: &Vec<Stick>) -> (r: bool)
    ensures
        r == (sticks_sicht(a@) == sticks_sicht(b@)),
{
    if a.len() != b.len() {
        assert(sticks_sicht(a@).len() != sticks_sicht(b@).len());
        return false;
    }
    let mut i: usize = 0;
    while i < a.len()
        invariant
            a@.len() == b@.len(),
            i <= a@.len(),
            forall|k: int| 0 <= k < i ==> #[trigger] a@[k]@ == b@[k]@,
        decreases a.len() - i,
    {
        if !gleicher_text(&a[i].pfad, &b[i].pfad) || !gleicher_text(&a[i].beschr, &b[i].beschr)
            || !gleicher_text(&a[i].groesse, &b[i].groesse) {
            assert(sticks_sicht(a@)[i as int] != sticks_sicht(b@)[i as int]);
            return false;
        }
        i = i + 1;
    }
    assert(sticks_sicht(a@) =~= sticks_sicht(b@)) by {
        assert forall|k: int| 0 <= k < a@.len() implies sticks_sicht(a@)[k] == sticks_sicht(
            b@,
        )[k] by {
            assert(a@[k]@ == b@[k]@);
        }
    }
    true
}

/// Whether a stick with this device path is among them.
fn pfad_dabei(v: &Vec<Stick>, p: &String) -> (r: bool)
    ensures
        r == hat_pfad(sticks_sicht(v@), p@),
{
    let mut i: usize = 0;
    while i < v.len()
        invariant
            i <= v@.len(),
            forall|k: int| 0 <= k < i ==> #[trigger] v@[k].pfad@ != p@,
        decreases v.len() - i,
    {
        if gleicher_text(&v[i].pfad, p) {
            assert(sticks_sicht(v@)[i as int].pfad == p@);
            return true;
        }
        i = i + 1;
    }
    assert forall|k: int| 0 <= k < sticks_sicht(v@).len() implies #[trigger] sticks_sicht(
        v@,
    )[k].pfad != p@ by {
        assert(v@[k].pfad@ != p@);
    }
    false
}

/// The helper tool runs only for a confirmed question (or the action itself), never on the
/// question alone, and always with the typed password, which is not empty; a setup names
/// the chosen stick.
pub proof fn lemma_nur_nach_bestaetigung(s: Schluessel, e: Ereignis)
    requires
        s.auftrag_nach(e) is Sudo,
    ensures
        (e is Bestaetigen && s.frage is Some) || e is Einrichten || e is Entfernen,
        !(e is Fragen),
        s.auftrag_nach(e) matches AuftragSicht::Sudo(pw, args) && pw == s.passwort@ && pw.len() > 0
            && (args == s.entfernen_args() || (s.gewaehlt matches Some(dev) && args
            == s.einrichten_args(dev@))),
{
}

/// After the outcome of a helper run the password is gone, nothing runs any more and no stick
/// stays chosen.
pub proof fn lemma_passwort_verworfen(s: Schluessel, r: Result<String, String>)
    ensures
        s.passwort_nach(Ereignis::Ergebnis(r)).len() == 0,
        !s.laeuft_nach(Ereignis::Ergebnis(r)),
        s.gewaehlt_nach(Ereignis::Ergebnis(r)) is None,
{
}

} // verus!
