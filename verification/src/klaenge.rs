//! System sounds: which sounds are switched off (`klaenge.conf`), whether the hooks may play
//! a sound, which system events become which sound, and the devices of the sound server.

use vstd::prelude::*;
use crate::text::{
    chars_of, concat, find, has_infix, is_ws, lemma_infix_teil, lemma_find_at, lemma_find_bound,
    lemma_lines_anhaengen, lemma_ohne_in_summe, lemma_vor_zeichen, lines, lines_of, same,
    same_str, slice, split_once, split_once_at, string_of, strip_cr, trim, trim_chars, trim_end,
    trim_start, views,
};

verus! {

/// The sound events, in the order shown: file stem, title, description.
pub fn ereignisse() -> (r: Vec<(&'static str, &'static str, &'static str)>)
    ensures
        r@.len() == 14,
{
    vec![
        ("01-anmeldung", "Anmelden", "Drei tiefe Pulse steigen ruhig auf"),
        ("02-abmeldung", "Abmelden", "Dieselben Stufen abwärts"),
        ("03-benachrichtigung", "Benachrichtigung", "Zwei Pulse aufwärts — gute Nachricht"),
        ("04-benachrichtigung-leise", "Leiser Hinweis", "Ein einzelner ruhiger Puls"),
        ("05-lautstaerke", "Lautstärke", "Kurzer gedämpfter Tupfer"),
        ("06-geraet-verbunden", "Gerät verbunden", "Tiefe Quinte aufwärts"),
        ("07-geraet-getrennt", "Gerät getrennt", "Dieselbe Quinte, rückwärts"),
        ("08-arbeitsflaeche", "Arbeitsfläche", "Dunkler Hauch mit Grundpuls"),
        ("09-screenshot", "Bildschirmfoto", "Gedämpfter Auslöser"),
        ("10-papierkorb", "Papierkorb", "Dunkles Rascheln, tiefer Punkt"),
        ("11-fertig", "Fertig", "Das positive Spiegelbild des Fehlers"),
        ("12-fehler", "Fehler", "Zwei gedämpfte tiefe Pulse — die Referenz"),
        (
            "13-schluessel-erkannt",
            "Schlüssel erkannt",
            "Der Wächter — bewusst auffällig; am Login-Screen immer aktiv",
        ),
        (
            "14-waechter-ruf",
            "Wächter-Ruf",
            "Der Ruf der Wiederherstellung — am Login-Screen immer aktiv",
        ),
    ]
}

// --------------------------------------------------------------- settings

/// The keys a settings file switches off: each line `key=aus` (both trimmed), in order.
pub open spec fn conf_aus(ls: Seq<Seq<char>>) -> Seq<Seq<char>>
    decreases ls.len(),
{
    if ls.len() == 0 {
        Seq::empty()
    } else {
        let vorher = conf_aus(ls.drop_last());
        match split_once(ls.last(), '=') {
            Some((k, w)) => if trim(w) == "aus"@ {
                vorher.push(trim(k))
            } else {
                vorher
            },
            None => vorher,
        }
    }
}

/// The sound settings: the keys switched off (a missing key is on).
pub struct Einstellungen {
    pub aus: Vec<String>,
}

/// The views of strings.
pub open spec fn texte(v: Seq<String>) -> Seq<Seq<char>> {
    v.map_values(|s: String| s@)
}

/// `s` without the entries equal to `x`, in order.
pub open spec fn ohne(s: Seq<Seq<char>>, x: Seq<char>) -> Seq<Seq<char>>
    decreases s.len(),
{
    if s.len() == 0 {
        s
    } else if s.last() == x {
        ohne(s.drop_last(), x)
    } else {
        ohne(s.drop_last(), x).push(s.last())
    }
}

/// The keys off after switching `key`: it leaves the list and, switched off, comes last.
pub open spec fn setzen_spec(aus: Seq<Seq<char>>, key: Seq<char>, an: bool) -> Seq<Seq<char>> {
    if an {
        ohne(aus, key)
    } else {
        ohne(aus, key).push(key)
    }
}

/// The first line of the file.
pub open spec fn kopf() -> Seq<char> {
    "# Matrix-Systemklänge — verwaltet von der App „Matrix Klänge“\n"@
}

/// The file text for the keys switched off.
pub open spec fn datei_spec(aus: Seq<Seq<char>>) -> Seq<char>
    decreases aus.len(),
{
    if aus.len() == 0 {
        kopf()
    } else {
        datei_spec(aus.drop_last()) + aus.last() + "=aus\n"@
    }
}

proof fn lemma_push_enthaelt<T>(s: Seq<T>, v: T, y: T)
    ensures
        s.push(v).contains(y) <==> (s.contains(y) || v == y),
{
    if s.contains(y) {
        let k = choose|k: int| 0 <= k < s.len() && s[k] == y;
        assert(s.push(v)[k] == s[k]);
    }
    if v == y {
        assert(s.push(v)[s.len() as int] == v);
    }
    if s.push(v).contains(y) {
        let k = choose|k: int| 0 <= k < s.push(v).len() && s.push(v)[k] == y;
        if k < s.len() {
            assert(s[k] == s.push(v)[k]);
        }
    }
}

proof fn lemma_ohne_enthaelt(s: Seq<Seq<char>>, x: Seq<char>, y: Seq<char>)
    ensures
        ohne(s, x).contains(y) <==> (s.contains(y) && y != x),
    decreases s.len(),
{
    if s.len() > 0 {
        let u = s.drop_last();
        lemma_ohne_enthaelt(u, x, y);
        assert(u.push(s.last()) =~= s);
        lemma_push_enthaelt(u, s.last(), y);
        if s.last() != x {
            lemma_push_enthaelt(ohne(u, x), s.last(), y);
        }
    }
}

/// Switching reads back: after switching a key, it is on exactly when it was switched on,
/// and every other key keeps its state.
pub proof fn lemma_setzen_liest_zurueck(aus: Seq<Seq<char>>, key: Seq<char>, an: bool, anderer: Seq<char>)
    requires
        anderer != key,
    ensures
        !setzen_spec(aus, key, an).contains(key) == an,
        !setzen_spec(aus, key, an).contains(anderer) == !aus.contains(anderer),
{
    lemma_ohne_enthaelt(aus, key, key);
    lemma_ohne_enthaelt(aus, key, anderer);
    let o = ohne(aus, key);
    if !an {
        assert(o.push(key)[o.len() as int] == key);
        if o.push(key).contains(anderer) {
            let k = choose|k: int| 0 <= k < o.push(key).len() && o.push(key)[k] == anderer;
            assert(o[k] == o.push(key)[k]);
        }
        if o.contains(anderer) {
            let k = choose|k: int| 0 <= k < o.len() && o[k] == anderer;
            assert(o.push(key)[k] == o[k]);
        }
    }
}

/// The panel's switches bind the hooks: after a key is switched and the file written, the
/// hooks play that sound exactly when it was switched on and "all" is not off ("all" itself
/// is on exactly when switched on); without a file every sound plays. The keys stored are
/// those a file can hold.
pub proof fn lemma_setzen_bindet(aus: Seq<Seq<char>>, key: Seq<char>, an: bool)
    requires
        forall|i: int| 0 <= i < aus.len() ==> gueltiger_schluessel(#[trigger] aus[i]),
        gueltiger_schluessel(key),
    ensures
        key != "alle"@ ==> erlaubt_spec(Some(datei_spec(setzen_spec(aus, key, an))), key) == (an
            && !aus.contains("alle"@)),
        key == "alle"@ ==> erlaubt_spec(Some(datei_spec(setzen_spec(aus, key, an))), key) == an,
        erlaubt_spec(None, key),
{
    let neu = setzen_spec(aus, key, an);
    assert forall|i: int| 0 <= i < neu.len() implies gueltiger_schluessel(#[trigger] neu[i]) by {
        let y = neu[i];
        assert(neu.contains(y));
        lemma_ohne_enthaelt(aus, key, y);
        if !an {
            lemma_push_enthaelt(ohne(aus, key), key, y);
        }
        if y != key {
            let j = choose|j: int| 0 <= j < aus.len() && aus[j] == y;
            assert(gueltiger_schluessel(aus[j]));
        }
    }
    lemma_schalter_binden(neu, key);
    if key != "alle"@ {
        lemma_setzen_liest_zurueck(aus, key, an, "alle"@);
    }
    lemma_setzen_liest_zurueck(aus, key, an, key.push('x'));
}

impl Einstellungen {
    /// The settings of a file; without a file everything is on.
    pub fn laden(inhalt: Option<&str>) -> (r: Einstellungen)
        ensures
            texte(r.aus@) == match inhalt {
                Some(t) => conf_aus(lines(t@)),
                None => Seq::empty(),
            },
    {
        let mut aus: Vec<String> = Vec::new();
        if let Some(t) = inhalt {
            let ls = lines_of(&chars_of(t));
            let mut i: usize = 0;
            assert(views(ls@).take(0) =~= Seq::<Seq<char>>::empty());
            while i < ls.len()
                invariant
                    i <= ls@.len(),
                    views(ls@) == lines(t@),
                    texte(aus@) == conf_aus(views(ls@).take(i as int)),
                decreases ls.len() - i,
            {
                assert(views(ls@).take(i + 1).drop_last() =~= views(ls@).take(i as int));
                assert(views(ls@).take(i + 1).last() == ls@[i as int]@);
                if let Some((k, w)) = split_once_at(&ls[i], '=') {
                    if same_str(&trim_chars(&w), "aus") {
                        let ghost vorher = aus@;
                        aus.push(string_of(&trim_chars(&k)));
                        assert(texte(aus@) =~= texte(vorher).push(trim(k@)));
                    }
                }
                i = i + 1;
            }
            assert(views(ls@).take(ls@.len() as int) =~= views(ls@));
        } else {
            assert(texte(aus@) =~= Seq::<Seq<char>>::empty());
        }
        Einstellungen { aus }
    }

    /// Whether a sound is on.
    pub fn an(&self, schluessel: &str) -> (r: bool)
        ensures
            r == !texte(self.aus@).contains(schluessel@),
    {
        let k = chars_of(schluessel);
        let mut i: usize = 0;
        while i < self.aus.len()
            invariant
                i <= self.aus@.len(),
                k@ == schluessel@,
                forall|j: int| 0 <= j < i ==> texte(self.aus@)[j] != schluessel@,
            decreases self.aus.len() - i,
        {
            assert(texte(self.aus@)[i as int] == self.aus@[i as int]@);
            if same(&chars_of(self.aus[i].as_str()), &k) {
                assert(texte(self.aus@).contains(schluessel@));
                return false;
            }
            i = i + 1;
        }
        true
    }

    /// Switch a sound; the text of the settings file to write.
    pub fn setzen(&mut self, schluessel: &str, an: bool) -> (r: String)
        ensures
            texte(final(self).aus@) == setzen_spec(texte(old(self).aus@), schluessel@, an),
            r@ == datei_spec(texte(final(self).aus@)),
    {
        let k = chars_of(schluessel);
        let ghost s = texte(self.aus@);
        let mut neu: Vec<String> = Vec::new();
        let mut i: usize = 0;
        assert(s.take(0) =~= Seq::<Seq<char>>::empty());
        while i < self.aus.len()
            invariant
                i <= self.aus@.len(),
                s == texte(self.aus@),
                k@ == schluessel@,
                texte(neu@) == ohne(s.take(i as int), schluessel@),
            decreases self.aus.len() - i,
        {
            assert(s.take(i + 1).drop_last() =~= s.take(i as int));
            assert(s.take(i + 1).last() == self.aus@[i as int]@);
            if !same(&chars_of(self.aus[i].as_str()), &k) {
                let ghost vorher = neu@;
                neu.push(self.aus[i].clone());
                assert(texte(neu@) =~= texte(vorher).push(s[i as int]));
            }
            i = i + 1;
        }
        assert(s.take(s.len() as int) =~= s);
        if !an {
            let ghost vorher = neu@;
            neu.push(string_of(&k));
            assert(texte(neu@) =~= texte(vorher).push(schluessel@));
        }
        self.aus = neu;
        self.datei_text()
    }

    /// The text of the settings file.
    pub fn datei_text(&self) -> (r: String)
        ensures
            r@ == datei_spec(texte(self.aus@)),
    {
        let ghost s = texte(self.aus@);
        let mut t = chars_of("# Matrix-Systemklänge — verwaltet von der App „Matrix Klänge“\n");
        let ende = chars_of("=aus\n");
        let mut i: usize = 0;
        assert(s.take(0) =~= Seq::<Seq<char>>::empty());
        while i < self.aus.len()
            invariant
                i <= self.aus@.len(),
                s == texte(self.aus@),
                ende@ == "=aus\n"@,
                t@ == datei_spec(s.take(i as int)),
            decreases self.aus.len() - i,
        {
            assert(s.take(i + 1).drop_last() =~= s.take(i as int));
            assert(s.take(i + 1).last() == self.aus@[i as int]@);
            t = concat(&concat(&t, &chars_of(self.aus[i].as_str())), &ende);
            i = i + 1;
        }
        assert(s.take(s.len() as int) =~= s);
        string_of(&t)
    }
}

/// Whether the hooks may play a sound: without a settings file, yes; else not where a line
/// switches off the sound or all sounds (`alle`).
pub open spec fn erlaubt_spec(inhalt: Option<Seq<char>>, schluessel: Seq<char>) -> bool {
    match inhalt {
        None => true,
        Some(t) => !(exists|i: int|
            0 <= i < lines(t).len() && (match #[trigger] split_once(lines(t)[i], '=') {
                Some((k, w)) => (trim(k) == "alle"@ || trim(k) == schluessel) && trim(w) == "aus"@,
                None => false,
            })),
    }
}

/// Whether the hooks may play a sound.
pub fn erlaubt(inhalt: Option<&str>, schluessel: &str) -> (r: bool)
    ensures
        r == erlaubt_spec(
            match inhalt {
                Some(t) => Some(t@),
                None => None,
            },
            schluessel@,
        ),
{
    match inhalt {
        None => true,
        Some(t) => {
            let ls = lines_of(&chars_of(t));
            let s = chars_of(schluessel);
            let mut i: usize = 0;
            while i < ls.len()
                invariant
                    i <= ls@.len(),
                    inhalt == Some(t),
                    views(ls@) == lines(t@),
                    s@ == schluessel@,
                    forall|j: int|
                        0 <= j < i ==> !(match #[trigger] split_once(lines(t@)[j], '=') {
                            Some((k, w)) => (trim(k) == "alle"@ || trim(k) == schluessel@) && trim(
                                w,
                            ) == "aus"@,
                            None => false,
                        }),
                decreases ls.len() - i,
            {
                assert(lines(t@)[i as int] == ls@[i as int]@);
                if let Some((k, w)) = split_once_at(&ls[i], '=') {
                    let kt = trim_chars(&k);
                    if (same_str(&kt, "alle") || same(&kt, &s)) && same_str(&trim_chars(&w), "aus") {
                        return false;
                    }
                }
                i = i + 1;
            }
            true
        },
    }
}

// ------------------------------------------------------------ round trip

#[verifier::rlimit(60)]
proof fn lemma_kopf_zeichen()
    ensures
        kopf().len() == 62,
        kopf()[60] == '“',
        kopf()[61] == '\n',
        forall|k: int| 0 <= k < 61 ==> #[trigger] kopf()[k] != '\n' && kopf()[k] != '=',
{
    reveal_strlit("# Matrix-Systemklänge — verwaltet von der App „Matrix Klänge“\n");
}

proof fn lemma_aus_zeichen()
    ensures
        "=aus\n"@ == seq!['=', 'a', 'u', 's', '\n'],
        "aus"@ == seq!['a', 'u', 's'],
        trim("aus"@) == "aus"@,
        "alle"@ == seq!['a', 'l', 'l', 'e'],
{
    reveal_strlit("=aus\n");
    reveal_strlit("aus");
    reveal_strlit("alle");
    let a = seq!['a', 'u', 's'];
    assert(!is_ws('a') && !is_ws('s'));
    assert(trim_start(a) == a);
    assert(trim_end(a) == a);
}

/// A key the file can hold: trimmed, without `=` and line breaks.
pub open spec fn gueltiger_schluessel(a: Seq<char>) -> bool {
    trim(a) == a && !a.contains('=') && !a.contains('\n')
}

/// The line a key is switched off by.
pub open spec fn aus_zeile(a: Seq<char>) -> Seq<char> {
    a + seq!['=', 'a', 'u', 's']
}

proof fn lemma_zeile_des_schluessels(a: Seq<char>)
    requires
        gueltiger_schluessel(a),
    ensures
        a + "=aus\n"@ == aus_zeile(a) + seq!['\n'],
        lines(a + "=aus\n"@) == seq![aus_zeile(a)],
        split_once(aus_zeile(a), '=') == Some((a, "aus"@)),
{
    lemma_aus_zeichen();
    let x = aus_zeile(a);
    let rest = seq!['a', 'u', 's'];
    assert(!rest.contains('\n') && !rest.contains('=')) by {
        if rest.contains('\n') || rest.contains('=') {
            let k = choose|k: int| 0 <= k < rest.len() && (rest[k] == '\n' || rest[k] == '=');
        }
    }
    assert(!seq!['='].contains('\n')) by {
        if seq!['='].contains('\n') {
            let k = choose|k: int| 0 <= k < 1 && seq!['='][k] == '\n';
        }
    }
    lemma_ohne_in_summe(a, seq!['='], '\n');
    assert(x =~= a + seq!['='] + rest);
    lemma_ohne_in_summe(a + seq!['='], rest, '\n');
    assert(a + "=aus\n"@ =~= x + seq!['\n']);
    lemma_vor_zeichen(x, '\n', Seq::<char>::empty());
    let h = x + seq!['\n'] + Seq::<char>::empty();
    assert(x + seq!['\n'] =~= h);
    assert(lines(h) == seq![strip_cr(h.take(x.len() as int))] + lines(h.skip(x.len() + 1int)));
    assert(x.last() == 's');
    assert(lines(h) =~= seq![x]);
    lemma_vor_zeichen(a, '=', rest);
}

/// The lines of a settings file: the heading, then one line per key.
pub open spec fn datei_zeilen(aus: Seq<Seq<char>>) -> Seq<Seq<char>> {
    seq![kopf().take(61)] + aus.map_values(|a: Seq<char>| aus_zeile(a))
}

proof fn lemma_datei_zeilen(aus: Seq<Seq<char>>)
    requires
        forall|i: int| 0 <= i < aus.len() ==> gueltiger_schluessel(#[trigger] aus[i]),
    ensures
        lines(datei_spec(aus)) == datei_zeilen(aus),
        datei_spec(aus).len() > 0,
        datei_spec(aus).last() == '\n',
    decreases aus.len(),
{
    lemma_kopf_zeichen();
    lemma_aus_zeichen();
    if aus.len() == 0 {
        let h = kopf();
        let x = h.take(61);
        assert(!x.contains('\n')) by {
            if x.contains('\n') {
                let k = choose|k: int| 0 <= k < x.len() && x[k] == '\n';
                assert(x[k] == h[k]);
            }
        }
        lemma_vor_zeichen(x, '\n', Seq::<char>::empty());
        let h2 = x + seq!['\n'] + Seq::<char>::empty();
        assert(h =~= h2);
        assert(lines(h2) == seq![strip_cr(h2.take(x.len() as int))] + lines(h2.skip(x.len() + 1int)));
        assert(x.last() == '“');
        assert(lines(h) =~= seq![x]);
        assert(datei_zeilen(aus) =~= seq![x]);
    } else {
        let u = aus.drop_last();
        assert forall|i: int| 0 <= i < u.len() implies gueltiger_schluessel(#[trigger] u[i]) by {
            assert(u[i] == aus[i]);
        }
        lemma_datei_zeilen(u);
        assert(gueltiger_schluessel(aus[aus.len() - 1]));
        lemma_zeile_des_schluessels(aus.last());
        let z = aus.last() + "=aus\n"@;
        assert(datei_spec(aus) == datei_spec(u) + z) by {
            assert(datei_spec(u) + aus.last() + "=aus\n"@ =~= datei_spec(u) + z);
        }
        lemma_lines_anhaengen(datei_spec(u), z);
        assert(datei_zeilen(aus) =~= datei_zeilen(u) + seq![aus_zeile(aus.last())]);
        assert(z.last() == '\n');
    }
}

/// Writing the settings and reading them back gives the same keys, in the same order, for
/// keys the file can hold.
pub proof fn lemma_datei_rundreise(aus: Seq<Seq<char>>)
    requires
        forall|i: int| 0 <= i < aus.len() ==> gueltiger_schluessel(#[trigger] aus[i]),
    ensures
        conf_aus(lines(datei_spec(aus))) == aus,
    decreases aus.len(),
{
    lemma_datei_zeilen(aus);
    lemma_kopf_zeichen();
    lemma_aus_zeichen();
    if aus.len() == 0 {
        let x = kopf().take(61);
        assert forall|k: int| 0 <= k < x.len() implies #[trigger] x[k] != '=' by {
            assert(x[k] == kopf()[k]);
        }
        lemma_find_at(x, '=', x.len());
        assert(split_once(x, '=') is None);
        assert(seq![x].drop_last() =~= Seq::<Seq<char>>::empty());
        assert(datei_zeilen(aus) =~= seq![x]);
        assert(conf_aus(seq![x]) == conf_aus(Seq::<Seq<char>>::empty()));
    } else {
        let u = aus.drop_last();
        assert forall|i: int| 0 <= i < u.len() implies gueltiger_schluessel(#[trigger] u[i]) by {
            assert(u[i] == aus[i]);
        }
        lemma_datei_rundreise(u);
        lemma_datei_zeilen(u);
        assert(gueltiger_schluessel(aus[aus.len() - 1]));
        lemma_zeile_des_schluessels(aus.last());
        assert(datei_zeilen(aus) =~= datei_zeilen(u).push(aus_zeile(aus.last())));
        let ls = datei_zeilen(aus);
        assert(ls.drop_last() =~= datei_zeilen(u));
        assert(ls.last() == aus_zeile(aus.last()));
        assert(split_once(ls.last(), '=') == Some((aus.last(), "aus"@)));
        assert(conf_aus(ls) == conf_aus(ls.drop_last()).push(trim(aus.last())));
        assert(u.push(aus.last()) =~= aus);
    }
}

/// The switches bind the hooks: with the file the settings write, the hooks play a sound
/// exactly when neither it nor all sounds are switched off.
pub proof fn lemma_schalter_binden(aus: Seq<Seq<char>>, schluessel: Seq<char>)
    requires
        forall|i: int| 0 <= i < aus.len() ==> gueltiger_schluessel(#[trigger] aus[i]),
    ensures
        erlaubt_spec(Some(datei_spec(aus)), schluessel) == (!aus.contains(schluessel)
            && !aus.contains("alle"@)),
{
    lemma_datei_zeilen(aus);
    lemma_kopf_zeichen();
    lemma_aus_zeichen();
    let ls = datei_zeilen(aus);
    let x = kopf().take(61);
    assert forall|k: int| 0 <= k < x.len() implies #[trigger] x[k] != '=' by {
        assert(x[k] == kopf()[k]);
    }
    lemma_find_at(x, '=', x.len());
    assert(ls[0] == x);
    let p = |l: Seq<char>|
        match split_once(l, '=') {
            Some((k, w)) => (trim(k) == "alle"@ || trim(k) == schluessel) && trim(w) == "aus"@,
            None => false,
        };
    assert forall|i: int| 0 <= i < aus.len() implies split_once(ls[i + 1], '=') == Some(
        (aus[i], "aus"@),
    ) by {
        assert(ls[i + 1] == aus_zeile(aus[i]));
        lemma_zeile_des_schluessels(aus[i]);
    }
    if aus.contains(schluessel) || aus.contains("alle"@) {
        let i = choose|i: int| 0 <= i < aus.len() && (aus[i] == schluessel || aus[i] == "alle"@);
        assert(split_once(ls[i + 1], '=') == Some((aus[i], "aus"@)));
        assert(trim(aus[i]) == aus[i]);
        assert(p(ls[i + 1]));
    }
    if exists|i: int| 0 <= i < ls.len() && (match #[trigger] split_once(ls[i], '=') {
        Some((k, w)) => (trim(k) == "alle"@ || trim(k) == schluessel) && trim(w) == "aus"@,
        None => false,
    }) {
        let i = choose|i: int| 0 <= i < ls.len() && (match #[trigger] split_once(ls[i], '=') {
            Some((k, w)) => (trim(k) == "alle"@ || trim(k) == schluessel) && trim(w) == "aus"@,
            None => false,
        });
        assert(i != 0);
        assert(split_once(ls[i], '=') == Some((aus[i - 1], "aus"@)));
        assert(aus.contains(aus[i - 1]));
    }
}

// ------------------------------------------------------------------ hooks

fn enthaelt(s: &str, p: &str) -> (r: bool)
    ensures
        r == has_infix(s@, p@),
{
    crate::text::contains_seq(&chars_of(s), &chars_of(p))
}

/// The sound a line of `udevadm monitor --udev --subsystem-match=usb` stands for.
pub open spec fn usb_klang_spec(z: Seq<char>) -> Option<Seq<char>> {
    if !has_infix(z, "(usb)"@) {
        None
    } else if has_infix(z, " add "@) {
        Some("06-geraet-verbunden"@)
    } else if has_infix(z, " remove "@) {
        Some("07-geraet-getrennt"@)
    } else {
        None
    }
}

/// The sound a line of `udevadm monitor` stands for.
pub fn usb_klang(zeile: &str) -> (r: Option<&'static str>)
    ensures
        match usb_klang_spec(zeile@) {
            Some(k) => r matches Some(x) && x@ == k,
            None => r is None,
        },
{
    if !enthaelt(zeile, "(usb)") {
        None
    } else if enthaelt(zeile, " add ") {
        Some("06-geraet-verbunden")
    } else if enthaelt(zeile, " remove ") {
        Some("07-geraet-getrennt")
    } else {
        None
    }
}

/// The sound a line of the notification bus monitor stands for: a screenshot, or a notice.
pub open spec fn mitteilung_klang_spec(z: Seq<char>) -> Option<Seq<char>> {
    if !(has_infix(z, "\"member\":\"Notify\""@) && has_infix(z, "org.freedesktop.Notifications"@)) {
        None
    } else if has_infix(z, "creenshot"@) || has_infix(z, "ildschirmfoto"@) {
        Some("09-screenshot"@)
    } else {
        Some("03-benachrichtigung"@)
    }
}

/// Whether a line of the bus monitor is a notification sent to the notification server.
pub open spec fn notify_zeile(z: Seq<char>) -> bool {
    has_infix(z, "\"member\":\"Notify\""@) && has_infix(z, "org.freedesktop.Notifications"@)
}

/// Whether a text speaks of a screenshot, in English or German.
pub open spec fn spricht_von_foto(z: Seq<char>) -> bool {
    has_infix(z, "Screenshot"@) || has_infix(z, "screenshot"@) || has_infix(z, "Bildschirmfoto"@)
}

/// A notification that speaks of a screenshot ("Screenshot", "screenshot",
/// "Bildschirmfoto") sounds as the screenshot; every other notification line sounds as a
/// notification, and other lines do not sound.
pub proof fn lemma_foto_klang(z: Seq<char>)
    ensures
        notify_zeile(z) && spricht_von_foto(z) ==> mitteilung_klang_spec(z) == Some("09-screenshot"@),
        notify_zeile(z) ==> mitteilung_klang_spec(z) == Some("09-screenshot"@)
            || mitteilung_klang_spec(z) == Some("03-benachrichtigung"@),
        !notify_zeile(z) ==> mitteilung_klang_spec(z) is None,
{
    reveal_strlit("Screenshot");
    reveal_strlit("screenshot");
    reveal_strlit("creenshot");
    reveal_strlit("Bildschirmfoto");
    reveal_strlit("ildschirmfoto");
    if has_infix(z, "Screenshot"@) {
        lemma_infix_teil(z, "Screenshot"@, 1, 10);
        assert("Screenshot"@.subrange(1, 10) =~= "creenshot"@);
    } else if has_infix(z, "screenshot"@) {
        lemma_infix_teil(z, "screenshot"@, 1, 10);
        assert("screenshot"@.subrange(1, 10) =~= "creenshot"@);
    } else if has_infix(z, "Bildschirmfoto"@) {
        lemma_infix_teil(z, "Bildschirmfoto"@, 1, 14);
        assert("Bildschirmfoto"@.subrange(1, 14) =~= "ildschirmfoto"@);
    }
}

/// The sound a line of the notification bus monitor stands for.
pub fn mitteilung_klang(zeile: &str) -> (r: Option<&'static str>)
    ensures
        match mitteilung_klang_spec(zeile@) {
            Some(k) => r matches Some(x) && x@ == k,
            None => r is None,
        },
        notify_zeile(zeile@) && spricht_von_foto(zeile@) ==> (r matches Some(x) && x@
            == "09-screenshot"@),
{
    proof {
        lemma_foto_klang(zeile@);
    }
    if !(enthaelt(zeile, "\"member\":\"Notify\"") && enthaelt(
        zeile,
        "org.freedesktop.Notifications",
    )) {
        None
    } else if enthaelt(zeile, "creenshot") || enthaelt(zeile, "ildschirmfoto") {
        Some("09-screenshot")
    } else {
        Some("03-benachrichtigung")
    }
}

/// A workspace switch in the compositor's event stream sounds, except the first (the state
/// at connecting); `erster` tells whether none was seen yet.
pub fn arbeitsflaeche_klang(zeile: &str, erster: &mut bool) -> (r: Option<&'static str>)
    ensures
        has_infix(zeile@, "\"WorkspaceActivated\""@) ==> !*final(erster) && (if *old(erster) {
            r is None
        } else {
            r matches Some(x) && x@ == "08-arbeitsflaeche"@
        }),
        !has_infix(zeile@, "\"WorkspaceActivated\""@) ==> *final(erster) == *old(erster) && r is None,
{
    if enthaelt(zeile, "\"WorkspaceActivated\"") {
        if *erster {
            *erster = false;
            None
        } else {
            Some("08-arbeitsflaeche")
        }
    } else {
        None
    }
}

/// A change of the output volume sounds: both readings there and different. The last
/// reading is kept where the new one is missing.
pub fn lautstaerke_klang(zuletzt: &mut Option<String>, jetzt: Option<String>) -> (r: bool)
    ensures
        r == (match (jetzt, *old(zuletzt)) {
            (Some(j), Some(z)) => j@ != z@,
            _ => false,
        }),
        match jetzt {
            Some(j) => *final(zuletzt) matches Some(z) && z@ == j@,
            None => *final(zuletzt) == *old(zuletzt),
        },
{
    let r = match (&jetzt, &*zuletzt) {
        (Some(j), Some(z)) => !same(&chars_of(j.as_str()), &chars_of(z.as_str())),
        _ => false,
    };
    if jetzt.is_some() {
        *zuletzt = jetzt;
    }
    r
}

/// A device that was plugged in sounds as the key stick where the stick just appeared;
/// `schluessel` tracks whether the stick is there.
pub fn stick_klang(klang: &'static str, schluessel: &mut bool, jetzt_da: bool) -> (r: &'static str)
    ensures
        klang@ == "06-geraet-verbunden"@ ==> *final(schluessel) == jetzt_da && r@ == (if jetzt_da
            && !*old(schluessel) {
            "13-schluessel-erkannt"@
        } else {
            klang@
        }),
        klang@ == "07-geraet-getrennt"@ ==> *final(schluessel) == jetzt_da && r@ == klang@,
        klang@ != "06-geraet-verbunden"@ && klang@ != "07-geraet-getrennt"@ ==> *final(schluessel)
            == *old(schluessel) && r@ == klang@,
{
    let k = chars_of(klang);
    proof {
        reveal_strlit("06-geraet-verbunden");
        reveal_strlit("07-geraet-getrennt");
    }
    if same_str(&k, "06-geraet-verbunden") {
        let neu = jetzt_da && !*schluessel;
        *schluessel = jetzt_da;
        if neu {
            "13-schluessel-erkannt"
        } else {
            klang
        }
    } else if same_str(&k, "07-geraet-getrennt") {
        *schluessel = jetzt_da;
        klang
    } else {
        klang
    }
}

/// How long a sound stays quiet after it played, in milliseconds.
pub open spec fn sperre_spec(klang: Seq<char>) -> u64 {
    if klang == "06-geraet-verbunden"@ || klang == "07-geraet-getrennt"@ {
        1200
    } else if klang == "13-schluessel-erkannt"@ {
        3000
    } else if klang == "05-lautstaerke"@ {
        200
    } else {
        400
    }
}

/// The time between two points, none where the second is earlier.
pub open spec fn abstand(vorher: u64, jetzt: u64) -> int {
    if jetzt >= vorher {
        jetzt - vorher
    } else {
        0
    }
}

/// When each sound last played.
pub struct Entpreller {
    pub zuletzt: Vec<(String, u64)>,
}

/// The last time a sound played, among the records.
pub open spec fn zuletzt_spec(s: Seq<(Seq<char>, u64)>, klang: Seq<char>) -> Option<u64>
    decreases s.len(),
{
    if s.len() == 0 {
        None
    } else if s.last().0 == klang {
        Some(s.last().1)
    } else {
        zuletzt_spec(s.drop_last(), klang)
    }
}

/// The views of the records.
pub open spec fn eintraege(v: Seq<(String, u64)>) -> Seq<(Seq<char>, u64)> {
    v.map_values(|p: (String, u64)| (p.0@, p.1))
}

/// Whether a sound may play at `jetzt`, by the records of when sounds last played.
pub open spec fn darf_spec(z: Seq<(Seq<char>, u64)>, klang: Seq<char>, jetzt: u64) -> bool {
    match zuletzt_spec(z, klang) {
        Some(v) => abstand(v, jetzt) >= sperre_spec(klang),
        None => true,
    }
}

/// The records after a run of events (a sound and its time each), from the records `z`:
/// each sound that may play is recorded.
pub open spec fn lauf(z: Seq<(Seq<char>, u64)>, ev: Seq<(Seq<char>, u64)>) -> Seq<(Seq<char>, u64)>
    decreases ev.len(),
{
    if ev.len() == 0 {
        z
    } else {
        let v = lauf(z, ev.drop_last());
        if darf_spec(v, ev.last().0, ev.last().1) {
            v.push(ev.last())
        } else {
            v
        }
    }
}

/// Whether event `i` of a run plays.
pub open spec fn spielt(z: Seq<(Seq<char>, u64)>, ev: Seq<(Seq<char>, u64)>, i: int) -> bool {
    darf_spec(lauf(z, ev.take(i)), ev[i].0, ev[i].1)
}

/// The times of a run never go back.
pub open spec fn zeiten_steigen(ev: Seq<(Seq<char>, u64)>) -> bool {
    forall|a: int, b: int| 0 <= a <= b < ev.len() ==> #[trigger] ev[a].1 <= #[trigger] ev[b].1
}

/// After event `i` played, the sound's last record lies between its time and that of the
/// latest event.
proof fn lemma_lauf_zuletzt(z: Seq<(Seq<char>, u64)>, ev: Seq<(Seq<char>, u64)>, i: int, m: int)
    requires
        0 <= i < m <= ev.len(),
        spielt(z, ev, i),
        zeiten_steigen(ev),
    ensures
        zuletzt_spec(lauf(z, ev.take(m)), ev[i].0) matches Some(v) && ev[i].1 <= v <= ev[m - 1].1,
    decreases m,
{
    let k = ev[i].0;
    assert(ev.take(m).drop_last() =~= ev.take(m - 1));
    assert(ev.take(m).last() == ev[m - 1]);
    let v = lauf(z, ev.take(m - 1));
    assert(lauf(z, ev.take(m)) == if darf_spec(v, ev[m - 1].0, ev[m - 1].1) {
        v.push(ev[m - 1])
    } else {
        v
    });
    assert(v.push(ev[m - 1]).drop_last() =~= v);
    assert(ev[i].1 <= ev[m - 1].1);
    if m > i + 1 {
        lemma_lauf_zuletzt(z, ev, i, m - 1);
        assert(ev[m - 2].1 <= ev[m - 1].1);
    }
}

/// Debouncing over a run of events whose times never go back: two plays of one sound lie at
/// least its quiet time apart.
pub proof fn lemma_entprellt(z: Seq<(Seq<char>, u64)>, ev: Seq<(Seq<char>, u64)>, i: int, j: int)
    requires
        0 <= i < j < ev.len(),
        ev[i].0 == ev[j].0,
        zeiten_steigen(ev),
        spielt(z, ev, i),
        spielt(z, ev, j),
    ensures
        ev[j].1 - ev[i].1 >= sperre_spec(ev[i].0),
{
    lemma_lauf_zuletzt(z, ev, i, j);
    assert(ev[j - 1].1 <= ev[j].1);
}

impl Entpreller {
    pub fn neu() -> (r: Entpreller)
        ensures
            r.zuletzt@.len() == 0,
    {
        Entpreller { zuletzt: Vec::new() }
    }

    /// Whether a sound may play at `jetzt` (in milliseconds): not within its quiet time after
    /// it last played. A sound that plays is recorded.
    pub fn darf(&mut self, klang: &str, jetzt: u64) -> (r: bool)
        ensures
            r == darf_spec(eintraege(old(self).zuletzt@), klang@, jetzt),
            r ==> eintraege(final(self).zuletzt@) == eintraege(old(self).zuletzt@).push((klang@, jetzt)),
            r ==> zuletzt_spec(eintraege(final(self).zuletzt@), klang@) == Some(jetzt),
            !r ==> eintraege(final(self).zuletzt@) == eintraege(old(self).zuletzt@),
            forall|k: Seq<char>|
                k != klang@ ==> zuletzt_spec(eintraege(final(self).zuletzt@), k) == zuletzt_spec(
                    eintraege(old(self).zuletzt@),
                    k,
                ),
    {
        let k = chars_of(klang);
        let ghost s = eintraege(self.zuletzt@);
        let mut i = self.zuletzt.len();
        let mut vorher: Option<u64> = None;
        assert(s.take(i as int) =~= s);
        while i > 0 && vorher.is_none()
            invariant
                i <= self.zuletzt@.len(),
                s == eintraege(self.zuletzt@),
                k@ == klang@,
                vorher is None ==> zuletzt_spec(s.take(i as int), klang@) == zuletzt_spec(s, klang@),
                vorher is Some ==> vorher == zuletzt_spec(s, klang@),
            decreases i + (if vorher is None {
                1int
            } else {
                0int
            }),
        {
            assert(s.take(i as int).drop_last() =~= s.take(i - 1));
            assert(s.take(i as int).last() == s[i - 1]);
            assert(s[i - 1] == (self.zuletzt@[i - 1].0@, self.zuletzt@[i - 1].1));
            if same(&chars_of(self.zuletzt[i - 1].0.as_str()), &k) {
                vorher = Some(self.zuletzt[i - 1].1);
            } else {
                i = i - 1;
            }
        }
        if vorher.is_none() {
            assert(s.take(0) =~= Seq::<(Seq<char>, u64)>::empty());
        }
        let sperre: u64 = if same_str(&k, "06-geraet-verbunden") || same_str(&k, "07-geraet-getrennt") {
            1200
        } else if same_str(&k, "13-schluessel-erkannt") {
            3000
        } else if same_str(&k, "05-lautstaerke") {
            200
        } else {
            400
        };
        if let Some(v) = vorher {
            let d: u64 = if jetzt >= v {
                jetzt - v
            } else {
                0
            };
            if d < sperre {
                return false;
            }
        }
        let ghost alt = self.zuletzt@;
        self.zuletzt.push((string_of(&k), jetzt));
        assert(eintraege(self.zuletzt@) =~= eintraege(alt).push((klang@, jetzt)));
        assert(eintraege(self.zuletzt@).drop_last() =~= eintraege(alt));
        true
    }
}

// ------------------------------------------------------------------ level

/// The signed value of two little-endian bytes.
pub open spec fn s16(lo: u8, hi: u8) -> int {
    let u = hi as int * 256 + lo as int;
    if u >= 32768 {
        u - 65536
    } else {
        u
    }
}

/// The largest magnitude among the samples of the first `n` byte pairs.
pub open spec fn spitze_spec(b: Seq<u8>, n: nat) -> int
    decreases n,
{
    if n == 0 {
        0
    } else {
        let v = s16(b[2 * n - 2], b[2 * n - 1]);
        let a = if v < 0 {
            -v
        } else {
            v
        };
        let vorher = spitze_spec(b, (n - 1) as nat);
        if a > vorher {
            a
        } else {
            vorher
        }
    }
}

proof fn lemma_spitze_schranke(b: Seq<u8>, n: nat)
    requires
        2 * n <= b.len(),
    ensures
        0 <= spitze_spec(b, n) <= 32768,
    decreases n,
{
    if n > 0 {
        lemma_spitze_schranke(b, (n - 1) as nat);
    }
}

/// The microphone level of a buffer of signed 16-bit samples: the peak magnitude as a
/// share of 100 of the largest sample (a trailing odd byte is not a sample).
pub fn pegel(puffer: &Vec<u8>) -> (r: u32)
    ensures
        r == spitze_spec(puffer@, puffer@.len() / 2) * 100 / 32767,
{
    let len = puffer.len();
    let n = len / 2;
    let mut spitze: i32 = 0;
    let mut i: usize = 0;
    while i < n
        invariant
            len == puffer@.len(),
            n == len / 2,
            i <= n,
            spitze == spitze_spec(puffer@, i as nat),
            0 <= spitze <= 32768,
        decreases n - i,
    {
        assert(2 * i + 1 < len) by (nonlinear_arith)
            requires
                i < n,
                n == len / 2,
        ;
        let lo = puffer[2 * i];
        let hi = puffer[2 * i + 1];
        let u: i32 = hi as i32 * 256 + lo as i32;
        let wert: i32 = if u >= 32768 {
            u - 65536
        } else {
            u
        };
        let a: i32 = if wert < 0 {
            -wert
        } else {
            wert
        };
        assert(2 * (i + 1) - 2 == 2 * i && 2 * (i + 1) - 1 == 2 * i + 1);
        if a > spitze {
            spitze = a;
        }
        i = i + 1;
    }
    assert(0 <= spitze * 100 <= 3276800) by (nonlinear_arith)
        requires
            0 <= spitze <= 32768,
    ;
    (spitze * 100 / 32767) as u32
}

// ---------------------------------------------------------------- devices

/// A sound-server endpoint from `wpctl status`.
pub struct Geraet {
    pub id: u32,
    pub name: String,
    /// The default device.
    pub standard: bool,
}

/// (id, name, standard)
pub type GeraetSicht = (u32, Seq<char>, bool);

/// The views of devices.
pub open spec fn geraet_sichten(v: Seq<Geraet>) -> Seq<GeraetSicht> {
    v.map_values(|g: Geraet| (g.id, g.name@, g.standard))
}

/// The tree drawing of `wpctl status` before an entry.
pub open spec fn baumzeichen(c: char) -> bool {
    c == ' ' || c == '│' || c == '├' || c == '└' || c == '─'
}

/// `s` without the leading characters of a kind (what `trim_start_matches` yields).
pub open spec fn ohne_vorn(s: Seq<char>, stern: bool) -> Seq<char>
    decreases s.len(),
{
    if s.len() > 0 && (if stern {
        s[0] == '*'
    } else {
        baumzeichen(s[0])
    }) {
        ohne_vorn(s.drop_first(), stern)
    } else {
        s
    }
}

/// Where `p` first occurs in `s`.
pub open spec fn erste_stelle(s: Seq<char>, p: Seq<char>) -> Option<nat>
    decreases s.len(),
{
    if p.len() > s.len() {
        None
    } else if s.take(p.len() as int) == p {
        Some(0)
    } else if s.len() == 0 {
        None
    } else {
        match erste_stelle(s.drop_first(), p) {
            Some(i) => Some(i + 1),
            None => None,
        }
    }
}

/// `s` up to the first `p` (the first piece of `split(p)`).
pub open spec fn bis(s: Seq<char>, p: Seq<char>) -> Seq<char> {
    match erste_stelle(s, p) {
        Some(i) => s.take(i as int),
        None => s,
    }
}

/// The device an entry line names: after the tree drawing an optional `*` (the default),
/// then `ID. Name [vol: …]`.
pub open spec fn geraet_aus_zeile(z: Seq<char>) -> Option<GeraetSicht> {
    let kern = ohne_vorn(z, false);
    let standard = kern.len() > 0 && kern[0] == '*';
    let kern2 = crate::text::trim_start(ohne_vorn(kern, true));
    match split_once(kern2, '.') {
        Some((id_teil, rest)) => match crate::text::parse_unsigned(trim(id_teil), u32::MAX as nat) {
            Some(id) => {
                let name = trim(bis(rest, "[vol:"@));
                if name.len() == 0 {
                    None
                } else {
                    Some((id as u32, name, standard))
                }
            },
            None => None,
        },
        None => None,
    }
}

/// Which section of `wpctl status` a line is in.
#[derive(Debug, Clone, Copy, PartialEq, Eq, Structural)]
pub enum Abschnitt {
    Keiner,
    Sinks,
    Quellen,
}

/// The state while `wpctl status` is read: section, whether the video part was reached, the
/// outputs and the inputs found.
pub type WpStand = (Abschnitt, bool, Seq<GeraetSicht>, Seq<GeraetSicht>);

/// One line of `wpctl status` read.
pub open spec fn wp_schritt(z: WpStand, l: Seq<char>) -> WpStand {
    if z.1 {
        z
    } else if has_infix(l, "Sinks:"@) {
        (Abschnitt::Sinks, false, z.2, z.3)
    } else if has_infix(l, "Sources:"@) {
        (Abschnitt::Quellen, false, z.2, z.3)
    } else if trim(l) == "Video"@ {
        (z.0, true, z.2, z.3)
    } else if has_infix(l, "Filters:"@) || has_infix(l, "Streams:"@) {
        (Abschnitt::Keiner, false, z.2, z.3)
    } else if z.0 == Abschnitt::Keiner {
        z
    } else {
        match geraet_aus_zeile(l) {
            Some(g) => if z.0 == Abschnitt::Sinks {
                (z.0, false, z.2.push(g), z.3)
            } else {
                (z.0, false, z.2, z.3.push(g))
            },
            None => z,
        }
    }
}

/// The state after the lines.
pub open spec fn wp_lauf(ls: Seq<Seq<char>>) -> WpStand
    decreases ls.len(),
{
    if ls.len() == 0 {
        (Abschnitt::Keiner, false, Seq::empty(), Seq::empty())
    } else {
        wp_schritt(wp_lauf(ls.drop_last()), ls.last())
    }
}

fn vorn_weg(c: char, stern: bool) -> (r: bool)
    ensures
        r == (if stern {
            c == '*'
        } else {
            baumzeichen(c)
        }),
{
    if stern {
        c == '*'
    } else {
        c == ' ' || c == '│' || c == '├' || c == '└' || c == '─'
    }
}

fn ohne_vorn_exec(s: &Vec<char>, stern: bool) -> (r: Vec<char>)
    ensures
        r@ == ohne_vorn(s@, stern),
{
    let mut a: usize = 0;
    assert(s@.skip(0) =~= s@);
    while a < s.len() && vorn_weg(s[a], stern)
        invariant
            a <= s@.len(),
            ohne_vorn(s@.skip(a as int), stern) == ohne_vorn(s@, stern),
        decreases s.len() - a,
    {
        assert(s@.skip(a as int).drop_first() =~= s@.skip(a + 1));
        a = a + 1;
    }
    let r = slice(s, a, s.len());
    assert(r@ =~= s@.skip(a as int));
    r
}

fn erste_stelle_exec(s: &Vec<char>, p: &Vec<char>) -> (r: Option<usize>)
    ensures
        match erste_stelle(s@, p@) {
            Some(i) => r matches Some(j) && j as nat == i,
            None => r is None,
        },
        match r {
            Some(i) => i + p@.len() <= s@.len(),
            None => true,
        },
{
    let mut k: usize = 0;
    assert(s@.skip(0) =~= s@);
    while k <= s.len()
        invariant
            k <= s@.len(),
            k <= s@.len() ==> match erste_stelle(s@.skip(k as int), p@) {
                Some(i) => erste_stelle(s@, p@) == Some((i + k) as nat),
                None => erste_stelle(s@, p@) is None,
            },
        decreases s.len() + 1 - k,
    {
        let ghost t = s@.skip(k as int);
        if p.len() > s.len() - k {
            return None;
        }
        let stueck = slice(s, k, k + p.len());
        assert(stueck@ =~= t.take(p@.len() as int));
        if same(&stueck, p) {
            return Some(k);
        }
        if k == s.len() {
            return None;
        }
        assert(t.drop_first() =~= s@.skip(k + 1));
        k = k + 1;
    }
    None
}

fn geraet_lesen(z: &Vec<char>) -> (r: Option<Geraet>)
    ensures
        match geraet_aus_zeile(z@) {
            Some(g) => r matches Some(x) && (x.id, x.name@, x.standard) == g,
            None => r is None,
        },
{
    let kern = ohne_vorn_exec(z, false);
    let standard = kern.len() > 0 && kern[0] == '*';
    let kern2 = crate::text::trim_start_chars(&ohne_vorn_exec(&kern, true));
    match split_once_at(&kern2, '.') {
        Some((id_teil, rest)) => match crate::text::parse_u32(&trim_chars(&id_teil)) {
            Some(id) => {
                let vol = chars_of("[vol:");
                let vor = match erste_stelle_exec(&rest, &vol) {
                    Some(i) => slice(&rest, 0, i),
                    None => slice(&rest, 0, rest.len()),
                };
                proof {
                    if let Some(i) = erste_stelle(rest@, vol@) {
                        assert(vor@ =~= rest@.take(i as int));
                    } else {
                        assert(vor@ =~= rest@);
                    }
                }
                let name = trim_chars(&vor);
                if name.len() == 0 {
                    None
                } else {
                    Some(Geraet { id, name: string_of(&name), standard })
                }
            },
            None => None,
        },
        None => None,
    }
}

/// The outputs and inputs that `wpctl status` lists, up to the video part.
pub fn geraete_lesen(status: &str) -> (r: (Vec<Geraet>, Vec<Geraet>))
    ensures
        geraet_sichten(r.0@) == wp_lauf(lines(status@)).2,
        geraet_sichten(r.1@) == wp_lauf(lines(status@)).3,
{
    let ls = lines_of(&chars_of(status));
    let mut abschnitt = Abschnitt::Keiner;
    let mut fertig = false;
    let mut sinks: Vec<Geraet> = Vec::new();
    let mut quellen: Vec<Geraet> = Vec::new();
    let mut i: usize = 0;
    assert(views(ls@).take(0) =~= Seq::<Seq<char>>::empty());
    while i < ls.len()
        invariant
            i <= ls@.len(),
            views(ls@) == lines(status@),
            (abschnitt, fertig, geraet_sichten(sinks@), geraet_sichten(quellen@)) == wp_lauf(
                views(ls@).take(i as int),
            ),
        decreases ls.len() - i,
    {
        assert(views(ls@).take(i + 1).drop_last() =~= views(ls@).take(i as int));
        assert(views(ls@).take(i + 1).last() == ls@[i as int]@);
        let l = &ls[i];
        if !fertig {
            if crate::text::contains_seq(l, &chars_of("Sinks:")) {
                abschnitt = Abschnitt::Sinks;
            } else if crate::text::contains_seq(l, &chars_of("Sources:")) {
                abschnitt = Abschnitt::Quellen;
            } else if same_str(&trim_chars(l), "Video") {
                fertig = true;
            } else if crate::text::contains_seq(l, &chars_of("Filters:")) || crate::text::contains_seq(
                l,
                &chars_of("Streams:"),
            ) {
                abschnitt = Abschnitt::Keiner;
            } else if abschnitt != Abschnitt::Keiner {
                if let Some(g) = geraet_lesen(l) {
                    let ghost gs = (g.id, g.name@, g.standard);
                    if abschnitt == Abschnitt::Sinks {
                        let ghost vorher = sinks@;
                        sinks.push(g);
                        assert(geraet_sichten(sinks@) =~= geraet_sichten(vorher).push(gs));
                    } else {
                        let ghost vorher = quellen@;
                        quellen.push(g);
                        assert(geraet_sichten(quellen@) =~= geraet_sichten(vorher).push(gs));
                    }
                }
            }
        }
        i = i + 1;
    }
    assert(views(ls@).take(ls@.len() as int) =~= views(ls@));
    (sinks, quellen)
}

/// The default device after choosing one: exactly the devices of that id.
pub fn standard_setzen(geraete: &mut Vec<Geraet>, id: u32)
    ensures
        final(geraete)@.len() == old(geraete)@.len(),
        forall|i: int|
            0 <= i < final(geraete)@.len() ==> (#[trigger] final(geraete)@[i]).id == old(geraete)@[i].id
                && final(geraete)@[i].name@ == old(geraete)@[i].name@ && final(geraete)@[i].standard
                == (old(geraete)@[i].id == id),
{
    let mut i: usize = 0;
    while i < geraete.len()
        invariant
            i <= geraete@.len(),
            geraete@.len() == old(geraete)@.len(),
            forall|k: int|
                0 <= k < geraete@.len() ==> (#[trigger] geraete@[k]).id == old(geraete)@[k].id
                    && geraete@[k].name@ == old(geraete)@[k].name@,
            forall|k: int| 0 <= k < i ==> (#[trigger] geraete@[k]).standard == (old(geraete)@[k].id == id),
            forall|k: int| i <= k < geraete@.len() ==> (#[trigger] geraete@[k]).standard == old(geraete)@[k].standard,
        decreases geraete.len() - i,
    {
        let g = Geraet { id: geraete[i].id, name: geraete[i].name.clone(), standard: geraete[i].id == id };
        geraete.set(i, g);
        i = i + 1;
    }
}

/// The line under the panel: the sound that plays, or the hint.
pub fn fusstext(spielt: Option<&str>) -> (r: String)
    ensures
        r@ == match spielt {
            Some(n) => seq!['▶', ' '] + n@ + seq![' ', '…'],
            None => "▶ spielt eine Hörprobe"@,
        },
{
    match spielt {
        Some(n) => {
            let mut a: Vec<char> = Vec::new();
            a.push('▶');
            a.push(' ');
            let mut e: Vec<char> = Vec::new();
            e.push(' ');
            e.push('…');
            assert(a@ =~= seq!['▶', ' '] && e@ =~= seq![' ', '…']);
            string_of(&concat(&concat(&a, &chars_of(n)), &e))
        },
        None => string_of(&chars_of("▶ spielt eine Hörprobe")),
    }
}

// ------------------------------------------------------------------- WAV

/// The little-endian bytes of a 32-bit number.
pub open spec fn le32(x: u32) -> Seq<u8> {
    seq![(x % 256) as u8, (x / 256 % 256) as u8, (x / 65536 % 256) as u8, (x / 16777216) as u8]
}

/// The little-endian bytes of a 16-bit number.
pub open spec fn le16(x: u16) -> Seq<u8> {
    seq![(x % 256) as u8, (x / 256) as u8]
}

/// The 44-byte header of a 16-bit PCM WAV file with this rate, these channels and these many
/// bytes of samples.
pub open spec fn wav_kopf_spec(rate: u32, kanaele: u16, daten: u32) -> Seq<u8> {
    seq![0x52u8, 0x49, 0x46, 0x46] + le32((36 + daten) as u32) + seq![
        0x57u8,
        0x41,
        0x56,
        0x45,
        0x66,
        0x6d,
        0x74,
        0x20,
    ] + le32(16) + le16(1) + le16(kanaele) + le32(rate) + le32((rate * kanaele * 2) as u32) + le16(
        (kanaele * 2) as u16,
    ) + le16(16) + seq![0x64u8, 0x61, 0x74, 0x61] + le32(daten)
}

/// The little-endian number in the four bytes from `i` on.
pub open spec fn lies32(b: Seq<u8>, i: int) -> int {
    b[i] + 256 * b[i + 1] + 65536 * b[i + 2] + 16777216 * b[i + 3]
}

/// The little-endian number in the two bytes from `i` on.
pub open spec fn lies16(b: Seq<u8>, i: int) -> int {
    b[i] + 256 * b[i + 1]
}

proof fn lemma_le32_lesen(x: u32)
    ensures
        le32(x).len() == 4,
        lies32(le32(x), 0) == x,
{
    let a = x % 256;
    let b = x / 256 % 256;
    let c = x / 65536 % 256;
    let d = x / 16777216;
    assert(a + 256 * b + 65536 * c + 16777216 * d == x) by (bit_vector)
        requires
            a == x % 256,
            b == x / 256 % 256,
            c == x / 65536 % 256,
            d == x / 16777216,
    ;
    assert(d < 256) by (bit_vector)
        requires
            d == x / 16777216,
    ;
}

proof fn lemma_le16_lesen(x: u16)
    ensures
        le16(x).len() == 2,
        lies16(le16(x), 0) == x,
{
    let a = x % 256;
    let b = x / 256;
    assert(a + 256 * b == x) by (bit_vector)
        requires
            a == x % 256,
            b == x / 256,
    ;
    assert(b < 256) by (bit_vector)
        requires
            b == x / 256,
    ;
}

/// The header of a WAV file says what the file is: `RIFF`, `WAVE`, `fmt ` and `data` at
/// their places; the RIFF size counts the whole file but its first eight bytes, so that
/// with the data size it makes up the 44 header bytes and the samples; the format is PCM
/// with these channels and this rate, 16 bits a sample, the byte rate and block size that
/// follow from them; and the data size is the number of sample bytes.
pub proof fn lemma_wav_kopf_felder(rate: u32, kanaele: u16, daten: u32)
    requires
        36 + daten <= u32::MAX,
        rate * kanaele * 2 <= u32::MAX,
        kanaele * 2 <= u16::MAX,
    ensures
        ({
            let h = wav_kopf_spec(rate, kanaele, daten);
            &&& h.len() == 44
            &&& h.subrange(0, 4) == seq![0x52u8, 0x49, 0x46, 0x46]
            &&& h.subrange(8, 16) == seq![0x57u8, 0x41, 0x56, 0x45, 0x66, 0x6d, 0x74, 0x20]
            &&& h.subrange(36, 40) == seq![0x64u8, 0x61, 0x74, 0x61]
            &&& lies32(h, 4) == 36 + daten
            &&& lies32(h, 16) == 16
            &&& lies16(h, 20) == 1
            &&& lies16(h, 22) == kanaele
            &&& lies32(h, 24) == rate
            &&& lies32(h, 28) == rate * kanaele * 2
            &&& lies16(h, 32) == kanaele * 2
            &&& lies16(h, 34) == 16
            &&& lies32(h, 40) == daten
            &&& lies32(h, 4) + 8 == 44 + lies32(h, 40)
        }),
{
    let h = wav_kopf_spec(rate, kanaele, daten);
    let groesse = (36 + daten) as u32;
    let byterate = (rate * kanaele * 2) as u32;
    let block = (kanaele * 2) as u16;
    lemma_le32_lesen(groesse);
    lemma_le32_lesen(16);
    lemma_le16_lesen(1);
    lemma_le16_lesen(kanaele);
    lemma_le32_lesen(rate);
    lemma_le32_lesen(byterate);
    lemma_le16_lesen(block);
    lemma_le16_lesen(16);
    lemma_le32_lesen(daten);
    let teile = seq![0x52u8, 0x49, 0x46, 0x46] + le32(groesse) + seq![
        0x57u8,
        0x41,
        0x56,
        0x45,
        0x66,
        0x6d,
        0x74,
        0x20,
    ] + le32(16) + le16(1) + le16(kanaele) + le32(rate) + le32(byterate) + le16(block) + le16(16)
        + seq![0x64u8, 0x61, 0x74, 0x61] + le32(daten);
    assert(h == teile);
    assert(h.subrange(0, 4) =~= seq![0x52u8, 0x49, 0x46, 0x46]);
    assert(h.subrange(8, 16) =~= seq![0x57u8, 0x41, 0x56, 0x45, 0x66, 0x6d, 0x74, 0x20]);
    assert(h.subrange(36, 40) =~= seq![0x64u8, 0x61, 0x74, 0x61]);
    assert(h.subrange(4, 8) =~= le32(groesse));
    assert(h.subrange(16, 20) =~= le32(16));
    assert(h.subrange(20, 22) =~= le16(1));
    assert(h.subrange(22, 24) =~= le16(kanaele));
    assert(h.subrange(24, 28) =~= le32(rate));
    assert(h.subrange(28, 32) =~= le32(byterate));
    assert(h.subrange(32, 34) =~= le16(block));
    assert(h.subrange(34, 36) =~= le16(16));
    assert(h.subrange(40, 44) =~= le32(daten));
}

fn le32_push(v: &mut Vec<u8>, x: u32)
    ensures
        final(v)@ == old(v)@ + le32(x),
{
    v.push((x % 256) as u8);
    v.push((x / 256 % 256) as u8);
    v.push((x / 65536 % 256) as u8);
    v.push((x / 16777216) as u8);
    assert(final(v)@ =~= old(v)@ + le32(x)) by {
        assert(v@ =~= old(v)@ + le32(x));
    }
}

fn le16_push(v: &mut Vec<u8>, x: u16)
    ensures
        final(v)@ == old(v)@ + le16(x),
{
    v.push((x % 256) as u8);
    v.push((x / 256) as u8);
    assert(v@ =~= old(v)@ + le16(x));
}

/// The header of a 16-bit PCM WAV file.
pub fn wav_kopf(rate: u32, kanaele: u16, daten: u32) -> (r: Vec<u8>)
    requires
        36 + daten <= u32::MAX,
        rate * kanaele * 2 <= u32::MAX,
        kanaele * 2 <= u16::MAX,
    ensures
        r@ == wav_kopf_spec(rate, kanaele, daten),
        r@.len() == 44,
{
    let mut v: Vec<u8> = Vec::new();
    v.push(0x52);
    v.push(0x49);
    v.push(0x46);
    v.push(0x46);
    le32_push(&mut v, 36 + daten);
    v.push(0x57);
    v.push(0x41);
    v.push(0x56);
    v.push(0x45);
    v.push(0x66);
    v.push(0x6d);
    v.push(0x74);
    v.push(0x20);
    le32_push(&mut v, 16);
    le16_push(&mut v, 1);
    le16_push(&mut v, kanaele);
    le32_push(&mut v, rate);
    assert(rate as int * kanaele as int * 2 <= u32::MAX);
    let br: u32 = rate * (kanaele as u32) * 2;
    le32_push(&mut v, br);
    le16_push(&mut v, kanaele * 2);
    le16_push(&mut v, 16);
    v.push(0x64);
    v.push(0x61);
    v.push(0x74);
    v.push(0x61);
    le32_push(&mut v, daten);
    assert(v@ =~= wav_kopf_spec(rate, kanaele, daten));
    v
}

} // verus!
