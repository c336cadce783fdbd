//! The authenticator's accounts on disk: reading and writing `codes.conf`, checking an
//! input before it is read, and the decisions of the authenticator window.

use vstd::prelude::*;
use crate::sha1::hashable_len;
use crate::text::{
    decimal_value, digit_char, find, is_digit, is_ws, lemma_find_at, lemma_find_bound,
    lemma_lines_anhaengen, lemma_ohne_in_summe, lemma_ohne_zeichen, lemma_vor_zeichen, lemma_zahl_rund,
    sign_stripped, strip_cr, chars_of, concat, decimal, decimal_chars, lines, lines_of, parse_u32, parse_u64,
    parse_unsigned, same_str, split, split_at_char, split_once, split_once_at, string_of,
    strip_prefix, strip_prefix_chars, trim, trim_chars, trim_start, trim_str, views,
};
use crate::base32::base32_decode_spec;
use crate::totp::{
    aus_eingabe_ok, aus_eingabe_spec, hex_pair, hex_pair_exec, konto_spec, label_and_query, pct_ok,
    totp_spec, without_ws, Konto,
};
use vstd::utf8::is_continuation_byte;

verus! {

// ------------------------------------------------------------ input check

fn pct_pruefen(s: &str) -> (r: bool)
    ensures
        r == pct_ok(vstd::utf8::encode_utf8(s@)),
{
    let b = s.as_bytes();
    let ghost bs = b@;
    let mut i: usize = 0;
    assert(bs.skip(0) =~= bs);
    while i < b.len()
        invariant
            bs == b@,
            bs == vstd::utf8::encode_utf8(s@),
            i <= b@.len(),
            pct_ok(bs.skip(i as int)) == pct_ok(bs),
        decreases b.len() - i,
    {
        let ghost t = bs.skip(i as int);
        if b[i] == 0x25 && b.len() - i > 2 {
            if b.len() - i > 3 && 0x80 <= b[i + 3] && b[i + 3] <= 0xbf {
                assert(is_continuation_byte(t[3]));
                return false;
            }
            if hex_pair_exec(b[i + 1], b[i + 2]).is_some() {
                assert(t.skip(3) =~= bs.skip(i + 3));
                i = i + 3;
                continue;
            }
        }
        assert(t.skip(1) =~= bs.skip(i + 1));
        i = i + 1;
    }
    true
}

/// Whether an input can be read without the percent decoding cutting a character apart
/// (`Konto::aus_eingabe` needs this).
pub fn eingabe_lesbar(text: &str) -> (r: bool)
    ensures
        r == aus_eingabe_ok(text@),
{
    let t = trim_str(text);
    let prefix = chars_of("otpauth://totp/");
    match strip_prefix_chars(&t, &prefix) {
        Some(rest) => {
            let ghost rest_v = rest@;
            let (label_raw, query) = match split_once_at(&rest, '?') {
                Some(lq) => lq,
                None => (rest, Vec::new()),
            };
            assert((label_raw@, query@) == label_and_query(rest_v));
            if !pct_pruefen(string_of(&label_raw).as_str()) {
                return false;
            }
            let pairs = split_at_char(&query, '&');
            let ghost sp = split(query@, '&');
            let mut i: usize = 0;
            while i < pairs.len()
                invariant
                    i <= pairs@.len(),
                    views(pairs@) == sp,
                    sp == split(query@, '&'),
                    strip_prefix(trim(text@), "otpauth://totp/"@) == Some(rest_v),
                    (label_raw@, query@) == label_and_query(rest_v),
                    pct_ok(vstd::utf8::encode_utf8(label_raw@)),
                    forall|k: int|
                        0 <= k < i ==> match #[trigger] split_once(sp[k], '=') {
                            Some((key, v)) => key == "issuer"@ ==> pct_ok(
                                vstd::utf8::encode_utf8(v),
                            ),
                            None => true,
                        },
                decreases pairs.len() - i,
            {
                assert(sp[i as int] == pairs@[i as int]@);
                if let Some((key, v)) = split_once_at(&pairs[i], '=') {
                    if same_str(&key, "issuer") && !pct_pruefen(string_of(&v).as_str()) {
                        return false;
                    }
                }
                i = i + 1;
            }
            true
        },
        None => true,
    }
}

// ---------------------------------------------------------------- the file

/// The first line of the file.
pub open spec fn kopfzeile() -> Seq<char> {
    "# Matrix Codes — 2FA-Geheimnisse (verwaltet von der App)\n"@
}

/// The line of one account: name, issuer, secret, digits and period, tab-separated.
pub open spec fn konto_zeile(k: (Seq<char>, Seq<char>, Seq<char>, Seq<u8>, u32, u64)) -> Seq<char> {
    k.0 + seq!['\t'] + k.1 + seq!['\t'] + k.2 + seq!['\t'] + decimal(k.4 as nat) + seq!['\t']
        + decimal(k.5 as nat) + seq!['\n']
}

/// The text of the file for some accounts.
pub open spec fn datei_spec(ks: Seq<(Seq<char>, Seq<char>, Seq<char>, Seq<u8>, u32, u64)>) -> Seq<char>
    decreases ks.len(),
{
    if ks.len() == 0 {
        kopfzeile()
    } else {
        datei_spec(ks.drop_last()) + konto_zeile(ks.last())
    }
}

/// The views of accounts.
pub open spec fn konto_sichten(v: Seq<Konto>) -> Seq<(Seq<char>, Seq<char>, Seq<char>, Seq<u8>, u32, u64)> {
    v.map_values(|k: Konto| k@)
}

/// The text of the file for some accounts.
pub fn datei_text(konten: &Vec<Konto>) -> (r: String)
    ensures
        r@ == datei_spec(konto_sichten(konten@)),
{
    let ghost ks = konto_sichten(konten@);
    let mut t = chars_of("# Matrix Codes — 2FA-Geheimnisse (verwaltet von der App)\n");
    let mut tab: Vec<char> = Vec::new();
    tab.push('\t');
    let mut nl: Vec<char> = Vec::new();
    nl.push('\n');
    assert(tab@ =~= seq!['\t'] && nl@ =~= seq!['\n']);
    let mut i: usize = 0;
    assert(ks.take(0) =~= Seq::<(Seq<char>, Seq<char>, Seq<char>, Seq<u8>, u32, u64)>::empty());
    while i < konten.len()
        invariant
            i <= konten@.len(),
            ks == konto_sichten(konten@),
            tab@ == seq!['\t'],
            nl@ == seq!['\n'],
            t@ == datei_spec(ks.take(i as int)),
        decreases konten.len() - i,
    {
        assert(ks.take(i + 1).drop_last() =~= ks.take(i as int));
        assert(ks.take(i + 1).last() == konten@[i as int]@);
        let k = &konten[i];
        let z = concat(&chars_of(k.name.as_str()), &tab);
        let z = concat(&z, &chars_of(k.issuer.as_str()));
        let z = concat(&z, &tab);
        let z = concat(&z, &chars_of(k.secret_b32.as_str()));
        let z = concat(&z, &tab);
        let z = concat(&z, &decimal_chars(k.stellen as u64));
        let z = concat(&z, &tab);
        let z = concat(&z, &decimal_chars(k.periode));
        let z = concat(&z, &nl);
        assert(z@ =~= konto_zeile(k@));
        t = concat(&t, &z);
        i = i + 1;
    }
    assert(ks.take(ks.len() as int) =~= ks);
    string_of(&t)
}

/// Whether a line of the file is skipped: a comment or blank.
pub open spec fn uebersprungen(l: Seq<char>) -> bool {
    (trim_start(l).len() > 0 && trim_start(l)[0] == '#') || trim(l).len() == 0
}

/// The account a line of the file describes: five tab-separated fields or more; unreadable
/// digits count as 6, an unreadable period as 30; none for a secret that does not decode.
pub open spec fn zeile_konto(l: Seq<char>) -> Option<(Seq<char>, Seq<char>, Seq<char>, Seq<u8>, u32, u64)> {
    let f = split(l, '\t');
    if f.len() < 5 {
        None
    } else {
        konto_spec(
            f[0],
            f[1],
            f[2],
            match parse_unsigned(f[3], u32::MAX as nat) {
                Some(n) => n as u32,
                None => 6,
            },
            match parse_unsigned(f[4], u64::MAX as nat) {
                Some(n) => n as u64,
                None => 30,
            },
        )
    }
}

/// The accounts of the lines, in order.
pub open spec fn zeilen_konten(ls: Seq<Seq<char>>) -> Seq<(Seq<char>, Seq<char>, Seq<char>, Seq<u8>, u32, u64)>
    decreases ls.len(),
{
    if ls.len() == 0 {
        Seq::empty()
    } else {
        let vorher = zeilen_konten(ls.drop_last());
        if uebersprungen(ls.last()) {
            vorher
        } else {
            match zeile_konto(ls.last()) {
                Some(k) => vorher.push(k),
                None => vorher,
            }
        }
    }
}

/// The accounts of the file; without a file, the example account of RFC 6238.
pub open spec fn laden_spec(inhalt: Option<Seq<char>>) -> Seq<(Seq<char>, Seq<char>, Seq<char>, Seq<u8>, u32, u64)> {
    match inhalt {
        Some(t) => zeilen_konten(lines(t)),
        None => match konto_spec(
            "Beispiel (RFC 6238)"@,
            "MatrixKit"@,
            "GEZDGNBVGY3TQOJQGEZDGNBVGY3TQOJQ"@,
            6,
            30,
        ) {
            Some(k) => seq![k],
            None => Seq::empty(),
        },
    }
}

fn zeile_lesen(l: &Vec<char>) -> (r: Option<Konto>)
    ensures
        match zeile_konto(l@) {
            Some(k) => r matches Some(x) && x@ == k,
            None => r is None,
        },
{
    let f = split_at_char(l, '\t');
    if f.len() < 5 {
        return None;
    }
    assert(views(f@)[0] == f@[0]@ && views(f@)[1] == f@[1]@ && views(f@)[2] == f@[2]@
        && views(f@)[3] == f@[3]@ && views(f@)[4] == f@[4]@);
    let stellen: u32 = match parse_u32(&f[3]) {
        Some(n) => n,
        None => 6,
    };
    let periode: u64 = match parse_u64(&f[4]) {
        Some(n) => n,
        None => 30,
    };
    Konto::neu(
        string_of(&f[0]).as_str(),
        string_of(&f[1]).as_str(),
        string_of(&f[2]).as_str(),
        stellen,
        periode,
    )
}

/// The accounts of the file (`None` where there is no file).
pub fn konten_laden(inhalt: Option<&str>) -> (r: Vec<Konto>)
    ensures
        konto_sichten(r@) == laden_spec(
            match inhalt {
                Some(t) => Some(t@),
                None => None,
            },
        ),
{
    match inhalt {
        None => {
            let mut r: Vec<Konto> = Vec::new();
            if let Some(k) = Konto::neu(
                "Beispiel (RFC 6238)",
                "MatrixKit",
                "GEZDGNBVGY3TQOJQGEZDGNBVGY3TQOJQ",
                6,
                30,
            ) {
                r.push(k);
            }
            assert(konto_sichten(r@) =~= laden_spec(None));
            r
        },
        Some(t) => {
            let ls = lines_of(&chars_of(t));
            let mut r: Vec<Konto> = Vec::new();
            let mut i: usize = 0;
            assert(views(ls@).take(0) =~= Seq::<Seq<char>>::empty());
            assert(konto_sichten(r@) =~= Seq::empty());
            while i < ls.len()
                invariant
                    i <= ls@.len(),
                    views(ls@) == lines(t@),
                    konto_sichten(r@) == zeilen_konten(views(ls@).take(i as int)),
                decreases ls.len() - i,
            {
                assert(views(ls@).take(i + 1).drop_last() =~= views(ls@).take(i as int));
                assert(views(ls@).take(i + 1).last() == ls@[i as int]@);
                let l = &ls[i];
                let vorn = crate::text::trim_start_chars(l);
                let kommentar = vorn.len() > 0 && vorn[0] == '#';
                let leer = trim_chars(l).len() == 0;
                if !(kommentar || leer) {
                    if let Some(k) = zeile_lesen(l) {
                        let ghost vorher = r@;
                        r.push(k);
                        assert(konto_sichten(r@) =~= konto_sichten(vorher).push(k@));
                    }
                }
                i = i + 1;
            }
            assert(views(ls@).take(ls@.len() as int) =~= views(ls@));
            r
        },
    }
}

// ------------------------------------------------------------------ window

/// The authenticator window.
pub struct Codes {
    pub konten: Vec<Konto>,
    /// The current second.
    pub jetzt_s: u64,
    /// The account whose code was copied in this second.
    pub kopiert: Option<usize>,
    pub eingabe: String,
    pub eingabe_fehler: bool,
}

/// Whether an account's code can be computed: at most nine digits, a secret of a length the
/// hash takes.
pub open spec fn rechenbar(k: Konto) -> bool {
    k.stellen <= 9 && hashable_len(k.secret@.len())
}

impl Codes {
    /// The window with its accounts at a second.
    pub fn neu(konten: Vec<Konto>, jetzt_s: u64) -> (r: Codes)
        ensures
            r.konten@ == konten@,
            r.jetzt_s == jetzt_s,
            r.kopiert is None,
            r.eingabe@ == Seq::<char>::empty(),
            !r.eingabe_fehler,
    {
        Codes { konten, jetzt_s, kopiert: None, eingabe: String::new(), eingabe_fehler: false }
    }

    /// The clock: a new second forgets which code was copied.
    pub fn tick(&mut self, jetzt_s: u64)
        ensures
            final(self).jetzt_s == jetzt_s,
            final(self).kopiert == (if jetzt_s != old(self).jetzt_s {
                None
            } else {
                old(self).kopiert
            }),
            final(self).konten@ == old(self).konten@,
            final(self).eingabe@ == old(self).eingabe@,
            final(self).eingabe_fehler == old(self).eingabe_fehler,
    {
        if jetzt_s != self.jetzt_s {
            self.jetzt_s = jetzt_s;
            self.kopiert = None;
        }
    }

    /// Copy the current code of an account, where the clipboard is allowed.
    pub fn kopieren(&mut self, i: usize, erlaubt: bool) -> (r: Option<String>)
        requires
            i < old(self).konten@.len() ==> rechenbar(old(self).konten@[i as int]),
        ensures
            final(self).konten@ == old(self).konten@,
            final(self).jetzt_s == old(self).jetzt_s,
            final(self).eingabe@ == old(self).eingabe@,
            final(self).eingabe_fehler == old(self).eingabe_fehler,
            if erlaubt && i < old(self).konten@.len() {
                final(self).kopiert == Some(i) && (r matches Some(c) && c@ == totp_spec(
                    old(self).konten@[i as int].secret@,
                    old(self).jetzt_s,
                    old(self).konten@[i as int].periode,
                    old(self).konten@[i as int].stellen,
                ))
            } else {
                final(self).kopiert == old(self).kopiert && r is None
            },
    {
        if !erlaubt || i >= self.konten.len() {
            return None;
        }
        self.kopiert = Some(i);
        Some(self.konten[i].code(self.jetzt_s))
    }

    /// Typing into the input clears the error mark.
    pub fn eingabe(&mut self, s: String)
        ensures
            final(self).eingabe@ == s@,
            !final(self).eingabe_fehler,
            final(self).konten@ == old(self).konten@,
            final(self).kopiert == old(self).kopiert,
            final(self).jetzt_s == old(self).jetzt_s,
    {
        self.eingabe = s;
        self.eingabe_fehler = false;
    }

    /// Add the account of the input, where the settings are unlocked; whether the accounts
    /// are to be saved.
    pub fn hinzufuegen(&mut self, entsperrt: bool) -> (r: bool)
        requires
            aus_eingabe_ok(old(self).eingabe@),
        ensures
            final(self).kopiert == old(self).kopiert,
            final(self).jetzt_s == old(self).jetzt_s,
            !entsperrt ==> !r && final(self).konten@ == old(self).konten@ && final(self).eingabe@
                == old(self).eingabe@ && final(self).eingabe_fehler == old(self).eingabe_fehler,
            entsperrt ==> match aus_eingabe_spec(old(self).eingabe@) {
                Some(k) => r && konto_sichten(final(self).konten@) == konto_sichten(
                    old(self).konten@,
                ).push(k) && final(self).eingabe@.len() == 0 && final(self).eingabe_fehler
                    == old(self).eingabe_fehler,
                None => !r && final(self).konten@ == old(self).konten@ && final(self).eingabe_fehler
                    && final(self).eingabe@ == old(self).eingabe@,
            },
    {
        if !entsperrt {
            return false;
        }
        match Konto::aus_eingabe(self.eingabe.as_str()) {
            Some(k) => {
                let ghost vorher = self.konten@;
                self.konten.push(k);
                assert(konto_sichten(self.konten@) =~= konto_sichten(vorher).push(k@));
                self.eingabe = String::new();
                true
            },
            None => {
                self.eingabe_fehler = true;
                false
            },
        }
    }

    /// Remove an account, where the settings are unlocked; whether the accounts are to be
    /// saved.
    pub fn entfernen(&mut self, i: usize, entsperrt: bool) -> (r: bool)
        ensures
            r == (entsperrt && i < old(self).konten@.len()),
            r ==> final(self).konten@ == old(self).konten@.remove(i as int),
            !r ==> final(self).konten@ == old(self).konten@,
            final(self).kopiert == old(self).kopiert,
            final(self).eingabe@ == old(self).eingabe@,
    {
        if !entsperrt || i >= self.konten.len() {
            return false;
        }
        self.konten.remove(i);
        true
    }
}

// ------------------------------------------------------------ round trip

#[verifier::rlimit(60)]
proof fn lemma_kopf_zeichen()
    ensures
        kopfzeile().len() == 57,
        kopfzeile()[0] == '#',
        kopfzeile()[55] == ')',
        kopfzeile()[56] == '\n',
        forall|k: int| 0 <= k < 56 ==> #[trigger] kopfzeile()[k] != '\n',
{
    reveal_strlit("# Matrix Codes — 2FA-Geheimnisse (verwaltet von der App)\n");
}

proof fn lemma_kopf()
    ensures
        lines(kopfzeile()) == seq![kopfzeile().take(56)],
        uebersprungen(kopfzeile().take(56)),
        zeilen_konten(lines(kopfzeile())) == Seq::<(Seq<char>, Seq<char>, Seq<char>, Seq<u8>, u32, u64)>::empty(),
{
    lemma_kopf_zeichen();
    let h = kopfzeile();
    let x = h.take(56);
    assert(!x.contains('\n')) by {
        if x.contains('\n') {
            let k = choose|k: int| 0 <= k < x.len() && x[k] == '\n';
            assert(x[k] == h[k]);
        }
    }
    assert(h =~= x + seq!['\n'] + Seq::<char>::empty());
    lemma_vor_zeichen(x, '\n', Seq::<char>::empty());
    assert(lines(h) == seq![strip_cr(x)] + lines(Seq::<char>::empty()));
    assert(x.last() == ')');
    assert(strip_cr(x) == x);
    assert(lines(h) =~= seq![x]);
    assert(x[0] == '#');
    assert(!is_ws(x[0]));
    assert(trim_start(x) == x);
    assert(uebersprungen(x));
    assert(seq![x].drop_last() =~= Seq::<Seq<char>>::empty());
    assert(zeilen_konten(seq![x]) == zeilen_konten(Seq::<Seq<char>>::empty()));
}

/// The line of an account without its line end.
pub open spec fn zeile_ohne_ende(k: (Seq<char>, Seq<char>, Seq<char>, Seq<u8>, u32, u64)) -> Seq<char> {
    k.0 + seq!['\t'] + k.1 + seq!['\t'] + k.2 + seq!['\t'] + decimal(k.4 as nat) + seq!['\t']
        + decimal(k.5 as nat)
}

/// Whether an account can be written to the file and read back: no tab or line break in its
/// texts, its names trimmed, its secret compact, and its bytes what the secret decodes to
/// (all true of an account that `Konto::neu` built from texts without tabs and line breaks).
pub open spec fn speicherbar(k: (Seq<char>, Seq<char>, Seq<char>, Seq<u8>, u32, u64)) -> bool {
    &&& !k.0.contains('\t') && !k.0.contains('\n')
    &&& !k.1.contains('\t') && !k.1.contains('\n')
    &&& !k.2.contains('\t') && !k.2.contains('\n')
    &&& trim(k.0) == k.0
    &&& trim(k.1) == k.1
    &&& without_ws(k.2) == k.2
    &&& base32_decode_spec(k.2) == Some(k.3)
}

proof fn lemma_tab_ohne_umbruch()
    ensures
        !seq!['\t'].contains('\n'),
{
    if seq!['\t'].contains('\n') {
        let j = choose|j: int| 0 <= j < seq!['\t'].len() && seq!['\t'][j] == '\n';
    }
}

proof fn lemma_zeile_lines(k: (Seq<char>, Seq<char>, Seq<char>, Seq<u8>, u32, u64))
    requires
        speicherbar(k),
    ensures
        konto_zeile(k) == zeile_ohne_ende(k) + seq!['\n'],
        lines(konto_zeile(k)) == seq![zeile_ohne_ende(k)],
{
    let d4 = decimal(k.4 as nat);
    let d5 = decimal(k.5 as nat);
    lemma_zahl_rund(k.4 as nat, u32::MAX as nat);
    lemma_zahl_rund(k.5 as nat, u64::MAX as nat);
    lemma_tab_ohne_umbruch();
    let t = seq!['\t'];
    let x = zeile_ohne_ende(k);
    lemma_ohne_in_summe(k.0, t, '\n');
    lemma_ohne_in_summe(k.0 + t, k.1, '\n');
    lemma_ohne_in_summe(k.0 + t + k.1, t, '\n');
    lemma_ohne_in_summe(k.0 + t + k.1 + t, k.2, '\n');
    lemma_ohne_in_summe(k.0 + t + k.1 + t + k.2, t, '\n');
    lemma_ohne_in_summe(k.0 + t + k.1 + t + k.2 + t, d4, '\n');
    lemma_ohne_in_summe(k.0 + t + k.1 + t + k.2 + t + d4, t, '\n');
    lemma_ohne_in_summe(k.0 + t + k.1 + t + k.2 + t + d4 + t, d5, '\n');
    assert(konto_zeile(k) =~= x + seq!['\n']);
    lemma_vor_zeichen(x, '\n', Seq::<char>::empty());
    let h = x + seq!['\n'] + Seq::<char>::empty();
    assert(x + seq!['\n'] =~= h);
    assert(lines(h) == seq![strip_cr(h.take(x.len() as int))] + lines(h.skip(x.len() + 1int)));
    assert(lines(Seq::<char>::empty()) == Seq::<Seq<char>>::empty());
    assert(x.last() == d5.last());
    assert(strip_cr(x) == x);
    assert(lines(h) =~= seq![x]);
}

proof fn lemma_split_vorn(a: Seq<char>, rest: Seq<char>)
    requires
        !a.contains('\t'),
    ensures
        split(a + seq!['\t'] + rest, '\t') == seq![a] + split(rest, '\t'),
{
    lemma_vor_zeichen(a, '\t', rest);
}

proof fn lemma_zeile_split(k: (Seq<char>, Seq<char>, Seq<char>, Seq<u8>, u32, u64))
    requires
        speicherbar(k),
    ensures
        split(zeile_ohne_ende(k), '\t') == seq![k.0, k.1, k.2, decimal(k.4 as nat), decimal(k.5 as nat)],
{
    let d4 = decimal(k.4 as nat);
    let d5 = decimal(k.5 as nat);
    lemma_zahl_rund(k.4 as nat, u32::MAX as nat);
    lemma_zahl_rund(k.5 as nat, u64::MAX as nat);
    let t = seq!['\t'];
    let y4 = d4 + t + d5;
    let y3 = k.2 + t + y4;
    let y2 = k.1 + t + y3;
    let x = k.0 + t + y2;
    assert(x =~= zeile_ohne_ende(k));
    lemma_split_vorn(k.0, y2);
    lemma_split_vorn(k.1, y3);
    lemma_split_vorn(k.2, y4);
    lemma_split_vorn(d4, d5);
    lemma_ohne_zeichen(d5, '\t');
    assert(split(x, '\t') =~= seq![k.0, k.1, k.2, d4, d5]);
}

proof fn lemma_zeile(k: (Seq<char>, Seq<char>, Seq<char>, Seq<u8>, u32, u64))
    requires
        speicherbar(k),
    ensures
        konto_zeile(k) == zeile_ohne_ende(k) + seq!['\n'],
        lines(konto_zeile(k)) == seq![zeile_ohne_ende(k)],
        zeile_konto(zeile_ohne_ende(k)) == Some(k),
{
    lemma_zeile_lines(k);
    lemma_zeile_split(k);
    lemma_zahl_rund(k.4 as nat, u32::MAX as nat);
    lemma_zahl_rund(k.5 as nat, u64::MAX as nat);
    let f = split(zeile_ohne_ende(k), '\t');
    assert(f[3] == decimal(k.4 as nat) && f[4] == decimal(k.5 as nat));
    assert(konto_spec(f[0], f[1], f[2], k.4, k.5) == Some(k));
}

proof fn lemma_zeilen_konten_anhaengen(a: Seq<Seq<char>>, l: Seq<char>)
    ensures
        zeilen_konten(a.push(l)) == (if uebersprungen(l) {
            zeilen_konten(a)
        } else {
            match zeile_konto(l) {
                Some(k) => zeilen_konten(a).push(k),
                None => zeilen_konten(a),
            }
        }),
{
    assert(a.push(l).drop_last() =~= a);
}

/// Saving the accounts and loading the saved file gives the same accounts back, for
/// accounts that can be stored and whose lines do not read as comments (a line starting
/// with `#`).
pub proof fn lemma_speichern_laden(ks: Seq<(Seq<char>, Seq<char>, Seq<char>, Seq<u8>, u32, u64)>)
    requires
        forall|i: int| 0 <= i < ks.len() ==> speicherbar(#[trigger] ks[i]),
        forall|i: int| 0 <= i < ks.len() ==> !uebersprungen(zeile_ohne_ende(#[trigger] ks[i])),
    ensures
        laden_spec(Some(datei_spec(ks))) == ks,
    decreases ks.len(),
{
    lemma_kopf();
    lemma_kopf_zeichen();
    if ks.len() == 0 {
    } else {
        let u = ks.drop_last();
        let k = ks.last();
        assert forall|i: int| 0 <= i < u.len() implies speicherbar(#[trigger] u[i]) by {
            assert(u[i] == ks[i]);
        }
        assert forall|i: int| 0 <= i < u.len() implies !uebersprungen(zeile_ohne_ende(#[trigger] u[i])) by {
            assert(u[i] == ks[i]);
        }
        lemma_speichern_laden(u);
        lemma_datei_ende(u);
        assert(speicherbar(ks[ks.len() - 1]));
        assert(!uebersprungen(zeile_ohne_ende(ks[ks.len() - 1])));
        lemma_zeile(k);
        let a = datei_spec(u);
        lemma_lines_anhaengen(a, konto_zeile(k));
        assert(datei_spec(ks) == a + konto_zeile(k));
        assert(lines(datei_spec(ks)) == lines(a).push(zeile_ohne_ende(k)));
        lemma_zeilen_konten_anhaengen(lines(a), zeile_ohne_ende(k));
        assert(u.push(k) =~= ks);
    }
}

proof fn lemma_datei_ende(ks: Seq<(Seq<char>, Seq<char>, Seq<char>, Seq<u8>, u32, u64)>)
    ensures
        datei_spec(ks).len() > 0,
        datei_spec(ks).last() == '\n',
    decreases ks.len(),
{
    lemma_kopf_zeichen();
    if ks.len() > 0 {
        lemma_datei_ende(ks.drop_last());
        let z = konto_zeile(ks.last());
        assert(z.last() == '\n');
    }
}

} // verus!
