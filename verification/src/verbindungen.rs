//! Wi-Fi and Bluetooth: what the outputs of `nmcli` and `bluetoothctl` say, in which order
//! networks and devices are shown, and the decisions of the connections panel.

use vstd::prelude::*;
use crate::text::{
    chars_of, concat, lex_kleiner, lex_kleiner_exec, lemma_lex_ordnung, lines, lines_of, parse_u8, parse_unsigned, same, slice, splitn, splitn_at_char, string_of,
    trim, trim_chars, views,
};

verus! {

// ------------------------------------------------------------ terse fields

/// The state while a terse line is read: the finished fields, the current field, and
/// whether the previous character was a backslash.
pub type TerseStand = (Seq<Seq<char>>, Seq<char>, bool);

/// One character of a terse line read.
pub open spec fn terse_schritt(z: TerseStand, c: char) -> TerseStand {
    if z.2 {
        (z.0, z.1.push(c), false)
    } else if c == '\\' {
        (z.0, z.1, true)
    } else if c == ':' {
        (z.0.push(z.1), Seq::empty(), false)
    } else {
        (z.0, z.1.push(c), false)
    }
}

/// The state after reading `s`.
pub open spec fn terse_lauf(s: Seq<char>) -> TerseStand
    decreases s.len(),
{
    if s.len() == 0 {
        (Seq::empty(), Seq::empty(), false)
    } else {
        terse_schritt(terse_lauf(s.drop_last()), s.last())
    }
}

/// The fields of a line of `nmcli -t` output: `:` separates fields, and a backslash makes
/// the character after it part of the value.
pub open spec fn terse(s: Seq<char>) -> Seq<Seq<char>> {
    terse_lauf(s).0.push(terse_lauf(s).1)
}

/// The state after reading `q`, starting from `z`.
pub open spec fn terse_weiter(z: TerseStand, q: Seq<char>) -> TerseStand
    decreases q.len(),
{
    if q.len() == 0 {
        z
    } else {
        terse_schritt(terse_weiter(z, q.drop_last()), q.last())
    }
}

/// A value as `nmcli -t` writes it: a backslash before each `:` and each backslash.
pub open spec fn maskiert(f: Seq<char>) -> Seq<char>
    decreases f.len(),
{
    if f.len() == 0 {
        Seq::empty()
    } else {
        let c = f.last();
        maskiert(f.drop_last()) + if c == ':' || c == '\\' {
            seq!['\\', c]
        } else {
            seq![c]
        }
    }
}

/// A terse line of fields: each value escaped, the values joined by `:`.
pub open spec fn terse_zeile(fs: Seq<Seq<char>>) -> Seq<char>
    decreases fs.len(),
{
    if fs.len() <= 1 {
        if fs.len() == 0 {
            Seq::empty()
        } else {
            maskiert(fs[0])
        }
    } else {
        terse_zeile(fs.drop_last()) + seq![':'] + maskiert(fs.last())
    }
}

proof fn lemma_weiter_verkettet(z: TerseStand, a: Seq<char>, b: Seq<char>)
    ensures
        terse_weiter(z, a + b) == terse_weiter(terse_weiter(z, a), b),
    decreases b.len(),
{
    if b.len() == 0 {
        assert(a + b =~= a);
    } else {
        assert((a + b).drop_last() =~= a + b.drop_last());
        assert((a + b).last() == b.last());
        lemma_weiter_verkettet(z, a, b.drop_last());
    }
}

proof fn lemma_weiter_eins(z: TerseStand, c: char)
    ensures
        terse_weiter(z, seq![c]) == terse_schritt(z, c),
{
    assert(seq![c].drop_last() =~= Seq::<char>::empty());
    assert(terse_weiter(z, Seq::<char>::empty()) == z);
}

proof fn lemma_lauf_weiter(q: Seq<char>)
    ensures
        terse_lauf(q) == terse_weiter((Seq::empty(), Seq::empty(), false), q),
    decreases q.len(),
{
    if q.len() > 0 {
        lemma_lauf_weiter(q.drop_last());
    }
}

proof fn lemma_maskiert_liest(z: TerseStand, f: Seq<char>)
    requires
        !z.2,
    ensures
        terse_weiter(z, maskiert(f)) == (z.0, z.1 + f, false),
    decreases f.len(),
{
    if f.len() == 0 {
        assert(z.1 + f =~= z.1);
    } else {
        let c = f.last();
        let t = if c == ':' || c == '\\' {
            seq!['\\', c]
        } else {
            seq![c]
        };
        lemma_maskiert_liest(z, f.drop_last());
        lemma_weiter_verkettet(z, maskiert(f.drop_last()), t);
        let y = terse_weiter(z, maskiert(f.drop_last()));
        if c == ':' || c == '\\' {
            assert(t.drop_last() =~= seq!['\\']);
            lemma_weiter_eins(y, '\\');
            assert(terse_weiter(y, t) == terse_schritt(terse_schritt(y, '\\'), c));
        } else {
            lemma_weiter_eins(y, c);
        }
        assert((z.1 + f.drop_last()).push(c) =~= z.1 + f);
    }
}

proof fn lemma_zeile_liest(fs: Seq<Seq<char>>)
    requires
        fs.len() >= 1,
    ensures
        terse_lauf(terse_zeile(fs)) == (fs.drop_last(), fs.last(), false),
    decreases fs.len(),
{
    let leer: TerseStand = (Seq::empty(), Seq::empty(), false);
    lemma_lauf_weiter(terse_zeile(fs));
    if fs.len() == 1 {
        lemma_maskiert_liest(leer, fs[0]);
        assert(Seq::<char>::empty() + fs[0] =~= fs[0]);
        assert(fs.drop_last() =~= Seq::<Seq<char>>::empty());
    } else {
        let vorne = fs.drop_last();
        lemma_zeile_liest(vorne);
        lemma_lauf_weiter(terse_zeile(vorne));
        lemma_weiter_verkettet(leer, terse_zeile(vorne) + seq![':'], maskiert(fs.last()));
        lemma_weiter_verkettet(leer, terse_zeile(vorne), seq![':']);
        assert(seq![':'].drop_last() =~= Seq::<char>::empty());
        let x = terse_weiter(leer, terse_zeile(vorne));
        lemma_weiter_eins(x, ':');
        let z = terse_weiter(leer, terse_zeile(vorne) + seq![':']);
        assert(z == (vorne.drop_last().push(vorne.last()), Seq::<char>::empty(), false));
        assert(vorne.drop_last().push(vorne.last()) =~= vorne);
        lemma_maskiert_liest(z, fs.last());
        assert(Seq::<char>::empty() + fs.last() =~= fs.last());
    }
}

/// Reading gives back what `nmcli -t` wrote: the fields of a line made of escaped values
/// joined by `:` are those values, whatever `:` and backslashes they hold.
pub proof fn lemma_terse_rundreise(fs: Seq<Seq<char>>)
    requires
        fs.len() >= 1,
    ensures
        terse(terse_zeile(fs)) == fs,
{
    lemma_zeile_liest(fs);
    assert(fs.drop_last().push(fs.last()) =~= fs);
}

/// The fields of a line of `nmcli -t` output.
pub fn terse_felder(zeile: &str) -> (r: Vec<String>)
    ensures
        r@.map_values(|f: String| f@) == terse(zeile@),
{
    let z = chars_of(zeile);
    let mut felder: Vec<String> = Vec::new();
    let mut aktuell: Vec<char> = Vec::new();
    let mut escape = false;
    let mut i: usize = 0;
    while i < z.len()
        invariant
            i <= z@.len(),
            (felder@.map_values(|f: String| f@), aktuell@, escape) == terse_lauf(
                z@.take(i as int),
            ),
        decreases z.len() - i,
    {
        let c = z[i];
        assert(z@.take(i + 1).drop_last() =~= z@.take(i as int));
        if escape {
            aktuell.push(c);
            escape = false;
        } else if c == '\\' {
            escape = true;
        } else if c == ':' {
            let ghost vorher = felder@;
            felder.push(string_of(&aktuell));
            assert(felder@.map_values(|f: String| f@) =~= vorher.map_values(|f: String| f@).push(
                aktuell@,
            ));
            aktuell = Vec::new();
        } else {
            aktuell.push(c);
        }
        i = i + 1;
    }
    assert(z@.take(z@.len() as int) =~= z@);
    let ghost vorher = felder@;
    felder.push(string_of(&aktuell));
    assert(felder@.map_values(|f: String| f@) =~= vorher.map_values(|f: String| f@).push(
        aktuell@,
    ));
    felder
}

// ------------------------------------------------------------------ Wi-Fi

/// A Wi-Fi network.
#[derive(Debug, Clone)]
pub struct Netz {
    pub ssid: String,
    /// 0 to 100.
    pub signal: u8,
    pub gesichert: bool,
    pub aktiv: bool,
}

/// (ssid, signal, gesichert, aktiv)
pub type NetzSicht = (Seq<char>, u8, bool, bool);

impl View for Netz {
    type V = NetzSicht;

    open spec fn view(&self) -> NetzSicht {
        (self.ssid@, self.signal, self.gesichert, self.aktiv)
    }
}

/// The views of a sequence of networks.
pub open spec fn netz_sichten(v: Seq<Netz>) -> Seq<NetzSicht> {
    v.map_values(|n: Netz| n@)
}

/// The network that the fields `IN-USE,SSID,SIGNAL,SECURITY` of one line describe; none
/// where fields are missing or the SSID is empty. An unreadable signal counts as 0.
pub open spec fn netz_aus_feldern(f: Seq<Seq<char>>) -> Option<NetzSicht> {
    if f.len() < 4 || f[1].len() == 0 {
        None
    } else {
        Some(
            (
                f[1],
                match parse_unsigned(f[2], u8::MAX as nat) {
                    Some(v) => v as u8,
                    None => 0,
                },
                f[3].len() > 0 && f[3] != "--"@,
                f[0] == "*"@,
            ),
        )
    }
}

/// The first network in `s` with this SSID.
pub open spec fn erster_mit_ssid(s: Seq<NetzSicht>, ssid: Seq<char>) -> Option<nat>
    decreases s.len(),
{
    if s.len() == 0 {
        None
    } else {
        match erster_mit_ssid(s.drop_last(), ssid) {
            Some(i) => Some(i),
            None => if s.last().0 == ssid {
                Some((s.len() - 1) as nat)
            } else {
                None
            },
        }
    }
}

/// The list after one more scanned network: the same SSID often sends on several bands;
/// the active one and else the strongest wins, and a network once seen active stays active.
pub open spec fn aufnehmen(s: Seq<NetzSicht>, n: NetzSicht) -> Seq<NetzSicht> {
    match erster_mit_ssid(s, n.0) {
        Some(i) => {
            let alt = s[i as int];
            if n.3 || n.1 > alt.1 {
                s.update(i as int, (n.0, n.1, n.2, n.3 || alt.3))
            } else {
                s
            }
        },
        None => s.push(n),
    }
}

/// The networks of the scanned lines, merged by SSID, in the order first seen.
pub open spec fn netze_sammeln(ls: Seq<Seq<char>>) -> Seq<NetzSicht>
    decreases ls.len(),
{
    if ls.len() == 0 {
        Seq::empty()
    } else {
        match netz_aus_feldern(terse(ls.last())) {
            Some(n) => aufnehmen(netze_sammeln(ls.drop_last()), n),
            None => netze_sammeln(ls.drop_last()),
        }
    }
}

/// The rank by which networks are listed: active first, then by signal.
pub open spec fn netz_rang(n: NetzSicht) -> int {
    (if n.3 {
        256int
    } else {
        0int
    }) + n.1 as int
}

/// Where a network goes in a list sorted by falling rank: behind every network of at least
/// its rank.
pub open spec fn netz_stelle(s: Seq<NetzSicht>, n: NetzSicht) -> nat
    decreases s.len(),
{
    if s.len() == 0 {
        0
    } else if netz_rang(s.last()) >= netz_rang(n) {
        s.len()
    } else {
        netz_stelle(s.drop_last(), n)
    }
}

/// The networks sorted by falling rank; networks of equal rank keep their order.
pub open spec fn netze_sortiert(s: Seq<NetzSicht>) -> Seq<NetzSicht>
    decreases s.len(),
{
    if s.len() == 0 {
        Seq::empty()
    } else {
        let t = netze_sortiert(s.drop_last());
        t.insert(netz_stelle(t, s.last()) as int, s.last())
    }
}

/// What the panel lists from `nmcli -t -f IN-USE,SSID,SIGNAL,SECURITY dev wifi list`: the
/// merged networks, active first, then the strongest, at most twelve.
pub open spec fn netze_spec(liste: Seq<char>) -> Seq<NetzSicht> {
    let s = netze_sortiert(netze_sammeln(lines(liste)));
    if s.len() <= 12 {
        s
    } else {
        s.take(12)
    }
}

proof fn lemma_netz_stelle(s: Seq<NetzSicht>, n: NetzSicht)
    ensures
        netz_stelle(s, n) <= s.len(),
    decreases s.len(),
{
    if s.len() > 0 && netz_rang(s.last()) < netz_rang(n) {
        lemma_netz_stelle(s.drop_last(), n);
    }
}

proof fn lemma_netze_sortiert_len(s: Seq<NetzSicht>)
    ensures
        netze_sortiert(s).len() == s.len(),
    decreases s.len(),
{
    if s.len() > 0 {
        lemma_netze_sortiert_len(s.drop_last());
        lemma_netz_stelle(netze_sortiert(s.drop_last()), s.last());
    }
}

proof fn lemma_erster_mit_ssid(s: Seq<NetzSicht>, ssid: Seq<char>, i: int)
    requires
        0 <= i <= s.len(),
        forall|k: int| 0 <= k < i ==> (#[trigger] s[k]).0 != ssid,
    ensures
        i < s.len() && s[i].0 == ssid ==> erster_mit_ssid(s, ssid) == Some(i as nat),
        i == s.len() ==> erster_mit_ssid(s, ssid) is None,
    decreases s.len(),
{
    if s.len() > 0 {
        if i < s.len() - 1 || i == s.len() {
            let j = if i == s.len() {
                i - 1
            } else {
                i
            };
            assert forall|k: int| 0 <= k < j implies (#[trigger] s.drop_last()[k]).0 != ssid by {
                assert(s.drop_last()[k] == s[k]);
            }
            if i == s.len() {
                lemma_erster_mit_ssid(s.drop_last(), ssid, j);
            } else {
                lemma_erster_mit_ssid(s.drop_last(), ssid, i);
                assert(s.drop_last()[i] == s[i]);
            }
        } else {
            assert forall|k: int| 0 <= k < i implies (#[trigger] s.drop_last()[k]).0 != ssid by {
                assert(s.drop_last()[k] == s[k]);
            }
            lemma_erster_mit_ssid(s.drop_last(), ssid, i);
        }
    }
}

fn netz_kopie(n: &Netz) -> (r: Netz)
    ensures
        r@ == n@,
{
    Netz { ssid: n.ssid.clone(), signal: n.signal, gesichert: n.gesichert, aktiv: n.aktiv }
}

fn netz_aus(zeile: &Vec<char>) -> (r: Option<Netz>)
    ensures
        match netz_aus_feldern(terse(zeile@)) {
            Some(n) => r matches Some(x) && x@ == n,
            None => r is None,
        },
{
    let s = string_of(zeile);
    let f = terse_felder(s.as_str());
    let ghost fs = f@.map_values(|x: String| x@);
    if f.len() < 4 {
        return None;
    }
    let f1 = chars_of(f[1].as_str());
    if f1.len() == 0 {
        assert(fs[1] == f@[1]@);
        return None;
    }
    assert(fs[0] == f@[0]@ && fs[1] == f@[1]@ && fs[2] == f@[2]@ && fs[3] == f@[3]@);
    let stern = chars_of("*");
    let strich = chars_of("--");
    let f0 = chars_of(f[0].as_str());
    let f2 = chars_of(f[2].as_str());
    let f3 = chars_of(f[3].as_str());
    let signal: u8 = match parse_u8(&f2) {
        Some(v) => v,
        None => 0,
    };
    Some(
        Netz {
            ssid: f[1].clone(),
            signal,
            gesichert: f3.len() > 0 && !same(&f3, &strich),
            aktiv: same(&f0, &stern),
        },
    )
}

fn netz_aufnehmen(netze: &mut Vec<Netz>, n: Netz)
    ensures
        netz_sichten(final(netze)@) == aufnehmen(netz_sichten(old(netze)@), n@),
{
    let ghost s = netz_sichten(netze@);
    let ziel = chars_of(n.ssid.as_str());
    let mut i: usize = 0;
    while i < netze.len()
        invariant
            i <= netze@.len(),
            s == netz_sichten(netze@),
            netze@ == old(netze)@,
            ziel@ == n@.0,
            forall|k: int| 0 <= k < i ==> (#[trigger] s[k]).0 != n@.0,
        decreases netze.len() - i,
    {
        let k = chars_of(netze[i].ssid.as_str());
        assert(s[i as int] == netze@[i as int]@);
        if same(&k, &ziel) {
            proof {
                lemma_erster_mit_ssid(s, n@.0, i as int);
            }
            if n.aktiv || n.signal > netze[i].signal {
                let war_aktiv = netze[i].aktiv;
                let neu = Netz {
                    ssid: n.ssid,
                    signal: n.signal,
                    gesichert: n.gesichert,
                    aktiv: n.aktiv || war_aktiv,
                };
                let ghost vorher = netze@;
                netze.set(i, neu);
                assert(netz_sichten(netze@) =~= netz_sichten(vorher).update(i as int, neu@));
            }
            return;
        }
        i = i + 1;
    }
    proof {
        lemma_erster_mit_ssid(s, n@.0, i as int);
    }
    let ghost vorher = netze@;
    netze.push(n);
    assert(netz_sichten(netze@) =~= netz_sichten(vorher).push(n@));
}

fn netz_rang_von(n: &Netz) -> (r: u16)
    ensures
        r == netz_rang(n@),
{
    if n.aktiv {
        256 + n.signal as u16
    } else {
        n.signal as u16
    }
}

fn netz_einsortieren(t: &mut Vec<Netz>, n: Netz)
    ensures
        netz_sichten(final(t)@) == netz_sichten(old(t)@).insert(
            netz_stelle(netz_sichten(old(t)@), n@) as int,
            n@,
        ),
{
    let ghost s = netz_sichten(t@);
    let rang = netz_rang_von(&n);
    let mut p = t.len();
    assert(s.take(p as int) =~= s);
    while p > 0 && netz_rang_von(&t[p - 1]) < rang
        invariant
            p <= t@.len(),
            s == netz_sichten(t@),
            rang == netz_rang(n@),
            netz_stelle(s.take(p as int), n@) == netz_stelle(s, n@),
        decreases p,
    {
        assert(s.take(p as int).drop_last() =~= s.take(p - 1));
        p = p - 1;
    }
    if p > 0 {
        assert(s.take(p as int).last() == s[p - 1]);
    }
    let ghost vorher = t@;
    t.insert(p, n);
    assert(netz_sichten(t@) =~= netz_sichten(vorher).insert(p as int, n@));
}

/// The networks that `nmcli -t -f IN-USE,SSID,SIGNAL,SECURITY dev wifi list` reports, as
/// the panel lists them.
pub fn netze_aus(liste: &str) -> (r: Vec<Netz>)
    ensures
        netz_sichten(r@) == netze_spec(liste@),
{
    let ls = lines_of(&chars_of(liste));
    let mut gesammelt: Vec<Netz> = Vec::new();
    let mut i: usize = 0;
    assert(views(ls@).take(0) =~= Seq::<Seq<char>>::empty());
    while i < ls.len()
        invariant
            i <= ls@.len(),
            views(ls@) == lines(liste@),
            netz_sichten(gesammelt@) == netze_sammeln(views(ls@).take(i as int)),
        decreases ls.len() - i,
    {
        assert(views(ls@).take(i + 1).drop_last() =~= views(ls@).take(i as int));
        assert(views(ls@).take(i + 1).last() == ls@[i as int]@);
        if let Some(n) = netz_aus(&ls[i]) {
            netz_aufnehmen(&mut gesammelt, n);
        }
        i = i + 1;
    }
    assert(views(ls@).take(ls@.len() as int) =~= views(ls@));
    let ghost g = netz_sichten(gesammelt@);
    let mut sortiert: Vec<Netz> = Vec::new();
    let mut j: usize = 0;
    assert(g.take(0) =~= Seq::<NetzSicht>::empty());
    while j < gesammelt.len()
        invariant
            j <= gesammelt@.len(),
            g == netz_sichten(gesammelt@),
            netz_sichten(sortiert@) == netze_sortiert(g.take(j as int)),
        decreases gesammelt.len() - j,
    {
        assert(g.take(j + 1).drop_last() =~= g.take(j as int));
        assert(g.take(j + 1).last() == gesammelt@[j as int]@);
        let n = netz_kopie(&gesammelt[j]);
        netz_einsortieren(&mut sortiert, n);
        j = j + 1;
    }
    assert(g.take(g.len() as int) =~= g);
    proof {
        lemma_netze_sortiert_len(g);
    }
    if sortiert.len() > 12 {
        sortiert.truncate(12);
        assert(netz_sichten(sortiert@) =~= netze_sortiert(g).take(12));
    }
    sortiert
}

/// Networks listed by falling rank.
pub open spec fn netze_geordnet(s: Seq<NetzSicht>) -> bool {
    forall|i: int, j: int| 0 <= i < j < s.len() ==> netz_rang(#[trigger] s[i]) >= netz_rang(
        #[trigger] s[j],
    )
}

/// No SSID listed twice.
pub open spec fn ssids_einmalig(s: Seq<NetzSicht>) -> bool {
    forall|i: int, j: int| 0 <= i < j < s.len() ==> (#[trigger] s[i]).0 != (#[trigger] s[j]).0
}

proof fn lemma_netz_stelle_trennt(t: Seq<NetzSicht>, n: NetzSicht)
    requires
        netze_geordnet(t),
    ensures
        netz_stelle(t, n) <= t.len(),
        forall|k: int| 0 <= k < netz_stelle(t, n) ==> netz_rang(#[trigger] t[k]) >= netz_rang(n),
        forall|k: int| netz_stelle(t, n) <= k < t.len() ==> netz_rang(#[trigger] t[k]) < netz_rang(n),
    decreases t.len(),
{
    lemma_netz_stelle(t, n);
    if t.len() > 0 {
        if netz_rang(t.last()) >= netz_rang(n) {
            assert forall|k: int| 0 <= k < netz_stelle(t, n) implies netz_rang(#[trigger] t[k])
                >= netz_rang(n) by {
                if k < t.len() - 1 {
                    assert(netz_rang(t[k]) >= netz_rang(t[t.len() - 1]));
                }
            }
        } else {
            let u = t.drop_last();
            assert(netze_geordnet(u)) by {
                assert forall|i: int, j: int| 0 <= i < j < u.len() implies netz_rang(#[trigger] u[i])
                    >= netz_rang(#[trigger] u[j]) by {
                    assert(u[i] == t[i] && u[j] == t[j]);
                }
            }
            lemma_netz_stelle_trennt(u, n);
            assert forall|k: int| 0 <= k < netz_stelle(t, n) implies netz_rang(#[trigger] t[k])
                >= netz_rang(n) by {
                assert(u[k] == t[k]);
            }
            assert forall|k: int| netz_stelle(t, n) <= k < t.len() implies netz_rang(#[trigger] t[k])
                < netz_rang(n) by {
                if k < t.len() - 1 {
                    assert(u[k] == t[k]);
                }
            }
        }
    }
}

proof fn lemma_netze_sortiert_herkunft(s: Seq<NetzSicht>)
    ensures
        netze_sortiert(s).len() == s.len(),
        netze_geordnet(netze_sortiert(s)),
        forall|k: int|
            0 <= k < netze_sortiert(s).len() ==> exists|j: int|
                0 <= j < s.len() && #[trigger] netze_sortiert(s)[k] == s[j],
    decreases s.len(),
{
    lemma_netze_sortiert_len(s);
    if s.len() > 0 {
        let u = s.drop_last();
        let t = netze_sortiert(u);
        let x = s.last();
        lemma_netze_sortiert_herkunft(u);
        lemma_netz_stelle_trennt(t, x);
        let p = netz_stelle(t, x) as int;
        let r = t.insert(p, x);
        assert(r == netze_sortiert(s));
        assert forall|i: int, j: int| 0 <= i < j < r.len() implies netz_rang(#[trigger] r[i])
            >= netz_rang(#[trigger] r[j]) by {
            if i < p && j < p {
                assert(r[i] == t[i] && r[j] == t[j]);
            } else if i < p && j == p {
                assert(r[i] == t[i]);
            } else if i < p {
                assert(r[i] == t[i] && r[j] == t[j - 1]);
            } else if i == p {
                assert(r[j] == t[j - 1]);
            } else {
                assert(r[i] == t[i - 1] && r[j] == t[j - 1]);
            }
        }
        assert forall|k: int| 0 <= k < r.len() implies exists|j: int|
            0 <= j < s.len() && #[trigger] r[k] == s[j] by {
            if k < p {
                assert(r[k] == t[k]);
                let j = choose|j: int| 0 <= j < u.len() && t[k] == u[j];
                assert(s[j] == u[j]);
            } else if k == p {
                assert(r[k] == s[s.len() - 1]);
            } else {
                assert(r[k] == t[k - 1]);
                let j = choose|j: int| 0 <= j < u.len() && t[k - 1] == u[j];
                assert(s[j] == u[j]);
            }
        }
    }
}

proof fn lemma_netze_sortiert_einmalig(s: Seq<NetzSicht>)
    requires
        ssids_einmalig(s),
    ensures
        ssids_einmalig(netze_sortiert(s)),
    decreases s.len(),
{
    if s.len() > 0 {
        let u = s.drop_last();
        let t = netze_sortiert(u);
        let x = s.last();
        assert(ssids_einmalig(u)) by {
            assert forall|i: int, j: int| 0 <= i < j < u.len() implies (#[trigger] u[i]).0 != (
            #[trigger] u[j]).0 by {
                assert(u[i] == s[i] && u[j] == s[j]);
            }
        }
        lemma_netze_sortiert_einmalig(u);
        lemma_netze_sortiert_herkunft(u);
        lemma_netz_stelle(t, x);
        let p = netz_stelle(t, x) as int;
        let r = t.insert(p, x);
        assert forall|k: int| 0 <= k < t.len() implies (#[trigger] t[k]).0 != x.0 by {
            let j = choose|j: int| 0 <= j < u.len() && t[k] == u[j];
            assert(u[j] == s[j]);
        }
        assert forall|i: int, j: int| 0 <= i < j < r.len() implies (#[trigger] r[i]).0 != (
        #[trigger] r[j]).0 by {
            if i < p && j < p {
                assert(r[i] == t[i] && r[j] == t[j]);
            } else if i < p && j == p {
                assert(r[i] == t[i]);
            } else if i < p {
                assert(r[i] == t[i] && r[j] == t[j - 1]);
            } else if i == p {
                assert(r[j] == t[j - 1]);
            } else {
                assert(r[i] == t[i - 1] && r[j] == t[j - 1]);
            }
        }
    }
}

proof fn lemma_erster_mit_ssid_ist(s: Seq<NetzSicht>, ssid: Seq<char>)
    ensures
        erster_mit_ssid(s, ssid) matches Some(i) ==> i < s.len() && s[i as int].0 == ssid,
        erster_mit_ssid(s, ssid) is None ==> forall|k: int| 0 <= k < s.len() ==> (#[trigger] s[k]).0
            != ssid,
    decreases s.len(),
{
    if s.len() > 0 {
        lemma_erster_mit_ssid_ist(s.drop_last(), ssid);
        assert forall|k: int| 0 <= k < s.len() - 1 implies s.drop_last()[k] == #[trigger] s[k] by {}
    }
}

proof fn lemma_netze_sammeln_einmalig(ls: Seq<Seq<char>>)
    ensures
        ssids_einmalig(netze_sammeln(ls)),
    decreases ls.len(),
{
    if ls.len() > 0 {
        let s = netze_sammeln(ls.drop_last());
        lemma_netze_sammeln_einmalig(ls.drop_last());
        if let Some(n) = netz_aus_feldern(terse(ls.last())) {
            lemma_erster_mit_ssid_ist(s, n.0);
            let r = aufnehmen(s, n);
            match erster_mit_ssid(s, n.0) {
                Some(i) => {
                    assert forall|a: int, b: int| 0 <= a < b < r.len() implies (#[trigger] r[a]).0 != (
                    #[trigger] r[b]).0 by {
                        assert(r[a].0 == s[a].0 && r[b].0 == s[b].0);
                    }
                },
                None => {
                    assert forall|a: int, b: int| 0 <= a < b < r.len() implies (#[trigger] r[a]).0 != (
                    #[trigger] r[b]).0 by {
                        if b < s.len() {
                            assert(r[a] == s[a] && r[b] == s[b]);
                        } else {
                            assert(r[a] == s[a]);
                        }
                    }
                },
            }
        }
    }
}

/// The listed networks: at most twelve, no SSID twice, and ordered by falling rank (the
/// active network first, then by signal).
pub proof fn lemma_netze_liste(liste: Seq<char>)
    ensures
        netze_spec(liste).len() <= 12,
        ssids_einmalig(netze_spec(liste)),
        netze_geordnet(netze_spec(liste)),
{
    let g = netze_sammeln(lines(liste));
    lemma_netze_sammeln_einmalig(lines(liste));
    lemma_netze_sortiert_einmalig(g);
    lemma_netze_sortiert_herkunft(g);
    let s = netze_sortiert(g);
    if s.len() > 12 {
        let t = s.take(12);
        assert forall|i: int, j: int| 0 <= i < j < t.len() implies netz_rang(#[trigger] t[i])
            >= netz_rang(#[trigger] t[j]) by {
            assert(t[i] == s[i] && t[j] == s[j]);
        }
        assert forall|i: int, j: int| 0 <= i < j < t.len() implies (#[trigger] t[i]).0 != (
        #[trigger] t[j]).0 by {
            assert(t[i] == s[i] && t[j] == s[j]);
        }
    }
}

// -------------------------------------------------------------- Bluetooth

/// Whether some line of `text`, trimmed, is `gesucht`.
pub open spec fn zeile_da(text: Seq<char>, gesucht: Seq<char>) -> bool {
    exists|i: int| 0 <= i < lines(text).len() && trim(#[trigger] lines(text)[i]) == gesucht
}

fn hat_zeile(text: &str, gesucht: &str) -> (r: bool)
    ensures
        r == zeile_da(text@, gesucht@),
{
    let ls = lines_of(&chars_of(text));
    let g = chars_of(gesucht);
    let mut i: usize = 0;
    while i < ls.len()
        invariant
            i <= ls@.len(),
            views(ls@) == lines(text@),
            g@ == gesucht@,
            forall|k: int| 0 <= k < i ==> trim(#[trigger] lines(text@)[k]) != gesucht@,
        decreases ls.len() - i,
    {
        let t = trim_chars(&ls[i]);
        assert(lines(text@)[i as int] == ls@[i as int]@);
        if same(&t, &g) {
            return true;
        }
        i = i + 1;
    }
    false
}

/// Whether `nmcli radio wifi` reports Wi-Fi as on.
pub fn wlan_an(radio: &str) -> (r: bool)
    ensures
        r == (trim(radio@) == "enabled"@),
{
    let t = trim_chars(&chars_of(radio));
    let e = chars_of("enabled");
    same(&t, &e)
}

/// Whether `bluetoothctl show` reports the adapter as powered.
pub fn bt_an(show: &str) -> (r: bool)
    ensures
        r == zeile_da(show@, "Powered: yes"@),
{
    hat_zeile(show, "Powered: yes")
}

/// Whether `bluetoothctl info` reports the device as connected.
pub fn bt_verbunden(info: &str) -> (r: bool)
    ensures
        r == zeile_da(info@, "Connected: yes"@),
{
    hat_zeile(info, "Connected: yes")
}

/// A Bluetooth device.
#[derive(Debug, Clone)]
pub struct Geraet {
    pub mac: String,
    pub name: String,
    pub verbunden: bool,
}

/// (mac, name, verbunden)
pub type GeraetSicht = (Seq<char>, Seq<char>, bool);

impl View for Geraet {
    type V = GeraetSicht;

    open spec fn view(&self) -> GeraetSicht {
        (self.mac@, self.name@, self.verbunden)
    }
}

/// The views of a sequence of devices.
pub open spec fn geraet_sichten(v: Seq<Geraet>) -> Seq<GeraetSicht> {
    v.map_values(|g: Geraet| g@)
}

/// MAC address and name from a line `Device AA:BB:CC:DD:EE:FF Name with spaces`.
pub open spec fn geraet_aus_zeile(z: Seq<char>) -> Option<(Seq<char>, Seq<char>)> {
    let t = splitn(z, ' ', 3);
    if t.len() == 3 && t[0] == "Device"@ {
        Some((t[1], t[2]))
    } else {
        None
    }
}

/// The (MAC, name) pairs of the lines of `bluetoothctl devices`, in order.
pub open spec fn geraete_zeilen(ls: Seq<Seq<char>>) -> Seq<(Seq<char>, Seq<char>)>
    decreases ls.len(),
{
    if ls.len() == 0 {
        Seq::empty()
    } else {
        match geraet_aus_zeile(ls.last()) {
            Some(g) => geraete_zeilen(ls.drop_last()).push(g),
            None => geraete_zeilen(ls.drop_last()),
        }
    }
}

/// The (MAC, name) pairs that `bluetoothctl devices` lists.
pub fn geraete_aus(devices: &str) -> (r: Vec<(String, String)>)
    ensures
        r@.map_values(|p: (String, String)| (p.0@, p.1@)) == geraete_zeilen(lines(devices@)),
{
    let ls = lines_of(&chars_of(devices));
    let device = chars_of("Device");
    let mut r: Vec<(String, String)> = Vec::new();
    let mut i: usize = 0;
    assert(views(ls@).take(0) =~= Seq::<Seq<char>>::empty());
    while i < ls.len()
        invariant
            i <= ls@.len(),
            views(ls@) == lines(devices@),
            device@ == "Device"@,
            r@.map_values(|p: (String, String)| (p.0@, p.1@)) == geraete_zeilen(
                views(ls@).take(i as int),
            ),
        decreases ls.len() - i,
    {
        assert(views(ls@).take(i + 1).drop_last() =~= views(ls@).take(i as int));
        assert(views(ls@).take(i + 1).last() == ls@[i as int]@);
        let t = splitn_at_char(&ls[i], ' ', 3);
        if t.len() == 3 && same(&t[0], &device) {
            assert(views(t@)[0] == t@[0]@ && views(t@)[1] == t@[1]@ && views(t@)[2] == t@[2]@);
            let ghost vorher = r@;
            r.push((string_of(&t[1]), string_of(&t[2])));
            assert(r@.map_values(|p: (String, String)| (p.0@, p.1@)) =~= vorher.map_values(
                |p: (String, String)| (p.0@, p.1@),
            ).push((t@[1]@, t@[2]@)));
        } else {
            proof {
                if t@.len() == 3 {
                    assert(views(t@)[0] == t@[0]@);
                }
            }
        }
        i = i + 1;
    }
    assert(views(ls@).take(ls@.len() as int) =~= views(ls@));
    r
}

/// Whether device `a` is listed before device `b`: connected ones first, then by name.
pub open spec fn geraet_vor(a: GeraetSicht, b: GeraetSicht) -> bool {
    (a.2 && !b.2) || (a.2 == b.2 && lex_kleiner(a.1, b.1))
}

/// Where a device goes in a sorted list: behind every device it does not come before.
pub open spec fn geraet_stelle(s: Seq<GeraetSicht>, g: GeraetSicht) -> nat
    decreases s.len(),
{
    if s.len() == 0 {
        0
    } else if !geraet_vor(g, s.last()) {
        s.len()
    } else {
        geraet_stelle(s.drop_last(), g)
    }
}

/// The devices sorted: connected first, then by name; equal ones keep their order.
pub open spec fn geraete_sortiert(s: Seq<GeraetSicht>) -> Seq<GeraetSicht>
    decreases s.len(),
{
    if s.len() == 0 {
        Seq::empty()
    } else {
        let t = geraete_sortiert(s.drop_last());
        t.insert(geraet_stelle(t, s.last()) as int, s.last())
    }
}

proof fn lemma_geraet_stelle(s: Seq<GeraetSicht>, g: GeraetSicht)
    ensures
        geraet_stelle(s, g) <= s.len(),
    decreases s.len(),
{
    if s.len() > 0 && geraet_vor(g, s.last()) {
        lemma_geraet_stelle(s.drop_last(), g);
    }
}

proof fn lemma_geraet_ordnung(a: GeraetSicht, b: GeraetSicht, c: GeraetSicht)
    ensures
        geraet_vor(a, b) ==> !geraet_vor(b, a),
        !geraet_vor(a, b) && !geraet_vor(b, c) ==> !geraet_vor(a, c),
{
    let (x, y, z) = (a.1, b.1, c.1);
    lemma_lex_ordnung(x, y, z);
    lemma_lex_ordnung(x, y, x);
    lemma_lex_ordnung(y, x, z);
    lemma_lex_ordnung(y, z, x);
    lemma_lex_ordnung(z, x, y);
    lemma_lex_ordnung(x, z, y);
    lemma_lex_ordnung(z, y, x);
    lemma_lex_ordnung(y, x, y);
}

proof fn lemma_geraet_stelle_fakten(t: Seq<GeraetSicht>, x: GeraetSicht)
    ensures
        geraet_stelle(t, x) <= t.len(),
        forall|q: int| geraet_stelle(t, x) <= q < t.len() ==> geraet_vor(x, #[trigger] t[q]),
        geraet_stelle(t, x) > 0 ==> !geraet_vor(x, t[geraet_stelle(t, x) - 1]),
    decreases t.len(),
{
    lemma_geraet_stelle(t, x);
    if t.len() > 0 && geraet_vor(x, t.last()) {
        let u = t.drop_last();
        lemma_geraet_stelle_fakten(u, x);
        assert forall|q: int| geraet_stelle(t, x) <= q < t.len() implies geraet_vor(
            x,
            #[trigger] t[q],
        ) by {
            if q < t.len() - 1 {
                assert(t[q] == u[q]);
            }
        }
        if geraet_stelle(t, x) > 0 {
            assert(t[geraet_stelle(t, x) - 1] == u[geraet_stelle(u, x) - 1]);
        }
    }
}

/// The device list keeps every device and is in order: connected devices first, each
/// group by name.
pub proof fn lemma_geraete_geordnet(s: Seq<GeraetSicht>)
    ensures
        geraete_sortiert(s).len() == s.len(),
        forall|i: int, j: int|
            0 <= i < j < geraete_sortiert(s).len() ==> !geraet_vor(
                #[trigger] geraete_sortiert(s)[j],
                #[trigger] geraete_sortiert(s)[i],
            ),
    decreases s.len(),
{
    if s.len() > 0 {
        let t = geraete_sortiert(s.drop_last());
        let x = s.last();
        lemma_geraete_geordnet(s.drop_last());
        lemma_geraet_stelle_fakten(t, x);
        let p = geraet_stelle(t, x) as int;
        let r = geraete_sortiert(s);
        assert(r == t.insert(p, x));
        assert forall|i: int, j: int| 0 <= i < j < r.len() implies !geraet_vor(
            #[trigger] r[j],
            #[trigger] r[i],
        ) by {
            if j < p {
                assert(r[i] == t[i] && r[j] == t[j]);
            } else if j == p {
                assert(r[i] == t[i]);
                assert(r[j] == x);
                if i < p - 1 {
                    assert(!geraet_vor(t[p - 1], t[i]));
                    lemma_geraet_ordnung(x, t[p - 1], t[i]);
                }
            } else if i == p {
                assert(r[i] == x);
                assert(r[j] == t[j - 1]);
                lemma_geraet_ordnung(x, t[j - 1], x);
            } else if i < p {
                assert(r[i] == t[i]);
                assert(r[j] == t[j - 1]);
            } else {
                assert(r[i] == t[i - 1]);
                assert(r[j] == t[j - 1]);
            }
        }
    }
}

fn geraet_vor_exec(a: &Geraet, b: &Geraet) -> (r: bool)
    ensures
        r == geraet_vor(a@, b@),
{
    if a.verbunden != b.verbunden {
        a.verbunden
    } else {
        lex_kleiner_exec(&chars_of(a.name.as_str()), &chars_of(b.name.as_str()))
    }
}

/// The devices as the panel lists them: connected first, then by name.
pub fn geraete_ordnen(v: Vec<Geraet>) -> (r: Vec<Geraet>)
    ensures
        geraet_sichten(r@) == geraete_sortiert(geraet_sichten(v@)),
{
    let ghost g = geraet_sichten(v@);
    let mut t: Vec<Geraet> = Vec::new();
    let mut j: usize = 0;
    assert(g.take(0) =~= Seq::<GeraetSicht>::empty());
    while j < v.len()
        invariant
            j <= v@.len(),
            g == geraet_sichten(v@),
            geraet_sichten(t@) == geraete_sortiert(g.take(j as int)),
        decreases v.len() - j,
    {
        assert(g.take(j + 1).drop_last() =~= g.take(j as int));
        assert(g.take(j + 1).last() == v@[j as int]@);
        let x = Geraet { mac: v[j].mac.clone(), name: v[j].name.clone(), verbunden: v[j].verbunden };
        let ghost s = geraet_sichten(t@);
        let mut p = t.len();
        assert(s.take(p as int) =~= s);
        while p > 0 && geraet_vor_exec(&x, &t[p - 1])
            invariant
                p <= t@.len(),
                s == geraet_sichten(t@),
                geraet_stelle(s.take(p as int), x@) == geraet_stelle(s, x@),
            decreases p,
        {
            assert(s.take(p as int).drop_last() =~= s.take(p - 1));
            p = p - 1;
        }
        if p > 0 {
            assert(s.take(p as int).last() == s[p - 1]);
        }
        let ghost vorher = t@;
        t.insert(p, x);
        assert(geraet_sichten(t@) =~= geraet_sichten(vorher).insert(p as int, x@));
        j = j + 1;
    }
    assert(g.take(g.len() as int) =~= g);
    t
}

// ------------------------------------------------------------------ panel

/// What the system reports on Wi-Fi and Bluetooth.
pub struct Status {
    pub wlan_an: bool,
    pub netze: Vec<Netz>,
    pub bt_an: bool,
    pub geraete: Vec<Geraet>,
}

/// (wlan_an, netze, bt_an, geraete)
pub type StatusSicht = (bool, Seq<NetzSicht>, bool, Seq<GeraetSicht>);

impl View for Status {
    type V = StatusSicht;

    open spec fn view(&self) -> StatusSicht {
        (self.wlan_an, netz_sichten(self.netze@), self.bt_an, geraet_sichten(self.geraete@))
    }
}

impl Default for Status {
    fn default() -> (r: Status)
        ensures
            r@ == (false, Seq::<NetzSicht>::empty(), false, Seq::<GeraetSicht>::empty()),
    {
        let r = Status { wlan_an: false, netze: Vec::new(), bt_an: false, geraete: Vec::new() };
        assert(netz_sichten(r.netze@) =~= Seq::<NetzSicht>::empty());
        assert(geraet_sichten(r.geraete@) =~= Seq::<GeraetSicht>::empty());
        r
    }
}

/// The view of an optional text.
pub open spec fn opt_text(o: Option<&str>) -> Option<Seq<char>> {
    match o {
        Some(t) => Some(t@),
        None => None,
    }
}

/// The connection status as read: Wi-Fi on where `nmcli radio wifi` says `enabled`, and
/// then the networks of the list; Bluetooth on where `bluetoothctl show` has the line
/// `Powered: yes`, and then the devices, connected ones first. A radio that is off (or
/// could not be asked) lists nothing.
pub open spec fn status_spec(
    radio: Option<Seq<char>>,
    liste: Option<Seq<char>>,
    show: Option<Seq<char>>,
    geraete: Seq<GeraetSicht>,
) -> StatusSicht {
    let w = match radio {
        Some(r) => trim(r) == "enabled"@,
        None => false,
    };
    let b = match show {
        Some(t) => zeile_da(t, "Powered: yes"@),
        None => false,
    };
    (
        w,
        if w {
            match liste {
                Some(l) => netze_spec(l),
                None => Seq::empty(),
            }
        } else {
            Seq::empty()
        },
        b,
        if b {
            geraete_sortiert(geraete)
        } else {
            Seq::empty()
        },
    )
}

/// The status from the outputs of `nmcli radio wifi`, `nmcli -t -f IN-USE,SSID,SIGNAL,SECURITY
/// dev wifi list` and `bluetoothctl show` (each where the command ran), and the devices that
/// `bluetoothctl devices` lists with their connection state.
pub fn status_bauen(
    radio: Option<&str>,
    liste: Option<&str>,
    show: Option<&str>,
    geraete: Vec<Geraet>,
) -> (r: Status)
    ensures
        r@ == status_spec(opt_text(radio), opt_text(liste), opt_text(show), geraet_sichten(geraete@)),
{
    let w = match radio {
        Some(t) => wlan_an(t),
        None => false,
    };
    let netze = if w {
        match liste {
            Some(l) => netze_aus(l),
            None => Vec::new(),
        }
    } else {
        Vec::new()
    };
    let b = match show {
        Some(t) => bt_an(t),
        None => false,
    };
    let g = if b {
        geraete_ordnen(geraete)
    } else {
        Vec::new()
    };
    let r = Status { wlan_an: w, netze, bt_an: b, geraete: g };
    assert(r@ =~= status_spec(opt_text(radio), opt_text(liste), opt_text(show), geraet_sichten(geraete@)));
    r
}

/// The connections panel.
pub struct Panel {
    pub status: Status,
    pub laedt: bool,
    /// The SSID whose password is being asked for.
    pub passwort_fuer: Option<String>,
    pub passwort: String,
    /// The last outcome: success, and the text.
    pub meldung: Option<(bool, String)>,
}

/// What happens in the panel.
pub enum Msg {
    Neuladen,
    Geladen(Status),
    WlanSchalten(bool),
    BtSchalten(bool),
    /// Connect to a network; whether it is secured.
    Verbinden(String, bool),
    /// Typing into the password field; a text that starts with NUL opens the field for the
    /// SSID after it.
    PasswortTipp(String),
    PasswortAbschicken,
    PasswortAbbrechen,
    /// Connect or disconnect a device by MAC address.
    BtVerbinden(String, bool),
    Ergebnis(bool, String),
}

/// What the panel asks the system to do; each ends in a message back.
pub enum Aufgabe {
    Keine,
    /// Read the status anew (then `Geladen`).
    Erheben,
    /// Switch Wi-Fi, then read the status.
    WlanSchalten(bool),
    /// Switch Bluetooth, then read the status.
    BtSchalten(bool),
    /// Connect with a known profile (then `nach_verbinden`).
    Verbinden(String, bool),
    /// Connect with this password (then `nach_passwort`).
    MitPasswort(String, String),
    /// Connect or disconnect a device, then read the status.
    BtVerbinden(String, bool),
}

/// The views of what the panel asks for.
pub enum AufgabeSicht {
    Keine,
    Erheben,
    WlanSchalten(bool),
    BtSchalten(bool),
    Verbinden(Seq<char>, bool),
    MitPasswort(Seq<char>, Seq<char>),
    BtVerbinden(Seq<char>, bool),
}

impl View for Aufgabe {
    type V = AufgabeSicht;

    open spec fn view(&self) -> AufgabeSicht {
        match self {
            Aufgabe::Keine => AufgabeSicht::Keine,
            Aufgabe::Erheben => AufgabeSicht::Erheben,
            Aufgabe::WlanSchalten(an) => AufgabeSicht::WlanSchalten(*an),
            Aufgabe::BtSchalten(an) => AufgabeSicht::BtSchalten(*an),
            Aufgabe::Verbinden(ssid, g) => AufgabeSicht::Verbinden(ssid@, *g),
            Aufgabe::MitPasswort(ssid, pw) => AufgabeSicht::MitPasswort(ssid@, pw@),
            Aufgabe::BtVerbinden(mac, v) => AufgabeSicht::BtVerbinden(mac@, *v),
        }
    }
}

/// The view of an optional outcome.
pub open spec fn meldung_sicht(m: Option<(bool, String)>) -> Option<(bool, Seq<char>)> {
    match m {
        Some((ok, t)) => Some((ok, t@)),
        None => None,
    }
}

/// The view of an optional string.
pub open spec fn text_sicht(t: Option<String>) -> Option<Seq<char>> {
    match t {
        Some(x) => Some(x@),
        None => None,
    }
}

/// The marker before an SSID that opens the password field.
pub open spec fn passwort_marke(t: Seq<char>) -> Option<Seq<char>> {
    if t.len() > 0 && t[0] == '\0' {
        Some(t.skip(1))
    } else {
        None
    }
}

impl Panel {
    /// The panel before the first status: loading.
    pub fn new() -> (r: (Panel, Aufgabe))
        ensures
            r.0.status@ == (false, Seq::<NetzSicht>::empty(), false, Seq::<GeraetSicht>::empty()),
            r.0.laedt,
            r.0.passwort_fuer is None,
            r.0.passwort@ == Seq::<char>::empty(),
            r.0.meldung is None,
            r.1@ == AufgabeSicht::Erheben,
    {
        (
            Panel {
                status: Status::default(),
                laedt: true,
                passwort_fuer: None,
                passwort: String::new(),
                meldung: None,
            },
            Aufgabe::Erheben,
        )
    }

    /// The line under the panel.
    pub fn fusstext(&self) -> (r: String)
        ensures
            r@ == (if self.laedt {
                "Netze werden gesucht \u{2026}"@
            } else {
                "WLAN über NetworkManager, Bluetooth über BlueZ — Passwörter tippst immer du selbst"@
            }),
    {
        if self.laedt {
            string_of(&chars_of("Netze werden gesucht \u{2026}"))
        } else {
            string_of(
                &chars_of(
                    "WLAN über NetworkManager, Bluetooth über BlueZ — Passwörter tippst immer du selbst",
                ),
            )
        }
    }

    pub open spec fn status_nach(&self, m: Msg) -> StatusSicht {
        match m {
            Msg::Geladen(s) => s@,
            _ => self.status@,
        }
    }

    pub open spec fn laedt_nach(&self, m: Msg) -> bool {
        match m {
            Msg::Neuladen => true,
            Msg::Geladen(_) => false,
            Msg::WlanSchalten(_) => true,
            Msg::BtSchalten(_) => true,
            Msg::Verbinden(_, _) => true,
            Msg::PasswortTipp(t) => if passwort_marke(t@) is Some {
                false
            } else {
                self.laedt
            },
            Msg::PasswortAbschicken => if self.passwort_fuer is Some && self.passwort@.len() > 0 {
                true
            } else {
                self.laedt
            },
            Msg::BtVerbinden(_, _) => true,
            Msg::Ergebnis(_, _) => true,
            _ => self.laedt,
        }
    }

    pub open spec fn passwort_fuer_nach(&self, m: Msg) -> Option<Seq<char>> {
        match m {
            Msg::PasswortTipp(t) => match passwort_marke(t@) {
                Some(ssid) => Some(ssid),
                None => text_sicht(self.passwort_fuer),
            },
            Msg::PasswortAbschicken => None,
            Msg::PasswortAbbrechen => None,
            _ => text_sicht(self.passwort_fuer),
        }
    }

    pub open spec fn passwort_nach(&self, m: Msg) -> Seq<char> {
        match m {
            Msg::PasswortTipp(t) => match passwort_marke(t@) {
                Some(_) => Seq::empty(),
                None => t@,
            },
            Msg::PasswortAbschicken => Seq::empty(),
            Msg::PasswortAbbrechen => Seq::empty(),
            _ => self.passwort@,
        }
    }

    pub open spec fn meldung_nach(&self, m: Msg) -> Option<(bool, Seq<char>)> {
        match m {
            Msg::Neuladen => None,
            Msg::Verbinden(_, _) => None,
            Msg::Ergebnis(ok, t) => Some((ok, t@)),
            _ => meldung_sicht(self.meldung),
        }
    }

    pub open spec fn aufgabe_nach(&self, m: Msg) -> AufgabeSicht {
        match m {
            Msg::Neuladen => AufgabeSicht::Erheben,
            Msg::WlanSchalten(an) => AufgabeSicht::WlanSchalten(an),
            Msg::BtSchalten(an) => AufgabeSicht::BtSchalten(an),
            Msg::Verbinden(ssid, g) => AufgabeSicht::Verbinden(ssid@, g),
            Msg::PasswortAbschicken => match self.passwort_fuer {
                Some(ssid) => if self.passwort@.len() > 0 {
                    AufgabeSicht::MitPasswort(ssid@, self.passwort@)
                } else {
                    AufgabeSicht::Keine
                },
                None => AufgabeSicht::Keine,
            },
            Msg::BtVerbinden(mac, v) => AufgabeSicht::BtVerbinden(mac@, v),
            Msg::Ergebnis(_, _) => AufgabeSicht::Erheben,
            _ => AufgabeSicht::Keine,
        }
    }

    /// One message: the new state, and what the system is asked to do.
    pub fn update(&mut self, msg: Msg) -> (r: Aufgabe)
        ensures
            final(self).status@ == old(self).status_nach(msg),
            final(self).laedt == old(self).laedt_nach(msg),
            text_sicht(final(self).passwort_fuer) == old(self).passwort_fuer_nach(msg),
            final(self).passwort@ == old(self).passwort_nach(msg),
            meldung_sicht(final(self).meldung) == old(self).meldung_nach(msg),
            r@ == old(self).aufgabe_nach(msg),
    {
        match msg {
            Msg::Neuladen => {
                self.laedt = true;
                self.meldung = None;
                Aufgabe::Erheben
            },
            Msg::Geladen(s) => {
                self.status = s;
                self.laedt = false;
                Aufgabe::Keine
            },
            Msg::WlanSchalten(an) => {
                self.laedt = true;
                Aufgabe::WlanSchalten(an)
            },
            Msg::BtSchalten(an) => {
                self.laedt = true;
                Aufgabe::BtSchalten(an)
            },
            Msg::Verbinden(ssid, g) => {
                self.meldung = None;
                self.laedt = true;
                Aufgabe::Verbinden(ssid, g)
            },
            Msg::PasswortTipp(t) => {
                let v = chars_of(t.as_str());
                if v.len() > 0 && v[0] == '\0' {
                    let ssid = slice(&v, 1, v.len());
                    assert(ssid@ =~= v@.skip(1));
                    self.passwort_fuer = Some(string_of(&ssid));
                    self.passwort = String::new();
                    self.laedt = false;
                } else {
                    self.passwort = t;
                }
                Aufgabe::Keine
            },
            Msg::PasswortAbschicken => {
                let fuer = self.passwort_fuer.take();
                let mut pw = String::new();
                std::mem::swap(&mut pw, &mut self.passwort);
                match fuer {
                    Some(ssid) => {
                        if chars_of(pw.as_str()).len() == 0 {
                            Aufgabe::Keine
                        } else {
                            self.laedt = true;
                            Aufgabe::MitPasswort(ssid, pw)
                        }
                    },
                    None => Aufgabe::Keine,
                }
            },
            Msg::PasswortAbbrechen => {
                self.passwort_fuer = None;
                self.passwort = String::new();
                Aufgabe::Keine
            },
            Msg::BtVerbinden(mac, v) => {
                self.laedt = true;
                Aufgabe::BtVerbinden(mac, v)
            },
            Msg::Ergebnis(ok, t) => {
                self.meldung = Some((ok, t));
                self.laedt = true;
                Aufgabe::Erheben
            },
        }
    }
}

/// `„ssid“` in German quotation marks.
pub open spec fn zitiert(ssid: Seq<char>) -> Seq<char> {
    seq!['\u{201e}'] + ssid + seq!['\u{201c}']
}

fn zitat(ssid: &String) -> (r: Vec<char>)
    ensures
        r@ == zitiert(ssid@),
{
    let mut a: Vec<char> = Vec::new();
    a.push('\u{201e}');
    let mut b: Vec<char> = Vec::new();
    b.push('\u{201c}');
    let r = concat(&concat(&a, &chars_of(ssid.as_str())), &b);
    assert(a@ =~= seq!['\u{201e}'] && b@ =~= seq!['\u{201c}']);
    r
}

/// The message after connecting with a known profile: success; else, for a secured
/// network, the password field; else the failure.
pub fn nach_verbinden(ok: bool, ssid: String, gesichert: bool) -> (r: Msg)
    ensures
        ok ==> (r matches Msg::Ergebnis(true, t) && t@ == "Mit "@ + zitiert(ssid@) + " verbunden"@),
        !ok && gesichert ==> (r matches Msg::PasswortTipp(t) && t@ == seq!['\0'] + ssid@),
        !ok && !gesichert ==> (r matches Msg::Ergebnis(false, t) && t@ == "Verbindung mit "@
            + zitiert(ssid@) + " fehlgeschlagen"@),
{
    if ok {
        let t = concat(&concat(&chars_of("Mit "), &zitat(&ssid)), &chars_of(" verbunden"));
        Msg::Ergebnis(true, string_of(&t))
    } else if gesichert {
        let mut nul: Vec<char> = Vec::new();
        nul.push('\0');
        let t = concat(&nul, &chars_of(ssid.as_str()));
        assert(nul@ =~= seq!['\0']);
        Msg::PasswortTipp(string_of(&t))
    } else {
        let t = concat(
            &concat(&chars_of("Verbindung mit "), &zitat(&ssid)),
            &chars_of(" fehlgeschlagen"),
        );
        Msg::Ergebnis(false, string_of(&t))
    }
}

/// The message after connecting with a typed password.
pub fn nach_passwort(ok: bool, ssid: String) -> (r: Msg)
    ensures
        r matches Msg::Ergebnis(o, t) && o == ok && t@ == (if ok {
            "Mit "@ + zitiert(ssid@) + " verbunden"@
        } else {
            "Passwort für "@ + zitiert(ssid@) + " abgelehnt"@
        }),
{
    if ok {
        let t = concat(&concat(&chars_of("Mit "), &zitat(&ssid)), &chars_of(" verbunden"));
        Msg::Ergebnis(true, string_of(&t))
    } else {
        let t = concat(&concat(&chars_of("Passwort für "), &zitat(&ssid)), &chars_of(" abgelehnt"));
        Msg::Ergebnis(false, string_of(&t))
    }
}

/// Passwords are typed by the person: the panel sends a password only on "submit", only
/// the non-empty text typed into the field opened for that network, and submitting always
/// empties the field.
pub proof fn lemma_passwort_nur_getippt(p: Panel, m: Msg)
    ensures
        p.aufgabe_nach(m) matches AufgabeSicht::MitPasswort(ssid, pw) ==> {
            &&& m is PasswortAbschicken
            &&& text_sicht(p.passwort_fuer) == Some(ssid)
            &&& pw == p.passwort@
            &&& pw.len() > 0
        },
        m is PasswortAbschicken ==> p.passwort_nach(m).len() == 0 && p.passwort_fuer_nach(m) is None,
{
}

} // verus!
