//! The installer: which disks may be targets, the first account, and the steps of the
//! assistant with the typed-name confirmation before anything is written.

use vstd::prelude::*;
use crate::text::{
    rfind, chars_of, concat, join, join_with, lines, lines_of, parse_u64, parse_unsigned, same, slice,
    split_whitespace, string_of, trim, trim_chars, views, words,
};

verus! {

// ------------------------------------------------------------------ disks

pub open spec fn ascii_digit(c: char) -> bool {
    '0' <= c <= '9'
}

/// Whether `s` starts with `p`.
pub open spec fn beginnt(s: Seq<char>, p: Seq<char>) -> bool {
    p.len() <= s.len() && s.take(p.len() as int) == p
}

/// `s` without any leading repetitions of `/dev/`.
pub open spec fn ohne_dev(s: Seq<char>) -> Seq<char>
    decreases s.len(),
{
    if beginnt(s, "/dev/"@) && "/dev/"@.len() > 0 {
        ohne_dev(s.skip("/dev/"@.len() as int))
    } else {
        s
    }
}

/// `s` without trailing ASCII digits.
pub open spec fn ohne_endziffern(s: Seq<char>) -> Seq<char>
    decreases s.len(),
{
    if s.len() > 0 && ascii_digit(s.last()) {
        ohne_endziffern(s.drop_last())
    } else {
        s
    }
}

/// Device names whose disk number belongs to the disk itself; partitions add `p` and a number.
pub open spec fn p_marker(p: Seq<char>) -> bool {
    beginnt(p, "nvme"@) || beginnt(p, "mmcblk"@) || beginnt(p, "loop"@) || beginnt(p, "md"@)
}

/// The base disk of a device: `sda2` → `sda`; `nvme0n1p2` → `nvme0n1`; whole disks stay.
pub open spec fn basis_spec(part: Seq<char>) -> Seq<char> {
    let p = ohne_dev(part);
    if p_marker(p) {
        match rfind(p, 'p') {
            Some(pos) => {
                let vor = p.take(pos as int);
                let nach = p.skip(pos + 1int);
                if vor.len() > 0 && ascii_digit(vor.last()) && nach.len() > 0 && (forall|i: int|
                    0 <= i < nach.len() ==> ascii_digit(#[trigger] nach[i])) {
                    vor
                } else {
                    p
                }
            },
            None => p,
        }
    } else {
        ohne_endziffern(p)
    }
}

/// Whether a device name has the form of a partition behind a disk whose number belongs to
/// it: a `p`, a digit before it, and only digits after it.
pub open spec fn teil_form(p: Seq<char>) -> bool {
    match rfind(p, 'p') {
        Some(pos) => {
            let vor = p.take(pos as int);
            let nach = p.skip(pos + 1int);
            vor.len() > 0 && ascii_digit(vor.last()) && nach.len() > 0 && (forall|i: int|
                0 <= i < nach.len() ==> ascii_digit(#[trigger] nach[i]))
        },
        None => false,
    }
}

proof fn lemma_rfind_stelle(s: Seq<char>, c: char)
    ensures
        rfind(s, c) matches Some(i) ==> i < s.len(),
    decreases s.len(),
{
    if s.len() > 0 {
        lemma_rfind_stelle(s.drop_last(), c);
    }
}

proof fn lemma_ohne_dev_rest(s: Seq<char>)
    ensures
        !beginnt(ohne_dev(s), "/dev/"@),
    decreases s.len(),
{
    reveal_strlit("/dev/");
    if beginnt(s, "/dev/"@) {
        lemma_ohne_dev_rest(s.skip(5));
    }
}

proof fn lemma_endziffern(s: Seq<char>)
    ensures
        ohne_endziffern(s).len() <= s.len(),
        ohne_endziffern(s) == s.take(ohne_endziffern(s).len() as int),
        ohne_endziffern(ohne_endziffern(s)) == ohne_endziffern(s),
    decreases s.len(),
{
    if s.len() > 0 && ascii_digit(s.last()) {
        lemma_endziffern(s.drop_last());
        let r = ohne_endziffern(s.drop_last());
        assert(s.drop_last().take(r.len() as int) =~= s.take(r.len() as int));
    } else {
        assert(s.take(s.len() as int) =~= s);
    }
}

/// A prefix that starts with `q` belongs to a text that starts with `q`.
proof fn lemma_praefix_beginnt(s: Seq<char>, k: int, q: Seq<char>)
    requires
        0 <= k <= s.len(),
        beginnt(s.take(k), q),
    ensures
        beginnt(s, q),
{
    assert(s.take(k).take(q.len() as int) =~= s.take(q.len() as int));
}

/// A prefix that ends in a digit keeps a leading word without digits.
proof fn lemma_marker_bleibt(p: Seq<char>, m: Seq<char>, k: int)
    requires
        beginnt(p, m),
        forall|i: int| 0 <= i < m.len() ==> !ascii_digit(#[trigger] m[i]),
        0 < k <= p.len(),
        ascii_digit(p[k - 1]),
    ensures
        beginnt(p.take(k), m),
{
    if k - 1 < m.len() {
        assert(p.take(m.len() as int)[k - 1] == p[k - 1]);
    }
    assert(p.take(k).take(m.len() as int) =~= p.take(m.len() as int));
}

/// The base of a device is itself again its base, except where that base has the form of a
/// partition of a disk whose number belongs to it (`nvme0n1p2p3` → `nvme0n1p2` →
/// `nvme0n1`).
pub proof fn lemma_basis_idempotent(part: Seq<char>)
    requires
        !(p_marker(basis_spec(part)) && teil_form(basis_spec(part))),
    ensures
        basis_spec(basis_spec(part)) == basis_spec(part),
{
    reveal_strlit("/dev/");
    reveal_strlit("nvme");
    reveal_strlit("mmcblk");
    reveal_strlit("loop");
    reveal_strlit("md");
    let p = ohne_dev(part);
    let r = basis_spec(part);
    lemma_ohne_dev_rest(part);
    lemma_rfind_stelle(p, 'p');
    // r is a prefix of p
    let k: int = if p_marker(p) {
        match rfind(p, 'p') {
            Some(pos) => if teil_form(p) {
                pos as int
            } else {
                p.len() as int
            },
            None => p.len() as int,
        }
    } else {
        lemma_endziffern(p);
        ohne_endziffern(p).len() as int
    };
    if p_marker(p) {
        assert(teil_form(p) == (r != p)) by {
            match rfind(p, 'p') {
                Some(pos) => assert(p.take(pos as int).len() < p.len()),
                None => {},
            }
        }
    }
    assert(p.take(p.len() as int) =~= p);
    assert(r == p.take(k));
    if beginnt(r, "/dev/"@) {
        lemma_praefix_beginnt(p, k, "/dev/"@);
    }
    assert(ohne_dev(r) == r);
    if p_marker(p) {
        if r != p {
            assert(ascii_digit(p[k - 1]));
            if beginnt(p, "nvme"@) {
                lemma_marker_bleibt(p, "nvme"@, k);
            } else if beginnt(p, "mmcblk"@) {
                lemma_marker_bleibt(p, "mmcblk"@, k);
            } else if beginnt(p, "loop"@) {
                lemma_marker_bleibt(p, "loop"@, k);
            } else {
                lemma_marker_bleibt(p, "md"@, k);
            }
        }
    } else {
        if p_marker(r) {
            if beginnt(r, "nvme"@) {
                lemma_praefix_beginnt(p, k, "nvme"@);
            } else if beginnt(r, "mmcblk"@) {
                lemma_praefix_beginnt(p, k, "mmcblk"@);
            } else if beginnt(r, "loop"@) {
                lemma_praefix_beginnt(p, k, "loop"@);
            } else {
                lemma_praefix_beginnt(p, k, "md"@);
            }
        }
    }
}

/// A whole disk's name (without `/dev/`): for disks whose number belongs to them
/// (`nvme0n1`, `mmcblk2`, `loop7`, `md127`) one ending in a digit and not of a partition's
/// form; for the others (`sda`, `vdb`) one ending in something else than a digit.
pub open spec fn ganze_platte(d: Seq<char>) -> bool {
    &&& d.len() > 0
    &&& !beginnt(d, "/dev/"@)
    &&& if p_marker(d) {
        ascii_digit(d.last()) && !teil_form(d)
    } else {
        !ascii_digit(d.last())
    }
}

/// The name of partition `k` of a whole disk: `sda` + `2`, `nvme0n1` + `p` + `2`.
pub open spec fn teil_name(d: Seq<char>, k: Seq<char>) -> Seq<char> {
    if p_marker(d) {
        d + seq!['p'] + k
    } else {
        d + k
    }
}

/// Whether all characters are ASCII digits.
pub open spec fn nur_ziffern(k: Seq<char>) -> bool {
    forall|i: int| 0 <= i < k.len() ==> ascii_digit(#[trigger] k[i])
}

/// Appending characters of which none occurs in `m` changes nothing about starting with `m`.
proof fn lemma_beginnt_anhang(d: Seq<char>, t: Seq<char>, m: Seq<char>)
    requires
        forall|i: int, j: int| 0 <= i < t.len() && 0 <= j < m.len() ==> #[trigger] t[i] != #[trigger] m[j],
    ensures
        beginnt(d + t, m) == beginnt(d, m),
{
    if m.len() <= d.len() {
        assert((d + t).take(m.len() as int) =~= d.take(m.len() as int));
    } else if beginnt(d + t, m) && t.len() > 0 {
        assert((d + t).take(m.len() as int)[d.len() as int] == t[0]);
        assert(m[d.len() as int] == t[0]);
    } else if t.len() == 0 {
        assert(d + t =~= d);
    }
}

proof fn lemma_rfind_anhang(s: Seq<char>, t: Seq<char>, c: char)
    requires
        !t.contains(c),
    ensures
        rfind(s + t, c) == rfind(s, c),
    decreases t.len(),
{
    if t.len() == 0 {
        assert(s + t =~= s);
    } else {
        assert((s + t).drop_last() =~= s + t.drop_last());
        assert(t.last() == t[t.len() - 1]);
        assert forall|i: int| 0 <= i < t.drop_last().len() implies t.drop_last()[i] != c by {
            assert(t.drop_last()[i] == t[i]);
        }
        lemma_rfind_anhang(s, t.drop_last(), c);
    }
}

proof fn lemma_endziffern_anhang(d: Seq<char>, k: Seq<char>)
    requires
        nur_ziffern(k),
    ensures
        ohne_endziffern(d + k) == ohne_endziffern(d),
    decreases k.len(),
{
    if k.len() == 0 {
        assert(d + k =~= d);
    } else {
        assert((d + k).drop_last() =~= d + k.drop_last());
        assert((d + k).last() == k[k.len() - 1]);
        lemma_endziffern_anhang(d, k.drop_last());
    }
}

proof fn lemma_ohne_dev_eins(d: Seq<char>)
    requires
        !beginnt(d, "/dev/"@),
    ensures
        ohne_dev("/dev/"@ + d) == d,
        ohne_dev(d) == d,
{
    reveal_strlit("/dev/");
    assert(ohne_dev(d) == d);
    assert("/dev/"@.len() == 5);
    assert(("/dev/"@ + d).take(5) =~= "/dev/"@);
    assert(beginnt("/dev/"@ + d, "/dev/"@));
    assert(("/dev/"@ + d).skip(5) =~= d);
    assert(ohne_dev("/dev/"@ + d) == ohne_dev(("/dev/"@ + d).skip("/dev/"@.len() as int)));
}

/// Whole disks stay as they are, with or without `/dev/` in front, and each partition of a
/// whole disk leads back to it: `sda2` → `sda`, `nvme0n1p2` → `nvme0n1`.
pub proof fn lemma_basis_ganze_platte(d: Seq<char>, k: Seq<char>)
    requires
        ganze_platte(d),
        k.len() > 0,
        nur_ziffern(k),
    ensures
        basis_spec(d) == d,
        basis_spec("/dev/"@ + d) == d,
        basis_spec("/dev/"@ + teil_name(d, k)) == d,
{
    reveal_strlit("/dev/");
    reveal_strlit("nvme");
    reveal_strlit("mmcblk");
    reveal_strlit("loop");
    reveal_strlit("md");
    lemma_ohne_dev_eins(d);
    let t = teil_name(d, k);
    let anhang = if p_marker(d) {
        seq!['p'] + k
    } else {
        k
    };
    assert(t =~= d + anhang);
    assert forall|i: int, j: int| 0 <= i < anhang.len() && 0 <= j < "/dev/"@.len() implies #[trigger] anhang[i]
        != #[trigger] "/dev/"@[j] by {
        if p_marker(d) && i == 0 {
            assert(anhang[i] == 'p');
        } else if p_marker(d) {
            assert(anhang[i] == k[i - 1]);
        }
    }
    lemma_beginnt_anhang(d, anhang, "/dev/"@);
    lemma_ohne_dev_eins(t);
    if p_marker(d) {
        if beginnt(d, "nvme"@) {
            assert(t.take(4) =~= d.take(4));
        } else if beginnt(d, "mmcblk"@) {
            assert(t.take(6) =~= d.take(6));
        } else if beginnt(d, "loop"@) {
            assert(t.take(4) =~= d.take(4));
        } else {
            assert(t.take(2) =~= d.take(2));
        }
        assert(!k.contains('p'));
        lemma_rfind_anhang(d.push('p'), k, 'p');
        assert(d + seq!['p'] + k =~= d.push('p') + k);
        assert(d.push('p').last() == 'p');
        let pos = d.len() as int;
        assert(t.take(pos) =~= d);
        assert(t.skip(pos + 1) =~= k);
    } else {
        lemma_beginnt_anhang(d, k, "nvme"@);
        lemma_beginnt_anhang(d, k, "mmcblk"@);
        lemma_beginnt_anhang(d, k, "loop"@);
        lemma_beginnt_anhang(d, k, "md"@);
        lemma_endziffern_anhang(d, k);
    }
}

fn beginnt_mit(s: &Vec<char>, p: &str) -> (r: bool)
    ensures
        r == beginnt(s@, p@),
{
    let pv = chars_of(p);
    if pv.len() > s.len() {
        return false;
    }
    let kopf = slice(s, 0, pv.len());
    same(&kopf, &pv)
}

/// Basis disk of a device; idempotent on whole disks.
pub fn basis(part: &str) -> (r: String)
    ensures
        r@ == basis_spec(part@),
{
    let mut p = chars_of(part);
    proof { reveal_strlit("/dev/"); }
    while beginnt_mit(&p, "/dev/")
        invariant
            ohne_dev(p@) == ohne_dev(part@),
        decreases p@.len(),
    {
        proof {
            reveal_strlit("/dev/");
        }
        let q = slice(&p, 5, p.len());
        assert(q@ =~= p@.skip(5));
        p = q;
    }
    if beginnt_mit(&p, "nvme") || beginnt_mit(&p, "mmcblk") || beginnt_mit(&p, "loop")
        || beginnt_mit(&p, "md") {
        // rfind('p')
        let mut k = p.len();
        assert(p@.take(k as int) =~= p@);
        while k > 0 && p[k - 1] != 'p'
            invariant
                k <= p@.len(),
                rfind(p@.take(k as int), 'p') == rfind(p@, 'p'),
            decreases k,
        {
            assert(p@.take(k as int).drop_last() =~= p@.take(k - 1));
            k = k - 1;
        }
        if k > 0 {
            let pos = k - 1;
            assert(p@.take(k as int).last() == 'p');
            assert(rfind(p@, 'p') == Some(pos as nat));
            let vor = slice(&p, 0, pos);
            let nach = slice(&p, pos + 1, p.len());
            let vor_ok = vor.len() > 0 && '0' <= vor[vor.len() - 1] && vor[vor.len() - 1] <= '9';
            let mut alle = nach.len() > 0;
            let mut j: usize = 0;
            while j < nach.len()
                invariant
                    j <= nach@.len(),
                    alle == (nach@.len() > 0 && forall|i: int| 0 <= i < j ==> ascii_digit(#[trigger] nach@[i])),
                decreases nach.len() - j,
            {
                if !('0' <= nach[j] && nach[j] <= '9') {
                    alle = false;
                }
                j = j + 1;
            }
            if vor_ok && alle {
                return string_of(&vor);
            }
        } else {
            assert(p@.take(0) =~= Seq::<char>::empty());
        }
        return string_of(&p);
    }
    let mut e = p.len();
    assert(p@.take(e as int) =~= p@);
    while e > 0 && '0' <= p[e - 1] && p[e - 1] <= '9'
        invariant
            e <= p@.len(),
            ohne_endziffern(p@.take(e as int)) == ohne_endziffern(p@),
        decreases e,
    {
        assert(p@.take(e as int).drop_last() =~= p@.take(e - 1));
        e = e - 1;
    }
    let r = slice(&p, 0, e);
    assert(r@ =~= p@.take(e as int));
    string_of(&r)
}

/// A disk that the installer offers.
#[derive(Debug, Clone)]
pub struct Disk {
    /// `/dev/sda`
    pub dev: String,
    /// `sda`
    pub kurz: String,
    /// Bytes.
    pub groesse: u64,
    pub modell: String,
    /// A USB stick or similar.
    pub entfernbar: bool,
    /// The system runs from this disk right now: never a target.
    pub live: bool,
}

/// (dev, kurz, groesse, modell, entfernbar, live)
pub type DiskSicht = (Seq<char>, Seq<char>, u64, Seq<char>, bool, bool);

impl View for Disk {
    type V = DiskSicht;

    open spec fn view(&self) -> DiskSicht {
        (self.dev@, self.kurz@, self.groesse, self.modell@, self.entfernbar, self.live)
    }
}

/// Name prefixes of RAM disks, loops and optical drives: never an installation target.
pub open spec fn pseudo_geraet(name: Seq<char>) -> bool {
    beginnt(name, "zram"@) || beginnt(name, "loop"@) || beginnt(name, "sr"@) || beginnt(name, "md"@)
        || beginnt(name, "fd"@) || beginnt(name, "ram"@)
}

/// The disk that one line of `lsblk -dnb -o NAME,SIZE,TYPE,RM,MODEL` describes, if it is a
/// real disk of at least 1 GB; `live` are the base disks in use.
pub open spec fn disk_aus_zeile(zeile: Seq<char>, live: Seq<Seq<char>>) -> Option<DiskSicht> {
    let f = words(zeile);
    if f.len() < 4 {
        None
    } else {
        let name = f[0];
        let groesse = match parse_unsigned(f[1], u64::MAX as nat) {
            Some(g) => g as u64,
            None => 0,
        };
        let modell = join(f.skip(4), seq![' ']);
        if f[2] != "disk"@ || pseudo_geraet(name) || groesse < 1_000_000_000 {
            None
        } else {
            Some((
                "/dev/"@ + name,
                name,
                groesse,
                if modell.len() == 0 {
                    "Datenträger"@
                } else {
                    modell
                },
                f[3] == "1"@,
                live.contains(name),
            ))
        }
    }
}

/// The disks that the lines of `lsblk` describe, in order.
pub open spec fn disks_spec(ls: Seq<Seq<char>>, live: Seq<Seq<char>>) -> Seq<DiskSicht>
    decreases ls.len(),
{
    if ls.len() == 0 {
        seq![]
    } else {
        match disk_aus_zeile(ls.last(), live) {
            Some(d) => disks_spec(ls.drop_last(), live).push(d),
            None => disks_spec(ls.drop_last(), live),
        }
    }
}

/// The views of a sequence of disks.
pub open spec fn disk_sichten(v: Seq<Disk>) -> Seq<DiskSicht> {
    v.map_values(|d: Disk| d@)
}

/// The views of a sequence of strings.
pub open spec fn texte(v: Seq<String>) -> Seq<Seq<char>> {
    v.map_values(|s: String| s@)
}

fn enthaelt_text(v: &Vec<String>, x: &Vec<char>) -> (r: bool)
    ensures
        r == texte(v@).contains(x@),
{
    let mut i: usize = 0;
    while i < v.len()
        invariant
            i <= v@.len(),
            forall|k: int| 0 <= k < i ==> v@[k]@ != x@,
        decreases v.len() - i,
    {
        let e = chars_of(v[i].as_str());
        if same(&e, x) {
            assert(texte(v@)[i as int] == x@);
            return true;
        }
        i = i + 1;
    }
    assert forall|k: int| 0 <= k < texte(v@).len() implies texte(v@)[k] != x@ by {
        assert(texte(v@)[k] == v@[k]@);
    }
    false
}

fn disk_aus(zeile: &Vec<char>, live: &Vec<String>) -> (r: Option<Disk>)
    ensures
        match disk_aus_zeile(zeile@, texte(live@)) {
            Some(d) => r matches Some(x) && x@ == d,
            None => r is None,
        },
{
    let f = split_whitespace(zeile);
    if f.len() < 4 {
        return None;
    }
    let ghost fs = views(f@);
    assert(fs[0] == f@[0]@ && fs[1] == f@[1]@ && fs[2] == f@[2]@ && fs[3] == f@[3]@);
    let name = &f[0];
    let groesse: u64 = match parse_u64(&f[1]) {
        Some(g) => g,
        None => 0,
    };
    let rest = slice_vecs(&f, 4);
    let mut sp: Vec<char> = Vec::new();
    sp.push(' ');
    let modell = join_with(&rest, &sp);
    assert(sp@ =~= seq![' ']);
    assert(views(rest@) =~= fs.skip(4));
    let disk = chars_of("disk");
    let ist_disk = same(&f[2], &disk);
    let pseudo = beginnt_mit(name, "zram") || beginnt_mit(name, "loop") || beginnt_mit(name, "sr")
        || beginnt_mit(name, "md") || beginnt_mit(name, "fd") || beginnt_mit(name, "ram");
    if !ist_disk || pseudo || groesse < 1_000_000_000 {
        return None;
    }
    let dev = concat(&chars_of("/dev/"), name);
    let eins = chars_of("1");
    Some(Disk {
        dev: string_of(&dev),
        kurz: string_of(name),
        groesse,
        modell: if modell.len() == 0 {
            string_of(&chars_of("Datenträger"))
        } else {
            string_of(&modell)
        },
        entfernbar: same(&f[3], &eins),
        live: enthaelt_text(live, name),
    })
}

fn slice_vecs(v: &Vec<Vec<char>>, from: usize) -> (r: Vec<Vec<char>>)
    requires
        from <= v@.len(),
    ensures
        views(r@) == views(v@).skip(from as int),
{
    let mut r: Vec<Vec<char>> = Vec::new();
    let mut i = from;
    while i < v.len()
        invariant
            from <= i <= v@.len(),
            views(r@) == views(v@).subrange(from as int, i as int),
        decreases v.len() - i,
    {
        let e = slice(&v[i], 0, v[i].len());
        assert(e@ =~= v@[i as int]@);
        let ghost vorher = r@;
        r.push(e);
        assert(views(r@) =~= views(vorher).push(e@));
        assert(views(r@) =~= views(v@).subrange(from as int, i + 1));
        i = i + 1;
    }
    r
}

/// The installable disks from the output of `lsblk -dnb -o NAME,SIZE,TYPE,RM,MODEL` and the
/// base disks in use: disks of type `disk`, no RAM/loop/optical devices, at least 1 GB.
pub fn disks_aus(lsblk: &str, live: &Vec<String>) -> (r: Vec<Disk>)
    ensures
        disk_sichten(r@) == disks_spec(lines(lsblk@), texte(live@)),
{
    let v = chars_of(lsblk);
    let ls = lines_of(&v);
    let mut r: Vec<Disk> = Vec::new();
    let mut i: usize = 0;
    assert(views(ls@).take(0) =~= Seq::<Seq<char>>::empty());
    while i < ls.len()
        invariant
            i <= ls@.len(),
            views(ls@) == lines(lsblk@),
            disk_sichten(r@) == disks_spec(views(ls@).take(i as int), texte(live@)),
        decreases ls.len() - i,
    {
        assert(views(ls@).take(i + 1).drop_last() =~= views(ls@).take(i as int));
        assert(views(ls@).take(i + 1).last() == ls@[i as int]@);
        if let Some(d) = disk_aus(&ls[i], live) {
            let ghost before = r@;
            r.push(d);
            assert(disk_sichten(r@) =~= disk_sichten(before).push(d@));
        }
        i = i + 1;
    }
    assert(views(ls@).take(ls@.len() as int) =~= views(ls@));
    r
}

// ---------------------------------------------------------------- account

/// The first user of the new system.
#[derive(Debug, Clone)]
pub struct Konto {
    pub rechner: String,
    pub nutzer: String,
    pub pw: String,
    pub pw2: String,
}

pub open spec fn ascii_alnum(c: char) -> bool {
    ('0' <= c <= '9') || ('a' <= c <= 'z') || ('A' <= c <= 'Z')
}

pub open spec fn ascii_klein(c: char) -> bool {
    'a' <= c <= 'z'
}

/// A host name: 1 to 63 ASCII letters, digits and dashes (after trimming), not starting
/// with a dash.
pub open spec fn rechner_ok_spec(rechner: Seq<char>) -> bool {
    let r = trim(rechner);
    r.len() > 0 && r.len() <= 63 && (forall|i: int| 0 <= i < r.len() ==> ascii_alnum(#[trigger] r[i])
        || r[i] == '-') && r[0] != '-'
}

/// A user name: (after trimming) a lowercase ASCII letter, then lowercase letters, digits
/// and dashes, at most 32 in all.
pub open spec fn nutzer_ok_spec(nutzer: Seq<char>) -> bool {
    let n = trim(nutzer);
    n.len() > 0 && ascii_klein(n[0]) && n.len() <= 32 && (forall|i: int|
        1 <= i < n.len() ==> ascii_klein(#[trigger] n[i]) || ascii_digit(n[i]) || n[i] == '-')
}

/// A password of at least four characters, typed the same twice.
pub open spec fn pw_ok_spec(pw: Seq<char>, pw2: Seq<char>) -> bool {
    pw.len() >= 4 && pw == pw2
}

impl Konto {
    pub fn rechner_ok(&self) -> (r: bool)
        ensures
            r == rechner_ok_spec(self.rechner@),
    {
        let r = trim_chars(&chars_of(self.rechner.as_str()));
        if r.len() == 0 || r.len() > 63 || r[0] == '-' {
            return false;
        }
        let mut i: usize = 0;
        while i < r.len()
            invariant
                i <= r@.len(),
                r@ == trim(self.rechner@),
                forall|k: int| 0 <= k < i ==> ascii_alnum(#[trigger] r@[k]) || r@[k] == '-',
            decreases r.len() - i,
        {
            let c = r[i];
            if !(('0' <= c && c <= '9') || ('a' <= c && c <= 'z') || ('A' <= c && c <= 'Z') || c
                == '-') {
                assert(!(ascii_alnum(r@[i as int]) || r@[i as int] == '-'));
                return false;
            }
            i = i + 1;
        }
        true
    }

    pub fn nutzer_ok(&self) -> (r: bool)
        ensures
            r == nutzer_ok_spec(self.nutzer@),
    {
        let n = trim_chars(&chars_of(self.nutzer.as_str()));
        if n.len() == 0 || !('a' <= n[0] && n[0] <= 'z') || n.len() > 32 {
            return false;
        }
        let mut i: usize = 1;
        while i < n.len()
            invariant
                1 <= i <= n@.len(),
                n@ == trim(self.nutzer@),
                forall|k: int|
                    1 <= k < i ==> ascii_klein(#[trigger] n@[k]) || ascii_digit(n@[k]) || n@[k]
                        == '-',
            decreases n.len() - i,
        {
            let c = n[i];
            if !(('a' <= c && c <= 'z') || ('0' <= c && c <= '9') || c == '-') {
                assert(!(ascii_klein(n@[i as int]) || ascii_digit(n@[i as int]) || n@[i as int] == '-'));
                return false;
            }
            i = i + 1;
        }
        true
    }

    pub fn pw_ok(&self) -> (r: bool)
        ensures
            r == pw_ok_spec(self.pw@, self.pw2@),
    {
        let a = chars_of(self.pw.as_str());
        let b = chars_of(self.pw2.as_str());
        a.len() >= 4 && same(&a, &b)
    }

    pub fn ok(&self) -> (r: bool)
        ensures
            r == (rechner_ok_spec(self.rechner@) && nutzer_ok_spec(self.nutzer@) && pw_ok_spec(
                self.pw@,
                self.pw2@,
            )),
    {
        self.rechner_ok() && self.nutzer_ok() && self.pw_ok()
    }
}


/// (rechner, nutzer, pw, pw2)
pub type KontoSicht = (Seq<char>, Seq<char>, Seq<char>, Seq<char>);

impl View for Konto {
    type V = KontoSicht;

    open spec fn view(&self) -> KontoSicht {
        (self.rechner@, self.nutzer@, self.pw@, self.pw2@)
    }
}

/// Whether an account may be created.
pub open spec fn konto_ok_spec(k: KontoSicht) -> bool {
    rechner_ok_spec(k.0) && nutzer_ok_spec(k.1) && pw_ok_spec(k.2, k.3)
}

impl Konto {
    /// A field-by-field copy.
    pub fn kopie(&self) -> (r: Konto)
        ensures
            r@ == self@,
    {
        Konto {
            rechner: self.rechner.clone(),
            nutzer: self.nutzer.clone(),
            pw: self.pw.clone(),
            pw2: self.pw2.clone(),
        }
    }

    /// The three lines that hand the account to the root helper: host name and user name,
    /// both trimmed, and the password hash.
    pub fn uebergabe(&self, hash: &str) -> (r: String)
        ensures
            r@ == trim(self.rechner@) + seq!['\n'] + trim(self.nutzer@) + seq!['\n'] + hash@
                + seq!['\n'],
    {
        let mut nl: Vec<char> = Vec::new();
        nl.push('\n');
        let a = concat(&trim_chars(&chars_of(self.rechner.as_str())), &nl);
        let b = concat(&a, &trim_chars(&chars_of(self.nutzer.as_str())));
        let c = concat(&b, &nl);
        let d = concat(&c, &chars_of(hash));
        let e = concat(&d, &nl);
        string_of(&e)
    }
}

/// Whether the output of `openssl passwd -6`, trimmed, is a SHA-512 crypt hash.
pub open spec fn hash_ok_spec(aus: Seq<char>) -> bool {
    beginnt(trim(aus), "$6$"@)
}

/// The trimmed hash, if the output is one.
pub fn hash_aus(aus: &str) -> (r: Option<String>)
    ensures
        match r {
            Some(h) => hash_ok_spec(aus@) && h@ == trim(aus@),
            None => !hash_ok_spec(aus@),
        },
{
    let h = trim_chars(&chars_of(aus));
    if beginnt_mit(&h, "$6$") {
        Some(string_of(&h))
    } else {
        None
    }
}

// -------------------------------------------------------------- assistant

/// What the installer creates: an installation on this device, or a stick that boots
/// straight into the installer.
#[derive(Debug, Clone, Copy, PartialEq, Eq, Structural)]
pub enum Modus {
    Geraet,
    Medium,
}

/// The steps of the assistant.
#[derive(Debug, Clone, Copy, PartialEq, Eq, Structural)]
pub enum Schritt {
    Willkommen,
    Ziel,
    Konto,
    Bestaetigen,
    Laeuft,
    Fertig,
    Fehler,
}

/// The state of the assistant.
pub struct Assistent {
    pub schritt: Schritt,
    pub modus: Modus,
    pub disks: Vec<Disk>,
    /// The chosen disk, an index into `disks`; nothing is chosen at the start.
    pub wahl: Option<usize>,
    pub konto: Konto,
    /// What was typed to confirm: the short device name.
    pub tipp: String,
    /// The run only plays the steps through and touches no disk.
    pub demo: bool,
    /// The helper's log of the current run, as last read.
    pub log: String,
}

/// What happens to the assistant. Where the disks are read anew, the event carries
/// the fresh listing.
pub enum Ereignis {
    /// The clock ticks; whether the helper has marked the run as done or as failed, and
    /// its log as it stands.
    Tick { fertig: bool, fehler: bool, log: String },
    NeuLesen(Vec<Disk>),
    ModusWeiter(Modus, Vec<Disk>),
    DiskWahl(usize),
    /// On to the next step; the listing is used when the welcome step is left.
    Weiter(Vec<Disk>),
    Zurueck,
    TippInput(String),
    KontoRechner(String),
    KontoNutzer(String),
    KontoPw(String),
    KontoPw2(String),
    Installieren,
}

/// The one thing the assistant asks the outside to do: install onto a device.
pub struct Auftrag {
    pub dev: String,
    pub konto: Konto,
    pub medium: bool,
    /// Only play the steps through.
    pub demo: bool,
}

/// (dev, konto, medium, demo)
pub type AuftragSicht = (Seq<char>, KontoSicht, bool, bool);

impl View for Auftrag {
    type V = AuftragSicht;

    open spec fn view(&self) -> AuftragSicht {
        (self.dev@, self.konto@, self.medium, self.demo)
    }
}

/// The chosen disk, while the choice points at a disk of the list that is not live.
pub open spec fn ziel_spec(disks: Seq<DiskSicht>, wahl: Option<usize>) -> Option<DiskSicht> {
    match wahl {
        Some(i) => if i < disks.len() && !disks[i as int].5 {
            Some(disks[i as int])
        } else {
            None
        },
        None => None,
    }
}

/// The step after "next".
pub open spec fn weiter_schritt(s: Schritt, m: Modus, ziel_ok: bool, konto_ok: bool) -> Schritt {
    match s {
        Schritt::Willkommen => Schritt::Ziel,
        Schritt::Ziel => if !ziel_ok {
            s
        } else if m == Modus::Medium {
            Schritt::Bestaetigen
        } else {
            Schritt::Konto
        },
        Schritt::Konto => if konto_ok {
            Schritt::Bestaetigen
        } else {
            s
        },
        _ => s,
    }
}

/// The step after "back".
pub open spec fn zurueck_schritt(s: Schritt, m: Modus) -> Schritt {
    match s {
        Schritt::Ziel => Schritt::Willkommen,
        Schritt::Konto => Schritt::Ziel,
        Schritt::Bestaetigen => if m == Modus::Medium {
            Schritt::Ziel
        } else {
            Schritt::Konto
        },
        _ => s,
    }
}

impl Assistent {
    pub open spec fn ziel_sicht(&self) -> Option<DiskSicht> {
        ziel_spec(disk_sichten(self.disks@), self.wahl)
    }

    /// Whether installing is allowed now: a valid target, and its short name typed.
    pub open spec fn darf_installieren(&self) -> bool {
        match self.ziel_sicht() {
            Some(d) => trim(self.tipp@) == d.1,
            None => false,
        }
    }

    /// The step after an event.
    pub open spec fn schritt_nach(&self, e: Ereignis) -> Schritt {
        match e {
            Ereignis::Tick { fertig, fehler, .. } => if self.schritt == Schritt::Laeuft && fertig {
                Schritt::Fertig
            } else if self.schritt == Schritt::Laeuft && fehler {
                Schritt::Fehler
            } else {
                self.schritt
            },
            Ereignis::ModusWeiter(_, _) => Schritt::Ziel,
            Ereignis::Weiter(_) => weiter_schritt(
                self.schritt,
                self.modus,
                self.ziel_sicht() is Some,
                konto_ok_spec(self.konto@),
            ),
            Ereignis::Zurueck => zurueck_schritt(self.schritt, self.modus),
            Ereignis::Installieren => if self.darf_installieren() {
                Schritt::Laeuft
            } else {
                self.schritt
            },
            _ => self.schritt,
        }
    }

    /// The mode after an event.
    pub open spec fn modus_nach(&self, e: Ereignis) -> Modus {
        match e {
            Ereignis::ModusWeiter(m, _) => m,
            _ => self.modus,
        }
    }

    /// The listed disks after an event.
    pub open spec fn disks_nach(&self, e: Ereignis) -> Seq<DiskSicht> {
        match e {
            Ereignis::NeuLesen(v) => disk_sichten(v@),
            Ereignis::ModusWeiter(_, v) => disk_sichten(v@),
            Ereignis::Weiter(v) => if self.schritt == Schritt::Willkommen {
                disk_sichten(v@)
            } else {
                disk_sichten(self.disks@)
            },
            _ => disk_sichten(self.disks@),
        }
    }

    /// The choice after an event: a live disk is never chosen, and a fresh listing drops a
    /// choice that no longer points at a valid target.
    pub open spec fn wahl_nach(&self, e: Ereignis) -> Option<usize> {
        match e {
            Ereignis::NeuLesen(v) => if ziel_spec(disk_sichten(v@), self.wahl) is None {
                None
            } else {
                self.wahl
            },
            Ereignis::DiskWahl(i) => if i < self.disks@.len() && !self.disks@[i as int].live {
                Some(i)
            } else {
                self.wahl
            },
            _ => self.wahl,
        }
    }

    /// The account after an event.
    pub open spec fn konto_nach(&self, e: Ereignis) -> KontoSicht {
        let k = self.konto@;
        match e {
            Ereignis::KontoRechner(x) => (x@, k.1, k.2, k.3),
            Ereignis::KontoNutzer(x) => (k.0, x@, k.2, k.3),
            Ereignis::KontoPw(x) => (k.0, k.1, x@, k.3),
            Ereignis::KontoPw2(x) => (k.0, k.1, k.2, x@),
            _ => k,
        }
    }

    /// The typed confirmation after an event: entering the confirmation step clears it.
    pub open spec fn tipp_nach(&self, e: Ereignis) -> Seq<char> {
        match e {
            Ereignis::TippInput(x) => x@,
            Ereignis::Weiter(_) => if self.schritt_nach(e) == Schritt::Bestaetigen
                && self.schritt != Schritt::Bestaetigen {
                Seq::empty()
            } else {
                self.tipp@
            },
            _ => self.tipp@,
        }
    }

    /// The install order an event gives: only "install", only onto the valid target whose
    /// short name was typed.
    pub open spec fn auftrag_nach(&self, e: Ereignis) -> Option<AuftragSicht> {
        match e {
            Ereignis::Installieren => match self.ziel_sicht() {
                Some(d) => if trim(self.tipp@) == d.1 {
                    Some((d.0, self.konto@, self.modus == Modus::Medium, self.demo))
                } else {
                    None
                },
                None => None,
            },
            _ => None,
        }
    }

    /// The log after an event: read anew on each tick of a run, and cleared when a run
    /// starts.
    pub open spec fn log_nach(&self, e: Ereignis) -> Seq<char> {
        match e {
            Ereignis::Tick { log, .. } => if self.schritt == Schritt::Laeuft {
                log@
            } else {
                self.log@
            },
            Ereignis::Installieren => if self.darf_installieren() {
                Seq::empty()
            } else {
                self.log@
            },
            _ => self.log@,
        }
    }

    /// The assistant at the start: nothing chosen, the host name preset to `matrix`, no log.
    pub fn neu(disks: Vec<Disk>, konto_zuerst: bool, demo: bool) -> (r: Assistent)
        ensures
            r.schritt == (if konto_zuerst {
                Schritt::Konto
            } else {
                Schritt::Willkommen
            }),
            r.modus == Modus::Geraet,
            disk_sichten(r.disks@) == disk_sichten(disks@),
            r.wahl is None,
            r.konto@ == ("matrix"@, Seq::<char>::empty(), Seq::<char>::empty(), Seq::<char>::empty()),
            r.tipp@ == Seq::<char>::empty(),
            r.demo == demo,
            r.log@ == Seq::<char>::empty(),
    {
        Assistent {
            schritt: if konto_zuerst {
                Schritt::Konto
            } else {
                Schritt::Willkommen
            },
            modus: Modus::Geraet,
            disks,
            wahl: None,
            konto: Konto {
                rechner: string_of(&chars_of("matrix")),
                nutzer: String::new(),
                pw: String::new(),
                pw2: String::new(),
            },
            tipp: String::new(),
            demo,
            log: String::new(),
        }
    }

    /// Index of the chosen disk, while it is a valid target.
    pub fn ziel(&self) -> (r: Option<usize>)
        ensures
            match r {
                Some(i) => self.wahl == Some(i) && i < self.disks@.len() && !self.disks@[i as int].live,
                None => self.ziel_sicht() is None,
            },
    {
        match self.wahl {
            Some(i) => if i < self.disks.len() && !self.disks[i].live {
                Some(i)
            } else {
                None
            },
            None => None,
        }
    }

    /// One event: the new state, and the install order if the event gives one.
    pub fn update(&mut self, e: Ereignis) -> (r: Option<Auftrag>)
        ensures
            final(self).schritt == old(self).schritt_nach(e),
            final(self).modus == old(self).modus_nach(e),
            disk_sichten(final(self).disks@) == old(self).disks_nach(e),
            final(self).wahl == old(self).wahl_nach(e),
            final(self).konto@ == old(self).konto_nach(e),
            final(self).tipp@ == old(self).tipp_nach(e),
            final(self).demo == old(self).demo,
            final(self).log@ == old(self).log_nach(e),
            match r {
                Some(a) => old(self).auftrag_nach(e) == Some(a@),
                None => old(self).auftrag_nach(e) is None,
            },
    {
        match e {
            Ereignis::Tick { fertig, fehler, log } => {
                if self.schritt == Schritt::Laeuft {
                    self.log = log;
                    if fertig {
                        self.schritt = Schritt::Fertig;
                    } else if fehler {
                        self.schritt = Schritt::Fehler;
                    }
                }
                None
            },
            Ereignis::ModusWeiter(m, v) => {
                self.modus = m;
                self.disks = v;
                self.schritt = Schritt::Ziel;
                None
            },
            Ereignis::NeuLesen(v) => {
                self.disks = v;
                if self.ziel().is_none() {
                    self.wahl = None;
                }
                None
            },
            Ereignis::DiskWahl(i) => {
                if i < self.disks.len() && !self.disks[i].live {
                    self.wahl = Some(i);
                }
                None
            },
            Ereignis::Weiter(v) => {
                match self.schritt {
                    Schritt::Willkommen => {
                        self.disks = v;
                        self.schritt = Schritt::Ziel;
                    },
                    Schritt::Ziel => {
                        if self.ziel().is_some() {
                            if self.modus == Modus::Medium {
                                self.tipp = String::new();
                                self.schritt = Schritt::Bestaetigen;
                            } else {
                                self.schritt = Schritt::Konto;
                            }
                        }
                    },
                    Schritt::Konto => {
                        if self.konto.ok() {
                            self.tipp = String::new();
                            self.schritt = Schritt::Bestaetigen;
                        }
                    },
                    _ => {},
                }
                None
            },
            Ereignis::Zurueck => {
                self.schritt = match self.schritt {
                    Schritt::Ziel => Schritt::Willkommen,
                    Schritt::Konto => Schritt::Ziel,
                    Schritt::Bestaetigen => if self.modus == Modus::Medium {
                        Schritt::Ziel
                    } else {
                        Schritt::Konto
                    },
                    s => s,
                };
                None
            },
            Ereignis::TippInput(x) => {
                self.tipp = x;
                None
            },
            Ereignis::KontoRechner(x) => {
                self.konto.rechner = x;
                None
            },
            Ereignis::KontoNutzer(x) => {
                self.konto.nutzer = x;
                None
            },
            Ereignis::KontoPw(x) => {
                self.konto.pw = x;
                None
            },
            Ereignis::KontoPw2(x) => {
                self.konto.pw2 = x;
                None
            },
            Ereignis::Installieren => {
                match self.ziel() {
                    Some(i) => {
                        let t = trim_chars(&chars_of(self.tipp.as_str()));
                        let k = chars_of(self.disks[i].kurz.as_str());
                        if same(&t, &k) {
                            let auftrag = Auftrag {
                                dev: self.disks[i].dev.clone(),
                                konto: self.konto.kopie(),
                                medium: self.modus == Modus::Medium,
                                demo: self.demo,
                            };
                            self.log = String::new();
                            self.schritt = Schritt::Laeuft;
                            Some(auftrag)
                        } else {
                            None
                        }
                    },
                    None => None,
                }
            },
        }
    }
}

/// "Back" undoes "next": whenever "next" moves the assistant on, "back" returns it to the
/// step it left. (The account step is never reached while a stick is being made.)
pub proof fn lemma_zurueck_nach_weiter(s: Schritt, m: Modus, ziel_ok: bool, konto_ok: bool)
    requires
        !(s == Schritt::Konto && m == Modus::Medium),
    ensures
        weiter_schritt(s, m, ziel_ok, konto_ok) != s ==> zurueck_schritt(
            weiter_schritt(s, m, ziel_ok, konto_ok),
            m,
        ) == s,
{
}

/// While a stick is being made there is no account step: no event leads into the account
/// step in that mode.
pub proof fn lemma_kein_konto_fuer_medium(a: Assistent, e: Ereignis)
    requires
        !(a.schritt == Schritt::Konto && a.modus == Modus::Medium),
    ensures
        !(a.schritt_nach(e) == Schritt::Konto && a.modus_nach(e) == Modus::Medium),
{
}

/// Nothing is installed without the typed name: an install order comes only from
/// "install", names the device of the chosen disk, which is in the list and is not the
/// medium the system runs from, and only when the typed text, trimmed, is that disk's short
/// name; it carries the account and the demonstration flag, the run starts with an empty
/// log, and the installation starts only together with such an order.
pub proof fn lemma_nur_nach_abtippen(a: Assistent, e: Ereignis)
    ensures
        a.auftrag_nach(e) matches Some(auf) ==> {
            &&& e is Installieren
            &&& a.wahl matches Some(i) && i < a.disks@.len() && !a.disks@[i as int].live
                && auf.0 == a.disks@[i as int].dev@ && trim(a.tipp@) == a.disks@[i as int].kurz@
            &&& auf.1 == a.konto@
            &&& auf.3 == a.demo
            &&& a.log_nach(e).len() == 0
        },
        a.schritt_nach(e) == Schritt::Laeuft && a.schritt != Schritt::Laeuft ==> a.auftrag_nach(
            e,
        ) is Some,
{
}

/// The lines the demonstration mode logs, one after the other: it touches no disk.
pub open spec fn demo_spec(dev: Seq<char>, rechner: Seq<char>, nutzer: Seq<char>, medium: bool) -> Seq<
    Seq<char>,
> {
    seq![
        "Vorführmodus: es wird keine Platte berührt."@,
        "Ziel: "@ + dev,
        "Partitionen anlegen …"@,
        "Dateisystem schreiben …"@,
        "Abbild entpacken …"@,
        "Bootloader einrichten …"@,
        if medium {
            "Installations-Medium markieren …"@
        } else {
            "Konto "@ + nutzer + " auf \u{201e}"@ + rechner + "\u{201c} anlegen …"@
        },
        "Fertig."@,
    ]
}

fn text(s: &str) -> (r: String)
    ensures
        r@ == s@,
{
    string_of(&chars_of(s))
}

fn verbunden(a: &str, b: &str) -> (r: String)
    ensures
        r@ == a@ + b@,
{
    string_of(&concat(&chars_of(a), &chars_of(b)))
}

/// The demonstration mode's log for a target disk and account (or an install medium).
pub fn demo_protokoll(dev: &str, konto: &Konto, medium: bool) -> (r: Vec<String>)
    ensures
        r@.map_values(|t: String| t@) == demo_spec(dev@, konto.rechner@, konto.nutzer@, medium),
{
    let mut r: Vec<String> = Vec::new();
    r.push(text("Vorführmodus: es wird keine Platte berührt."));
    r.push(verbunden("Ziel: ", dev));
    r.push(text("Partitionen anlegen …"));
    r.push(text("Dateisystem schreiben …"));
    r.push(text("Abbild entpacken …"));
    r.push(text("Bootloader einrichten …"));
    if medium {
        r.push(text("Installations-Medium markieren …"));
    } else {
        let a = verbunden("Konto ", konto.nutzer.as_str());
        let b = verbunden(a.as_str(), " auf \u{201e}");
        let c = verbunden(b.as_str(), konto.rechner.as_str());
        r.push(verbunden(c.as_str(), "\u{201c} anlegen …"));
    }
    r.push(text("Fertig."));
    assert(r@.map_values(|t: String| t@) =~= demo_spec(dev@, konto.rechner@, konto.nutzer@, medium));
    r
}

} // verus!
