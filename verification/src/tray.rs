//! The system tray: which items are registered with the watcher, how an entry names its
//! service and object path, and how an item's icon becomes RGBA pixels.

use vstd::prelude::*;
use crate::text::{chars_of, concat, find, same, slice, string_of};

verus! {

/// One item in the tray.
#[derive(Clone)]
pub struct TrayItem {
    pub dienst: String,
    pub pfad: String,
    pub titel: String,
    /// RGBA pixels and their width and height.
    pub icon: Option<(u32, u32, Vec<u8>)>,
}

/// A click on an item: activate it, or its secondary action; service and path.
pub enum TrayBefehl {
    Aktivieren(String, String),
    Sekundaer(String, String),
}

/// Whether `s` starts with `c`.
pub open spec fn beginnt_mit_zeichen(s: Seq<char>, c: char) -> bool {
    s.len() > 0 && s[0] == c
}

/// The entry a registration makes: a bare object path belongs to the sender; a service
/// name gets the standard object path.
pub open spec fn eintrag_spec(service: Seq<char>, sender: Option<Seq<char>>) -> Seq<char> {
    if beginnt_mit_zeichen(service, '/') {
        match sender {
            Some(s) => s + service,
            None => service,
        }
    } else {
        service + "/StatusNotifierItem"@
    }
}

/// The entry a registration makes.
pub fn eintrag_name(service: &str, sender: Option<&str>) -> (r: String)
    ensures
        r@ == eintrag_spec(
            service@,
            match sender {
                Some(s) => Some(s@),
                None => None,
            },
        ),
{
    let s = chars_of(service);
    if s.len() > 0 && s[0] == '/' {
        match sender {
            Some(w) => string_of(&concat(&chars_of(w), &s)),
            None => string_of(&s),
        }
    } else {
        string_of(&concat(&s, &chars_of("/StatusNotifierItem")))
    }
}

/// Service and object path of an entry: split before its first slash; an entry without a
/// slash gets the standard object path.
pub open spec fn teilen_spec(eintrag: Seq<char>) -> (Seq<char>, Seq<char>) {
    match find(eintrag, '/') {
        Some(i) => (eintrag.take(i as int), eintrag.skip(i as int)),
        None => (eintrag, "/StatusNotifierItem"@),
    }
}

/// Service and object path of an entry.
pub fn eintrag_teilen(eintrag: &str) -> (r: (String, String))
    ensures
        (r.0@, r.1@) == teilen_spec(eintrag@),
{
    let e = chars_of(eintrag);
    assert(e@.skip(0) =~= e@);
    match crate::text::find_from(&e, '/', 0) {
        Some(i) => (string_of(&slice(&e, 0, i)), string_of(&slice(&e, i, e.len()))),
        None => (string_of(&e), string_of(&chars_of("/StatusNotifierItem"))),
    }
}

/// The registered entries of the watcher: each at most once, in the order they came.
pub struct Anmeldungen {
    pub items: Vec<String>,
}

/// The views of a sequence of strings.
pub open spec fn texte(v: Seq<String>) -> Seq<Seq<char>> {
    v.map_values(|s: String| s@)
}

/// No entry twice.
pub open spec fn einmalig(s: Seq<Seq<char>>) -> bool {
    forall|i: int, j: int| 0 <= i < j < s.len() ==> s[i] != s[j]
}

/// The entries after a registration: a new entry is appended, a known one is not repeated.
pub open spec fn registriert_spec(s: Seq<Seq<char>>, e: Seq<char>) -> Seq<Seq<char>> {
    if s.contains(e) {
        s
    } else {
        s.push(e)
    }
}

impl Anmeldungen {
    /// No entries yet.
    pub fn neu() -> (r: Anmeldungen)
        ensures
            texte(r.items@) == Seq::<Seq<char>>::empty(),
    {
        let r = Anmeldungen { items: Vec::new() };
        assert(texte(r.items@) =~= Seq::<Seq<char>>::empty());
        r
    }

    /// Register an item; the sender names the service where only a path is given.
    pub fn registrieren(&mut self, service: &str, sender: Option<&str>)
        ensures
            texte(final(self).items@) == registriert_spec(
                texte(old(self).items@),
                eintrag_spec(
                    service@,
                    match sender {
                        Some(s) => Some(s@),
                        None => None,
                    },
                ),
            ),
    {
        let e = eintrag_name(service, sender);
        let ev = chars_of(e.as_str());
        let ghost s = texte(self.items@);
        let ghost ziel = eintrag_spec(
            service@,
            match sender {
                Some(x) => Some(x@),
                None => None,
            },
        );
        let mut i: usize = 0;
        let mut da = false;
        while i < self.items.len() && !da
            invariant
                i <= self.items@.len(),
                s == texte(self.items@),
                self.items@ == old(self).items@,
                ev@ == e@,
                da ==> s.contains(e@),
                !da ==> forall|k: int| 0 <= k < i ==> s[k] != e@,
            decreases 2 * (self.items@.len() - i) + (if da {
                0int
            } else {
                1int
            }),
        {
            assert(s[i as int] == self.items@[i as int]@);
            if same(&chars_of(self.items[i].as_str()), &ev) {
                da = true;
            } else {
                i = i + 1;
            }
        }
        if da {
            return;
        }
        assert(!s.contains(e@));
        let ghost vorher = self.items@;
        self.items.push(e);
        assert(texte(self.items@) =~= texte(vorher).push(e@));
    }
}

/// The watcher never lists an item twice, and registering the same item again changes
/// nothing.
pub proof fn lemma_anmeldung_einmalig(s: Seq<Seq<char>>, e: Seq<char>)
    requires
        einmalig(s),
    ensures
        einmalig(registriert_spec(s, e)),
        registriert_spec(registriert_spec(s, e), e) == registriert_spec(s, e),
{
    let r = registriert_spec(s, e);
    if !s.contains(e) {
        assert forall|i: int, j: int| 0 <= i < j < r.len() implies r[i] != r[j] by {
            if j == s.len() {
                assert(r[i] == s[i]);
                assert(r[j] == e);
            }
        }
        assert(r.contains(e)) by {
            assert(r[s.len() as int] == e);
        }
    }
}

// ------------------------------------------------------------------ icons

/// A pixmap of `IconPixmap`: width, height, ARGB bytes in network order.
pub type Pixmap = (i32, i32, Vec<u8>);

/// The index of the widest pixmap; of equally wide ones the last.
pub open spec fn breitester(w: Seq<i32>) -> nat
    decreases w.len(),
{
    if w.len() <= 1 {
        0
    } else {
        let i = breitester(w.drop_last());
        if w.last() >= w[i as int] {
            (w.len() - 1) as nat
        } else {
            i
        }
    }
}

/// The widths of the pixmaps.
pub open spec fn breiten(p: Seq<Pixmap>) -> Seq<i32> {
    p.map_values(|x: Pixmap| x.0)
}

/// Whether a pixmap is usable: positive size and enough bytes.
pub open spec fn pixmap_ok(w: i32, h: i32, n: nat) -> bool {
    w > 0 && h > 0 && n >= w * h * 4
}

/// ARGB bytes turned into RGBA, four at a time; a short rest is dropped.
pub open spec fn rgba_spec(d: Seq<u8>) -> Seq<u8> {
    Seq::new(
        (d.len() / 4 * 4) as nat,
        |k: int| if k % 4 == 3 {
            d[k - 3]
        } else {
            d[k + 1]
        },
    )
}

/// ARGB bytes turned into RGBA.
pub fn argb_zu_rgba(d: &Vec<u8>) -> (r: Vec<u8>)
    ensures
        r@ == rgba_spec(d@),
{
    let len = d.len();
    let n = len / 4;
    let mut r: Vec<u8> = Vec::new();
    let mut i: usize = 0;
    while i < n
        invariant
            len == d@.len(),
            n == len / 4,
            i <= n,
            r@.len() == 4 * i,
            forall|k: int| 0 <= k < r@.len() ==> r@[k] == (if k % 4 == 3 {
                d@[k - 3]
            } else {
                d@[k + 1]
            }),
        decreases n - i,
    {
        assert(4 * i + 3 < len) by (nonlinear_arith)
            requires
                i < n,
                n == len / 4,
        ;
        let b = 4 * i;
        r.push(d[b + 1]);
        r.push(d[b + 2]);
        r.push(d[b + 3]);
        r.push(d[b]);
        assert forall|k: int| 4 * i <= k < 4 * i + 4 implies r@[k] == (if k % 4 == 3 {
            d@[k - 3]
        } else {
            d@[k + 1]
        }) by {
            assert(k - 4 * i == 0 || k - 4 * i == 1 || k - 4 * i == 2 || k - 4 * i == 3);
            assert((4 * i) % 4 == 0) by (nonlinear_arith);
            assert(k % 4 == k - 4 * i) by (nonlinear_arith)
                requires
                    4 * i <= k < 4 * i + 4,
            ;
        }
        i = i + 1;
    }
    assert(r@ =~= rgba_spec(d@));
    r
}

/// The icon of an item: the widest pixmap, if usable, as RGBA with its size.
pub fn icon_aus(pixmaps: Vec<Pixmap>) -> (r: Option<(u32, u32, Vec<u8>)>)
    requires
        pixmaps@.len() > 0 ==> {
            let p = pixmaps@[breitester(breiten(pixmaps@)) as int];
            p.0 > 0 && p.1 > 0 ==> p.0 * p.1 * 4 <= i32::MAX
        },
    ensures
        pixmaps@.len() == 0 ==> r is None,
        pixmaps@.len() > 0 ==> {
            let p = pixmaps@[breitester(breiten(pixmaps@)) as int];
            if pixmap_ok(p.0, p.1, p.2@.len()) {
                r matches Some(x) && x.0 == p.0 && x.1 == p.1 && x.2@ == rgba_spec(p.2@)
            } else {
                r is None
            }
        },
{
    if pixmaps.len() == 0 {
        return None;
    }
    let ghost b = breiten(pixmaps@);
    let mut best: usize = 0;
    let mut i: usize = 1;
    assert(b.take(1).len() == 1);
    while i < pixmaps.len()
        invariant
            1 <= i <= pixmaps@.len(),
            b == breiten(pixmaps@),
            best == breitester(b.take(i as int)),
            best < i,
        decreases pixmaps.len() - i,
    {
        assert(b.take(i + 1).drop_last() =~= b.take(i as int));
        assert(b.take(i + 1).last() == pixmaps@[i as int].0);
        assert(b.take(i + 1)[best as int] == pixmaps@[best as int].0);
        if pixmaps[i].0 >= pixmaps[best].0 {
            best = i;
        }
        i = i + 1;
    }
    assert(b.take(pixmaps@.len() as int) =~= b);
    let w = pixmaps[best].0;
    let h = pixmaps[best].1;
    if w > 0 && h > 0 {
        let n = w * h * 4;
        if pixmaps[best].2.len() >= n as usize {
            return Some((w as u32, h as u32, argb_zu_rgba(&pixmaps[best].2)));
        }
    }
    None
}

} // verus!
