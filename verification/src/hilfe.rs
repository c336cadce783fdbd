//! The help app: navigation between categories and articles with back and forward, the
//! remembered place, and the full-text search over the knowledge base.

use vstd::prelude::*;
use crate::inhalte::Kategorie;
use crate::text::{
    chars_of, concat, contains_seq, decimal, decimal_chars, has_infix, klein, parse_u64,
    parse_unsigned, splitn, splitn_at_char, string_of, views, zu_klein,
};

verus! {

/// A place in the help: a category, and the open article if any.
pub type Ort = (usize, Option<usize>);

/// The navigation state of the help.
pub struct Hilfe {
    /// How many categories there are.
    pub n_kat: usize,
    pub kategorie: usize,
    pub artikel: Option<usize>,
    /// The places visited before, the latest last.
    pub verlauf: Vec<Ort>,
    /// The places left by going back, the latest last.
    pub vorwaerts: Vec<Ort>,
    pub suche: String,
}

/// What happens in the help.
pub enum Msg {
    VerlaufZurueck,
    VerlaufVor,
    Kategorie(usize),
    Artikel(usize),
    Zurueck,
    Suche(String),
    SucheLeeren,
    /// Open a search hit: category and article.
    Treffer(usize, usize),
    /// The escape key.
    Escape,
    /// The enter key on the focused element: categories first, then the article cards.
    Aktivieren(usize),
}

/// The navigation a message amounts to.
#[derive(Debug, Clone, Copy, PartialEq, Eq, Structural)]
pub enum Nav {
    Nichts,
    Kategorie(usize),
    Artikel(usize),
    Zurueck,
    VerlaufZurueck,
    VerlaufVor,
    Treffer(usize, usize),
}

/// Whether a place names an existing category.
pub open spec fn ort_ok(o: Ort, n: usize) -> bool {
    o.0 < n
}

/// Whether all places of a stack name existing categories.
pub open spec fn orte_ok(s: Seq<Ort>, n: usize) -> bool {
    forall|i: int| 0 <= i < s.len() ==> ort_ok(#[trigger] s[i], n)
}

/// The smaller of a category index and the last category.
pub open spec fn geklemmt(i: usize, n: usize) -> usize {
    if i < n {
        i
    } else {
        (n - 1) as usize
    }
}

/// The place, the stacks after a navigation step: a step forward records the place left
/// and forgets the forward stack; back and forward move one place between the stacks.
pub open spec fn nav_spec(o: Ort, verlauf: Seq<Ort>, vorwaerts: Seq<Ort>, n: usize, nav: Nav) -> (
    Ort,
    Seq<Ort>,
    Seq<Ort>,
) {
    match nav {
        Nav::Nichts => (o, verlauf, vorwaerts),
        Nav::Kategorie(i) => ((geklemmt(i, n), None), verlauf.push(o), Seq::empty()),
        Nav::Artikel(i) => ((o.0, Some(i)), verlauf.push(o), Seq::empty()),
        Nav::Zurueck => ((o.0, None), verlauf.push(o), Seq::empty()),
        Nav::Treffer(k, i) => ((geklemmt(k, n), Some(i)), verlauf.push(o), Seq::empty()),
        Nav::VerlaufZurueck => if verlauf.len() > 0 {
            (verlauf.last(), verlauf.drop_last(), vorwaerts.push(o))
        } else {
            (o, verlauf, vorwaerts)
        },
        Nav::VerlaufVor => if vorwaerts.len() > 0 {
            (vorwaerts.last(), verlauf.push(o), vorwaerts.drop_last())
        } else {
            (o, verlauf, vorwaerts)
        },
    }
}

impl Hilfe {
    /// The help is well formed: at least one category, and every place names one.
    pub open spec fn wohlgeformt(&self) -> bool {
        &&& self.n_kat > 0
        &&& self.kategorie < self.n_kat
        &&& orte_ok(self.verlauf@, self.n_kat)
        &&& orte_ok(self.vorwaerts@, self.n_kat)
    }

    /// The navigation a message amounts to.
    pub open spec fn nav_von(&self, m: Msg) -> Nav {
        match m {
            Msg::VerlaufZurueck => Nav::VerlaufZurueck,
            Msg::VerlaufVor => Nav::VerlaufVor,
            Msg::Kategorie(i) => Nav::Kategorie(i),
            Msg::Artikel(i) => Nav::Artikel(i),
            Msg::Zurueck => Nav::Zurueck,
            Msg::Treffer(k, i) => Nav::Treffer(k, i),
            Msg::Escape => if self.suche@.len() == 0 && self.artikel is Some {
                Nav::Zurueck
            } else {
                Nav::Nichts
            },
            Msg::Aktivieren(i) => if self.artikel is Some {
                Nav::Zurueck
            } else if i < self.n_kat {
                Nav::Kategorie(i)
            } else {
                Nav::Artikel((i - self.n_kat) as usize)
            },
            _ => Nav::Nichts,
        }
    }

    /// The search text after a message: hits and escape clear it.
    pub open spec fn suche_nach(&self, m: Msg) -> Seq<char> {
        match m {
            Msg::Suche(s) => s@,
            Msg::SucheLeeren => Seq::empty(),
            Msg::Escape => Seq::empty(),
            Msg::Treffer(_, _) => Seq::empty(),
            _ => self.suche@,
        }
    }

    /// The help at a place, with empty history and the given search.
    pub fn neu(n_kat: usize, ort: Ort, suche: String) -> (r: Hilfe)
        requires
            n_kat > 0,
            ort.0 < n_kat,
        ensures
            r.wohlgeformt(),
            r.n_kat == n_kat,
            (r.kategorie, r.artikel) == ort,
            r.verlauf@.len() == 0,
            r.vorwaerts@.len() == 0,
            r.suche@ == suche@,
    {
        Hilfe {
            n_kat,
            kategorie: ort.0,
            artikel: ort.1,
            verlauf: Vec::new(),
            vorwaerts: Vec::new(),
            suche,
        }
    }

    fn nav(&mut self, nav: Nav)
        requires
            old(self).wohlgeformt(),
        ensures
            final(self).wohlgeformt(),
            final(self).n_kat == old(self).n_kat,
            final(self).suche == old(self).suche,
            ((final(self).kategorie, final(self).artikel), final(self).verlauf@, final(self).vorwaerts@)
                == nav_spec(
                (old(self).kategorie, old(self).artikel),
                old(self).verlauf@,
                old(self).vorwaerts@,
                old(self).n_kat,
                nav,
            ),
    {
        let hier: Ort = (self.kategorie, self.artikel);
        match nav {
            Nav::Nichts => {},
            Nav::VerlaufZurueck => {
                if self.verlauf.len() > 0 {
                    let ghost alt = self.vorwaerts@;
                    let o = self.verlauf.pop().unwrap();
                    self.vorwaerts.push(hier);
                    self.kategorie = o.0;
                    self.artikel = o.1;
                    assert(ort_ok(old(self).verlauf@[old(self).verlauf@.len() - 1], self.n_kat));
                    assert(orte_ok(self.vorwaerts@, self.n_kat)) by {
                        assert forall|i: int| 0 <= i < self.vorwaerts@.len() implies ort_ok(
                            #[trigger] self.vorwaerts@[i],
                            self.n_kat,
                        ) by {
                            if i < alt.len() {
                                assert(self.vorwaerts@[i] == alt[i]);
                            }
                        }
                    }
                    assert(orte_ok(self.verlauf@, self.n_kat)) by {
                        assert forall|i: int| 0 <= i < self.verlauf@.len() implies ort_ok(
                            #[trigger] self.verlauf@[i],
                            self.n_kat,
                        ) by {
                            assert(self.verlauf@[i] == old(self).verlauf@[i]);
                        }
                    }
                }
            },
            Nav::VerlaufVor => {
                if self.vorwaerts.len() > 0 {
                    let ghost alt = self.verlauf@;
                    let o = self.vorwaerts.pop().unwrap();
                    self.verlauf.push(hier);
                    self.kategorie = o.0;
                    self.artikel = o.1;
                    assert(ort_ok(old(self).vorwaerts@[old(self).vorwaerts@.len() - 1], self.n_kat));
                    assert(orte_ok(self.verlauf@, self.n_kat)) by {
                        assert forall|i: int| 0 <= i < self.verlauf@.len() implies ort_ok(
                            #[trigger] self.verlauf@[i],
                            self.n_kat,
                        ) by {
                            if i < alt.len() {
                                assert(self.verlauf@[i] == alt[i]);
                            }
                        }
                    }
                    assert(orte_ok(self.vorwaerts@, self.n_kat)) by {
                        assert forall|i: int| 0 <= i < self.vorwaerts@.len() implies ort_ok(
                            #[trigger] self.vorwaerts@[i],
                            self.n_kat,
                        ) by {
                            assert(self.vorwaerts@[i] == old(self).vorwaerts@[i]);
                        }
                    }
                }
            },
            _ => {
                let ghost alt = self.verlauf@;
                self.verlauf.push(hier);
                self.vorwaerts = Vec::new();
                match nav {
                    Nav::Kategorie(i) => {
                        self.kategorie = if i < self.n_kat {
                            i
                        } else {
                            self.n_kat - 1
                        };
                        self.artikel = None;
                    },
                    Nav::Artikel(i) => {
                        self.artikel = Some(i);
                    },
                    Nav::Treffer(k, i) => {
                        self.kategorie = if k < self.n_kat {
                            k
                        } else {
                            self.n_kat - 1
                        };
                        self.artikel = Some(i);
                    },
                    _ => {
                        self.artikel = None;
                    },
                }
                assert(orte_ok(self.verlauf@, self.n_kat)) by {
                    assert forall|i: int| 0 <= i < self.verlauf@.len() implies ort_ok(
                        #[trigger] self.verlauf@[i],
                        self.n_kat,
                    ) by {
                        if i < alt.len() {
                            assert(self.verlauf@[i] == alt[i]);
                        }
                    }
                }
            },
        }
    }

    /// One message: the new place and search; the text to remember the place by, where the
    /// place is to be remembered (after every navigation).
    pub fn update(&mut self, msg: Msg) -> (r: Option<String>)
        requires
            old(self).wohlgeformt(),
        ensures
            final(self).wohlgeformt(),
            final(self).n_kat == old(self).n_kat,
            ((final(self).kategorie, final(self).artikel), final(self).verlauf@, final(self).vorwaerts@)
                == nav_spec(
                (old(self).kategorie, old(self).artikel),
                old(self).verlauf@,
                old(self).vorwaerts@,
                old(self).n_kat,
                old(self).nav_von(msg),
            ),
            final(self).suche@ == old(self).suche_nach(msg),
            match r {
                Some(t) => old(self).nav_von(msg) != Nav::Nichts && t@ == zustand_spec(
                    (final(self).kategorie, final(self).artikel),
                ),
                None => old(self).nav_von(msg) == Nav::Nichts,
            },
    {
        let nav: Nav = match &msg {
            Msg::VerlaufZurueck => Nav::VerlaufZurueck,
            Msg::VerlaufVor => Nav::VerlaufVor,
            Msg::Kategorie(i) => Nav::Kategorie(*i),
            Msg::Artikel(i) => Nav::Artikel(*i),
            Msg::Zurueck => Nav::Zurueck,
            Msg::Treffer(k, i) => Nav::Treffer(*k, *i),
            Msg::Escape => if chars_of(self.suche.as_str()).len() == 0 && self.artikel.is_some() {
                Nav::Zurueck
            } else {
                Nav::Nichts
            },
            Msg::Aktivieren(i) => if self.artikel.is_some() {
                Nav::Zurueck
            } else if *i < self.n_kat {
                Nav::Kategorie(*i)
            } else {
                Nav::Artikel(*i - self.n_kat)
            },
            _ => Nav::Nichts,
        };
        match msg {
            Msg::Suche(s) => {
                self.suche = s;
            },
            Msg::SucheLeeren => {
                self.suche = String::new();
            },
            Msg::Escape => {
                self.suche = String::new();
            },
            Msg::Treffer(_, _) => {
                self.suche = String::new();
            },
            _ => {},
        }
        self.nav(nav);
        if nav == Nav::Nichts {
            None
        } else {
            Some(zustand_text((self.kategorie, self.artikel)))
        }
    }
}

/// Back undoes a step, and forward after back redoes it.
pub proof fn lemma_zurueck_und_vor(o: Ort, verlauf: Seq<Ort>, vorwaerts: Seq<Ort>, n: usize, nav: Nav)
    requires
        nav is Kategorie || nav is Artikel || nav is Zurueck || nav is Treffer,
    ensures
        ({
            let (o1, v1, w1) = nav_spec(o, verlauf, vorwaerts, n, nav);
            let (o2, v2, w2) = nav_spec(o1, v1, w1, n, Nav::VerlaufZurueck);
            let (o3, v3, w3) = nav_spec(o2, v2, w2, n, Nav::VerlaufVor);
            &&& o2 == o
            &&& v2 == verlauf
            &&& o3 == o1
            &&& v3 == v1
            &&& w3 == w1
        }),
{
    let (o1, v1, w1) = nav_spec(o, verlauf, vorwaerts, n, nav);
    assert(v1.drop_last() =~= verlauf);
    let (o2, v2, w2) = nav_spec(o1, v1, w1, n, Nav::VerlaufZurueck);
    assert(w2.drop_last() =~= w1);
    assert(v2.push(o2) =~= v1);
}

// ----------------------------------------------------------- remembering

/// The text a place is remembered by: `k` or `k,a`.
pub open spec fn zustand_spec(o: Ort) -> Seq<char> {
    match o.1 {
        Some(a) => decimal(o.0 as nat) + seq![','] + decimal(a as nat),
        None => decimal(o.0 as nat),
    }
}

/// The text a place is remembered by.
pub fn zustand_text(o: Ort) -> (r: String)
    ensures
        r@ == zustand_spec(o),
{
    let k = decimal_chars(o.0 as u64);
    match o.1 {
        Some(a) => {
            let mut komma: Vec<char> = Vec::new();
            komma.push(',');
            assert(komma@ =~= seq![',']);
            string_of(&concat(&concat(&k, &komma), &decimal_chars(a as u64)))
        },
        None => string_of(&k),
    }
}

fn parse_usize(s: &Vec<char>) -> (r: Option<usize>)
    ensures
        match parse_unsigned(s@, usize::MAX as nat) {
            Some(v) => r == Some(v as usize),
            None => r is None,
        },
{
    match parse_u64(s) {
        Some(v) => if (v as u128) <= (usize::MAX as u128) {
            Some(v as usize)
        } else {
            None
        },
        None => None,
    }
}

/// The remembered place, checked against the categories and their article counts: a
/// category that no longer exists becomes the first, an article that no longer exists none.
pub open spec fn zustand_lesen_spec(wert: Option<Seq<char>>, anzahlen: Seq<usize>) -> Ort {
    match wert {
        None => (0, None),
        Some(w) => {
            let t = splitn(w, ',', 2);
            let k: usize = match parse_unsigned(t[0], usize::MAX as nat) {
                Some(k) => if k < anzahlen.len() {
                    k as usize
                } else {
                    0
                },
                None => 0,
            };
            let a: Option<usize> = if t.len() > 1 {
                match parse_unsigned(t[1], usize::MAX as nat) {
                    Some(a) => if a < anzahlen[k as int] {
                        Some(a as usize)
                    } else {
                        None
                    },
                    None => None,
                }
            } else {
                None
            };
            (k, a)
        },
    }
}

/// The remembered place from its stored text, given the article count of each category.
pub fn zustand_lesen(wert: Option<&str>, anzahlen: &Vec<usize>) -> (r: Ort)
    requires
        anzahlen@.len() > 0,
    ensures
        r == zustand_lesen_spec(
            match wert {
                Some(w) => Some(w@),
                None => None,
            },
            anzahlen@,
        ),
        r.0 < anzahlen@.len(),
{
    match wert {
        None => (0, None),
        Some(w) => {
            let t = splitn_at_char(&chars_of(w), ',', 2);
            proof {
                crate::text::lemma_splitn_nonempty(w@, ',', 2);
            }
            assert(views(t@)[0] == t@[0]@);
            let k: usize = match parse_usize(&t[0]) {
                Some(k) => if k < anzahlen.len() {
                    k
                } else {
                    0
                },
                None => 0,
            };
            let a: Option<usize> = if t.len() > 1 {
                assert(views(t@)[1] == t@[1]@);
                match parse_usize(&t[1]) {
                    Some(a) => if a < anzahlen[k] {
                        Some(a)
                    } else {
                        None
                    },
                    None => None,
                }
            } else {
                None
            };
            (k, a)
        },
    }
}

// ---------------------------------------------------------------- search

/// Whether an article matches a search: title, teaser or text contains it, all in lower case.
pub open spec fn passt_spec(titel: Seq<char>, teaser: Seq<char>, inhalt: Seq<char>, suche: Seq<char>) -> bool {
    has_infix(klein(titel), klein(suche)) || has_infix(klein(teaser), klein(suche)) || has_infix(
        klein(inhalt),
        klein(suche),
    )
}

fn enthaelt_klein(text: &str, anfrage: &Vec<char>) -> (r: bool)
    ensures
        r == has_infix(klein(text@), anfrage@),
{
    contains_seq(&chars_of(zu_klein(text).as_str()), anfrage)
}

/// The search hits over all categories, in order: (category, article) of each article that
/// matches.
pub fn treffer(kats: &Vec<Kategorie>, suche: &str) -> (r: Vec<(usize, usize)>)
    ensures
        forall|j: int|
            0 <= j < r@.len() ==> {
                let (k, a) = #[trigger] r@[j];
                &&& k < kats@.len()
                &&& a < kats@[k as int].artikel@.len()
                &&& passt_spec(
                    kats@[k as int].artikel@[a as int].titel@,
                    kats@[k as int].artikel@[a as int].teaser@,
                    kats@[k as int].artikel@[a as int].inhalt@,
                    suche@,
                )
            },
        forall|j: int, l: int| 0 <= j < l < r@.len() ==> r@[j] != r@[l],
        forall|k: int, a: int|
            0 <= k < kats@.len() && 0 <= a < kats@[k].artikel@.len() && passt_spec(
                kats@[k].artikel@[a].titel@,
                kats@[k].artikel@[a].teaser@,
                kats@[k].artikel@[a].inhalt@,
                suche@,
            ) ==> r@.contains((k as usize, a as usize)),
{
    let anfrage = chars_of(zu_klein(suche).as_str());
    let mut r: Vec<(usize, usize)> = Vec::new();
    let mut ki: usize = 0;
    while ki < kats.len()
        invariant
            ki <= kats@.len(),
            anfrage@ == klein(suche@),
            forall|j: int|
                0 <= j < r@.len() ==> {
                    let (k, a) = #[trigger] r@[j];
                    &&& k < ki
                    &&& a < kats@[k as int].artikel@.len()
                    &&& passt_spec(
                        kats@[k as int].artikel@[a as int].titel@,
                        kats@[k as int].artikel@[a as int].teaser@,
                        kats@[k as int].artikel@[a as int].inhalt@,
                        suche@,
                    )
                },
            forall|j: int, l: int| 0 <= j < l < r@.len() ==> r@[j] != r@[l],
            forall|k: int, a: int|
                0 <= k < ki && 0 <= a < kats@[k].artikel@.len() && passt_spec(
                    kats@[k].artikel@[a].titel@,
                    kats@[k].artikel@[a].teaser@,
                    kats@[k].artikel@[a].inhalt@,
                    suche@,
                ) ==> r@.contains((k as usize, a as usize)),
        decreases kats.len() - ki,
    {
        let kat = &kats[ki];
        let mut ai: usize = 0;
        let ghost r0 = r@;
        while ai < kat.artikel.len()
            invariant
                ki < kats@.len(),
                *kat == kats@[ki as int],
                ai <= kat.artikel@.len(),
                anfrage@ == klein(suche@),
                r0.len() <= r@.len(),
                forall|j: int| 0 <= j < r0.len() ==> r@[j] == r0[j],
                forall|j: int| 0 <= j < r0.len() ==> (#[trigger] r0[j]).0 < ki,
                forall|j: int|
                    r0.len() <= j < r@.len() ==> (#[trigger] r@[j]).0 == ki && r@[j].1 < ai,
                forall|j: int|
                    0 <= j < r@.len() ==> {
                        let (k, a) = #[trigger] r@[j];
                        &&& k <= ki
                        &&& a < kats@[k as int].artikel@.len()
                        &&& passt_spec(
                            kats@[k as int].artikel@[a as int].titel@,
                            kats@[k as int].artikel@[a as int].teaser@,
                            kats@[k as int].artikel@[a as int].inhalt@,
                            suche@,
                        )
                    },
                forall|j: int, l: int| 0 <= j < l < r@.len() ==> r@[j] != r@[l],
                forall|k: int, a: int|
                    ((0 <= k < ki && 0 <= a < kats@[k].artikel@.len()) || (k == ki && 0 <= a < ai))
                        && passt_spec(
                        kats@[k].artikel@[a].titel@,
                        kats@[k].artikel@[a].teaser@,
                        kats@[k].artikel@[a].inhalt@,
                        suche@,
                    ) ==> r@.contains((k as usize, a as usize)),
            decreases kat.artikel.len() - ai,
        {
            let art = &kat.artikel[ai];
            let passt = enthaelt_klein(art.titel, &anfrage) || enthaelt_klein(art.teaser, &anfrage)
                || enthaelt_klein(art.inhalt, &anfrage);
            if passt {
                let ghost vorher = r@;
                r.push((ki, ai));
                assert forall|j: int, l: int| 0 <= j < l < r@.len() implies r@[j] != r@[l] by {
                    if l == r@.len() - 1 {
                        if j >= r0.len() {
                            assert(vorher[j].1 < ai);
                        } else {
                            assert(vorher[j] == r0[j]);
                            assert(r0[j].0 < ki);
                        }
                    } else {
                        assert(r@[j] == vorher[j] && r@[l] == vorher[l]);
                    }
                }
                assert forall|k: int, a: int|
                    ((0 <= k < ki && 0 <= a < kats@[k].artikel@.len()) || (k == ki && 0 <= a < ai
                        + 1)) && passt_spec(
                        kats@[k].artikel@[a].titel@,
                        kats@[k].artikel@[a].teaser@,
                        kats@[k].artikel@[a].inhalt@,
                        suche@,
                    ) implies r@.contains((k as usize, a as usize)) by {
                    if k == ki && a == ai {
                        assert(r@[r@.len() - 1] == (ki, ai));
                    } else {
                        let j = choose|j: int| 0 <= j < vorher.len() && vorher[j] == (k as usize, a as usize);
                        assert(r@[j] == vorher[j]);
                    }
                }
            }
            ai = ai + 1;
        }
        ki = ki + 1;
    }
    r
}

} // verus!
