//! The wallpaper: which picture it shows, when it follows the sun, and the watch that
//! restarts it when its surface stays away.

use vstd::prelude::*;
use crate::json::{feld_text, feld_wahrheit, json_feld, json_wahrheit};
use crate::text::{chars_of, concat, same_str, string_of, trim, trim_str};

verus! {

/// The file that names the picture for a mode: `<home>/.config/matrix/hintergrund-hell`
/// or `-dunkel`.
pub open spec fn modus_datei_spec(heim: Seq<char>, hell: bool) -> Seq<char> {
    heim + "/.config/matrix/hintergrund-"@ + (if hell { "hell"@ } else { "dunkel"@ })
}

pub fn modus_datei(heim: &str, hell: bool) -> (r: String)
    ensures
        r@ == modus_datei_spec(heim@, hell),
{
    let a = concat(&chars_of(heim), &chars_of("/.config/matrix/hintergrund-"));
    let b = if hell {
        chars_of("hell")
    } else {
        chars_of("dunkel")
    };
    string_of(&concat(&a, &b))
}

/// The picture path that such a file names: its trimmed content, unless that is empty.
pub fn bild_kandidat(inhalt: &str) -> (r: Option<String>)
    ensures
        match r {
            Some(p) => trim(inhalt@).len() > 0 && p@ == trim(inhalt@),
            None => trim(inhalt@).len() == 0,
        },
{
    let t = trim_str(inhalt);
    if t.len() > 0 {
        Some(string_of(&t))
    } else {
        None
    }
}

/// The standard picture.
pub open spec fn standard_bild() -> Seq<char> {
    "/usr/share/backgrounds/matrix/matrix-standard.jpg"@
}

/// The picture to show, in this order: the one the mode's file names, the shell session's,
/// the standard one; each only where it exists (`None` for a missing candidate).
pub fn bild_wahl(eigenes: Option<String>, sitzung: Option<String>, standard_da: bool) -> (r:
    Option<String>)
    ensures
        match eigenes {
            Some(e) => r matches Some(p) && p@ == e@,
            None => match sitzung {
                Some(s) => r matches Some(p) && p@ == s@,
                None => if standard_da {
                    r matches Some(p) && p@ == standard_bild()
                } else {
                    r is None
                },
            },
        },
{
    match eigenes {
        Some(e) => Some(e),
        None => match sitzung {
            Some(s) => Some(s),
            None => if standard_da {
                Some(string_of(&chars_of("/usr/share/backgrounds/matrix/matrix-standard.jpg")))
            } else {
                None
            },
        },
    }
}

/// Whether the light mode is to be switched: only in the automatic mode, and only where
/// the sun's position is known and disagrees with the current mode.
pub fn umschalten(modus: Option<&str>, sonne_oben: Option<bool>, ist_hell: bool) -> (r: bool)
    ensures
        r == (match modus {
            Some(m) => m@ == "auto"@,
            None => false,
        } && match sonne_oben {
            Some(s) => s != ist_hell,
            None => false,
        }),
{
    let auto = match modus {
        Some(m) => same_str(&chars_of(m), "auto"),
        None => false,
    };
    auto && match sonne_oben {
        Some(s) => s != ist_hell,
        None => false,
    }
}

// ------------------------------------------------------------------ watch

/// After this many pulses in a row without a sound surface the wallpaper restarts itself.
pub const WACHE_LIMIT: u8 = 5;

/// What the watch does after a pulse.
#[derive(Clone, Copy, Debug, PartialEq, Eq, Structural)]
pub enum WachAktion {
    Nichts,
    /// Replace the process by a fresh one.
    Neustart,
    /// Ask for a new size, so that the compositor configures the surface again.
    Anstossen,
}

/// The surface watch: the pulses in a row without a sound surface.
pub struct Wache {
    pub fehlpulse: u8,
}

impl Wache {
    pub fn neu() -> (r: Wache)
        ensures
            r.fehlpulse == 0,
    {
        Wache { fehlpulse: 0 }
    }

    /// One report of the surface: `gesund` where it is at least one pixel wide and high,
    /// `vorhanden` where a window exists at all. A sound one clears the count; otherwise
    /// the count grows, reaching the limit restarts, and a window of no size is nudged.
    pub fn lage(&mut self, gesund: bool, vorhanden: bool) -> (r: WachAktion)
        requires
            old(self).fehlpulse < WACHE_LIMIT,
        ensures
            gesund ==> final(self).fehlpulse == 0 && r == WachAktion::Nichts,
            !gesund ==> final(self).fehlpulse == old(self).fehlpulse + 1 && r == (if old(
                self).fehlpulse + 1 >= WACHE_LIMIT {
                WachAktion::Neustart
            } else if vorhanden {
                WachAktion::Anstossen
            } else {
                WachAktion::Nichts
            }),
    {
        if gesund {
            self.fehlpulse = 0;
            return WachAktion::Nichts;
        }
        self.fehlpulse = self.fehlpulse + 1;
        if self.fehlpulse >= WACHE_LIMIT {
            WachAktion::Neustart
        } else if vorhanden {
            WachAktion::Anstossen
        } else {
            WachAktion::Nichts
        }
    }
}

/// Whether the shell's session is in light mode (`isLightMode` in its session file); dark
/// where that cannot be read.
pub fn ist_hell(sitzung: Option<&str>) -> (r: bool)
    ensures
        r == match sitzung {
            Some(s) => json_wahrheit(s@, "isLightMode"@) == Some(true),
            None => false,
        },
{
    match sitzung {
        Some(s) => match feld_wahrheit(s, "isLightMode") {
            Some(b) => b,
            None => false,
        },
        None => false,
    }
}

/// The picture that the shell's session file names (`wallpaperPath`), unless empty.
pub fn sitzungs_bild(sitzung: Option<&str>) -> (r: Option<String>)
    ensures
        match sitzung {
            Some(s) => match json_feld(s@, "wallpaperPath"@) {
                Some(p) => if p.len() > 0 {
                    r matches Some(t) && t@ == p
                } else {
                    r is None
                },
                None => r is None,
            },
            None => r is None,
        },
{
    match sitzung {
        Some(s) => match feld_text(s, "wallpaperPath") {
            Some(p) => if chars_of(p.as_str()).len() > 0 {
                Some(p)
            } else {
                None
            },
            None => None,
        },
        None => None,
    }
}

} // verus!
