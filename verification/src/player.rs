//! The video player's choices that need no decoding: which files are videos, which
//! recording it opens without an argument, and the name it shows.

use vstd::prelude::*;
use crate::dateien::{dateiname, dateiname_von};
use crate::leinwand::{endung, endung_von, pfad_kleiner, pfad_vor};
use crate::text::{chars_of, same_str};

verus! {

/// Whether a file is a video the player opens: its extension is `mp4`, `webm`, `mkv` or
/// `mov` (as written).
pub open spec fn ist_video_spec(p: Seq<char>) -> bool {
    match endung_von(p) {
        Some(e) => e == "mp4"@ || e == "webm"@ || e == "mkv"@ || e == "mov"@,
        None => false,
    }
}

pub fn ist_video(pfad: &str) -> (r: bool)
    ensures
        r == ist_video_spec(pfad@),
{
    match endung(pfad) {
        Some(e) => {
            let v = chars_of(e.as_str());
            same_str(&v, "mp4") || same_str(&v, "webm") || same_str(&v, "mkv") || same_str(
                &v,
                "mov",
            )
        },
        None => false,
    }
}

/// Whether `(t, p)` comes no earlier than `(bt, bp)`: by time, then by path.
pub open spec fn nicht_frueher(t: i128, p: Seq<char>, bt: i128, bp: Seq<char>) -> bool {
    t > bt || (t == bt && !pfad_kleiner(p, bp))
}

/// The video among the first `n` files that sorts last by time of change, then by path
/// (later ones win a tie).
pub open spec fn neuestes_bis(d: Seq<(Seq<char>, i128)>, n: int) -> Option<int>
    decreases n,
{
    if n <= 0 || n > d.len() {
        None
    } else {
        let b = neuestes_bis(d, n - 1);
        if !ist_video_spec(d[n - 1].0) {
            b
        } else {
            match b {
                Some(j) => if nicht_frueher(d[n - 1].1, d[n - 1].0, d[j].1, d[j].0) {
                    Some(n - 1)
                } else {
                    Some(j)
                },
                None => Some(n - 1),
            }
        }
    }
}

proof fn lemma_neuestes_bereich(d: Seq<(Seq<char>, i128)>, n: int)
    ensures
        neuestes_bis(d, n) matches Some(j) ==> 0 <= j < n <= d.len(),
    decreases n,
{
    if 0 < n <= d.len() {
        lemma_neuestes_bereich(d, n - 1);
    }
}

pub open spec fn dateien_sicht(v: Seq<(String, i128)>) -> Seq<(Seq<char>, i128)> {
    v.map_values(|e: (String, i128)| (e.0@, e.1))
}

/// The recording opened without an argument: among the files of the recordings folder
/// (path, time of change), the newest video.
pub fn neuestes_video(dateien: &Vec<(String, i128)>) -> (r: Option<String>)
    ensures
        match neuestes_bis(dateien_sicht(dateien@), dateien@.len() as int) {
            Some(j) => r matches Some(p) && p@ == dateien@[j].0@,
            None => r is None,
        },
{
    let ghost d = dateien_sicht(dateien@);
    let mut beste: Option<usize> = None;
    let mut i: usize = 0;
    while i < dateien.len()
        invariant
            i <= dateien@.len(),
            d == dateien_sicht(dateien@),
            match beste {
                Some(j) => neuestes_bis(d, i as int) == Some(j as int) && j < i,
                None => neuestes_bis(d, i as int) is None,
            },
        decreases dateien.len() - i,
    {
        if ist_video(dateien[i].0.as_str()) {
            beste = match beste {
                Some(j) => {
                    let t = dateien[i].1;
                    let bt = dateien[j].1;
                    if t > bt || (t == bt && !pfad_vor(dateien[i].0.as_str(), dateien[j].0.as_str())) {
                        Some(i)
                    } else {
                        Some(j)
                    }
                },
                None => Some(i),
            };
        }
        i = i + 1;
    }
    match beste {
        Some(j) => Some(dateien[j].0.clone()),
        None => None,
    }
}

/// The name the player shows for a film: its file name, empty where the path has none.
pub fn film_name(pfad: &str) -> (r: String)
    ensures
        r@ == match dateiname_von(pfad@) {
            Some(n) => n,
            None => Seq::<char>::empty(),
        },
{
    match dateiname(pfad) {
        Some(n) => n,
        None => String::new(),
    }
}

} // verus!
