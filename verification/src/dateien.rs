//! The file manager: entries and their kinds, the sort orders of the columns, the gallery
//! folders, the browser-like history and the decisions of renaming and creating.

use vstd::prelude::*;
use crate::text::{
    chars_of, concat, contains_seq, has_infix, klein, zu_klein, lex_kleiner, lex_kleiner_exec, rfind, same,
    lemma_lex_ordnung,
    same_str, slice, string_of, trim, trim_chars, lines, is_digit,
};

verus! {

// --------------------------------------------------------------- names

/// An ASCII upper-case letter made lower case; every other character stays.
pub open spec fn ascii_zu_klein(c: char) -> char {
    if 'A' <= c <= 'Z' {
        ((c as u32) + 32) as char
    } else {
        c
    }
}

/// What `str::to_ascii_lowercase` yields.
pub open spec fn ascii_klein(s: Seq<char>) -> Seq<char> {
    s.map_values(|c: char| ascii_zu_klein(c))
}

fn ascii_klein_exec(s: &Vec<char>) -> (r: Vec<char>)
    ensures
        r@ == ascii_klein(s@),
{
    let mut r: Vec<char> = Vec::new();
    let mut i: usize = 0;
    while i < s.len()
        invariant
            i <= s@.len(),
            r@ == ascii_klein(s@.take(i as int)),
        decreases s.len() - i,
    {
        let c = s[i];
        let k = if 'A' <= c && c <= 'Z' {
            (((c as u32) + 32) as u8) as char
        } else {
            c
        };
        proof {
            if 'A' <= c <= 'Z' {
                assert((((c as u32) + 32) as u8) as char == ascii_zu_klein(c));
            }
        }
        r.push(k);
        assert(ascii_klein(s@.take(i + 1)) =~= ascii_klein(s@.take(i as int)).push(ascii_zu_klein(c)));
        i = i + 1;
    }
    assert(s@.take(s@.len() as int) =~= s@);
    r
}

/// The piece of a name after its last dot, or the whole name where it has none (what
/// `rsplit('.').next()` yields).
pub open spec fn letztes_stueck(name: Seq<char>) -> Seq<char> {
    match rfind(name, '.') {
        Some(i) => name.skip(i + 1int),
        None => name,
    }
}

fn letztes_stueck_exec(name: &Vec<char>) -> (r: Vec<char>)
    ensures
        r@ == letztes_stueck(name@),
{
    let mut k = name.len();
    assert(name@.take(k as int) =~= name@);
    while k > 0 && name[k - 1] != '.'
        invariant
            k <= name@.len(),
            rfind(name@.take(k as int), '.') == rfind(name@, '.'),
        decreases k,
    {
        assert(name@.take(k as int).drop_last() =~= name@.take(k - 1));
        k = k - 1;
    }
    if k > 0 {
        assert(name@.take(k as int).last() == '.');
        let r = slice(name, k, name.len());
        assert(r@ =~= name@.skip(k as int));
        r
    } else {
        assert(name@.take(0) =~= Seq::<char>::empty());
        slice(name, 0, name.len())
    }
}

/// The kind of a file by its lower-case extension, as the "Kind" column shows it.
pub open spec fn art_von_endung(e: Seq<char>) -> Seq<char> {
    if e == "png"@ || e == "jpg"@ || e == "jpeg"@ || e == "webp"@ || e == "gif"@ || e == "bmp"@
        || e == "svg"@ || e == "heic"@ {
        "Bild"@
    } else if e == "mp4"@ || e == "mkv"@ || e == "webm"@ || e == "mov"@ || e == "avi"@ {
        "Film"@
    } else if e == "mp3"@ || e == "flac"@ || e == "ogg"@ || e == "wav"@ || e == "m4a"@ || e
        == "opus"@ {
        "Musik"@
    } else if e == "pdf"@ {
        "PDF-Dokument"@
    } else if e == "txt"@ || e == "md"@ {
        "Text"@
    } else if e == "rs"@ {
        "Rust-Quelltext"@
    } else if e == "toml"@ || e == "json"@ || e == "kdl"@ || e == "yaml"@ || e == "yml"@ || e
        == "conf"@ || e == "ini"@ {
        "Konfiguration"@
    } else if e == "sh"@ || e == "bash"@ {
        "Shell-Skript"@
    } else if e == "py"@ {
        "Python-Skript"@
    } else if e == "zip"@ || e == "tar"@ || e == "gz"@ || e == "xz"@ || e == "zst"@ || e
        == "7z"@ {
        "Archiv"@
    } else if e == "log"@ {
        "Protokolldatei"@
    } else if e == "desktop"@ {
        "App-Verknüpfung"@
    } else if e == "iso"@ || e == "img"@ {
        "Abbild"@
    } else {
        "Dokument"@
    }
}

/// The kind of an entry: folders are folders; files go by the ASCII-lowercased piece of the
/// name after its last dot.
pub open spec fn art_spec(ordner: bool, name: Seq<char>) -> Seq<char> {
    if ordner {
        "Ordner"@
    } else {
        art_von_endung(ascii_klein(letztes_stueck(name)))
    }
}

/// Lowering the case moves no dot: the last dot stands where it stood.
proof fn lemma_rfind_klein(s: Seq<char>)
    ensures
        rfind(ascii_klein(s), '.') == rfind(s, '.'),
        rfind(s, '.') matches Some(i) ==> i < s.len(),
    decreases s.len(),
{
    if s.len() > 0 {
        assert(ascii_klein(s).drop_last() =~= ascii_klein(s.drop_last()));
        lemma_rfind_klein(s.drop_last());
        let c = s.last();
        assert('A' <= c <= 'Z' ==> ((c as u32) + 32) as char != '.');
    }
}

/// The kind of a file does not depend on the case of its name's letters: two names that
/// agree but for ASCII case are of one kind.
pub proof fn lemma_art_ohne_gross(ordner: bool, a: Seq<char>, b: Seq<char>)
    requires
        ascii_klein(a) == ascii_klein(b),
    ensures
        art_spec(ordner, a) == art_spec(ordner, b),
{
    lemma_rfind_klein(a);
    lemma_rfind_klein(b);
    match rfind(a, '.') {
        Some(i) => assert(ascii_klein(a.skip(i + 1int)) =~= ascii_klein(a).skip(i + 1int)),
        None => {},
    }
    match rfind(b, '.') {
        Some(i) => assert(ascii_klein(b.skip(i + 1int)) =~= ascii_klein(b).skip(i + 1int)),
        None => {},
    }
}

proof fn lemma_rfind_ohne(s: Seq<char>, t: Seq<char>, c: char)
    requires
        !t.contains(c),
    ensures
        rfind(s + t, c) == rfind(s, c),
    decreases t.len(),
{
    if t.len() == 0 {
        assert(s + t =~= s);
    } else {
        assert((s + t).drop_last() =~= s + t.drop_last());
        assert((s + t).last() == t[t.len() - 1]);
        assert forall|i: int| 0 <= i < t.drop_last().len() implies t.drop_last()[i] != c by {
            assert(t.drop_last()[i] == t[i]);
        }
        lemma_rfind_ohne(s, t.drop_last(), c);
    }
}

/// The kinds of files by their extension, in any ASCII letter case: pictures, films,
/// music, documents, sources, settings, scripts, archives, logs, app links and disk
/// images each have their kind, an unknown extension makes a document, and a folder is a
/// folder whatever its name.
pub proof fn lemma_art_tabelle(stamm: Seq<char>, e: Seq<char>)
    requires
        !e.contains('.'),
    ensures
        ({
            let n = stamm + seq!['.'] + e;
            let x = ascii_klein(e);
            &&& art_spec(true, n) == "Ordner"@
            &&& (x == "png"@ || x == "jpg"@ || x == "jpeg"@ || x == "webp"@ || x == "gif"@ ||
                x == "bmp"@ || x == "svg"@ || x == "heic"@) ==> art_spec(false, n) == "Bild"@
            &&& (x == "mp4"@ || x == "mkv"@ || x == "webm"@ || x == "mov"@ || x == "avi"@)
                ==> art_spec(false, n) == "Film"@
            &&& (x == "mp3"@ || x == "flac"@ || x == "ogg"@ || x == "wav"@ || x == "m4a"@ ||
                x == "opus"@) ==> art_spec(false, n) == "Musik"@
            &&& (x == "pdf"@) ==> art_spec(false, n) == "PDF-Dokument"@
            &&& (x == "txt"@ || x == "md"@) ==> art_spec(false, n) == "Text"@
            &&& (x == "rs"@) ==> art_spec(false, n) == "Rust-Quelltext"@
            &&& (x == "toml"@ || x == "json"@ || x == "kdl"@ || x == "yaml"@ || x == "yml"@ ||
                x == "conf"@ || x == "ini"@) ==> art_spec(false, n) == "Konfiguration"@
            &&& (x == "sh"@ || x == "bash"@) ==> art_spec(false, n) == "Shell-Skript"@
            &&& (x == "py"@) ==> art_spec(false, n) == "Python-Skript"@
            &&& (x == "zip"@ || x == "tar"@ || x == "gz"@ || x == "xz"@ || x == "zst"@ ||
                x == "7z"@) ==> art_spec(false, n) == "Archiv"@
            &&& (x == "log"@) ==> art_spec(false, n) == "Protokolldatei"@
            &&& (x == "desktop"@) ==> art_spec(false, n) == "App-Verknüpfung"@
            &&& (x == "iso"@ || x == "img"@) ==> art_spec(false, n) == "Abbild"@
            &&& !(x == "png"@ || x == "jpg"@ || x == "jpeg"@ || x == "webp"@ || x == "gif"@ ||
                x == "bmp"@ || x == "svg"@ || x == "heic"@ || x == "mp4"@ || x == "mkv"@ ||
                x == "webm"@ || x == "mov"@ || x == "avi"@ || x == "mp3"@ || x == "flac"@ ||
                x == "ogg"@ || x == "wav"@ || x == "m4a"@ || x == "opus"@ || x == "pdf"@ ||
                x == "txt"@ || x == "md"@ || x == "rs"@ || x == "toml"@ || x == "json"@ ||
                x == "kdl"@ || x == "yaml"@ || x == "yml"@ || x == "conf"@ || x == "ini"@ ||
                x == "sh"@ || x == "bash"@ || x == "py"@ || x == "zip"@ || x == "tar"@ ||
                x == "gz"@ || x == "xz"@ || x == "zst"@ || x == "7z"@ || x == "log"@ ||
                x == "desktop"@ || x == "iso"@ || x == "img"@) ==> art_spec(false, n) == "Dokument"@
        }),
{
    reveal_strlit("png");
    reveal_strlit("jpg");
    reveal_strlit("jpeg");
    reveal_strlit("webp");
    reveal_strlit("gif");
    reveal_strlit("bmp");
    reveal_strlit("svg");
    reveal_strlit("heic");
    reveal_strlit("mp4");
    reveal_strlit("mkv");
    reveal_strlit("webm");
    reveal_strlit("mov");
    reveal_strlit("avi");
    reveal_strlit("mp3");
    reveal_strlit("flac");
    reveal_strlit("ogg");
    reveal_strlit("wav");
    reveal_strlit("m4a");
    reveal_strlit("opus");
    reveal_strlit("pdf");
    reveal_strlit("txt");
    reveal_strlit("md");
    reveal_strlit("rs");
    reveal_strlit("toml");
    reveal_strlit("json");
    reveal_strlit("kdl");
    reveal_strlit("yaml");
    reveal_strlit("yml");
    reveal_strlit("conf");
    reveal_strlit("ini");
    reveal_strlit("sh");
    reveal_strlit("bash");
    reveal_strlit("py");
    reveal_strlit("zip");
    reveal_strlit("tar");
    reveal_strlit("gz");
    reveal_strlit("xz");
    reveal_strlit("zst");
    reveal_strlit("7z");
    reveal_strlit("log");
    reveal_strlit("desktop");
    reveal_strlit("iso");
    reveal_strlit("img");
    let n = stamm + seq!['.'] + e;
    lemma_rfind_ohne(stamm.push('.'), e, '.');
    assert(stamm + seq!['.'] + e =~= stamm.push('.') + e);
    assert(stamm.push('.').last() == '.');
    assert(n.skip(stamm.len() + 1int) =~= e);
    assert(rfind(n, '.') == Some(stamm.len()));
    assert(letztes_stueck(n) == e);
    assert(art_spec(false, n) == art_von_endung(ascii_klein(e)));
    let x = ascii_klein(e);
    if x == "png"@ {
        assert(x.len() == 3 && x[0] == 'p' && x[1] == 'n' && x[2] == 'g');
    }
    if x == "jpg"@ {
        assert(x.len() == 3 && x[0] == 'j' && x[1] == 'p' && x[2] == 'g');
    }
    if x == "jpeg"@ {
        assert(x.len() == 4 && x[0] == 'j' && x[1] == 'p' && x[2] == 'e' && x[3] == 'g');
    }
    if x == "webp"@ {
        assert(x.len() == 4 && x[0] == 'w' && x[1] == 'e' && x[2] == 'b' && x[3] == 'p');
    }
    if x == "gif"@ {
        assert(x.len() == 3 && x[0] == 'g' && x[1] == 'i' && x[2] == 'f');
    }
    if x == "bmp"@ {
        assert(x.len() == 3 && x[0] == 'b' && x[1] == 'm' && x[2] == 'p');
    }
    if x == "svg"@ {
        assert(x.len() == 3 && x[0] == 's' && x[1] == 'v' && x[2] == 'g');
    }
    if x == "heic"@ {
        assert(x.len() == 4 && x[0] == 'h' && x[1] == 'e' && x[2] == 'i' && x[3] == 'c');
    }
    if x == "mp4"@ {
        assert(x.len() == 3 && x[0] == 'm' && x[1] == 'p' && x[2] == '4');
    }
    if x == "mkv"@ {
        assert(x.len() == 3 && x[0] == 'm' && x[1] == 'k' && x[2] == 'v');
    }
    if x == "webm"@ {
        assert(x.len() == 4 && x[0] == 'w' && x[1] == 'e' && x[2] == 'b' && x[3] == 'm');
    }
    if x == "mov"@ {
        assert(x.len() == 3 && x[0] == 'm' && x[1] == 'o' && x[2] == 'v');
    }
    if x == "avi"@ {
        assert(x.len() == 3 && x[0] == 'a' && x[1] == 'v' && x[2] == 'i');
    }
    if x == "mp3"@ {
        assert(x.len() == 3 && x[0] == 'm' && x[1] == 'p' && x[2] == '3');
    }
    if x == "flac"@ {
        assert(x.len() == 4 && x[0] == 'f' && x[1] == 'l' && x[2] == 'a' && x[3] == 'c');
    }
    if x == "ogg"@ {
        assert(x.len() == 3 && x[0] == 'o' && x[1] == 'g' && x[2] == 'g');
    }
    if x == "wav"@ {
        assert(x.len() == 3 && x[0] == 'w' && x[1] == 'a' && x[2] == 'v');
    }
    if x == "m4a"@ {
        assert(x.len() == 3 && x[0] == 'm' && x[1] == '4' && x[2] == 'a');
    }
    if x == "opus"@ {
        assert(x.len() == 4 && x[0] == 'o' && x[1] == 'p' && x[2] == 'u' && x[3] == 's');
    }
    if x == "pdf"@ {
        assert(x.len() == 3 && x[0] == 'p' && x[1] == 'd' && x[2] == 'f');
    }
    if x == "txt"@ {
        assert(x.len() == 3 && x[0] == 't' && x[1] == 'x' && x[2] == 't');
    }
    if x == "md"@ {
        assert(x.len() == 2 && x[0] == 'm' && x[1] == 'd');
    }
    if x == "rs"@ {
        assert(x.len() == 2 && x[0] == 'r' && x[1] == 's');
    }
    if x == "toml"@ {
        assert(x.len() == 4 && x[0] == 't' && x[1] == 'o' && x[2] == 'm' && x[3] == 'l');
    }
    if x == "json"@ {
        assert(x.len() == 4 && x[0] == 'j' && x[1] == 's' && x[2] == 'o' && x[3] == 'n');
    }
    if x == "kdl"@ {
        assert(x.len() == 3 && x[0] == 'k' && x[1] == 'd' && x[2] == 'l');
    }
    if x == "yaml"@ {
        assert(x.len() == 4 && x[0] == 'y' && x[1] == 'a' && x[2] == 'm' && x[3] == 'l');
    }
    if x == "yml"@ {
        assert(x.len() == 3 && x[0] == 'y' && x[1] == 'm' && x[2] == 'l');
    }
    if x == "conf"@ {
        assert(x.len() == 4 && x[0] == 'c' && x[1] == 'o' && x[2] == 'n' && x[3] == 'f');
    }
    if x == "ini"@ {
        assert(x.len() == 3 && x[0] == 'i' && x[1] == 'n' && x[2] == 'i');
    }
    if x == "sh"@ {
        assert(x.len() == 2 && x[0] == 's' && x[1] == 'h');
    }
    if x == "bash"@ {
        assert(x.len() == 4 && x[0] == 'b' && x[1] == 'a' && x[2] == 's' && x[3] == 'h');
    }
    if x == "py"@ {
        assert(x.len() == 2 && x[0] == 'p' && x[1] == 'y');
    }
    if x == "zip"@ {
        assert(x.len() == 3 && x[0] == 'z' && x[1] == 'i' && x[2] == 'p');
    }
    if x == "tar"@ {
        assert(x.len() == 3 && x[0] == 't' && x[1] == 'a' && x[2] == 'r');
    }
    if x == "gz"@ {
        assert(x.len() == 2 && x[0] == 'g' && x[1] == 'z');
    }
    if x == "xz"@ {
        assert(x.len() == 2 && x[0] == 'x' && x[1] == 'z');
    }
    if x == "zst"@ {
        assert(x.len() == 3 && x[0] == 'z' && x[1] == 's' && x[2] == 't');
    }
    if x == "7z"@ {
        assert(x.len() == 2 && x[0] == '7' && x[1] == 'z');
    }
    if x == "log"@ {
        assert(x.len() == 3 && x[0] == 'l' && x[1] == 'o' && x[2] == 'g');
    }
    if x == "desktop"@ {
        assert(x.len() == 7 && x[0] == 'd' && x[1] == 'e' && x[2] == 's' && x[3] == 'k' && x[4] == 't' && x[5] == 'o' && x[6] == 'p');
    }
    if x == "iso"@ {
        assert(x.len() == 3 && x[0] == 'i' && x[1] == 's' && x[2] == 'o');
    }
    if x == "img"@ {
        assert(x.len() == 3 && x[0] == 'i' && x[1] == 'm' && x[2] == 'g');
    }
}

fn art_exec(e: &Vec<char>) -> (r: &'static str)
    ensures
        r@ == art_von_endung(e@),
{
    if same_str(e, "png") || same_str(e, "jpg") || same_str(e, "jpeg") || same_str(e, "webp")
        || same_str(e, "gif") || same_str(e, "bmp") || same_str(e, "svg") || same_str(e, "heic") {
        "Bild"
    } else if same_str(e, "mp4") || same_str(e, "mkv") || same_str(e, "webm") || same_str(e, "mov")
        || same_str(e, "avi") {
        "Film"
    } else if same_str(e, "mp3") || same_str(e, "flac") || same_str(e, "ogg") || same_str(e, "wav")
        || same_str(e, "m4a") || same_str(e, "opus") {
        "Musik"
    } else if same_str(e, "pdf") {
        "PDF-Dokument"
    } else if same_str(e, "txt") || same_str(e, "md") {
        "Text"
    } else if same_str(e, "rs") {
        "Rust-Quelltext"
    } else if same_str(e, "toml") || same_str(e, "json") || same_str(e, "kdl") || same_str(
        e,
        "yaml",
    ) || same_str(e, "yml") || same_str(e, "conf") || same_str(e, "ini") {
        "Konfiguration"
    } else if same_str(e, "sh") || same_str(e, "bash") {
        "Shell-Skript"
    } else if same_str(e, "py") {
        "Python-Skript"
    } else if same_str(e, "zip") || same_str(e, "tar") || same_str(e, "gz") || same_str(e, "xz")
        || same_str(e, "zst") || same_str(e, "7z") {
        "Archiv"
    } else if same_str(e, "log") {
        "Protokolldatei"
    } else if same_str(e, "desktop") {
        "App-Verknüpfung"
    } else if same_str(e, "iso") || same_str(e, "img") {
        "Abbild"
    } else {
        "Dokument"
    }
}

// ------------------------------------------------------------------ entries

/// One entry of a folder.
#[derive(Debug, Clone)]
pub struct Eintrag {
    pub name: String,
    pub pfad: String,
    pub ordner: bool,
    /// Bytes.
    pub groesse: u64,
    /// Last change, in nanoseconds since the Unix epoch (negative before it).
    pub geaendert: Option<i128>,
}

/// (name, pfad, ordner, groesse, geaendert)
pub type EintragSicht = (Seq<char>, Seq<char>, bool, u64, Option<i128>);

impl View for Eintrag {
    type V = EintragSicht;

    open spec fn view(&self) -> EintragSicht {
        (self.name@, self.pfad@, self.ordner, self.groesse, self.geaendert)
    }
}

/// The views of a sequence of entries.
pub open spec fn eintrag_sichten(v: Seq<Eintrag>) -> Seq<EintragSicht> {
    v.map_values(|e: Eintrag| e@)
}

/// Whether a name is hidden: it starts with a dot.
pub open spec fn versteckt_spec(name: Seq<char>) -> bool {
    name.len() > 0 && name[0] == '.'
}

impl Eintrag {
    /// Whether the entry is hidden.
    pub fn versteckt(&self) -> (r: bool)
        ensures
            r == versteckt_spec(self.name@),
    {
        let n = chars_of(self.name.as_str());
        n.len() > 0 && n[0] == '.'
    }

    /// The "Kind" column: a readable name of the entry's type.
    pub fn art(&self) -> (r: &'static str)
        ensures
            r@ == art_spec(self.ordner, self.name@),
    {
        if self.ordner {
            return "Ordner";
        }
        let e = ascii_klein_exec(&letztes_stueck_exec(&chars_of(self.name.as_str())));
        art_exec(&e)
    }

    /// A field-by-field copy.
    pub fn kopie(&self) -> (r: Eintrag)
        ensures
            r@ == self@,
    {
        Eintrag {
            name: self.name.clone(),
            pfad: self.pfad.clone(),
            ordner: self.ordner,
            groesse: self.groesse,
            geaendert: self.geaendert,
        }
    }
}

// ------------------------------------------------------------------ sorting

/// The columns a folder can be sorted by.
#[derive(Debug, Clone, Copy, PartialEq, Eq, Structural)]
pub enum Spalte {
    Name,
    Datum,
    Groesse,
    Art,
}

/// Earlier change first; entries without a time come first.
pub open spec fn datum_kleiner(a: Option<i128>, b: Option<i128>) -> bool {
    match (a, b) {
        (None, Some(_)) => true,
        (Some(x), Some(y)) => x < y,
        _ => false,
    }
}

/// Whether entry `a` is strictly smaller than `b` in a column: names compare in lower case,
/// kinds then names.
pub open spec fn eintrag_kleiner(a: EintragSicht, b: EintragSicht, sp: Spalte) -> bool {
    match sp {
        Spalte::Name => lex_kleiner(klein(a.0), klein(b.0)),
        Spalte::Datum => datum_kleiner(a.4, b.4),
        Spalte::Groesse => a.3 < b.3,
        Spalte::Art => lex_kleiner(art_spec(a.2, a.0), art_spec(b.2, b.0)) || (art_spec(a.2, a.0)
            == art_spec(b.2, b.0) && lex_kleiner(klein(a.0), klein(b.0))),
    }
}

/// Whether `a` is listed before `b`: smaller first, or larger first when descending.
pub open spec fn eintrag_vor(a: EintragSicht, b: EintragSicht, sp: Spalte, ab: bool) -> bool {
    if ab {
        eintrag_kleiner(b, a, sp)
    } else {
        eintrag_kleiner(a, b, sp)
    }
}

/// Where an entry goes in a sorted list: behind every entry it is not listed before.
pub open spec fn eintrag_stelle(s: Seq<EintragSicht>, e: EintragSicht, sp: Spalte, ab: bool) -> nat
    decreases s.len(),
{
    if s.len() == 0 {
        0
    } else if !eintrag_vor(e, s.last(), sp, ab) {
        s.len()
    } else {
        eintrag_stelle(s.drop_last(), e, sp, ab)
    }
}

/// The entries sorted by a column and direction; entries that compare equal keep their order.
pub open spec fn sortiert_spec(s: Seq<EintragSicht>, sp: Spalte, ab: bool) -> Seq<EintragSicht>
    decreases s.len(),
{
    if s.len() == 0 {
        Seq::empty()
    } else {
        let t = sortiert_spec(s.drop_last(), sp, ab);
        t.insert(eintrag_stelle(t, s.last(), sp, ab) as int, s.last())
    }
}

proof fn lemma_eintrag_stelle(s: Seq<EintragSicht>, e: EintragSicht, sp: Spalte, ab: bool)
    ensures
        eintrag_stelle(s, e, sp, ab) <= s.len(),
    decreases s.len(),
{
    if s.len() > 0 && eintrag_vor(e, s.last(), sp, ab) {
        lemma_eintrag_stelle(s.drop_last(), e, sp, ab);
    }
}

fn lex_kleiner_str(a: &str, b: &str) -> (r: bool)
    ensures
        r == lex_kleiner(a@, b@),
{
    lex_kleiner_exec(&chars_of(a), &chars_of(b))
}

fn namen_kleiner(a: &Eintrag, b: &Eintrag) -> (r: bool)
    ensures
        r == lex_kleiner(klein(a.name@), klein(b.name@)),
{
    let ka = zu_klein(a.name.as_str());
    let kb = zu_klein(b.name.as_str());
    lex_kleiner_str(ka.as_str(), kb.as_str())
}

fn eintrag_kleiner_exec(a: &Eintrag, b: &Eintrag, sp: Spalte) -> (r: bool)
    ensures
        r == eintrag_kleiner(a@, b@, sp),
{
    match sp {
        Spalte::Name => namen_kleiner(a, b),
        Spalte::Datum => match (a.geaendert, b.geaendert) {
            (None, Some(_)) => true,
            (Some(x), Some(y)) => x < y,
            _ => false,
        },
        Spalte::Groesse => a.groesse < b.groesse,
        Spalte::Art => {
            let aa = a.art();
            let ba = b.art();
            if lex_kleiner_str(aa, ba) {
                true
            } else {
                same(&chars_of(aa), &chars_of(ba)) && namen_kleiner(a, b)
            }
        },
    }
}

fn eintrag_vor_exec(a: &Eintrag, b: &Eintrag, sp: Spalte, ab: bool) -> (r: bool)
    ensures
        r == eintrag_vor(a@, b@, sp, ab),
{
    if ab {
        eintrag_kleiner_exec(b, a, sp)
    } else {
        eintrag_kleiner_exec(a, b, sp)
    }
}

/// Whether the entries are in order: no entry is listed before one that stands above it.
pub open spec fn geordnet(s: Seq<EintragSicht>, sp: Spalte, ab: bool) -> bool {
    forall|i: int, j: int|
        0 <= i < j < s.len() ==> !eintrag_vor(#[trigger] s[j], #[trigger] s[i], sp, ab)
}

proof fn lemma_lex_dreier(x: Seq<char>, y: Seq<char>, z: Seq<char>)
    ensures
        lex_kleiner(x, y) ==> !lex_kleiner(y, x),
        !lex_kleiner(x, y) && !lex_kleiner(y, z) ==> !lex_kleiner(x, z),
        !lex_kleiner(x, y) && !lex_kleiner(y, x) ==> x == y,
{
    lemma_lex_ordnung(x, y, z);
    lemma_lex_ordnung(x, y, x);
    lemma_lex_ordnung(y, x, z);
    lemma_lex_ordnung(y, z, x);
    lemma_lex_ordnung(z, x, y);
    lemma_lex_ordnung(x, z, y);
    lemma_lex_ordnung(z, y, x);
    lemma_lex_ordnung(y, x, x);
}

/// Each column orders strictly and weakly: the smaller one is never also the larger, and
/// "not smaller" carries over.
proof fn lemma_kleiner_ordnung(a: EintragSicht, b: EintragSicht, c: EintragSicht, sp: Spalte)
    ensures
        eintrag_kleiner(a, b, sp) ==> !eintrag_kleiner(b, a, sp),
        !eintrag_kleiner(a, b, sp) && !eintrag_kleiner(b, c, sp) ==> !eintrag_kleiner(a, c, sp),
{
    let (ka, kb, kc) = (klein(a.0), klein(b.0), klein(c.0));
    lemma_lex_dreier(ka, kb, kc);
    lemma_lex_dreier(kb, ka, kc);
    let (aa, ab_, ac) = (art_spec(a.2, a.0), art_spec(b.2, b.0), art_spec(c.2, c.0));
    lemma_lex_dreier(aa, ab_, ac);
    lemma_lex_dreier(ab_, aa, ac);
    lemma_lex_dreier(ab_, ac, aa);
    lemma_lex_dreier(aa, ac, ab_);
    lemma_lex_dreier(kb, kc, ka);
    lemma_lex_dreier(ka, kc, kb);
}

proof fn lemma_vor_ordnung(a: EintragSicht, b: EintragSicht, c: EintragSicht, sp: Spalte, ab: bool)
    ensures
        eintrag_vor(a, b, sp, ab) ==> !eintrag_vor(b, a, sp, ab),
        !eintrag_vor(a, b, sp, ab) && !eintrag_vor(b, c, sp, ab) ==> !eintrag_vor(a, c, sp, ab),
{
    lemma_kleiner_ordnung(a, b, c, sp);
    lemma_kleiner_ordnung(c, b, a, sp);
    lemma_kleiner_ordnung(b, a, c, sp);
}

proof fn lemma_stelle_fakten(t: Seq<EintragSicht>, x: EintragSicht, sp: Spalte, ab: bool)
    ensures
        eintrag_stelle(t, x, sp, ab) <= t.len(),
        forall|q: int|
            eintrag_stelle(t, x, sp, ab) <= q < t.len() ==> eintrag_vor(x, #[trigger] t[q], sp, ab),
        eintrag_stelle(t, x, sp, ab) > 0 ==> !eintrag_vor(
            x,
            t[eintrag_stelle(t, x, sp, ab) - 1],
            sp,
            ab,
        ),
    decreases t.len(),
{
    lemma_eintrag_stelle(t, x, sp, ab);
    if t.len() > 0 && eintrag_vor(x, t.last(), sp, ab) {
        let u = t.drop_last();
        lemma_stelle_fakten(u, x, sp, ab);
        assert forall|q: int| eintrag_stelle(t, x, sp, ab) <= q < t.len() implies eintrag_vor(
            x,
            #[trigger] t[q],
            sp,
            ab,
        ) by {
            if q < t.len() - 1 {
                assert(t[q] == u[q]);
            }
        }
        if eintrag_stelle(t, x, sp, ab) > 0 {
            assert(t[eintrag_stelle(t, x, sp, ab) - 1] == u[eintrag_stelle(u, x, sp, ab) - 1]);
        }
    }
}

/// Sorting keeps every entry and leaves the list in order: no entry stands below one that
/// it is listed before, whatever the column and direction.
pub proof fn lemma_sortierung(s: Seq<EintragSicht>, sp: Spalte, ab: bool)
    ensures
        sortiert_spec(s, sp, ab).len() == s.len(),
        geordnet(sortiert_spec(s, sp, ab), sp, ab),
    decreases s.len(),
{
    if s.len() > 0 {
        let t = sortiert_spec(s.drop_last(), sp, ab);
        let x = s.last();
        lemma_sortierung(s.drop_last(), sp, ab);
        lemma_stelle_fakten(t, x, sp, ab);
        let p = eintrag_stelle(t, x, sp, ab) as int;
        let r = sortiert_spec(s, sp, ab);
        assert(r == t.insert(p, x));
        assert forall|i: int, j: int| 0 <= i < j < r.len() implies !eintrag_vor(
            #[trigger] r[j],
            #[trigger] r[i],
            sp,
            ab,
        ) by {
            if j < p {
                assert(r[i] == t[i] && r[j] == t[j]);
            } else if j == p {
                assert(r[i] == t[i]);
                assert(r[j] == x);
                if i < p - 1 {
                    assert(!eintrag_vor(t[p - 1], t[i], sp, ab));
                    lemma_vor_ordnung(x, t[p - 1], t[i], sp, ab);
                }
            } else if i == p {
                assert(r[i] == x);
                assert(r[j] == t[j - 1]);
                assert(eintrag_vor(x, t[j - 1], sp, ab));
                lemma_vor_ordnung(x, t[j - 1], x, sp, ab);
            } else if i < p {
                assert(r[i] == t[i]);
                assert(r[j] == t[j - 1]);
            } else {
                assert(r[i] == t[i - 1]);
                assert(r[j] == t[j - 1]);
            }
        }
    }
}

/// Sort the entries by a column, ascending or descending; equal entries keep their order.
pub fn sortieren(eintraege: &mut Vec<Eintrag>, spalte: Spalte, absteigend: bool)
    ensures
        eintrag_sichten(final(eintraege)@) == sortiert_spec(
            eintrag_sichten(old(eintraege)@),
            spalte,
            absteigend,
        ),
{
    let ghost g = eintrag_sichten(eintraege@);
    let mut t: Vec<Eintrag> = Vec::new();
    let mut j: usize = 0;
    assert(g.take(0) =~= Seq::<EintragSicht>::empty());
    while j < eintraege.len()
        invariant
            j <= eintraege@.len(),
            g == eintrag_sichten(eintraege@),
            eintraege@ == old(eintraege)@,
            eintrag_sichten(t@) == sortiert_spec(g.take(j as int), spalte, absteigend),
        decreases eintraege.len() - j,
    {
        assert(g.take(j + 1).drop_last() =~= g.take(j as int));
        assert(g.take(j + 1).last() == eintraege@[j as int]@);
        let x = eintraege[j].kopie();
        let ghost s = eintrag_sichten(t@);
        let mut p = t.len();
        assert(s.take(p as int) =~= s);
        while p > 0 && eintrag_vor_exec(&x, &t[p - 1], spalte, absteigend)
            invariant
                p <= t@.len(),
                s == eintrag_sichten(t@),
                eintrag_stelle(s.take(p as int), x@, spalte, absteigend) == eintrag_stelle(
                    s,
                    x@,
                    spalte,
                    absteigend,
                ),
            decreases p,
        {
            assert(s.take(p as int).drop_last() =~= s.take(p - 1));
            p = p - 1;
        }
        if p > 0 {
            assert(s.take(p as int).last() == s[p - 1]);
        }
        let ghost vorher = t@;
        t.insert(p, x);
        assert(eintrag_sichten(t@) =~= eintrag_sichten(vorher).insert(p as int, x@));
        j = j + 1;
    }
    assert(g.take(g.len() as int) =~= g);
    *eintraege = t;
}

// ------------------------------------------------------------------ paths

/// What `Path`'s `==` says of two paths.
pub uninterp spec fn pfade_gleich(a: Seq<char>, b: Seq<char>) -> bool;

/// `Path::new(a) == Path::new(b)`. Stated: the result depends on the two texts alone, and a
/// path equals itself; how paths are split into components is left unsaid.
#[verifier::external_body]
pub(crate) fn pfad_gleich(a: &str, b: &str) -> (r: bool)
    ensures
        r == pfade_gleich(a@, b@),
        a@ == b@ ==> r,
{
    std::path::Path::new(a) == std::path::Path::new(b)
}

/// What `Path::starts_with` says of a path and a base.
pub uninterp spec fn pfad_unter(p: Seq<char>, basis: Seq<char>) -> bool;

/// `Path::new(p).starts_with(basis)`: whether the base is a prefix of the path, whole
/// components only. Stated: the result depends on the two texts alone.
#[verifier::external_body]
fn pfad_beginnt(p: &str, basis: &str) -> (r: bool)
    ensures
        r == pfad_unter(p@, basis@),
{
    std::path::Path::new(p).starts_with(basis)
}

// ------------------------------------------------------------------ dates

/// The moments chrono's `DateTime::from_timestamp` accepts, in seconds since the Unix epoch:
/// from the first second of -262143-01-01 to the last of 262142-12-31 (UTC), the range of
/// its calendar dates.
pub open spec fn chrono_zeit_ok(s: int) -> bool {
    -8_334_601_228_800 <= s <= 8_210_266_876_799
}

/// A year as chrono's `%Y` writes it: four digits or more, a sign in front outside 0 to
/// 9999.
pub open spec fn jahr_form(y: Seq<char>) -> bool {
    &&& y.len() >= 4
    &&& is_digit(y[0]) || y[0] == '+' || y[0] == '-'
    &&& forall|i: int| 1 <= i < y.len() ==> is_digit(#[trigger] y[i])
}

/// The form `dd.mm.yyyy, HH:MM`: two digits each for day, month, hour and minute, and a
/// year as `%Y` writes it.
pub open spec fn datum_form(t: Seq<char>) -> bool {
    let n = t.len();
    &&& n >= 17
    &&& is_digit(t[0]) && is_digit(t[1]) && t[2] == '.'
    &&& is_digit(t[3]) && is_digit(t[4]) && t[5] == '.'
    &&& jahr_form(t.subrange(6, n - 7))
    &&& t[n - 7] == ',' && t[n - 6] == ' '
    &&& is_digit(t[n - 5]) && is_digit(t[n - 4]) && t[n - 3] == ':'
    &&& is_digit(t[n - 2]) && is_digit(t[n - 1])
}

/// chrono's local date and time of a moment (seconds since the Unix epoch), written with the
/// pattern `%d.%m.%Y, %H:%M`, as `18.06.2026, 11:28`. Stated: a text comes back exactly for
/// the moments `DateTime::from_timestamp` accepts, and it has that pattern's form; which
/// date and time it shows is left unsaid, since it depends on the machine's time zone.
#[verifier::external_body]
fn ortszeit_text(sekunden: i64) -> (r: Option<String>)
    ensures
        match r {
            Some(t) => chrono_zeit_ok(sekunden as int) && datum_form(t@),
            None => !chrono_zeit_ok(sekunden as int),
        },
{
    match chrono::DateTime::from_timestamp(sekunden, 0) {
        Some(d) => Some(d.with_timezone(&chrono::Local).format("%d.%m.%Y, %H:%M").to_string()),
        None => None,
    }
}

/// The whole seconds of a moment given in nanoseconds since the Unix epoch, rounded down.
fn sekunden_von(n: i128) -> (r: i128)
    ensures
        r == n / 1_000_000_000,
{
    if n >= 0 {
        n / 1_000_000_000
    } else {
        let m: i128 = -(n + 1);
        let r = -(m / 1_000_000_000) - 1;
        assert(r * 1_000_000_000 <= n < r * 1_000_000_000 + 1_000_000_000);
        proof {
            vstd::arithmetic::div_mod::lemma_fundamental_div_mod_converse(
                n as int,
                1_000_000_000,
                r as int,
                n - r * 1_000_000_000,
            );
        }
        r
    }
}

/// The date column of an entry (its last change, in nanoseconds since the Unix epoch): the
/// local date and time of the second it falls in, in the form `dd.mm.yyyy, HH:MM`; a dash
/// where the time is unknown or lies outside the dates chrono can give.
pub fn datum_text(zeit: Option<i128>) -> (r: String)
    ensures
        match zeit {
            Some(n) => if chrono_zeit_ok(n / 1_000_000_000) {
                datum_form(r@)
            } else {
                r@ == "—"@
            },
            None => r@ == "—"@,
        },
{
    match zeit {
        Some(n) => {
            let s = sekunden_von(n);
            if i64::MIN as i128 <= s && s <= i64::MAX as i128 {
                match ortszeit_text(s as i64) {
                    Some(t) => t,
                    None => string_of(&chars_of("—")),
                }
            } else {
                string_of(&chars_of("—"))
            }
        },
        None => string_of(&chars_of("—")),
    }
}

/// What `Path::file_name` yields for a path, as text.
pub uninterp spec fn dateiname_von(p: Seq<char>) -> Option<Seq<char>>;

/// The text after the last `/` of a path.
pub open spec fn letzter_teil(p: Seq<char>) -> Seq<char> {
    match rfind(p, '/') {
        Some(i) => p.skip(i + 1int),
        None => p,
    }
}

/// A plain name: not empty, and neither `.` nor `..`.
pub open spec fn schlichter_name(n: Seq<char>) -> bool {
    n.len() > 0 && n != "."@ && n != ".."@
}

/// `Path::file_name`, converted lossily to text. Stated: the result depends on the path
/// alone, and where the path ends in a plain name after its last `/` (or is one), that name
/// is its final component and so its file name; how other paths are split into components
/// is left unsaid.
#[verifier::external_body]
pub(crate) fn dateiname(p: &str) -> (r: Option<String>)
    ensures
        match r {
            Some(n) => dateiname_von(p@) == Some(n@) && (schlichter_name(letzter_teil(p@)) ==> n@
                == letzter_teil(p@)),
            None => dateiname_von(p@) is None && !schlichter_name(letzter_teil(p@)),
        },
{
    std::path::Path::new(p).file_name().map(|n| n.to_string_lossy().to_string())
}

/// The extension of a file name (as `Path::extension` documents it): the part after the
/// last dot; none where there is no dot, or the only dot starts the name.
pub open spec fn endung_von_name(name: Seq<char>) -> Option<Seq<char>> {
    match rfind(name, '.') {
        Some(i) => if i == 0 {
            None
        } else {
            Some(name.skip(i + 1int))
        },
        None => None,
    }
}

/// Whether a path names an AppImage: its extension is `AppImage` in any ASCII case.
pub open spec fn ist_appimage_spec(pfad: Seq<char>) -> bool {
    match dateiname_von(pfad) {
        Some(n) => match endung_von_name(n) {
            Some(e) => ascii_klein(e) == "appimage"@,
            None => false,
        },
        None => false,
    }
}

/// Whether a path names an AppImage.
pub fn ist_appimage(pfad: &str) -> (r: bool)
    ensures
        r == ist_appimage_spec(pfad@),
{
    match dateiname(pfad) {
        Some(n) => {
            let v = chars_of(n.as_str());
            let mut k = v.len();
            assert(v@.take(k as int) =~= v@);
            while k > 0 && v[k - 1] != '.'
                invariant
                    k <= v@.len(),
                    rfind(v@.take(k as int), '.') == rfind(v@, '.'),
                decreases k,
            {
                assert(v@.take(k as int).drop_last() =~= v@.take(k - 1));
                k = k - 1;
            }
            if k > 1 {
                assert(v@.take(k as int).last() == '.');
                let e = slice(&v, k, v.len());
                assert(e@ =~= v@.skip(k as int));
                let kl = ascii_klein_exec(&e);
                same_str(&kl, "appimage")
            } else {
                proof {
                    if k == 1 {
                        assert(v@.take(k as int).last() == '.');
                    } else {
                        assert(v@.take(0) =~= Seq::<char>::empty());
                    }
                }
                false
            }
        },
        None => false,
    }
}

/// Where a folder stands in the gallery.
#[derive(Debug, Clone, Copy, PartialEq, Eq, Structural)]
pub enum Galerie {
    Keine,
    /// The pictures or the videos folder: the combined gallery root.
    Wurzel,
    /// A folder below them: an album.
    Album,
}

/// Where a path stands in the gallery, given the pictures and videos folders.
pub open spec fn galerie_spec(pfad: Seq<char>, bilder: Seq<char>, videos: Seq<char>) -> Galerie {
    if pfade_gleich(pfad, bilder) || pfade_gleich(pfad, videos) {
        Galerie::Wurzel
    } else if pfad_unter(pfad, bilder) || pfad_unter(pfad, videos) {
        Galerie::Album
    } else {
        Galerie::Keine
    }
}

/// Where a path stands in the gallery: the pictures and videos folders are its root,
/// folders below them are albums.
pub fn galerie_von(pfad: &str, bilder: &str, videos: &str) -> (r: Galerie)
    ensures
        r == galerie_spec(pfad@, bilder@, videos@),
{
    if pfad_gleich(pfad, bilder) || pfad_gleich(pfad, videos) {
        Galerie::Wurzel
    } else if pfad_beginnt(pfad, bilder) || pfad_beginnt(pfad, videos) {
        Galerie::Album
    } else {
        Galerie::Keine
    }
}

// ------------------------------------------------------------------ history

/// Browser-like history of visited folders.
pub struct Verlauf {
    pub pfade: Vec<String>,
    pub pos: usize,
}

/// (visited folders, position)
pub type VerlaufSicht = (Seq<Seq<char>>, nat);

impl View for Verlauf {
    type V = VerlaufSicht;

    open spec fn view(&self) -> VerlaufSicht {
        (self.pfade@.map_values(|p: String| p@), self.pos as nat)
    }
}

/// A history is well formed when its position points at a visited folder.
pub open spec fn verlauf_ok(v: VerlaufSicht) -> bool {
    v.1 < v.0.len()
}

/// Going to a folder: everything after the position is dropped, the folder is appended and
/// becomes current.
pub open spec fn gehe_spec(v: VerlaufSicht, ziel: Seq<char>) -> VerlaufSicht {
    (v.0.take(v.1 + 1int).push(ziel), v.1 + 1)
}

/// One step back, where there is one.
pub open spec fn zurueck_spec(v: VerlaufSicht) -> VerlaufSicht {
    if v.1 > 0 {
        (v.0, (v.1 - 1) as nat)
    } else {
        v
    }
}

/// One step forward, where there is one.
pub open spec fn vor_spec(v: VerlaufSicht) -> VerlaufSicht {
    if v.1 + 1 < v.0.len() {
        (v.0, v.1 + 1)
    } else {
        v
    }
}

impl Verlauf {
    pub open spec fn aktuell(&self) -> Seq<char> {
        self@.0[self@.1 as int]
    }

    /// A history that starts in one folder.
    pub fn neu(start: String) -> (r: Verlauf)
        ensures
            r@ == (seq![start@], 0nat),
    {
        let mut pfade: Vec<String> = Vec::new();
        pfade.push(start);
        let r = Verlauf { pfade, pos: 0 };
        assert(r@.0 =~= seq![start@]);
        r
    }

    /// The current folder.
    pub fn jetzt(&self) -> (r: String)
        requires
            verlauf_ok(self@),
        ensures
            r@ == self.aktuell(),
    {
        self.pfade[self.pos].clone()
    }

    /// Go to a folder.
    pub fn gehe(&mut self, ziel: String)
        requires
            verlauf_ok(old(self)@),
        ensures
            final(self)@ == gehe_spec(old(self)@, ziel@),
            verlauf_ok(final(self)@),
    {
        let ghost alt = self@;
        let n = self.pfade.len();
        assert(alt.0.len() == n);
        self.pfade.truncate(self.pos + 1);
        self.pfade.push(ziel);
        self.pos = self.pfade.len() - 1;
        assert(self@.0 =~= alt.0.take(alt.1 + 1int).push(ziel@));
    }

    /// One step back; the folder to show, if there was a step.
    pub fn zurueck(&mut self) -> (r: Option<String>)
        requires
            verlauf_ok(old(self)@),
        ensures
            final(self)@ == zurueck_spec(old(self)@),
            verlauf_ok(final(self)@),
            match r {
                Some(p) => old(self)@.1 > 0 && p@ == final(self).aktuell(),
                None => old(self)@.1 == 0,
            },
    {
        if self.pos > 0 {
            self.pos = self.pos - 1;
            Some(self.pfade[self.pos].clone())
        } else {
            None
        }
    }

    /// One step forward; the folder to show, if there was a step.
    pub fn vor(&mut self) -> (r: Option<String>)
        requires
            verlauf_ok(old(self)@),
        ensures
            final(self)@ == vor_spec(old(self)@),
            verlauf_ok(final(self)@),
            match r {
                Some(p) => old(self)@.1 + 1 < old(self)@.0.len() && p@ == final(self).aktuell(),
                None => old(self)@.1 + 1 >= old(self)@.0.len(),
            },
    {
        let n = self.pfade.len();
        assert(self@.0.len() == n);
        if self.pos + 1 < n {
            self.pos = self.pos + 1;
            Some(self.pfade[self.pos].clone())
        } else {
            None
        }
    }
}

/// The history behaves like a browser's: after going somewhere, back leads to where one
/// was and nothing lies ahead; back then forward returns to the same state.
pub proof fn lemma_verlauf(v: VerlaufSicht, ziel: Seq<char>)
    requires
        verlauf_ok(v),
    ensures
        verlauf_ok(gehe_spec(v, ziel)),
        gehe_spec(v, ziel).0[gehe_spec(v, ziel).1 as int] == ziel,
        zurueck_spec(gehe_spec(v, ziel)).0[zurueck_spec(gehe_spec(v, ziel)).1 as int] == v.0[v.1 as int],
        vor_spec(gehe_spec(v, ziel)) == gehe_spec(v, ziel),
        v.1 > 0 ==> vor_spec(zurueck_spec(v)) == v,
        v.1 + 1 < v.0.len() ==> zurueck_spec(vor_spec(v)) == v,
{
}

// ---------------------------------------------------------------- decisions

/// The indices of the entries that the search shows: all for an empty search, else those
/// whose lower-case name contains the lower-case search.
pub open spec fn sichtbar_spec(e: EintragSicht, suche: Seq<char>) -> bool {
    klein(suche).len() == 0 || has_infix(klein(e.0), klein(suche))
}

/// The indices of the shown entries, in order.
pub fn sichtbare(eintraege: &Vec<Eintrag>, suche: &str) -> (r: Vec<usize>)
    ensures
        forall|k: int| 0 <= k < r@.len() ==> r@[k] < eintraege@.len() && sichtbar_spec(
            eintraege@[r@[k] as int]@,
            suche@,
        ),
        forall|k: int, l: int| 0 <= k < l < r@.len() ==> r@[k] < r@[l],
        forall|i: int|
            0 <= i < eintraege@.len() && sichtbar_spec(#[trigger] eintraege@[i]@, suche@)
                ==> r@.contains(i as usize),
{
    let s = chars_of(zu_klein(suche).as_str());
    let mut r: Vec<usize> = Vec::new();
    let mut i: usize = 0;
    while i < eintraege.len()
        invariant
            i <= eintraege@.len(),
            s@ == klein(suche@),
            forall|k: int| 0 <= k < r@.len() ==> r@[k] < i && sichtbar_spec(
                eintraege@[r@[k] as int]@,
                suche@,
            ),
            forall|k: int, l: int| 0 <= k < l < r@.len() ==> r@[k] < r@[l],
            forall|j: int|
                0 <= j < i && sichtbar_spec(#[trigger] eintraege@[j]@, suche@) ==> r@.contains(
                    j as usize,
                ),
        decreases eintraege.len() - i,
    {
        let n = chars_of(zu_klein(eintraege[i].name.as_str()).as_str());
        if s.len() == 0 || contains_seq(&n, &s) {
            let ghost vorher = r@;
            r.push(i);
            assert(r@[r@.len() - 1] == i);
            assert forall|j: int|
                0 <= j < i + 1 && sichtbar_spec(#[trigger] eintraege@[j]@, suche@) implies r@.contains(
                j as usize,
            ) by {
                if j < i {
                    let k = choose|k: int| 0 <= k < vorher.len() && vorher[k] == j as usize;
                    assert(r@[k] == vorher[k]);
                }
            }
        }
        i = i + 1;
    }
    r
}

/// The position of `a` among the shown indices.
pub open spec fn stelle_in(sicht: Seq<usize>, a: usize) -> Option<nat>
    decreases sicht.len(),
{
    if sicht.len() == 0 {
        None
    } else {
        match stelle_in(sicht.drop_last(), a) {
            Some(p) => Some(p),
            None => if sicht.last() == a {
                Some((sicht.len() - 1) as nat)
            } else {
                None
            },
        }
    }
}

/// The selection after the down (`weiter`) or up key among the shown rows: one row on,
/// staying at the ends; without a shown selection, down picks the first row and up the
/// last; with no rows shown it stays.
pub open spec fn auswahl_taste_spec(sicht: Seq<usize>, auswahl: Option<usize>, weiter: bool) -> Option<usize> {
    if sicht.len() == 0 {
        auswahl
    } else {
        let pos = match auswahl {
            Some(a) => stelle_in(sicht, a),
            None => None,
        };
        let neu: int = match pos {
            Some(p) => if weiter && p + 1 < sicht.len() {
                p + 1int
            } else if !weiter && p > 0 {
                p - 1int
            } else {
                p as int
            },
            None => if weiter {
                0int
            } else {
                sicht.len() - 1int
            },
        };
        Some(sicht[neu])
    }
}

proof fn lemma_stelle_in(s: Seq<usize>, a: usize, i: int)
    requires
        0 <= i <= s.len(),
        forall|k: int| 0 <= k < i ==> s[k] != a,
    ensures
        i < s.len() && s[i] == a ==> stelle_in(s, a) == Some(i as nat),
        i == s.len() ==> stelle_in(s, a) is None,
    decreases s.len(),
{
    if s.len() > 0 {
        let u = s.drop_last();
        if i == s.len() {
            assert forall|k: int| 0 <= k < i - 1 implies u[k] != a by {
                assert(u[k] == s[k]);
            }
            lemma_stelle_in(u, a, i - 1);
        } else if i < s.len() - 1 {
            assert forall|k: int| 0 <= k < i implies u[k] != a by {
                assert(u[k] == s[k]);
            }
            lemma_stelle_in(u, a, i);
            assert(u[i] == s[i]);
        } else {
            assert forall|k: int| 0 <= k < i implies u[k] != a by {
                assert(u[k] == s[k]);
            }
            lemma_stelle_in(u, a, i);
        }
    }
}

/// The selection after the down or up key.
pub fn auswahl_taste(sicht: &Vec<usize>, auswahl: Option<usize>, weiter: bool) -> (r: Option<usize>)
    ensures
        r == auswahl_taste_spec(sicht@, auswahl, weiter),
{
    if sicht.len() == 0 {
        return auswahl;
    }
    let mut pos: Option<usize> = None;
    if let Some(a) = auswahl {
        let mut i: usize = 0;
        while i < sicht.len() && sicht[i] != a
            invariant
                i <= sicht@.len(),
                forall|k: int| 0 <= k < i ==> sicht@[k] != a,
            decreases sicht.len() - i,
        {
            i = i + 1;
        }
        proof {
            lemma_stelle_in(sicht@, a, i as int);
        }
        if i < sicht.len() {
            pos = Some(i);
        }
    }
    let neu: usize = match pos {
        Some(p) => if weiter && p + 1 < sicht.len() {
            p + 1
        } else if !weiter && p > 0 {
            p - 1
        } else {
            p
        },
        None => if weiter {
            0
        } else {
            sicht.len() - 1
        },
    };
    Some(sicht[neu])
}

/// The sort order after a click on a column heading: the same column flips the direction,
/// another column sorts ascending by it.
pub fn sortier_klick(spalte: Spalte, absteigend: bool, geklickt: Spalte) -> (r: (Spalte, bool))
    ensures
        r == (if spalte == geklickt {
            (spalte, !absteigend)
        } else {
            (geklickt, false)
        }),
{
    if spalte == geklickt {
        (spalte, !absteigend)
    } else {
        (geklickt, false)
    }
}

/// The extension that renaming compares: the lower-case part after the last dot, if any.
pub open spec fn umbenenn_endung(name: Seq<char>) -> Option<Seq<char>> {
    match rfind(name, '.') {
        Some(i) => Some(klein(name.skip(i + 1int))),
        None => None,
    }
}

#[verifier::rlimit(40)]
fn umbenenn_endung_exec(name: &Vec<char>) -> (r: Option<Vec<char>>)
    ensures
        match r {
            Some(e) => umbenenn_endung(name@) == Some(e@),
            None => umbenenn_endung(name@) is None,
        },
{
    let mut k = name.len();
    assert(name@.take(k as int) =~= name@);
    while k > 0 && name[k - 1] != '.'
        invariant
            k <= name@.len(),
            rfind(name@.take(k as int), '.') == rfind(name@, '.'),
        decreases k,
    {
        assert(name@.take(k as int).drop_last() =~= name@.take(k - 1));
        k = k - 1;
    }
    if k > 0 {
        assert(name@.take(k as int).last() == '.');
        let e = slice(name, k, name.len());
        assert(e@ =~= name@.skip(k as int));
        Some(chars_of(zu_klein(string_of(&e).as_str()).as_str()))
    } else {
        assert(name@.take(0) =~= Seq::<char>::empty());
        None
    }
}

/// What finishing a rename does.
pub enum Umbenennung {
    /// The extension would change: warn, keep editing; the next finish renames.
    Warnen,
    /// Rename to this name (where nothing of that name exists), then end the edit.
    Umbenennen(String),
    /// End the edit without renaming.
    Beenden,
}

/// A new name is usable: not empty, not the old name, no slash.
pub open spec fn neuer_name_ok(alt: Seq<char>, neu: Seq<char>) -> bool {
    neu.len() > 0 && neu != alt && !neu.contains('/')
}

/// The decision when a rename is finished; `alt` is the entry's name where the edited index
/// still names an entry. Changing the extension warns once; the rename itself needs a usable
/// trimmed name.
pub fn umbenennen_fertig(alt: Option<String>, text: &str, bestaetigt: bool) -> (r: Umbenennung)
    ensures
        match alt {
            Some(a) => {
                let neu = trim(text@);
                if !bestaetigt && a@ != neu && umbenenn_endung(a@) != umbenenn_endung(neu) {
                    r is Warnen
                } else if neuer_name_ok(a@, neu) {
                    r matches Umbenennung::Umbenennen(n) && n@ == neu
                } else {
                    r is Beenden
                }
            },
            None => r is Beenden,
        },
{
    match alt {
        Some(a) => {
            let av = chars_of(a.as_str());
            let neu = trim_chars(&chars_of(text));
            let gleich = same(&av, &neu);
            if !bestaetigt && !gleich {
                let ea = umbenenn_endung_exec(&av);
                let en = umbenenn_endung_exec(&neu);
                let gleiche_endung = match (&ea, &en) {
                    (Some(x), Some(y)) => same(x, y),
                    (None, None) => true,
                    _ => false,
                };
                if !gleiche_endung {
                    return Umbenennung::Warnen;
                }
            }
            if neu.len() > 0 && !gleich && !crate::text::contains_char(&neu, '/') {
                Umbenennung::Umbenennen(string_of(&neu))
            } else {
                Umbenennung::Beenden
            }
        },
        None => Umbenennung::Beenden,
    }
}

/// The name of a new folder: the trimmed text, if it is not empty and has no slash.
pub fn ordner_name(text: &str) -> (r: Option<String>)
    ensures
        match r {
            Some(n) => trim(text@).len() > 0 && !trim(text@).contains('/') && n@ == trim(text@),
            None => !(trim(text@).len() > 0 && !trim(text@).contains('/')),
        },
{
    let n = trim_chars(&chars_of(text));
    if n.len() > 0 && !crate::text::contains_char(&n, '/') {
        Some(string_of(&n))
    } else {
        None
    }
}

// ------------------------------------------------------------ clicks and drags

/// Milliseconds from `vorher` to `jetzt`; none where the clock went back.
pub open spec fn seit(vorher: u64, jetzt: u64) -> int {
    if jetzt >= vorher {
        jetzt - vorher
    } else {
        0
    }
}

/// Whether a click on row `i` at `jetzt` (in milliseconds) completes a double click: the
/// last click hit the same row less than `fenster` milliseconds before.
pub fn doppelklick(letzter: Option<(usize, u64)>, i: usize, jetzt: u64, fenster: u64) -> (r: bool)
    ensures
        r == (letzter matches Some((li, lz)) && li == i && seit(lz, jetzt) < fenster),
{
    match letzter {
        Some((li, lz)) => {
            let d: u64 = if jetzt >= lz {
                jetzt - lz
            } else {
                0
            };
            li == i && d < fenster
        },
        None => false,
    }
}

/// A click on "empty the trash": the first click only asks, the second empties. Gives
/// whether the next click is the second, and whether to empty now.
pub fn leeren_klick(bestaetigen: bool) -> (r: (bool, bool))
    ensures
        r == (!bestaetigen, bestaetigen),
{
    (!bestaetigen, bestaetigen)
}

/// The gallery filter step as set: at most 2.
pub fn filter_stufe(stufe: u8) -> (r: u8)
    ensures
        r == if stufe < 2 {
            stufe
        } else {
            2
        },
{
    if stufe < 2 {
        stufe
    } else {
        2
    }
}

/// The folder a drag springs into: an active drag that has hovered over a folder for at
/// least `schwelle` milliseconds at `jetzt`.
pub fn spring_ordner(
    aktiv: bool,
    ziel: &Option<ZiehZiel>,
    schwebt_seit: Option<u64>,
    jetzt: u64,
    schwelle: u64,
) -> (r: Option<String>)
    ensures
        match r {
            Some(p) => {
                &&& aktiv
                &&& (ziel matches Some(ZiehZiel::Ordner(q)) && q@ == p@)
                &&& (schwebt_seit matches Some(t) && seit(t, jetzt) >= schwelle)
            },
            None => !{
                &&& aktiv
                &&& ziel matches Some(ZiehZiel::Ordner(_))
                &&& (schwebt_seit matches Some(t) && seit(t, jetzt) >= schwelle)
            },
        },
{
    if !aktiv {
        return None;
    }
    match (ziel, schwebt_seit) {
        (Some(ZiehZiel::Ordner(p)), Some(t)) => {
            let d: u64 = if jetzt >= t {
                jetzt - t
            } else {
                0
            };
            if d >= schwelle {
                Some(p.clone())
            } else {
                None
            }
        },
        _ => None,
    }
}

/// How many thumbnails are kept before those of other folders are dropped.
pub const VORSCHAU_GRENZE: usize = 240;

/// Whether a path is that of an entry of the current folder, as `Path` compares paths.
pub open spec fn im_ordner(t: Seq<char>, aktuelle: Seq<String>) -> bool {
    exists|j: int| 0 <= j < aktuelle.len() && pfade_gleich(t, #[trigger] aktuelle[j]@)
}

/// The thumbnails kept after new ones arrived: while there are more than the limit, only
/// those of entries of the current folder.
pub fn vorschau_behalten(vorschau: Vec<String>, aktuelle: &Vec<String>) -> (r: Vec<String>)
    ensures
        vorschau@.len() <= VORSCHAU_GRENZE ==> r@ == vorschau@,
        vorschau@.len() > VORSCHAU_GRENZE ==> r@.map_values(|t: String| t@) == vorschau@.map_values(
            |t: String| t@,
        ).filter(|t: Seq<char>| im_ordner(t, aktuelle@)),
{
    if vorschau.len() <= VORSCHAU_GRENZE {
        return vorschau;
    }
    let ghost sicht = vorschau@.map_values(|t: String| t@);
    let mut r: Vec<String> = Vec::new();
    let mut i: usize = 0;
    while i < vorschau.len()
        invariant
            i <= vorschau@.len(),
            sicht == vorschau@.map_values(|t: String| t@),
            r@.map_values(|t: String| t@) == sicht.take(i as int).filter(
                |t: Seq<char>| im_ordner(t, aktuelle@),
            ),
        decreases vorschau.len() - i,
    {
        let mut da = false;
        let mut j: usize = 0;
        while j < aktuelle.len()
            invariant
                j <= aktuelle@.len(),
                i < vorschau@.len(),
                da == exists|k: int| 0 <= k < j && pfade_gleich(vorschau@[i as int]@, #[trigger] aktuelle@[k]@),
            decreases aktuelle.len() - j,
        {
            if pfad_gleich(vorschau[i].as_str(), aktuelle[j].as_str()) {
                da = true;
            }
            j = j + 1;
        }
        assert(sicht[i as int] == vorschau@[i as int]@);
        assert(da == im_ordner(vorschau@[i as int]@, aktuelle@));
        proof {
            sicht.take(i as int).lemma_filter_push(
                vorschau@[i as int]@,
                |t: Seq<char>| im_ordner(t, aktuelle@),
            );
        }
        assert(sicht.take(i as int).push(vorschau@[i as int]@) =~= sicht.take(i + 1));
        if da {
            let ghost alt = r@;
            r.push(vorschau[i].clone());
            assert(r@.map_values(|t: String| t@) =~= alt.map_values(|t: String| t@).push(vorschau@[i as int]@));
        }
        i = i + 1;
    }
    assert(sicht.take(vorschau@.len() as int) =~= sicht);
    r
}

/// A target that an entry is dragged onto.
pub enum ZiehZiel {
    Ordner(String),
    /// The programs folder: it takes AppImages only.
    Programme,
}

/// What a drag may drop onto: the programs folder only takes AppImages, and nothing is
/// dropped onto itself.
pub fn zieh_ziel(ziel: Option<ZiehZiel>, pfad: &str, appimage: bool) -> (r: Option<ZiehZiel>)
    ensures
        match ziel {
            Some(ZiehZiel::Programme) => if appimage {
                r matches Some(ZiehZiel::Programme)
            } else {
                r is None
            },
            Some(ZiehZiel::Ordner(p)) => if pfade_gleich(p@, pfad@) {
                r is None
            } else {
                r matches Some(ZiehZiel::Ordner(q)) && q@ == p@
            },
            None => r is None,
        },
{
    match ziel {
        Some(ZiehZiel::Programme) => if appimage {
            Some(ZiehZiel::Programme)
        } else {
            None
        },
        Some(ZiehZiel::Ordner(p)) => if pfad_gleich(p.as_str(), pfad) {
            None
        } else {
            Some(ZiehZiel::Ordner(p))
        },
        None => None,
    }
}

/// The stem of a file name (as `Path::file_stem` documents it): the part before the last
/// dot; the whole name where there is no dot, or the only dot starts the name.
pub open spec fn stamm_von_name(name: Seq<char>) -> Seq<char> {
    match rfind(name, '.') {
        Some(i) => if i == 0 {
            name
        } else {
            name.take(i as int)
        },
        None => name,
    }
}

/// The name of the n-th copy beside a file: `stem Kopie.ext`, then `stem Kopie 1.ext` and on.
pub open spec fn kopie_name_spec(pfad: Seq<char>, n: u32) -> Seq<char> {
    let (stamm, endung) = match dateiname_von(pfad) {
        Some(name) => (
            stamm_von_name(name),
            match endung_von_name(name) {
                Some(e) => seq!['.'] + e,
                None => Seq::<char>::empty(),
            },
        ),
        None => (Seq::<char>::empty(), Seq::<char>::empty()),
    };
    if n == 0 {
        stamm + " Kopie"@ + endung
    } else {
        stamm + " Kopie "@ + crate::text::decimal(n as nat) + endung
    }
}

/// The name of the n-th copy beside a file.
pub fn kopie_name(pfad: &str, n: u32) -> (r: String)
    ensures
        r@ == kopie_name_spec(pfad@, n),
{
    let mut stamm: Vec<char> = Vec::new();
    let mut endung: Vec<char> = Vec::new();
    let ghost mut st: Seq<char> = Seq::empty();
    let ghost mut en: Seq<char> = Seq::empty();
    match dateiname(pfad) {
        Some(name) => {
            let v = chars_of(name.as_str());
            let mut k = v.len();
            assert(v@.take(k as int) =~= v@);
            while k > 0 && v[k - 1] != '.'
                invariant
                    k <= v@.len(),
                    rfind(v@.take(k as int), '.') == rfind(v@, '.'),
                decreases k,
            {
                assert(v@.take(k as int).drop_last() =~= v@.take(k - 1));
                k = k - 1;
            }
            if k > 1 {
                assert(v@.take(k as int).last() == '.');
                stamm = slice(&v, 0, k - 1);
                let mut punkt: Vec<char> = Vec::new();
                punkt.push('.');
                endung = concat(&punkt, &slice(&v, k, v.len()));
                assert(stamm@ =~= stamm_von_name(v@));
                assert(endung@ =~= seq!['.'] + v@.skip(k as int));
            } else {
                proof {
                    if k == 1 {
                        assert(v@.take(k as int).last() == '.');
                    } else {
                        assert(v@.take(0) =~= Seq::<char>::empty());
                    }
                }
                stamm = v;
            }
        },
        None => {},
    }
    let mut teil = concat(&stamm, &chars_of(if n == 0 {
        " Kopie"
    } else {
        " Kopie "
    }));
    if n > 0 {
        teil = concat(&teil, &crate::text::decimal_chars(n as u64));
    }
    string_of(&concat(&teil, &endung))
}

/// What `Path::parent` yields for a path, as text.
pub uninterp spec fn eltern_von(p: Seq<char>) -> Option<Seq<char>>;

/// `Path::parent`, converted lossily to text. Stated: the result depends on the path alone;
/// how the path is split into components is left unsaid.
#[verifier::external_body]
fn eltern(p: &str) -> (r: Option<String>)
    ensures
        match r {
            Some(e) => eltern_von(p@) == Some(e@),
            None => eltern_von(p@) is None,
        },
{
    match std::path::Path::new(p).parent() {
        Some(e) => Some(e.to_string_lossy().to_string()),
        None => None,
    }
}

/// What `Path::join` yields for a base and a further path, as text.
pub uninterp spec fn verbunden(basis: Seq<char>, weiter: Seq<char>) -> Seq<char>;

/// `Path::new(basis).join(weiter)`, converted lossily to text. Stated: the result depends
/// on the two texts alone; where a separator goes is left unsaid.
#[verifier::external_body]
fn pfad_verbinden(basis: &str, weiter: &str) -> (r: String)
    ensures
        r@ == verbunden(basis@, weiter@),
{
    std::path::Path::new(basis).join(weiter).to_string_lossy().to_string()
}

/// The path of the n-th copy of a file: its copy name in the file's folder (in `/` where
/// the path has no parent).
pub open spec fn kopie_pfad_spec(pfad: Seq<char>, n: u32) -> Seq<char> {
    let e = match eltern_von(pfad) {
        Some(e) => e,
        None => "/"@,
    };
    verbunden(e, kopie_name_spec(pfad, n))
}

/// Whether the n-th copy path is free: not marked as taken.
pub open spec fn kopie_frei(belegt: Seq<bool>, n: int) -> bool {
    !(0 <= n < belegt.len() && belegt[n])
}

/// The copy chosen from `k` on: the first of the copies up to 98 whose path is free, else
/// copy 99.
pub open spec fn kopie_wahl(belegt: Seq<bool>, k: int) -> int
    decreases 99 - k,
{
    if k >= 99 {
        99
    } else if kopie_frei(belegt, k) {
        k
    } else {
        kopie_wahl(belegt, k + 1)
    }
}

/// The path of the n-th copy of a file.
pub fn kopie_kandidat(pfad: &str, n: u32) -> (r: String)
    ensures
        r@ == kopie_pfad_spec(pfad@, n),
{
    let name = kopie_name(pfad, n);
    let e = match eltern(pfad) {
        Some(e) => e,
        None => string_of(&chars_of("/")),
    };
    pfad_verbinden(e.as_str(), name.as_str())
}

/// Where a file is duplicated to: the first of its copy paths (copy 0 to 98) that is free,
/// where `belegt[n]` tells whether copy path n exists already (missing entries count as
/// free); copy 99 when all are taken.
pub fn kopie_pfad(pfad: &str, belegt: &Vec<bool>) -> (r: String)
    ensures
        r@ == kopie_pfad_spec(pfad@, kopie_wahl(belegt@, 0) as u32),
{
    let mut n: u32 = 0;
    while n < 99 && (n as usize) < belegt.len() && belegt[n as usize]
        invariant
            n <= 99,
            kopie_wahl(belegt@, n as int) == kopie_wahl(belegt@, 0),
        decreases 99 - n,
    {
        n = n + 1;
    }
    kopie_kandidat(pfad, n)
}

/// The entries a folder lists, in the order found, hidden ones left out unless they are
/// shown.
pub open spec fn gezeigt(v: Seq<EintragSicht>, versteckte: bool) -> Seq<EintragSicht>
    decreases v.len(),
{
    if v.len() == 0 {
        seq![]
    } else {
        let w = gezeigt(v.drop_last(), versteckte);
        if !versteckte && versteckt_spec(v.last().0) {
            w
        } else {
            w.push(v.last())
        }
    }
}

/// A folder's listing from the entries read: hidden ones left out unless shown, then sorted
/// by the column and direction.
pub fn ordner_liste(eintraege: Vec<Eintrag>, versteckte: bool, spalte: Spalte, absteigend: bool) -> (r:
    Vec<Eintrag>)
    ensures
        eintrag_sichten(r@) == sortiert_spec(
            gezeigt(eintrag_sichten(eintraege@), versteckte),
            spalte,
            absteigend,
        ),
{
    let ghost g = eintrag_sichten(eintraege@);
    let mut aus: Vec<Eintrag> = Vec::new();
    let mut i: usize = 0;
    assert(g.take(0) =~= Seq::<EintragSicht>::empty());
    while i < eintraege.len()
        invariant
            i <= eintraege@.len(),
            g == eintrag_sichten(eintraege@),
            eintrag_sichten(aus@) == gezeigt(g.take(i as int), versteckte),
        decreases eintraege.len() - i,
    {
        assert(g.take(i + 1).drop_last() =~= g.take(i as int));
        assert(g.take(i + 1).last() == eintraege@[i as int]@);
        if versteckte || !eintraege[i].versteckt() {
            let ghost vorher = eintrag_sichten(aus@);
            aus.push(eintraege[i].kopie());
            assert(eintrag_sichten(aus@) =~= vorher.push(eintraege@[i as int]@));
        }
        i = i + 1;
    }
    assert(g.take(eintraege@.len() as int) =~= g);
    sortieren(&mut aus, spalte, absteigend);
    aus
}

/// The free space line under a folder: the last line of `df -h --output=avail`, trimmed,
/// with "verfügbar"; nothing where that line is empty or missing.
pub open spec fn frei_spec(df: Seq<char>) -> Seq<char> {
    let ls = lines(trim(df));
    if ls.len() > 0 && ls.last().len() > 0 {
        trim(ls.last()) + " verfügbar"@
    } else {
        Seq::empty()
    }
}

pub fn frei_text(df: &str) -> (r: String)
    ensures
        r@ == frei_spec(df@),
{
    let ls = crate::text::lines_of(&trim_chars(&chars_of(df)));
    if ls.len() > 0 {
        let l = ls.len() - 1;
        assert(crate::text::views(ls@)[l as int] == ls@[l as int]@);
        if ls[l].len() > 0 {
            return string_of(&concat(&trim_chars(&ls[l]), &chars_of(" verfügbar")));
        }
    }
    String::new()
}

} // verus!
