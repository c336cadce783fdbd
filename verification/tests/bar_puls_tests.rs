use matrixkit::bar::{lade_klang, puls_weiter, uhr_format};

#[test]
fn jeder_fuenfte_puls_liest_traege_werte() {
    assert_eq!(puls_weiter(0, false), (1, false));
    assert_eq!(puls_weiter(4, false), (5, true));
    assert_eq!(puls_weiter(6, true), (7, true));
    assert_eq!(puls_weiter(255, false), (0, true));
}

#[test]
fn ladeklang_nur_beim_anstecken() {
    assert!(lade_klang(Some((50, false)), Some((50, true))));
    assert!(!lade_klang(Some((50, true)), Some((50, false))));
    assert!(!lade_klang(Some((50, true)), Some((51, true))));
    assert!(!lade_klang(None, Some((50, true))));
}

#[test]
fn uhr_zwoelf_oder_vierundzwanzig() {
    assert_eq!(uhr_format(Some("PM\n")), "+%a. %-I:%M %p");
    assert_eq!(uhr_format(Some(" \n")), "+%a. %H:%M");
    assert_eq!(uhr_format(None), "+%a. %H:%M");
}
