use matrixkit::aufnahme::{
    film_ordner, neueste, pfad_join_exec, schirm_ordner, status_lesen, status_text, xdg_ordner,
    zeitstempel_name,
};
use matrixkit::bar::film_start;

#[test]
fn xdg_ordner_lesen() {
    let konf = "# kommentar\n  XDG_PICTURES_DIR=\"$HOME/Fotos\"\nXDG_VIDEOS_DIR=\"/srv/filme\"\n";
    assert_eq!(xdg_ordner(Some(konf), "/home/neo", "PICTURES", "Bilder"), "/home/neo/Fotos");
    assert_eq!(xdg_ordner(Some(konf), "/home/neo", "VIDEOS", "Videos"), "/srv/filme");
    assert_eq!(xdg_ordner(Some(konf), "/home/neo", "MUSIC", "Musik"), "/home/neo/Musik");
    assert_eq!(xdg_ordner(None, "/", "PICTURES", "Bilder"), "/Bilder");
    assert_eq!(schirm_ordner(None, "/home/neo"), "/home/neo/Bilder/Bildschirmfotos");
    assert_eq!(film_ordner(Some(konf), "/home/neo"), "/srv/filme/Bildschirmaufnahmen");
    assert_eq!(pfad_join_exec("/a", "/b"), "/b");
    assert_eq!(pfad_join_exec("", "b"), "b");
}

#[test]
fn namen_und_neueste() {
    assert_eq!(
        zeitstempel_name("Bildschirmfoto", "2026-07-17 um 00.31.12", "png"),
        "Bildschirmfoto 2026-07-17 um 00.31.12.png"
    );
    let d = vec![("a".to_string(), 5i128), ("b".to_string(), 9), ("c".to_string(), 9), ("d".to_string(), 1)];
    assert_eq!(neueste(&d), Some("c".to_string()));
    assert_eq!(neueste(&vec![]), None);
}

#[test]
fn status_datei_rundreise() {
    let t = status_text(4711, "/home/neo/Videos/x.mp4", "1752710000");
    assert_eq!(t, "4711\n/home/neo/Videos/x.mp4\n1752710000\n");
    assert_eq!(status_lesen(&t), ("4711".to_string(), "/home/neo/Videos/x.mp4".to_string()));
    assert_eq!(film_start(&t), Some(1752710000));
    assert_eq!(status_lesen(""), (String::new(), String::new()));
}
