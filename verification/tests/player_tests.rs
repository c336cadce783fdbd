use matrixkit::player::{film_name, ist_video, neuestes_video};

#[test]
fn videos_erkennen() {
    assert!(ist_video("/v/a.mp4"));
    assert!(ist_video("/v/a.webm"));
    assert!(ist_video("b.mov"));
    assert!(!ist_video("/v/a.MP4"));
    assert!(!ist_video("/v/a.png"));
    assert!(!ist_video("/v/mp4"));
}

#[test]
fn neueste_aufnahme_waehlen() {
    let d = vec![
        ("/v/a.mp4".to_string(), 10),
        ("/v/b.png".to_string(), 99),
        ("/v/c.mkv".to_string(), 30),
        ("/v/d.webm".to_string(), 20),
    ];
    assert_eq!(neuestes_video(&d), Some("/v/c.mkv".to_string()));
    let gleich = vec![("/v/b.mp4".to_string(), 5), ("/v/a.mp4".to_string(), 5)];
    assert_eq!(neuestes_video(&gleich), Some("/v/b.mp4".to_string()));
    assert_eq!(neuestes_video(&vec![("/v/x.txt".to_string(), 1)]), None);
    assert_eq!(neuestes_video(&Vec::new()), None);
}

#[test]
fn filmname() {
    assert_eq!(film_name("/v/Aufnahme 1.mp4"), "Aufnahme 1.mp4");
    assert_eq!(film_name("/"), "");
}
