use matrixkit::mitteilungen::{
    aktionen_aus, capabilities, server_information, Befehl, IdGeber, Klang, Mitteilung, Zentrale,
};

fn m(id: u32, app: &str, titel: &str) -> Mitteilung {
    Mitteilung { id, app: app.into(), titel: titel.into(), text: String::new(), aktionen: Vec::new() }
}

#[test]
fn dienst_antworten() {
    assert_eq!(capabilities(), vec!["body", "actions", "persistence"]);
    let (n, v, ver, spec) = server_information("1.0.0");
    assert_eq!((n.as_str(), v.as_str(), ver.as_str(), spec.as_str()), ("Matrix Mitteilungen", "Matrix", "1.0.0", "1.2"));
    let mut g = IdGeber::neu();
    assert_eq!(g.vergeben(0), 1);
    assert_eq!(g.vergeben(0), 2);
    assert_eq!(g.vergeben(9), 9);
    assert_eq!(g.vergeben(0), 3);
    let mut g = IdGeber { naechste: u32::MAX };
    assert_eq!(g.vergeben(0), u32::MAX);
    assert_eq!(g.naechste, 0);
    let flach: Vec<String> = vec!["default".into(), "Öffnen".into(), "nur".into()];
    assert_eq!(aktionen_aus(&flach), vec![("default".to_string(), "Öffnen".to_string())]);
}

#[test]
fn verlauf_und_stapel() {
    let mut z = Zentrale::neu(false);
    assert_eq!(z.ankunft(m(1, "mail", "Post"), 0), Some(Klang::Hinweis));
    assert_eq!(z.ankunft(m(2, "niri", "Screenshot"), 100), Some(Klang::Screenshot));
    assert_eq!(z.ankunft(m(1, "mail", "Neu"), 200), Some(Klang::Hinweis));
    let ids: Vec<u32> = z.verlauf.iter().map(|x| x.id).collect();
    assert_eq!(ids, vec![1, 2]);
    assert_eq!(z.verlauf[0].titel, "Neu");
    let st: Vec<(u32, u64)> = z.stapel.iter().map(|(x, t)| (x.id, *t)).collect();
    assert_eq!(st, vec![(2, 100), (1, 200)]);
    z.altern(5150);
    let st: Vec<u32> = z.stapel.iter().map(|(x, _)| x.id).collect();
    assert_eq!(st, vec![1]);
    assert!(matches!(z.klick(1), Befehl::Geschlossen(1, 2)));
    assert!(z.stapel.is_empty());
    assert!(z.dnd_umschalten());
    assert_eq!(z.ankunft(m(3, "a", "b"), 0), None);
    assert!(z.stapel.is_empty());
    assert_eq!(z.verlauf.len(), 3);
    for i in 10..60 {
        z.ankunft(m(i, "x", "y"), 0);
    }
    assert_eq!(z.verlauf.len(), 40);
    assert_eq!(z.verlauf[0].id, 59);
}

#[test]
fn masse_der_flaeche() {
    let mut z = Zentrale::neu(false);
    assert_eq!(z.mass(), None);
    z.ankunft(m(1, "a", "b"), 0);
    assert_eq!(z.mass(), Some((380, 116)));
    assert_eq!(z.mass(), None);
    z.glocke();
    assert_eq!(z.mass(), Some((380, 144)));
    let (a, b) = z.aktion(1, "default".into());
    assert!(matches!(a, Befehl::Aktion(1, ref k) if k == "default"));
    assert!(matches!(b, Befehl::Geschlossen(1, 2)));
    z.verlauf_zu();
    assert_eq!(z.mass(), Some((1, 1)));
    z.alle_loeschen();
    assert!(z.verlauf.is_empty());
}
