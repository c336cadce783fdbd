//! Verified core logic of the MatrixKit desktop apps.

pub mod sha1;
pub mod text;
pub mod base32;
pub mod totp;
pub mod zonen;
pub mod leisten;
pub mod bar;
pub mod morpheus;
pub mod verbindungen;
pub mod dateien;
pub mod dev;
pub mod tray;
pub mod inhalte;
pub mod hilfe;
pub mod greeter;
pub mod mitteilungen;
pub mod codes;
pub mod klaenge;
pub mod aufnahme;
pub mod schluessel;
pub mod einstellungen;
pub mod dock;
pub mod kontext;
pub mod hintergrund;
pub mod json;
pub mod leinwand;
pub mod player;
