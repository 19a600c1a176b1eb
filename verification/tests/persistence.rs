//! Catalog persistence: rendering, decoding, and the round trip.

use bottles_core::bottle::{Bottle, BottleConfig, BottleType};
use bottles_core::persistence::Persistence;

fn s(x: &str) -> String {
    x.to_string()
}

#[test]
fn new_bottle_defaults() {
    let b = Bottle::new(s("Steam"), s("/tmp/b1"), BottleType::Gaming);
    assert_eq!(b.name, "Steam");
    assert_eq!(b.path, "/tmp/b1");
    assert!(matches!(b.kind, BottleType::Gaming));
    assert!(b.config.runner.is_none());
    assert!(b.config.dxvk_version.is_none());
    assert!(b.config.vkd3d_version.is_none());
    assert!(b.config.environment.is_empty());
    assert!(!b.active);
}

#[test]
fn bottle_type_default_is_custom() {
    assert!(matches!(BottleType::default(), BottleType::Custom));
    let c = BottleConfig::default();
    assert!(c.runner.is_none());
    assert!(c.environment.is_empty());
}

#[test]
fn env_set_and_get() {
    let mut c = BottleConfig::default();
    assert!(c.get_env(&s("DXVK_HUD")).is_none());
    c.set_env(s("DXVK_HUD"), s("1"));
    c.set_env(s("WINEESYNC"), s("1"));
    assert_eq!(c.get_env(&s("DXVK_HUD")), Some(&s("1")));
    c.set_env(s("DXVK_HUD"), s("fps"));
    assert_eq!(c.get_env(&s("DXVK_HUD")), Some(&s("fps")));
    assert_eq!(
        c.environment,
        vec![(s("DXVK_HUD"), s("fps")), (s("WINEESYNC"), s("1"))],
        "replacement happens in place and keeps insertion order"
    );
    assert!(c.get_env(&s("ABSENT")).is_none());
}

#[test]
fn index_file_under_base() {
    let p = Persistence::new(s("/var/lib/bottles"));
    assert_eq!(p.index_file(), "/var/lib/bottles/bottles.json");
}

#[test]
fn round_trip_bottle() {
    let mut b = Bottle::new(s("Steam"), s("/tmp/b1"), BottleType::Gaming);
    b.config.runner = Some(s("proton-ge-8"));
    b.config.environment.push((s("DXVK_HUD"), s("1")));
    b.active = true;
    let doc = Persistence::render_bottles(&vec![b]);
    let loaded = Persistence::decode_bottles(&Some(doc)).unwrap();
    assert_eq!(loaded.len(), 1);
    assert_eq!(loaded[0].name, "Steam");
    assert_eq!(loaded[0].path, "/tmp/b1");
    assert!(matches!(loaded[0].kind, BottleType::Gaming));
    assert_eq!(loaded[0].config.runner, Some(s("proton-ge-8")));
    assert_eq!(loaded[0].config.dxvk_version, None);
    assert_eq!(loaded[0].config.vkd3d_version, None);
    assert_eq!(loaded[0].config.environment, vec![(s("DXVK_HUD"), s("1"))]);
    assert!(!loaded[0].active, "the active flag is not persisted");
}

#[test]
fn round_trip_many_bottles_and_awkward_strings() {
    let mut a = Bottle::new(s("quo\"te"), s("/tmp/a b"), BottleType::Software);
    a.config.dxvk_version = Some(s("2.3"));
    a.config.vkd3d_version = Some(s("2.11"));
    a.config.environment.push((s("A"), s("1")));
    a.config.environment.push((s("B"), s("back\\slash")));
    let b = Bottle::new(s("line\nbreak"), s(""), BottleType::Custom);
    let list = vec![a, b];
    let doc = Persistence::render_bottles(&list);
    let loaded = Persistence::decode_bottles(&Some(doc)).unwrap();
    assert_eq!(loaded.len(), 2);
    assert_eq!(loaded[0].name, "quo\"te");
    assert_eq!(loaded[0].path, "/tmp/a b");
    assert!(matches!(loaded[0].kind, BottleType::Software));
    assert_eq!(loaded[0].config.dxvk_version, Some(s("2.3")));
    assert_eq!(loaded[0].config.vkd3d_version, Some(s("2.11")));
    assert_eq!(
        loaded[0].config.environment,
        vec![(s("A"), s("1")), (s("B"), s("back\\slash"))]
    );
    assert_eq!(loaded[1].name, "line\nbreak");
    assert_eq!(loaded[1].path, "");
    assert!(matches!(loaded[1].kind, BottleType::Custom));
}

#[test]
fn empty_load() {
    let loaded = Persistence::decode_bottles(&None).unwrap();
    assert!(loaded.is_empty());
}

#[test]
fn empty_catalog_renders_and_reads_back() {
    let doc = Persistence::render_bottles(&Vec::new());
    assert_eq!(doc, "[]");
    let loaded = Persistence::decode_bottles(&Some(doc)).unwrap();
    assert!(loaded.is_empty());
}

#[test]
fn rendered_document_shape() {
    let b = Bottle::new(s("b"), s("/p"), BottleType::Custom);
    let doc = Persistence::render_bottles(&vec![b]);
    let expected = "[\n{\n\"name\": \"b\",\n\"path\": \"/p\",\n\"kind\": \"Custom\",\n\"config\": {\n\"runner\": null,\n\"dxvk_version\": null,\n\"vkd3d_version\": null,\n\"environment\": {}\n}\n}\n]";
    assert_eq!(doc, expected);
}

#[test]
fn decode_tolerates_extra_whitespace() {
    let doc = "  [ {  \"name\" :\t\"x\" ,\n \"path\" : \"/y\" , \"kind\" : \"Gaming\" , \"config\" : { \"runner\" : \"wine\" , \"dxvk_version\" : null , \"vkd3d_version\" : null , \"environment\" : { \"K\" : \"V\" } } } ]  ";
    let loaded = Persistence::decode_bottles(&Some(doc.to_string())).unwrap();
    assert_eq!(loaded.len(), 1);
    assert_eq!(loaded[0].name, "x");
    assert_eq!(loaded[0].path, "/y");
    assert!(matches!(loaded[0].kind, BottleType::Gaming));
    assert_eq!(loaded[0].config.runner, Some(s("wine")));
    assert_eq!(loaded[0].config.environment, vec![(s("K"), s("V"))]);
}

#[test]
fn decode_rejects_garbage_as_io_error() {
    let e = Persistence::decode_bottles(&Some(s("not a catalog"))).unwrap_err();
    assert!(!e.is_not_found(), "decode failures carry the I/O kind");
    let e2 = Persistence::decode_bottles(&Some(s("[{\"name\": \"x\"}]"))).unwrap_err();
    assert!(!e2.is_not_found());
}
