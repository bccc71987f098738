use argon::dict::Dict;
use argon::middleware;
use argon::middleware::FileType;
use argon::value::Properties;
use argon::value::Value;
use argon::vfs::Vfs;

fn props(pairs: &[(&str, Value)]) -> Properties {
    let mut p: Properties = Dict::new();
    for (k, v) in pairs {
        p.insert(k, v.clone());
    }
    p
}

fn text_of(p: &Properties, key: &str) -> Option<String> {
    match p.get(key) {
        Some(Value::Text(t)) => Some(t.clone()),
        _ => None,
    }
}

#[test]
fn from_class_maps_script_kinds() {
    assert_eq!(middleware::from_class("Script"), Some(FileType::ServerScript));
    assert_eq!(middleware::from_class("LocalScript"), Some(FileType::ClientScript));
    assert_eq!(middleware::from_class("ModuleScript"), Some(FileType::ModuleScript));
    assert_eq!(middleware::from_class("StringValue"), Some(FileType::StringValue));
    assert_eq!(middleware::from_class("Folder"), None);
    assert_eq!(middleware::from_class("Model"), None);
}

#[test]
fn write_splits_native_and_leftover_properties() {
    let mut vfs = Vfs::new(false);
    let original = props(&[
        ("Source", Value::Text("return {}".to_string())),
        ("Disabled", Value::Truth(true)),
    ]);
    let leftover = middleware::write_props(
        FileType::ModuleScript,
        original,
        "m.luau",
        &mut vfs,
    );
    assert_eq!(vfs.read("m.luau").unwrap(), "return {}");
    assert_eq!(leftover.len(), 1);
    assert!(leftover.get("Disabled").is_some());
    assert!(leftover.get("Source").is_none());
}

#[test]
fn write_then_read_with_leftover_reconstructs_properties() {
    let mut vfs = Vfs::new(false);
    let original = props(&[
        ("Source", Value::Text("print(1)".to_string())),
        ("Marker", Value::Num(7)),
    ]);
    let leftover = middleware::write_props(
        FileType::ModuleScript,
        original,
        "s.luau",
        &mut vfs,
    );
    let native = middleware::read_props(FileType::ModuleScript, "s.luau", &vfs)
        .expect("the body file is there");
    let mut rebuilt = leftover;
    argon::value::extend_props(&mut rebuilt, &native);
    assert_eq!(rebuilt.len(), 2);
    assert_eq!(text_of(&rebuilt, "Source"), Some("print(1)".to_string()));
    assert!(matches!(rebuilt.get("Marker"), Some(Value::Num(7))));
}

#[test]
fn string_value_stores_its_value_key() {
    let mut vfs = Vfs::new(false);
    let original = props(&[("Value", Value::Text("hello".to_string()))]);
    let leftover = middleware::write_props(FileType::StringValue, original, "v.txt", &mut vfs);
    assert_eq!(vfs.read("v.txt").unwrap(), "hello");
    assert_eq!(leftover.len(), 0);
}

#[test]
fn write_data_stores_and_clears_sidecars() {
    let mut vfs = Vfs::new(false);
    let filled = props(&[("Tag", Value::Text("x".to_string()))]);
    let written = middleware::write_data(filled, ".data.json", &mut vfs);
    assert_eq!(written, Some(".data.json".to_string()));
    assert!(vfs.is_file(".data.json"));
    let empty: Properties = Dict::new();
    let cleared = middleware::write_data(empty, ".data.json", &mut vfs);
    assert_eq!(cleared, None);
    assert!(!vfs.entry_exists(".data.json"));
}

#[test]
fn opaque_values_ride_along_as_leftovers() {
    let mut vfs = Vfs::new(false);
    let original = props(&[
        ("Source", Value::Text("x".to_string())),
        ("Size", Value::Opaque("[1.5,2.5]".to_string())),
    ]);
    let leftover = middleware::write_props(
        FileType::ModuleScript,
        original,
        "m.luau",
        &mut vfs,
    );
    // The opaque value has no native encoding; it survives untouched
    // on the leftover side.
    assert!(matches!(
        leftover.get("Size"),
        Some(Value::Opaque(raw)) if raw == "[1.5,2.5]"
    ));
}
