use avel_lib::hotkeys::normalize_key_code;

#[test]
fn key_codes_are_normalised() {
    assert_eq!(normalize_key_code("  up "), "ArrowUp");
    assert_eq!(normalize_key_code("NUMPADADD"), "NumpadAdd");
    assert_eq!(normalize_key_code("f05"), "F5");
    assert_eq!(normalize_key_code("f25"), "f25");
    assert_eq!(normalize_key_code("q"), "KeyQ");
    assert_eq!(normalize_key_code("7"), "Digit7");
    assert_eq!(normalize_key_code("KEYq"), "KeyQ");
    assert_eq!(normalize_key_code("digit3"), "Digit3");
    assert_eq!(normalize_key_code("\\"), "Backslash");
    assert_eq!(normalize_key_code("   "), "");
    assert_eq!(normalize_key_code(" Ünïcode "), "Ünïcode");
}

#[test]
fn normalising_twice_changes_nothing() {
    for raw in [
        " up ", "ArrowLeft", "NUMPADEQUAL", "f1", "F24", "f0", "a", "Z", "5", "keyx", "Digit0", "=", "`",
        " Ünïcode ", "", "\t\n", "Tab", "delete",
    ] {
        let once = normalize_key_code(raw);
        assert_eq!(normalize_key_code(&once), once, "{raw:?}");
        assert_eq!(once.trim(), once);
    }
}
