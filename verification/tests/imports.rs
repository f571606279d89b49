use asset_registry::imports::{find_import, find_import_inside, import_index, ImportNames};

fn import(
    class_package: &str,
    class_name: &str,
    object_name: &str,
    outer_index: i32,
) -> ImportNames {
    ImportNames {
        class_package: class_package.to_string(),
        class_name: class_name.to_string(),
        object_name: object_name.to_string(),
        outer_index,
    }
}

fn sample() -> Vec<ImportNames> {
    vec![
        import("/Script/CoreUObject", "Package", "/Script/Engine", 0),
        import("/Script/CoreUObject", "Function", "GetAvailableMissions", -1),
        import("/Script/CoreUObject", "Function", "CanOptOutOfSeasonContent", -1),
        import("/Script/CoreUObject", "Function", "GetAvailableMissions", -3),
    ]
}

#[test]
fn first_import_with_the_names_is_found() {
    let imports = sample();
    assert_eq!(
        find_import(&imports, "/Script/CoreUObject", "Function", "GetAvailableMissions"),
        Some(1)
    );
    assert_eq!(
        find_import(&imports, "/Script/CoreUObject", "Function", "CanOptOutOfSeasonContent"),
        Some(2)
    );
    assert_eq!(find_import(&imports, "/Script/CoreUObject", "Package", "/Script/Engine"), Some(0));
}

#[test]
fn import_that_is_not_there_is_not_found() {
    let imports = sample();
    assert_eq!(find_import(&imports, "/Script/CoreUObject", "Function", "Missing"), None);
    assert_eq!(find_import(&imports, "/Script/Engine", "Function", "GetAvailableMissions"), None);
    assert_eq!(find_import(&imports, "/Script/CoreUObject", "Class", "GetAvailableMissions"), None);
    assert_eq!(find_import(&Vec::new(), "a", "b", "c"), None);
}

#[test]
fn import_inside_an_entry() {
    let imports = sample();
    let names = ("/Script/CoreUObject", "Function", "GetAvailableMissions");
    assert_eq!(find_import_inside(&imports, names.0, names.1, names.2, -1), Some(1));
    assert_eq!(find_import_inside(&imports, names.0, names.1, names.2, -3), Some(3));
    assert_eq!(find_import_inside(&imports, names.0, names.1, names.2, 0), None);
}

#[test]
fn import_indices_are_negative() {
    assert_eq!(import_index(0), Some(-1));
    assert_eq!(import_index(1), Some(-2));
    assert_eq!(import_index(41), Some(-42));
    assert_eq!(import_index(i32::MAX as usize), Some(i32::MIN));
    assert_eq!(import_index(i32::MAX as usize + 1), None);
}
