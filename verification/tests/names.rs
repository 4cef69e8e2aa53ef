use framework_crate::cli::names::{insert_reading, name_less, readings_by_name};

#[test]
fn names_sort_by_code_point_and_prefix_first() {
    assert!(name_less("APU", "Battery"));
    assert!(!name_less("Battery", "APU"));
    assert!(name_less("Sensor", "Sensor 1"));
    assert!(!name_less("Sensor 1", "Sensor 1"));
    assert!(name_less("Z", "a"));
    assert!(name_less("Sensor 10", "Sensor 9"));
}

#[test]
fn insert_reading_replaces_same_name() {
    let mut m: Vec<(String, i32)> = Vec::new();
    insert_reading(&mut m, "CPU".to_string(), 50);
    insert_reading(&mut m, "APU".to_string(), 40);
    insert_reading(&mut m, "CPU".to_string(), 60);
    assert_eq!(m, vec![("APU".to_string(), 40), ("CPU".to_string(), 60)]);
}

#[test]
fn readings_by_name_sorts() {
    let list = vec![("b".to_string(), 1), ("a".to_string(), 2), ("c".to_string(), 3)];
    let m = readings_by_name(&list);
    assert_eq!(m, vec![("a".to_string(), 2), ("b".to_string(), 1), ("c".to_string(), 3)]);
}
