use rotate_puts::naming::{generate_file_name, make_new_file_name};

#[test]
fn name_pads_index_to_three_digits() {
    assert_eq!(generate_file_name("temp", "log", 0), "temp_000.log");
    assert_eq!(generate_file_name("temp", "log", 7), "temp_007.log");
    assert_eq!(generate_file_name("temp", "log", 42), "temp_042.log");
    assert_eq!(generate_file_name("temp", "log", 999), "temp_999.log");
}

#[test]
fn name_grows_past_three_digits() {
    assert_eq!(generate_file_name("temp", "log", 1000), "temp_1000.log");
    assert_eq!(generate_file_name("app", "txt", 123456789), "app_123456789.txt");
    assert_eq!(
        generate_file_name("p", "s", i64::MAX),
        format!("p_{}.s", i64::MAX)
    );
}

#[test]
fn name_without_suffix_has_no_period() {
    assert_eq!(generate_file_name("temp", "", 3), "temp_003");
    assert_eq!(generate_file_name("", "", 12), "_012");
}

#[test]
fn name_of_negative_index_counts_sign_in_width() {
    assert_eq!(generate_file_name("temp", "log", -1), "temp_-01.log");
    assert_eq!(generate_file_name("temp", "log", -10), "temp_-10.log");
    assert_eq!(generate_file_name("temp", "log", -100), "temp_-100.log");
    assert_eq!(generate_file_name("temp", "log", -1000), "temp_-1000.log");
    for i in [-1000i64, -57, -3, 0, 5, 77, 1234] {
        assert_eq!(generate_file_name("x", "y", i), format!("x_{:03}.y", i));
    }
}

#[test]
fn new_file_name_advances_and_evicts_outside_window() {
    let mut index: i64 = 5;
    let turn = make_new_file_name("temp", "log", 2, &mut index);
    assert_eq!(index, 6);
    assert_eq!(turn.open, "temp_005.log");
    assert_eq!(turn.evict, "temp_003.log");
}

#[test]
fn first_file_evicts_negative_index() {
    let mut index: i64 = 0;
    let turn = make_new_file_name("temp", "log", 10, &mut index);
    assert_eq!(index, 1);
    assert_eq!(turn.open, "temp_000.log");
    assert_eq!(turn.evict, "temp_-10.log");
}
