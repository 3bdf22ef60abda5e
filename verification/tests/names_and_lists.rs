use absurder_sql::db_list::{
    add_database_to_persistent_list, add_name, get_persistent_database_list, has_name,
    merge_database_names, remove_database_from_persistent_list, remove_name, sort_names,
};
use absurder_sql::names::{
    block_key, commit_marker_key, indexeddb_name, normalize_db_name, pool_key, test_lock_name,
    vfs_name,
};
use absurder_sql::numbers::{parse_i64, parse_u64, to_decimal, to_signed_decimal};
use absurder_sql::text::{ends_with, starts_with, trim, trim_end_matches};

fn strings(names: &[&str]) -> Vec<String> {
    names.iter().map(|name| name.to_string()).collect()
}

#[test]
fn decimal_numerals() {
    assert_eq!(to_decimal(0), "0");
    assert_eq!(to_decimal(10), "10");
    assert_eq!(to_decimal(u64::MAX), "18446744073709551615");
    assert_eq!(to_signed_decimal(-14), "-14");
    assert_eq!(to_signed_decimal(i32::MIN), "-2147483648");
    assert_eq!(to_signed_decimal(7), "7");
}

#[test]
fn numerals_are_read_as_std_reads_them() {
    let texts = [
        "", "0", "+", "-", "+7", "-7", "007", "18446744073709551615", "18446744073709551616",
        "9223372036854775807", "9223372036854775808", "-9223372036854775808",
        "-9223372036854775809", "1 ", " 1", "1_0", "x", "+-1", "٣",
    ];
    for text in texts {
        assert_eq!(parse_u64(text), text.parse::<u64>().ok(), "{}", text);
        assert_eq!(parse_i64(text), text.parse::<i64>().ok(), "{}", text);
    }
}

#[test]
fn texts_are_handled_as_std_handles_them() {
    let texts = [
        "", " ", "a", " a ", "\u{3000}x\u{85}", "\t\r\n b c \u{a0}", "a.db", "a.db.db", ".db", "db",
        "\u{200b}z\u{200b}", "\u{1680}q\u{2028}",
    ];
    for text in texts {
        assert_eq!(trim(text), text.trim(), "{:?}", text);
        assert_eq!(trim_end_matches(text, ".db"), text.trim_end_matches(".db"), "{:?}", text);
        assert_eq!(ends_with(text, ".db"), text.ends_with(".db"), "{:?}", text);
        assert_eq!(starts_with(text, "a"), text.starts_with("a"), "{:?}", text);
    }
}

#[test]
fn names_get_the_extension_once() {
    assert_eq!(normalize_db_name("test"), "test.db");
    assert_eq!(normalize_db_name("test.db"), "test.db");
    assert_eq!(normalize_db_name(&normalize_db_name("test")), "test.db");
    assert_eq!(normalize_db_name(""), ".db");
}

#[test]
fn names_for_other_parties() {
    assert_eq!(pool_key("test.db"), "test");
    assert_eq!(pool_key("test.db.db"), "test");
    assert_eq!(pool_key(&normalize_db_name("test")), pool_key("test"));
    assert_eq!(vfs_name("test.db"), "vfs_test");
    assert_eq!(indexeddb_name("test.db"), "absurder_test.db");
    assert_eq!(block_key("test.db", 12), "test.db_12");
    assert_ne!(block_key("a_1", 2), block_key("a", 12));
    assert_eq!(commit_marker_key("test.db"), "test.db_commit_marker");
    assert_eq!(test_lock_name("test.db"), "test.db.lock_test");
}

#[test]
fn names_are_sorted_as_std_sorts_them() {
    let names = strings(&["b", "a", "", "aa", "Z", "é", "z", "a", "\u{ffff}", "\u{10000}"]);
    let mut expected = names.clone();
    expected.sort();
    assert_eq!(sort_names(&names), expected);
}

#[test]
fn adding_to_the_stored_list() {
    assert_eq!(
        add_database_to_persistent_list(None, "b.db"),
        Some("[\"b.db\"]".to_string())
    );
    assert_eq!(
        add_database_to_persistent_list(Some("[\"c.db\",\"b.db\"]"), "a.db"),
        Some("[\"a.db\",\"b.db\",\"c.db\"]".to_string())
    );
    assert_eq!(add_database_to_persistent_list(Some("[\"b.db\"]"), "b.db"), None);
    assert_eq!(
        add_database_to_persistent_list(Some("no list"), "b.db"),
        Some("[\"b.db\"]".to_string())
    );
    assert_eq!(
        add_database_to_persistent_list(Some("[1]"), "q\"uote"),
        Some("[\"q\\\"uote\"]".to_string())
    );
}

#[test]
fn removing_from_the_stored_list() {
    assert_eq!(remove_database_from_persistent_list(None, "b.db"), None);
    assert_eq!(
        remove_database_from_persistent_list(Some("[\"b.db\",\"c.db\",\"b.db\"]"), "b.db"),
        Some("[\"c.db\"]".to_string())
    );
    assert_eq!(
        remove_database_from_persistent_list(Some("{"), "b.db"),
        Some("[]".to_string())
    );
    assert_eq!(
        remove_database_from_persistent_list(Some("[\"c.db\"]"), "b.db"),
        Some("[\"c.db\"]".to_string())
    );
}

#[test]
fn removing_undoes_adding() {
    let before = "[\"a.db\",\"c.db\"]";
    let longer = add_database_to_persistent_list(Some(before), "b.db").unwrap();
    assert_eq!(
        remove_database_from_persistent_list(Some(&longer), "b.db"),
        Some(before.to_string())
    );
}

#[test]
fn reading_the_stored_list() {
    assert_eq!(get_persistent_database_list(None), Vec::<String>::new());
    assert_eq!(get_persistent_database_list(Some("oops")), Vec::<String>::new());
    assert_eq!(
        get_persistent_database_list(Some(" [ \"b\" , \"a\" ] ")),
        strings(&["b", "a"])
    );
}

#[test]
fn lists_without_their_texts() {
    assert!(has_name(&strings(&["a", "b"]), "b"));
    assert!(!has_name(&strings(&["a", "b"]), "c"));
    assert_eq!(add_name(strings(&["c", "a"]), "b"), Some(strings(&["a", "b", "c"])));
    assert_eq!(add_name(strings(&["c", "a"]), "a"), None);
    assert_eq!(remove_name(&strings(&["c", "a", "c"]), "c"), strings(&["a"]));
}

#[test]
fn all_databases_once_and_sorted() {
    assert_eq!(
        merge_database_names(
            &strings(&["c.db", "a.db"]),
            &strings(&["b.db", "a.db"]),
            &strings(&["c.db", "d.db", "d.db"])
        ),
        strings(&["a.db", "b.db", "c.db", "d.db"])
    );
}
