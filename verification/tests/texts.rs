use rustdesk_bridge::json::Fields;
use rustdesk_bridge::layout::serialize_resolutions;
use rustdesk_bridge::message::Resolution;
use rustdesk_bridge::table::Table;
use rustdesk_bridge::text::{
    bool_string, decimal_i32, decimal_i64, decimal_u64, join_commas, parse_u64, same_text,
    split_commas,
};

#[test]
fn numbers_are_written() {
    assert_eq!(decimal_u64(0), "0");
    assert_eq!(decimal_u64(u64::MAX), "18446744073709551615");
    assert_eq!(decimal_i64(i64::MIN), "-9223372036854775808");
    assert_eq!(decimal_i32(-10), "-10");
    assert_eq!(bool_string(true), "true");
    assert_eq!(bool_string(false), "false");
}

#[test]
fn numbers_are_read() {
    assert_eq!(parse_u64("0"), Some(0));
    assert_eq!(parse_u64("+07"), Some(7));
    assert_eq!(parse_u64("18446744073709551615"), Some(u64::MAX));
    for odd in ["", "+", "-1", "18446744073709551616", "1 ", "a", "99999999999999999999999"] {
        assert_eq!(parse_u64(odd), None);
        assert_eq!(odd.parse::<u64>().ok(), None);
    }
}

#[test]
fn texts_are_split_and_joined() {
    assert_eq!(split_commas(""), vec![""]);
    assert_eq!(split_commas("a,,b,"), vec!["a", "", "b", ""]);
    assert_eq!(join_commas(&split_commas("a,,b,")), "a,,b,");
    assert_eq!(join_commas(&vec![]), "");
    assert!(same_text("x", "x"));
    assert!(!same_text("x", "y"));
}

#[test]
fn json_objects_keep_their_order() {
    assert_eq!(Fields::new().print(), "{}");
    let fields = Fields::new()
        .text("b", "1")
        .unsigned("a", u64::MAX)
        .truth("c", true)
        .decimal("d", -4)
        .bool_text("e", false)
        .text("b", "2");
    assert_eq!(
        fields.print(),
        "{\"b\":\"2\",\"a\":18446744073709551615,\"c\":true,\"d\":\"-4\",\"e\":\"false\"}"
    );
}

#[test]
fn sizes_become_a_text() {
    assert_eq!(serialize_resolutions(&vec![]), "[]");
    let sizes = vec![Resolution { width: 1, height: -2 }, Resolution { width: 3, height: 4 }];
    assert_eq!(
        serialize_resolutions(&sizes),
        "[{\"width\":1,\"height\":-2},{\"width\":3,\"height\":4}]"
    );
}

#[test]
fn tables_keep_their_order() {
    let mut table: Table<usize, u64> = Table::new();
    assert!(table.is_empty());
    assert_eq!(table.insert(3, 30), None);
    assert_eq!(table.insert(1, 10), None);
    assert_eq!(table.insert(3, 31), Some(30));
    assert_eq!((*table.key_at(0), *table.value_at(0)), (3, 31));
    assert_eq!(table.position(&1), Some(1));
    assert_eq!(table.get(&2), None);
    *table.get_mut(&1).unwrap() = 11;
    assert_eq!(table.remove(&3), Some(31));
    assert_eq!(table.remove(&3), None);
    assert_eq!(table.get(&1), Some(&11));
    assert_eq!(table.len(), 1);
}
