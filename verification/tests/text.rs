use snark_coordinator::text::{make_instance_id, split_commas};

#[test]
fn instance_ids_are_name_underscore_number() {
    assert_eq!(make_instance_id("w", 1), "w_1");
    assert_eq!(make_instance_id("w", 9), "w_9");
    assert_eq!(make_instance_id("w", 10), "w_10");
    assert_eq!(make_instance_id("worker", 4095), "worker_4095");
    assert_eq!(make_instance_id("w", 0), "w_0");
    assert_eq!(make_instance_id("w", 1000), "w_1000");
    assert_eq!(make_instance_id("w", 1234567890), "w_1234567890");
    assert_eq!(make_instance_id("w", u32::MAX), "w_4294967295");
    assert_eq!(make_instance_id("", 7), "_7");
    assert_eq!(make_instance_id("a_b", 2), "a_b_2");
    assert_eq!(make_instance_id("wörker", 3), "wörker_3");
}

#[test]
fn split_commas_yields_every_entry() {
    assert_eq!(split_commas("w_1,w_2"), vec!["w_1", "w_2"]);
    assert_eq!(split_commas("w_1"), vec!["w_1"]);
    assert_eq!(split_commas("a,b,c"), vec!["a", "b", "c"]);
}

#[test]
fn split_commas_keeps_empty_entries() {
    assert_eq!(split_commas(""), vec![""]);
    assert_eq!(split_commas(","), vec!["", ""]);
    assert_eq!(split_commas("a,"), vec!["a", ""]);
    assert_eq!(split_commas(",a"), vec!["", "a"]);
    assert_eq!(split_commas("a,,b"), vec!["a", "", "b"]);
}

#[test]
fn split_commas_trims_nothing() {
    assert_eq!(split_commas(" a , b "), vec![" a ", " b "]);
    assert_eq!(split_commas("é,ü"), vec!["é", "ü"]);
    assert_eq!(split_commas("日本,語"), vec!["日本", "語"]);
}

#[test]
fn split_commas_agrees_with_str_split() {
    for text in ["", ",", "a", "a,b", ",,", "w_1,w_2,", "é,,x,", "no comma at all"] {
        let expected: Vec<String> = text.split(',').map(|s| s.to_string()).collect();
        assert_eq!(split_commas(text), expected);
        assert_eq!(split_commas(text).join(","), text);
    }
}
