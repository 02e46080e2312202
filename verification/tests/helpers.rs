use rauthy_common::ident::{cache_entry_client, get_rand, new_store_id};
use rauthy_common::json::json_arr_to_vec;

#[test]
fn test_json_arr_to_vec() {
    let arr = String::from("[\"one\",\"two\",\"three\"]");
    let arr_as_vec = vec!["one", "two", "three"];
    assert_eq!(json_arr_to_vec(&arr), arr_as_vec);

    let arr = String::from("[\"one\"]");
    let arr_as_vec = vec!["one"];
    assert_eq!(json_arr_to_vec(&arr), arr_as_vec);

    let arr = String::from("[]");
    let arr_as_vec = vec![""];
    assert_eq!(json_arr_to_vec(&arr), arr_as_vec);
}

#[test]
fn test_get_rand() {
    let rnd = get_rand(11);
    assert_eq!(rnd.len(), 11);

    let rnd = get_rand(0);
    assert_eq!(rnd.len(), 0);

    let rnd = get_rand(1024);
    assert_eq!(rnd.len(), 1024);
}

#[test]
fn get_rand_is_alphanumeric() {
    let rnd = get_rand(4096);
    assert_eq!(rnd.chars().count(), 4096);
    assert!(rnd.chars().all(|c| c.is_ascii_alphanumeric()));
}

#[test]
fn get_rand_varies() {
    assert_ne!(get_rand(32), get_rand(32));
}

#[test]
fn new_store_id_has_24_alphanumeric_chars() {
    let id = new_store_id();
    assert_eq!(id.len(), 24);
    assert!(id.chars().all(|c| c.is_ascii_alphanumeric()));
}

#[test]
fn cache_entry_client_prefixes_the_id() {
    assert_eq!(cache_entry_client("abc"), "client_abc");
    assert_eq!(cache_entry_client(""), "client_");
    assert_eq!(cache_entry_client("ä b"), "client_ä b");
}

#[test]
fn json_arr_to_vec_edge_cases() {
    assert_eq!(json_arr_to_vec(""), vec![""]);
    assert_eq!(json_arr_to_vec("["), vec![""]);
    assert_eq!(json_arr_to_vec("[\"a\",\"b\"] trailing, text"), vec!["a", "b"]);
    assert_eq!(json_arr_to_vec("[\"a\",,\"b\"]"), vec!["a", "", "b"]);
    assert_eq!(json_arr_to_vec("[\"a\", \"b\"]"), vec!["a", " b"]);
    assert_eq!(json_arr_to_vec("x\"a]b\",c"), vec!["a"]);
    assert_eq!(json_arr_to_vec("[[\"a\"],[\"b\"]]"), vec!["[a"]);
    assert_eq!(json_arr_to_vec("[\"no end\",\"here\""), vec!["no end", "here"]);
}

#[test]
fn json_arr_to_vec_follows_its_definition() {
    let pieces = ["", "[", "]", "\"", ",", "a", "b c", "ä", "[\"x\"", "\"]", ",,", "]["];
    for a in pieces {
        for b in pieces {
            for c in pieces {
                for d in pieces {
                    let text = format!("{}{}{}{}", a, b, c, d);
                    let inner: String =
                        text.chars().skip(1).filter(|&c| c != '"').take_while(|&c| c != ']').collect();
                    let expected: Vec<String> = inner.split(',').map(|i| i.to_string()).collect();
                    assert_eq!(json_arr_to_vec(&text), expected, "{:?}", text);
                }
            }
        }
    }
}
