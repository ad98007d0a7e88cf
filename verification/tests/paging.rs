use aurelia::json::JsonValue;
use aurelia::paging::{item_ids, items_page_query, page_items, page_total, Paging};

fn obj(members: Vec<(&str, JsonValue)>) -> JsonValue {
    JsonValue::Object(members.into_iter().map(|(k, v)| (k.to_string(), v)).collect())
}

#[test]
fn page_query_adds_paging_parameters() {
    assert_eq!(
        items_page_query("/Items?userId=u", 400, 200),
        "/Items?userId=u&StartIndex=400&Limit=200&enableTotalRecordCount=true"
    );
}

#[test]
fn page_total_and_items_are_read() {
    let page = obj(vec![
        ("TotalRecordCount", JsonValue::Number { integer: Some(3), unsigned: Some(3), float_bits: 3.0f64.to_bits() }),
        (
            "Items",
            JsonValue::Array(vec![
                obj(vec![("Id", JsonValue::Str("a".to_string()))]),
                obj(vec![("Name", JsonValue::Str("no id".to_string()))]),
                obj(vec![("Id", JsonValue::Str("c".to_string()))]),
            ]),
        ),
    ]);
    assert_eq!(page_total(&page), 3);
    let items = page_items(&page).unwrap();
    assert_eq!(item_ids(items), vec!["a".to_string(), "c".to_string()]);
    assert_eq!(page_total(&obj(vec![])), 0);
    assert!(page_items(&obj(vec![])).is_none());
}

#[test]
fn paging_stops_on_empty_page_or_total() {
    let mut p = Paging::new();
    p.page_read(Some("d1".to_string()), 200, 450);
    assert_eq!(p.start_index, 200);
    assert!(!p.finished);
    p.page_read(Some("d2".to_string()), 200, 450);
    assert!(!p.finished);
    p.page_read(None, 50, 450);
    assert_eq!(p.start_index, 450);
    assert!(p.finished);
    assert_eq!(p.server_date, Some("d1".to_string()));

    let mut q = Paging::default();
    q.page_read(None, 0, 10);
    assert!(q.finished);
    assert_eq!(q.start_index, 0);
}
