use mcc_frontend_core::query::{PantryFilter, RecipesFilter};

fn query_string(bytes: Vec<u8>) -> String {
    String::from_utf8(bytes).unwrap()
}

#[test]
fn test_default_recipes_query() {
    let q = query_string(RecipesFilter::default().to_query_bytes());
    assert_eq!(q, "page=1&perPage=20");
}

#[test]
fn test_recipes_query_with_fields() {
    let filter = RecipesFilter {
        page: 3,
        per_page: 20,
        title: Some("beef stew".to_owned()),
        labels: Some(vec!["high protein".to_owned(), "dinner".to_owned()]),
        freezable: Some(true),
        microwave_only: Some(false),
        ..RecipesFilter::default()
    };
    let q = query_string(filter.to_query_bytes());
    assert_eq!(
        q,
        "page=3&perPage=20&title=beef+stew&label=high+protein&label=dinner&freezable=true&microwaveOnly=false",
    );
}

#[test]
fn test_query_percent_escapes() {
    let filter = RecipesFilter {
        title: Some("50% salt & pepper/é".to_owned()),
        ..RecipesFilter::default()
    };
    let q = query_string(filter.to_query_bytes());
    assert_eq!(q, "page=1&perPage=20&title=50%25+salt+%26+pepper%2F%C3%A9");
}

#[test]
fn test_default_pantry_query() {
    let q = query_string(PantryFilter::default().to_query_bytes());
    assert_eq!(q, "page=1&perPage=20");

    let filter = PantryFilter {
        name: Some("milk".to_owned()),
        location_id: Some("l-1".to_owned()),
        expired: Some(true),
        ..PantryFilter::default()
    };
    let q = query_string(filter.to_query_bytes());
    assert_eq!(q, "page=1&perPage=20&name=milk&locationId=l-1&expired=true");
}
