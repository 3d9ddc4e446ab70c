use jsonway::{Json, ListBuilder, MutableJson, ObjectBuilder};

#[test]
fn list_builder_mirrors_array_builder() {
    let mut b = ListBuilder::new();
    b.push(1i64);
    b.push_json(Json::Boolean(true));
    let json = b.unwrap();
    let array = json.as_array().unwrap();
    assert_eq!(array.len(), 2);
    assert_eq!(array[0].as_i64(), Some(1));
    assert_eq!(array[1].as_boolean(), Some(true));
}

#[test]
fn list_builder_null_and_root() {
    let mut b = ListBuilder::new();
    b.push(1i64);
    b.null();
    b.root("items");
    let json = b.unwrap();
    let entries = json.as_object().unwrap();
    assert_eq!(entries.len(), 1);
    assert_eq!(entries[0].0, "items");
    assert!(entries[0].1.is_null());
}

#[test]
fn list_builder_from_json() {
    assert!(ListBuilder::from_json(Json::Null).is_none());
    let seed = Json::Array(vec![Json::I64(1)]);
    let b = ListBuilder::from_json(seed).unwrap();
    let json = b.unwrap();
    assert_eq!(json.as_array().unwrap().len(), 1);
}

#[test]
fn list_builder_bulk_fills() {
    let numbers: Vec<i64> = vec![1, 2, 3, 4];

    let mut b = ListBuilder::new();
    b.objects(&numbers, |n: &i64, mut json: ObjectBuilder| {
        if *n % 2 == 0 {
            json.skip();
        } else {
            json.set("n".to_string(), *n);
        }
        json
    });
    let json = b.unwrap();
    let array = json.as_array().unwrap();
    assert_eq!(array.len(), 2);
    assert_eq!(array[0].find("n").unwrap().as_i64(), Some(1));
    assert_eq!(array[1].find("n").unwrap().as_i64(), Some(3));

    let mut b = ListBuilder::new();
    b.lists(&numbers, |n: &i64, mut json: ListBuilder| {
        if *n > 2 {
            json.skip();
        } else {
            json.push(*n);
        }
        json
    });
    let json = b.unwrap();
    let array = json.as_array().unwrap();
    assert_eq!(array.len(), 2);

    let mut b = ListBuilder::new();
    b.map(&numbers, |n: &i64| Json::I64(*n + 1));
    let json = b.unwrap();
    let array = json.as_array().unwrap();
    assert_eq!(array.len(), 4);
    assert_eq!(array[3].as_i64(), Some(5));
}

#[test]
fn list_builder_nested() {
    let mut b = ListBuilder::new();
    b.list(|mut json: ListBuilder| {
        json.push(1i64);
        json
    });
    b.object(|mut json: ObjectBuilder| {
        json.set("k".to_string(), 2i64);
        json
    });
    let json = b.unwrap();
    let array = json.as_array().unwrap();
    assert_eq!(array.len(), 2);
    assert!(array[0].is_array());
    assert!(array[1].is_object());
}

#[test]
fn mutable_json_gives_in_place_access() {
    let mut json = Json::Object(vec![]);
    json.as_object_mut().unwrap().push(("k".to_string(), Json::I64(1)));
    assert_eq!(json.find("k").unwrap().as_i64(), Some(1));
    assert!(json.as_array_mut().is_none());

    let mut json = Json::Array(vec![]);
    MutableJson::as_array_mut(&mut json).unwrap().push(Json::Null);
    assert_eq!(json.as_array().unwrap().len(), 1);
    assert!(json.as_object_mut().is_none());
}
