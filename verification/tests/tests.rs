use jsonway::{ArrayBuilder, Json, ObjectBuilder};

#[derive(Debug)]
enum Side {
    Light,
    Dark,
}

impl Side {
    fn to_string(&self) -> String {
        match *self {
            Side::Light => "Light".to_string(),
            Side::Dark => "Dark".to_string(),
        }
    }
}

struct Jedi {
    name: String,
    side: Side,
}

fn jedi_array() -> Vec<Jedi> {
    vec![
        Jedi { name: "Saes Rrogon".to_string(), side: Side::Dark },
        Jedi { name: "Qui-Gon Jinn".to_string(), side: Side::Light },
        Jedi { name: "Obi-Wan Kenobi".to_string(), side: Side::Light },
    ]
}

#[test]
fn simple_array_of_objects() {
    let jedi_array = jedi_array();

    let json = jsonway::array(|mut json: ArrayBuilder| {
        json.objects(&jedi_array, |jedi: &Jedi, mut json: ObjectBuilder| {
            match jedi.side {
                Side::Light => {
                    json.set("name".to_string(), jedi.name.to_string());
                    json.set("side".to_string(), jedi.side.to_string());
                }
                Side::Dark => json.skip(),
            }
            json
        });
        json
    })
    .unwrap();

    let array = json.as_array().unwrap();

    assert_eq!(array.len(), 2);
}

#[test]
fn simple_array_of_arrays() {
    let jedi_array = jedi_array();

    let json = jsonway::array(|mut json: ArrayBuilder| {
        json.objects(&jedi_array, |jedi: &Jedi, mut json: ObjectBuilder| {
            match jedi.side {
                Side::Light => {
                    json.set("name".to_string(), jedi.name.to_string());
                    json.set("side".to_string(), jedi.side.to_string());
                }
                Side::Dark => json.skip(),
            }
            json
        });
        json
    })
    .unwrap();

    let array = json.as_array().unwrap();

    assert_eq!(array.len(), 2);
}

#[test]
fn null_precedence_object() {
    let mut b = ObjectBuilder::new();
    b.set("k".to_string(), 1i64);
    b.null();
    let json = b.unwrap();
    assert!(json.is_null());
}

#[test]
fn null_precedence_array_with_root() {
    let mut b = ArrayBuilder::new();
    b.push("x".to_string());
    b.null();
    b.root("items");
    let json = b.unwrap();
    let entries = json.as_object().unwrap();
    assert_eq!(entries.len(), 1);
    assert_eq!(entries[0].0, "items");
    assert!(entries[0].1.is_null());
}

#[test]
fn root_wrapping_always_single_key() {
    // empty content
    let mut b = ObjectBuilder::new();
    b.root("x");
    let json = b.unwrap();
    let entries = json.as_object().unwrap();
    assert_eq!(entries.len(), 1);
    assert_eq!(entries[0].0, "x");
    assert!(entries[0].1.is_object());

    // populated content
    let mut b = ObjectBuilder::new();
    b.set("a".to_string(), 1i64);
    b.root("x");
    let json = b.unwrap();
    let entries = json.as_object().unwrap();
    assert_eq!(entries.len(), 1);
    assert_eq!(entries[0].0, "x");

    // null content
    let mut b = ObjectBuilder::new();
    b.null();
    b.root("x");
    let json = b.unwrap();
    let entries = json.as_object().unwrap();
    assert_eq!(entries.len(), 1);
    assert_eq!(entries[0].0, "x");
    assert!(entries[0].1.is_null());
}

#[test]
fn arrays_fill_skips_marked_builders() {
    let numbers: Vec<i64> = vec![1, 2, 3, 4, 5];

    let json = jsonway::array(|mut json: ArrayBuilder| {
        json.arrays(&numbers, |n: &i64, mut json: ArrayBuilder| {
            if *n % 2 == 0 {
                json.skip();
            } else {
                json.push(*n);
            }
            json
        });
        json
    })
    .unwrap();

    let array = json.as_array().unwrap();
    assert_eq!(array.len(), 3);
    assert_eq!(array[0].as_array().unwrap()[0].as_i64(), Some(1));
    assert_eq!(array[1].as_array().unwrap()[0].as_i64(), Some(3));
    assert_eq!(array[2].as_array().unwrap()[0].as_i64(), Some(5));
}

#[test]
fn map_keeps_every_item() {
    let numbers: Vec<i64> = vec![7, 8, 9];

    let mut b = ArrayBuilder::new();
    b.map(&numbers, |n: &i64| Json::I64(*n * 10));
    let json = b.unwrap();

    let array = json.as_array().unwrap();
    assert_eq!(array.len(), 3);
    assert_eq!(array[0].as_i64(), Some(70));
    assert_eq!(array[1].as_i64(), Some(80));
    assert_eq!(array[2].as_i64(), Some(90));
}

#[test]
fn round_trip_scalars() {
    let mut b = ObjectBuilder::new();
    b.set("k".to_string(), 5i64);
    let json = b.unwrap();
    assert_eq!(json.find("k").unwrap().as_i64(), Some(5));

    let mut a = ArrayBuilder::new();
    a.push("a".to_string());
    let json = a.unwrap();
    assert_eq!(json.as_array().unwrap()[0].as_string().unwrap(), "a");
}

#[test]
fn duplicate_key_overwrites() {
    let mut b = ObjectBuilder::new();
    b.set("k".to_string(), 1i64);
    b.set("k".to_string(), 2i64);
    let json = b.unwrap();
    let entries = json.as_object().unwrap();
    assert_eq!(entries.len(), 1);
    assert_eq!(entries[0].0, "k");
    assert_eq!(entries[0].1.as_i64(), Some(2));
}

#[test]
fn empty_builders_finalize_to_empty_containers() {
    let json = ObjectBuilder::new().unwrap();
    assert!(json.is_object());
    assert_eq!(json.as_object().unwrap().len(), 0);

    let json = ArrayBuilder::new().unwrap();
    assert!(json.is_array());
    assert_eq!(json.as_array().unwrap().len(), 0);
}

#[test]
fn from_json_checks_the_kind() {
    assert!(ObjectBuilder::from_json(Json::Null).is_none());
    assert!(ObjectBuilder::from_json(Json::Array(vec![])).is_none());
    assert!(ArrayBuilder::from_json(Json::Null).is_none());
    assert!(ArrayBuilder::from_json(Json::Object(vec![])).is_none());

    let seed = Json::Object(vec![("a".to_string(), Json::I64(1))]);
    let mut b = ObjectBuilder::from_json(seed).unwrap();
    b.set("b".to_string(), 2i64);
    let json = b.unwrap();
    assert_eq!(json.find("a").unwrap().as_i64(), Some(1));
    assert_eq!(json.find("b").unwrap().as_i64(), Some(2));

    let seed = Json::Array(vec![Json::I64(1)]);
    let mut a = ArrayBuilder::from_json(seed).unwrap();
    a.push(2i64);
    let json = a.unwrap();
    let array = json.as_array().unwrap();
    assert_eq!(array.len(), 2);
    assert_eq!(array[0].as_i64(), Some(1));
    assert_eq!(array[1].as_i64(), Some(2));
}

#[test]
fn nested_builders() {
    let json = jsonway::object(|mut json: ObjectBuilder| {
        json.set("first_name".to_string(), "Luke".to_string());
        json.set("last_name".to_string(), "Skywalker".to_string());

        json.object("info".to_string(), |mut json: ObjectBuilder| {
            json.set("homeworld".to_string(), "Tatooine".to_string());
            json
        });

        json.array("masters".to_string(), |mut json: ArrayBuilder| {
            json.push("Obi-Wan Kenobi".to_string());
            json.push("Yoda".to_string());
            json
        });
        json
    })
    .unwrap();

    assert_eq!(json.find("first_name").unwrap().as_string().unwrap(), "Luke");
    assert_eq!(json.find("last_name").unwrap().as_string().unwrap(), "Skywalker");
    assert!(json.find("info").unwrap().is_object());
    assert!(json.find("masters").unwrap().is_array());
    assert_eq!(
        json.find("info").unwrap().find("homeworld").unwrap().as_string().unwrap(),
        "Tatooine"
    );
    assert_eq!(json.find("masters").unwrap().as_array().unwrap().len(), 2);
}

#[test]
fn array_of_nested_builders() {
    let json = jsonway::array(|mut json: ArrayBuilder| {
        json.object(|mut json: ObjectBuilder| {
            json.set("n".to_string(), 1i64);
            json
        });
        json.array(|mut json: ArrayBuilder| {
            json.push(2i64);
            json
        });
        json
    })
    .unwrap();

    let array = json.as_array().unwrap();
    assert_eq!(array.len(), 2);
    assert!(array[0].is_object());
    assert!(array[1].is_array());
}

#[test]
fn scalar_conversions() {
    let mut b = ObjectBuilder::new();
    b.set("t".to_string(), true);
    b.set("f".to_string(), false);
    b.set("i32".to_string(), -5i32);
    b.set("u32".to_string(), 7u32);
    b.set("i64".to_string(), -9i64);
    b.set("u64".to_string(), 11u64);
    b.call("s".to_string(), "str".to_string());
    let json = b.unwrap();

    assert_eq!(json.find("t").unwrap().as_boolean(), Some(true));
    assert_eq!(json.find("f").unwrap().as_boolean(), Some(false));
    assert_eq!(json.find("i32").unwrap().as_i64(), Some(-5));
    assert_eq!(json.find("u32").unwrap().as_u64(), Some(7));
    assert_eq!(json.find("i64").unwrap().as_i64(), Some(-9));
    assert_eq!(json.find("u64").unwrap().as_u64(), Some(11));
    assert_eq!(json.find("s").unwrap().as_string().unwrap(), "str");
}

#[test]
fn find_on_non_objects_and_absent_keys() {
    assert!(Json::Null.find("k").is_none());
    assert!(Json::I64(1).find("k").is_none());
    let json = Json::Object(vec![("a".to_string(), Json::Null)]);
    assert!(json.find("b").is_none());
    assert!(json.find("a").is_some());
}

#[test]
fn set_json_and_push_json_take_raw_values() {
    let mut b = ObjectBuilder::new();
    b.set_json("raw".to_string(), Json::Boolean(true));
    let json = b.unwrap();
    assert_eq!(json.find("raw").unwrap().as_boolean(), Some(true));

    let mut a = ArrayBuilder::new();
    a.push_json(Json::U64(3));
    let json = a.unwrap();
    assert_eq!(json.as_array().unwrap()[0].as_u64(), Some(3));
}

#[test]
fn has_root_reports_the_root_key() {
    let mut b = ObjectBuilder::new();
    assert!(!b.has_root());
    b.root("r");
    assert!(b.has_root());

    let mut a = ArrayBuilder::new();
    assert!(!a.has_root());
    a.root("r");
    assert!(a.has_root());
}

#[test]
fn builders_convert_to_json_values() {
    let mut inner = ObjectBuilder::new();
    inner.set("a".to_string(), 1i64);
    let mut outer = ObjectBuilder::new();
    outer.set("inner".to_string(), inner);
    let json = outer.unwrap();
    assert_eq!(json.find("inner").unwrap().find("a").unwrap().as_i64(), Some(1));

    let mut nulled = ArrayBuilder::new();
    nulled.push(1i64);
    nulled.null();
    let mut outer = ObjectBuilder::new();
    outer.set("gone".to_string(), nulled);
    let json = outer.unwrap();
    assert!(json.find("gone").unwrap().is_null());

    let mut b = ObjectBuilder::new();
    b.set("j".to_string(), Json::U64(4));
    let json = b.unwrap();
    assert_eq!(json.find("j").unwrap().as_u64(), Some(4));
}

#[test]
fn duplicate_copies_the_whole_tree() {
    let original = Json::Object(vec![
        ("k".to_string(), Json::Array(vec![Json::I64(1), Json::Str("s".to_string())])),
        ("n".to_string(), Json::Null),
    ]);
    let copy = original.duplicate();
    let array = copy.find("k").unwrap().as_array().unwrap();
    assert_eq!(array.len(), 2);
    assert_eq!(array[0].as_i64(), Some(1));
    assert_eq!(array[1].as_string().unwrap(), "s");
    assert!(copy.find("n").unwrap().is_null());
}

#[test]
fn find_returns_the_last_occurrence_of_a_key() {
    // An object list built by hand may carry a key twice; the model (and
    // `find`) let the later entry win, as the builders' overwrite does.
    let json = Json::Object(vec![
        ("k".to_string(), Json::I64(1)),
        ("k".to_string(), Json::I64(2)),
    ]);
    assert_eq!(json.find("k").unwrap().as_i64(), Some(2));
}
