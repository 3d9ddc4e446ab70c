use jsonway::{
    ArrayBuilder, ArraySerializer, ListBuilder, ListSerializer, ObjectBuilder,
    ObjectScopeSerializer, ObjectSerializer, Serializer,
};

struct Jedi {
    name: String,
    secret: String,
}

struct JediSerializer<'a> {
    jedi: &'a Jedi,
}

impl<'a> Serializer for JediSerializer<'a> {
    fn root(&self) -> Option<&str> {
        Some("jedi")
    }

    fn build(&self, mut json: ObjectBuilder) -> ObjectBuilder {
        json.set("name".to_string(), self.jedi.name.to_string());
        json
    }
}

#[test]
fn serializer_wraps_under_root() {
    let jedi = Jedi { name: "Saes Rrogon".to_string(), secret: "None".to_string() };
    let json = JediSerializer { jedi: &jedi }.serialize();
    assert_eq!(
        json.find("jedi").unwrap().find("name").unwrap().as_string().unwrap(),
        "Saes Rrogon"
    );
}

struct JediObjectSerializer;

impl ObjectSerializer<Jedi> for JediObjectSerializer {
    fn root(&self) -> Option<&str> {
        None
    }

    fn build(&self, jedi: &Jedi, mut json: ObjectBuilder) -> ObjectBuilder {
        json.set("name".to_string(), jedi.name.to_string());
        json
    }
}

#[test]
fn object_serializer_without_root_is_bare() {
    let jedi = Jedi { name: "Qui-Gon Jinn".to_string(), secret: "None".to_string() };
    let json = JediObjectSerializer.serialize(&jedi);
    assert_eq!(json.find("name").unwrap().as_string().unwrap(), "Qui-Gon Jinn");
    assert_eq!(json.as_object().unwrap().len(), 1);
}

struct User {
    is_admin: bool,
}

struct JediScopeSerializer;

impl ObjectScopeSerializer<Jedi, User> for JediScopeSerializer {
    fn root(&self) -> Option<&str> {
        Some("jedi")
    }

    fn build(&self, jedi: &Jedi, current_user: &User, mut json: ObjectBuilder) -> ObjectBuilder {
        json.set("name".to_string(), jedi.name.to_string());
        if current_user.is_admin {
            json.set("secret".to_string(), jedi.secret.to_string());
        }
        json
    }
}

#[test]
fn scope_serializer_reads_the_scope() {
    let jedi = Jedi { name: "Palpatine".to_string(), secret: "Dark side".to_string() };

    let json = JediScopeSerializer.serialize(&jedi, &User { is_admin: true });
    assert_eq!(
        json.find("jedi").unwrap().find("secret").unwrap().as_string().unwrap(),
        "Dark side"
    );

    let json = JediScopeSerializer.serialize(&jedi, &User { is_admin: false });
    assert!(json.find("jedi").unwrap().find("secret").is_none());
}

struct PlanetsSerializer {
    root_key: Option<&'static str>,
    with_meta: bool,
}

impl ArraySerializer for PlanetsSerializer {
    fn root(&self) -> Option<&str> {
        self.root_key
    }

    fn meta(&self) -> Option<ObjectBuilder> {
        if self.with_meta {
            let mut meta = ObjectBuilder::new();
            meta.set("count".to_string(), 2u64);
            Some(meta)
        } else {
            None
        }
    }

    fn build(&self, mut json: ArrayBuilder) -> ArrayBuilder {
        json.push("Tatooine".to_string());
        json.push("Dagobah".to_string());
        json
    }
}

#[test]
fn array_serializer_meta_without_root_wraps_under_data() {
    let json = PlanetsSerializer { root_key: None, with_meta: true }.serialize();
    let entries = json.as_object().unwrap();
    assert_eq!(entries.len(), 2);
    assert_eq!(json.find("data").unwrap().as_array().unwrap().len(), 2);
    assert_eq!(json.find("meta").unwrap().find("count").unwrap().as_u64(), Some(2));
}

#[test]
fn array_serializer_meta_with_root_sits_beside_payload() {
    let json = PlanetsSerializer { root_key: Some("widget"), with_meta: true }.serialize();
    let entries = json.as_object().unwrap();
    assert_eq!(entries.len(), 2);
    assert!(json.find("data").is_none());
    assert_eq!(json.find("widget").unwrap().as_array().unwrap().len(), 2);
    assert_eq!(json.find("meta").unwrap().find("count").unwrap().as_u64(), Some(2));
}

#[test]
fn array_serializer_without_meta_returns_payload_only() {
    let json = PlanetsSerializer { root_key: None, with_meta: false }.serialize();
    assert_eq!(json.as_array().unwrap().len(), 2);

    let json = PlanetsSerializer { root_key: Some("widget"), with_meta: false }.serialize();
    let entries = json.as_object().unwrap();
    assert_eq!(entries.len(), 1);
    assert_eq!(json.find("widget").unwrap().as_array().unwrap().len(), 2);
}

struct MoonsSerializer {
    root_key: Option<&'static str>,
    with_meta: bool,
}

impl ListSerializer for MoonsSerializer {
    fn root(&self) -> Option<&str> {
        self.root_key
    }

    fn meta(&self) -> Option<ObjectBuilder> {
        if self.with_meta {
            let mut meta = ObjectBuilder::new();
            meta.set("count".to_string(), 1u64);
            Some(meta)
        } else {
            None
        }
    }

    fn build(&self, mut json: ListBuilder) -> ListBuilder {
        json.push("Endor".to_string());
        json
    }
}

#[test]
fn list_serializer_merges_meta_the_same_way() {
    let json = MoonsSerializer { root_key: None, with_meta: true }.serialize();
    assert_eq!(json.find("data").unwrap().as_array().unwrap().len(), 1);
    assert_eq!(json.find("meta").unwrap().find("count").unwrap().as_u64(), Some(1));

    let json = MoonsSerializer { root_key: Some("moons"), with_meta: true }.serialize();
    assert!(json.find("data").is_none());
    assert_eq!(json.find("moons").unwrap().as_array().unwrap().len(), 1);

    let json = MoonsSerializer { root_key: None, with_meta: false }.serialize();
    assert_eq!(json.as_array().unwrap().len(), 1);
}
