use lenso_runtime::canonical::{strict_json, CanonicalDocument, Document};
use lenso_runtime::digest::sha256_digest;
use lenso_runtime::error::ControlPlaneError;
use lenso_runtime::json::{canonicalize, find_fault, from_bytes, repeated_key, to_compact, Json, Wording};
use lenso_runtime::model::{AppGenerationSpec, RolloutPolicy};

fn json(text: &str) -> Json {
    from_bytes(text.as_bytes()).unwrap()
}

/// A JSON reader that keeps repeated keys.
struct Kept(Json);

struct KeptVisitor;

impl<'de> serde::Deserialize<'de> for Kept {
    fn deserialize<D: serde::Deserializer<'de>>(deserializer: D) -> Result<Self, D::Error> {
        deserializer.deserialize_any(KeptVisitor)
    }
}

impl<'de> serde::de::Visitor<'de> for KeptVisitor {
    type Value = Kept;

    fn expecting(&self, formatter: &mut std::fmt::Formatter<'_>) -> std::fmt::Result {
        formatter.write_str("JSON")
    }

    fn visit_bool<E>(self, value: bool) -> Result<Kept, E> {
        Ok(Kept(Json::Bool(value)))
    }

    fn visit_u64<E>(self, value: u64) -> Result<Kept, E> {
        Ok(Kept(Json::Unsigned(value)))
    }

    fn visit_i64<E>(self, value: i64) -> Result<Kept, E> {
        Ok(Kept(Json::Negative(value)))
    }

    fn visit_f64<E>(self, value: f64) -> Result<Kept, E> {
        Ok(Kept(json(&format!("{value:?}"))))
    }

    fn visit_str<E>(self, value: &str) -> Result<Kept, E> {
        Ok(Kept(Json::Text(value.to_owned())))
    }

    fn visit_unit<E>(self) -> Result<Kept, E> {
        Ok(Kept(Json::Null))
    }

    fn visit_seq<A: serde::de::SeqAccess<'de>>(self, mut items: A) -> Result<Kept, A::Error> {
        let mut list = Vec::new();
        while let Some(Kept(item)) = items.next_element()? {
            list.push(item);
        }
        Ok(Kept(Json::List(list)))
    }

    fn visit_map<A: serde::de::MapAccess<'de>>(self, mut entries: A) -> Result<Kept, A::Error> {
        let mut object = Vec::new();
        while let Some((key, Kept(value))) = entries.next_entry::<String, Kept>()? {
            object.push((key, value));
        }
        Ok(Kept(Json::Object(object)))
    }
}

fn read(text: &str) -> Result<Json, String> {
    serde_json::from_str::<Kept>(text).map(|kept| kept.0).map_err(|error| error.to_string())
}

#[derive(Debug)]
struct Example {
    schema_version: u32,
}

/// Reads the one field of an example and refuses any other.
fn example(text: &str) -> Result<Example, ControlPlaneError> {
    let tree = strict_json("test", read(text))?;
    match tree {
        Json::Object(entries) => match entries.as_slice() {
            [(key, Json::Unsigned(value))] if key == "schema_version" => Ok(Example { schema_version: *value as u32 }),
            _ => Err(ControlPlaneError::InvalidDocument { kind: "test", detail: "unknown field".to_owned() }),
        },
        _ => Err(ControlPlaneError::InvalidDocument { kind: "test", detail: "no object".to_owned() }),
    }
}

#[test]
fn strict_json_rejects_nested_duplicates_unknowns_and_floats() {
    assert_eq!(
        strict_json("test", read("{\"a\":{\"x\":1,\"x\":2}}")).unwrap_err().message(),
        "invalid test document: duplicate field `x`"
    );
    assert!(example("{\"schema_version\":1,\"x\":2}").is_err());
    assert_eq!(
        strict_json("test", read("{\"a\":1.5}")).unwrap_err().message(),
        "invalid test document: floating-point values are forbidden in authority documents"
    );
    assert_eq!(
        strict_json("test", read("{\"a\":-1}")).unwrap_err().message(),
        "invalid test document: negative integers are forbidden in authority documents"
    );
    assert!(strict_json("test", read("{")).is_err());
    let parsed = example("{\"schema_version\":1}").unwrap();
    assert_eq!(parsed.schema_version, 1);
}

fn spec() -> AppGenerationSpec {
    AppGenerationSpec {
        schema_version: 2,
        app_id: "example.app".to_owned(),
        host_build_manifest_digest: "host".to_owned(),
        host_execution_policy_digest: "policy".to_owned(),
        resolved_plan_digest: "plan".to_owned(),
        resolution_authority_digest: "authority".to_owned(),
        resolved_artifact_set_digest: "artifacts".to_owned(),
        effective_host_grant_set_digest: "grants".to_owned(),
    }
}

#[test]
fn a_canonical_document_is_key_sorted_compact_json() {
    let document = CanonicalDocument::from_value("generation", spec()).unwrap();
    assert_eq!(
        String::from_utf8(document.bytes().to_vec()).unwrap(),
        "{\"app_id\":\"example.app\",\"effective_host_grant_set_digest\":\"grants\",\"host_build_manifest_digest\":\"host\",\"host_execution_policy_digest\":\"policy\",\"resolution_authority_digest\":\"authority\",\"resolved_artifact_set_digest\":\"artifacts\",\"resolved_plan_digest\":\"plan\",\"schema_version\":2}"
    );
    assert_eq!(document.digest(), sha256_digest(document.bytes()));
    assert_eq!(document.digest().len(), 71);
    assert_eq!(document.into_value().app_id, "example.app");
}

#[test]
fn canonical_bytes_read_back_as_the_canonical_tree() {
    let document = CanonicalDocument::from_value("generation", spec()).unwrap();
    let tree = canonicalize(document.value().to_json());
    assert_eq!(from_bytes(document.bytes()).unwrap(), tree);
}

#[test]
fn the_order_of_fields_does_not_change_the_identity() {
    let one = canonicalize(json("{\"b\":[{\"y\":1,\"x\":2}],\"a\":\"\\u00e9\"}"));
    let other = canonicalize(json("{\"a\":\"\\u00e9\",\"b\":[{\"x\":2,\"y\":1}]}"));
    assert_eq!(to_compact(&one), to_compact(&other));
    assert_eq!(to_compact(&one), "{\"a\":\"é\",\"b\":[{\"x\":2,\"y\":1}]}".as_bytes());
}

#[test]
fn keys_are_ordered_by_their_bytes() {
    let sorted = canonicalize(json("{\"é\":1,\"z\":2,\"Z\":3,\"\":4,\"\\ud83d\\ude00\":5,\"\\uffff\":6}"));
    assert_eq!(to_compact(&sorted), "{\"\":4,\"Z\":3,\"z\":2,\"é\":1,\"\u{ffff}\":6,\"\u{1f600}\":5}".as_bytes());
}

#[test]
fn a_document_that_was_not_read_is_refused() {
    let refused = CanonicalDocument::<RolloutPolicy>::parse("policy", Err("missing field".to_owned())).unwrap_err();
    assert_eq!(refused.message(), "invalid policy document: missing field");
}

#[test]
fn a_written_document_is_read_as_the_same_document() {
    let document = CanonicalDocument::from_value("generation", spec()).unwrap();
    let tree = strict_json("generation", read(std::str::from_utf8(document.bytes()).unwrap())).unwrap();
    assert_eq!(to_compact(&canonicalize(tree)), document.bytes());
    let again = CanonicalDocument::parse("generation", Ok(spec())).unwrap();
    assert_eq!(again.bytes(), document.bytes());
    assert_eq!(again.digest(), document.digest());
}

#[test]
fn a_fault_is_named_for_its_document() {
    assert_eq!(find_fault(&Json::Negative(-1), Wording::Manifest).unwrap(), "negative integers are forbidden");
    assert_eq!(find_fault(&json("[1.5]"), Wording::Manifest).unwrap(), "floating-point values are forbidden");
    assert_eq!(find_fault(&Json::Negative(-1), Wording::Authority).unwrap(), "negative integers are forbidden in authority documents");
    assert_eq!(find_fault(&json("{\"a\":[1]}"), Wording::Manifest), None);
    let fields = vec![("a".to_owned(), Json::Null)];
    assert_eq!(repeated_key(&fields, "a").unwrap(), "duplicate field `a`");
    assert_eq!(repeated_key(&fields, "b"), None);
}
