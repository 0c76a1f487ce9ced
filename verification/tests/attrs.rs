use phosphorus::attrs::parse_attributes;
use phosphorus::model::ApiGroup;

#[test]
fn empty_attribute_list_yields_no_pairs() {
    let pairs = parse_attributes("").unwrap();
    assert_eq!(pairs.len(), 0);
    let pairs = parse_attributes("   ").unwrap();
    assert_eq!(pairs.len(), 0);
}

#[test]
fn single_pair_is_split() {
    let pairs = parse_attributes("namespace=\"GL\"").unwrap();
    assert_eq!(pairs.len(), 1);
    assert_eq!(pairs[0].key, "namespace");
    assert_eq!(pairs[0].value, "GL");
}

#[test]
fn pairs_keep_source_order_and_both_quote_kinds_work() {
    let pairs = parse_attributes("name=\"GL_ONE\" value='1'").unwrap();
    assert_eq!(pairs.len(), 2);
    assert_eq!(pairs[0].key, "name");
    assert_eq!(pairs[0].value, "GL_ONE");
    assert_eq!(pairs[1].key, "value");
    assert_eq!(pairs[1].value, "1");
}

#[test]
fn key_without_equals_is_malformed() {
    assert!(parse_attributes("justakey").is_err());
}

#[test]
fn value_without_quote_is_malformed() {
    assert!(parse_attributes("key=bare").is_err());
}

#[test]
fn value_without_closing_quote_is_malformed() {
    assert!(parse_attributes("key=\"open").is_err());
}

#[test]
fn api_group_names_map_to_groups() {
    assert_eq!(ApiGroup::from("gl"), Some(ApiGroup::Gl));
    assert_eq!(ApiGroup::from("gles1"), Some(ApiGroup::Gles1));
    assert_eq!(ApiGroup::from("gles2"), Some(ApiGroup::Gles2));
    assert_eq!(ApiGroup::from("glsc2"), Some(ApiGroup::Glsc2));
    assert_eq!(ApiGroup::from("vulkan"), None);
    assert_eq!(ApiGroup::from(""), None);
}

#[test]
fn default_api_group_is_gl() {
    assert_eq!(ApiGroup::default(), ApiGroup::Gl);
}
