use stackql_deploy::json::{
    decode_json_string, from_json, generate_patch_document, join_texts, merge_lists, merge_objects,
    to_aws_tag_filters,
};

#[test]
fn from_json_reads_string_content() {
    assert_eq!(from_json("\"{\\\"a\\\": [1, 2]}\""), Ok("{\"a\":[1,2]}".to_string()));
    assert_eq!(from_json("[1]"), Err("from_json: expected a string".to_string()));
    assert!(from_json("\"{oops\"").unwrap_err().starts_with("from_json: "));
}

#[test]
fn decoding_strings_that_hold_json() {
    assert_eq!(decode_json_string("\"[1, 2]\""), "[1,2]");
    assert_eq!(decode_json_string("\"plain\""), "\"plain\"");
    assert_eq!(decode_json_string("{\"a\":1}"), "{\"a\":1}");
}

#[test]
fn merge_lists_filter_keeps_first_of_each() {
    assert_eq!(merge_lists("[1,2,\"x\"]", "[2,3,\"x\"]"), Ok("[1,2,\"x\",3]".to_string()));
    assert_eq!(merge_lists("\"[1]\"", "[1,{\"a\":1}]"), Ok("[1,{\"a\":1}]".to_string()));
    assert_eq!(merge_lists("{}", "[]"), Err("merge_lists: expected an array".to_string()));
    assert_eq!(merge_lists("[]", "5"), Err("merge_lists: 'other' must be an array".to_string()));
}

#[test]
fn merge_objects_second_wins() {
    assert_eq!(merge_objects("{\"a\":1,\"b\":2}", "{\"b\":3,\"c\":4}"), Ok("{\"a\":1,\"b\":3,\"c\":4}".to_string()));
    assert_eq!(merge_objects("\"{\\\"k\\\": \\\"v\\\"}\"", "{}"), Ok("{\"k\":\"v\"}".to_string()));
    assert_eq!(merge_objects("[]", "{}"), Err("merge_objects: expected an object".to_string()));
    assert_eq!(merge_objects("{}", "\"x\""), Err("merge_objects: 'other' must be an object".to_string()));
}

#[test]
fn patch_document_adds_each_member() {
    assert_eq!(
        generate_patch_document("{\"b\":\"{\\\"x\\\":1}\",\"a\":\"text\",\"c\":[1]}"),
        Ok("[{\"op\":\"add\",\"path\":\"/a\",\"value\":\"text\"},{\"op\":\"add\",\"path\":\"/b\",\"value\":{\"x\":1}},{\"op\":\"add\",\"path\":\"/c\",\"value\":[1]}]".to_string())
    );
    assert_eq!(
        generate_patch_document("\"{\\\"k\\\":2}\""),
        Ok("[{\"op\":\"add\",\"path\":\"/k\",\"value\":2}]".to_string())
    );
    assert_eq!(generate_patch_document("{}"), Ok("[]".to_string()));
    assert_eq!(
        generate_patch_document("\"nope\""),
        Err("generate_patch_document: expected a JSON object or JSON string".to_string())
    );
    assert_eq!(generate_patch_document("7"), Err("generate_patch_document: expected an object or JSON string".to_string()));
}

#[test]
fn tag_filters_from_tags() {
    assert_eq!(
        to_aws_tag_filters("[{\"Key\":\"env\",\"Value\":\"prod\"},{\"Value\":\"x\",\"Key\":\"name\"}]"),
        Ok("[{\"Key\":\"env\",\"Values\":[\"prod\"]},{\"Key\":\"name\",\"Values\":[\"x\"]}]".to_string())
    );
    assert_eq!(to_aws_tag_filters("[]"), Ok("[]".to_string()));
    assert_eq!(to_aws_tag_filters("{}"), Err("to_aws_tag_filters: expected a list of tags".to_string()));
    assert_eq!(to_aws_tag_filters("[{\"Value\":\"v\"}]"), Err("to_aws_tag_filters: tag without 'Key'".to_string()));
    assert_eq!(to_aws_tag_filters("[{\"Key\":\"k\"}]"), Err("to_aws_tag_filters: tag without 'Value'".to_string()));
    assert_eq!(to_aws_tag_filters("[1]"), Err("to_aws_tag_filters: tag without 'Key'".to_string()));
}

#[test]
fn joining_texts() {
    assert_eq!(join_texts(&vec!["a".to_string(), "b".to_string()], ", "), "a, b");
    assert_eq!(join_texts(&Vec::new(), ","), "");
}

#[test]
fn keys_are_quoted_with_escapes() {
    let input = "{\"a\\\"b\\n\\u0001\\u00e9\":1}";
    assert_eq!(merge_objects(input, "{}"), Ok("{\"a\\\"b\\n\\u0001é\":1}".to_string()));
}
