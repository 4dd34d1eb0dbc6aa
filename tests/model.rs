use gemini::aggregate::{aggregate, chunk_to_text, AggregateState, TextAggregator};
use gemini::decode::{classify, read_candidate, read_count_tokens_response, read_part, SchemaError};
use gemini::encode::{write_chunk, write_error, write_part, write_request_content, write_tools};
use gemini::json::{find_member, parse_element, ElementError, JsonValue};
use gemini::pipeline::{decode_element, parse_chunk, Failure};
use gemini::types::{
    Candidate, Content, FunctionDeclaration, FunctionParameters, FunctionParametersProperty,
    GenerateContentResponse, GenerateContentResponseChunk, GenerateContentResponseError,
    GenerateContentResponseErrorDetails, Part, RequestContent, Tools,
};

fn tree(text: &str) -> JsonValue {
    parse_element(text.as_bytes()).unwrap()
}

fn keys(v: &JsonValue) -> Vec<String> {
    match v {
        JsonValue::Object(m) => {
            let mut k: Vec<String> = m.iter().map(|(k, _)| k.clone()).collect();
            k.sort();
            k
        }
        _ => panic!("not an object"),
    }
}

fn text_chunk(texts: &[&str]) -> GenerateContentResponseChunk {
    GenerateContentResponseChunk {
        candidates: vec![Candidate {
            content: Some(Content {
                role: "model".to_string(),
                parts: texts.iter().map(|t| Part::Text(t.to_string())).collect(),
            }),
            citation_metadata: None,
            safety_ratings: None,
            finish_reason: None,
        }],
        usage_metadata: None,
    }
}

fn error_element(code: i32) -> GenerateContentResponse {
    GenerateContentResponse::Error(GenerateContentResponseError {
        error: GenerateContentResponseErrorDetails {
            code,
            message: "boom".to_string(),
            status: "INTERNAL".to_string(),
        },
    })
}

#[test]
fn json_numbers_keep_integers_and_decimal_text() {
    assert!(matches!(tree("42"), JsonValue::Int(42)));
    assert!(matches!(tree("-7"), JsonValue::Int(-7)));
    match tree("1.5") {
        JsonValue::Num(t) => assert_eq!(t, "1.5"),
        other => panic!("unexpected {:?}", other),
    }
    match tree("18446744073709551615") {
        JsonValue::Num(t) => assert_eq!(t, "18446744073709551615"),
        other => panic!("unexpected {:?}", other),
    }
}

#[test]
fn json_tree_keeps_structure() {
    match tree(r#"{"a":[true,null,"s"],"b":{}}"#) {
        JsonValue::Object(m) => {
            assert_eq!(m.len(), 2);
            match find_member(&m, "a") {
                Some(JsonValue::Array(items)) => {
                    assert!(matches!(items[0], JsonValue::Bool(true)));
                    assert!(matches!(items[1], JsonValue::Null));
                    assert!(matches!(&items[2], JsonValue::Str(s) if s == "s"));
                }
                other => panic!("unexpected {:?}", other),
            }
            assert!(matches!(find_member(&m, "b"), Some(JsonValue::Object(_))));
            assert!(find_member(&m, "c").is_none());
        }
        other => panic!("unexpected {:?}", other),
    }
}

#[test]
fn json_invalid_text_is_refused() {
    assert_eq!(parse_element(b"{\"a\":").unwrap_err(), ElementError::InvalidJson);
    assert_eq!(parse_element(b"[1] [2]").unwrap_err(), ElementError::InvalidJson);
}

#[test]
fn element_with_error_key_is_error_even_with_candidates() {
    let v = tree(r#"{"candidates":[],"error":{"code":400,"message":"bad","status":"INVALID_ARGUMENT"}}"#);
    match classify(v) {
        Ok(GenerateContentResponse::Error(e)) => assert_eq!(e.error.code, 400),
        other => panic!("unexpected {:?}", other),
    }
}

#[test]
fn error_element_missing_status_is_mismatch() {
    let v = tree(r#"{"error":{"code":400,"message":"bad"}}"#);
    assert!(matches!(classify(v), Err(SchemaError::Mismatch(_))));
}

#[test]
fn error_code_out_of_range_is_mismatch() {
    let v = tree(r#"{"error":{"code":3000000000,"message":"m","status":"s"}}"#);
    assert!(matches!(classify(v), Err(SchemaError::Mismatch(_))));
}

#[test]
fn safety_candidate_without_content_reads_and_adds_no_text() {
    let v = tree(r#"{"finishReason":"SAFETY","index":0,"safetyRatings":[{"category":"HARM_CATEGORY_HARASSMENT","probability":"HIGH"}]}"#);
    let c = read_candidate(&v).unwrap();
    assert!(c.content.is_none());
    assert_eq!(c.finish_reason.as_deref(), Some("SAFETY"));
    assert_eq!(c.safety_ratings.as_ref().unwrap()[0].probability, "HIGH");
    let chunk = GenerateContentResponseChunk { candidates: vec![c], usage_metadata: None };
    assert_eq!(chunk_to_text(&chunk), "");
    let mut agg = TextAggregator::new();
    agg.accept(GenerateContentResponse::Chunk(chunk));
    assert!(matches!(agg.state, AggregateState::Running));
    assert_eq!(agg.output, "");
}

#[test]
fn null_member_counts_as_absent() {
    let c = read_candidate(&tree(r#"{"content":null,"finishReason":null}"#)).unwrap();
    assert!(c.content.is_none());
    assert!(c.finish_reason.is_none());
}

#[test]
fn parts_of_every_kind_are_read() {
    assert!(matches!(read_part(&tree(r#"{"text":"hi"}"#)), Some(Part::Text(t)) if t == "hi"));
    match read_part(&tree(r#"{"inlineData":{"mimeType":"image/png","data":"AQID"}}"#)) {
        Some(Part::InlineData { mime_type, data }) => {
            assert_eq!(mime_type, "image/png");
            assert_eq!(data, "AQID");
        }
        other => panic!("unexpected {:?}", other),
    }
    match read_part(&tree(r#"{"fileData":{"mimeType":"text/plain","fileUri":"gs://b/f"}}"#)) {
        Some(Part::FileData { mime_type, file_uri }) => {
            assert_eq!(mime_type, "text/plain");
            assert_eq!(file_uri, "gs://b/f");
        }
        other => panic!("unexpected {:?}", other),
    }
    match read_part(&tree(r#"{"functionCall":{"name":"find","args":{"q":"cats","n":"3"}}}"#)) {
        Some(Part::FunctionCall { name, args }) => {
            assert_eq!(name, "find");
            assert_eq!(args.len(), 2);
            assert!(args.contains(&("q".to_string(), "cats".to_string())));
            assert!(args.contains(&("n".to_string(), "3".to_string())));
        }
        other => panic!("unexpected {:?}", other),
    }
}

#[test]
fn part_with_two_kinds_or_unknown_kind_is_refused() {
    assert!(read_part(&tree(r#"{"text":"a","fileData":{"mimeType":"m","fileUri":"u"}}"#)).is_none());
    assert!(read_part(&tree(r#"{"video":"x"}"#)).is_none());
    assert!(read_part(&tree(r#"{"functionCall":{"name":"f","args":{"n":3}}}"#)).is_none());
}

#[test]
fn parse_chunk_sorts_chunks_errors_and_others() {
    assert!(parse_chunk(tree(r#"{"candidates":[]}"#)).is_ok());
    assert!(matches!(
        parse_chunk(tree(r#"{"error":{"code":503,"message":"m","status":"UNAVAILABLE"}}"#)),
        Err(Failure::Service(d)) if d.code == 503
    ));
    assert!(matches!(parse_chunk(tree("[1]")), Err(Failure::Schema(SchemaError::NotAnObject(_)))));
}

#[test]
fn decode_element_reads_bytes_to_element() {
    assert!(matches!(decode_element(b"{\"candidates\":[]}".to_vec()), Ok(GenerateContentResponse::Chunk(_))));
    assert!(matches!(decode_element(b"{,}".to_vec()), Err(Failure::Element(ElementError::InvalidJson, _))));
}

#[test]
fn chunk_text_skips_non_text_parts() {
    let v = tree(r#"{"candidates":[{"content":{"role":"model","parts":[{"text":"a"},{"functionCall":{"name":"f","args":{}}},{"text":"b"}]}},{"content":{"role":"model","parts":[{"text":"c"}]}}]}"#);
    match classify(v) {
        Ok(GenerateContentResponse::Chunk(c)) => assert_eq!(chunk_to_text(&c), "abc"),
        other => panic!("unexpected {:?}", other),
    }
}

#[test]
fn aggregate_of_chunks_completes_with_all_text() {
    let es = vec![
        GenerateContentResponse::Chunk(text_chunk(&["a", "b"])),
        GenerateContentResponse::Chunk(text_chunk(&[])),
        GenerateContentResponse::Chunk(text_chunk(&["c"])),
    ];
    let agg = aggregate(&es);
    assert_eq!(agg.output, "abc");
    assert!(matches!(agg.state, AggregateState::Completed));
}

#[test]
fn aggregate_stops_at_first_error() {
    let es = vec![
        GenerateContentResponse::Chunk(text_chunk(&["one "])),
        GenerateContentResponse::Chunk(text_chunk(&["two"])),
        error_element(500),
        GenerateContentResponse::Chunk(text_chunk(&["three"])),
        error_element(501),
    ];
    let agg = aggregate(&es);
    assert_eq!(agg.output, "one two");
    match agg.state {
        AggregateState::Errored(d) => assert_eq!(d.code, 500),
        other => panic!("unexpected {:?}", other),
    }
}

#[test]
fn aggregate_of_nothing_is_empty_and_complete() {
    let agg = aggregate(&Vec::new());
    assert_eq!(agg.output, "");
    assert!(matches!(agg.state, AggregateState::Completed));
}

#[test]
fn aggregator_ignores_elements_after_end() {
    let mut agg = TextAggregator::new();
    agg.accept(GenerateContentResponse::Chunk(text_chunk(&["x"])));
    agg.accept(error_element(503));
    assert!(agg.is_done());
    agg.accept(GenerateContentResponse::Chunk(text_chunk(&["y"])));
    agg.finish();
    assert_eq!(agg.output, "x");
    assert!(matches!(agg.state, AggregateState::Errored(ref d) if d.code == 503));
    let mut done = TextAggregator::new();
    done.finish();
    assert!(matches!(done.state, AggregateState::Completed));
    done.accept(GenerateContentResponse::Chunk(text_chunk(&["z"])));
    assert_eq!(done.output, "");
}

#[test]
fn round_trip_keeps_members_of_chunk() {
    let source = r#"{"candidates":[{"content":{"role":"model","parts":[{"text":"hi"}]},"finishReason":"STOP","index":0,"safetyRatings":[{"category":"C","probability":"LOW"}],"citationMetadata":{"citationSources":[{"startIndex":1,"endIndex":5,"uri":"u","license":""}]}},{"finishReason":"SAFETY"}],"usageMetadata":{"promptTokenCount":3,"totalTokenCount":9,"candidatesTokenCount":6}}"#;
    let v = tree(source);
    let chunk = match classify(tree(source)) {
        Ok(GenerateContentResponse::Chunk(c)) => c,
        other => panic!("unexpected {:?}", other),
    };
    let w = write_chunk(&chunk);
    assert_eq!(keys(&w), vec!["candidates", "usageMetadata"]);
    let (JsonValue::Object(vm), JsonValue::Object(wm)) = (&v, &w) else { panic!() };
    let (Some(JsonValue::Array(vc)), Some(JsonValue::Array(wc))) = (find_member(vm, "candidates"), find_member(wm, "candidates")) else { panic!() };
    assert_eq!(keys(&wc[0]), vec!["citationMetadata", "content", "finishReason", "safetyRatings"]);
    assert_eq!(keys(&wc[1]), vec!["finishReason"]);
    for (a, b) in vc.iter().zip(wc.iter()) {
        let mut ka = keys(a);
        ka.retain(|k| k != "index");
        assert_eq!(ka, keys(b));
    }
    assert_eq!(keys(find_member(vm, "usageMetadata").unwrap()), keys(find_member(wm, "usageMetadata").unwrap()));
    match classify(w) {
        Ok(GenerateContentResponse::Chunk(again)) => assert_eq!(chunk_to_text(&again), "hi"),
        other => panic!("unexpected {:?}", other),
    }
}

#[test]
fn written_parts_and_errors_read_back() {
    let p = Part::FunctionCall { name: "f".to_string(), args: vec![("k".to_string(), "v".to_string())] };
    match read_part(&write_part(&p)) {
        Some(Part::FunctionCall { name, args }) => {
            assert_eq!(name, "f");
            assert_eq!(args, vec![("k".to_string(), "v".to_string())]);
        }
        other => panic!("unexpected {:?}", other),
    }
    let GenerateContentResponse::Error(e) = error_element(404) else { panic!() };
    match classify(write_error(&e)) {
        Ok(GenerateContentResponse::Error(back)) => {
            assert_eq!(back.error.code, 404);
            assert_eq!(back.error.message, "boom");
        }
        other => panic!("unexpected {:?}", other),
    }
}

#[test]
fn request_content_is_written_with_optional_role() {
    let with_role = RequestContent { role: Some("user".to_string()), parts: vec![Part::Text("hi".to_string())] };
    let w = write_request_content(&with_role);
    assert_eq!(keys(&w), vec!["parts", "role"]);
    let without = RequestContent { role: None, parts: vec![] };
    assert_eq!(keys(&write_request_content(&without)), vec!["parts"]);
}

#[test]
fn tools_are_written_with_declarations() {
    let tools = Tools {
        function_declarations: Some(vec![FunctionDeclaration {
            name: "weather".to_string(),
            description: "forecast".to_string(),
            parameters: FunctionParameters {
                kind: "object".to_string(),
                properties: vec![(
                    "city".to_string(),
                    FunctionParametersProperty { kind: "string".to_string(), description: "where".to_string() },
                )],
                required: vec!["city".to_string()],
            },
        }]),
    };
    let w = write_tools(&tools);
    let JsonValue::Object(m) = &w else { panic!() };
    let Some(JsonValue::Array(ds)) = find_member(m, "function_declarations") else { panic!() };
    assert_eq!(keys(&ds[0]), vec!["description", "name", "parameters"]);
    let JsonValue::Object(d) = &ds[0] else { panic!() };
    let params = find_member(d, "parameters").unwrap();
    assert_eq!(keys(params), vec!["properties", "required", "type"]);
    assert_eq!(keys(&write_tools(&Tools { function_declarations: None })), Vec::<String>::new());
}

#[test]
fn count_tokens_response_is_read() {
    assert_eq!(read_count_tokens_response(&tree(r#"{"totalTokens":31}"#)).unwrap().total_tokens, 31);
    assert!(read_count_tokens_response(&tree(r#"{"total_tokens":31}"#)).is_none());
}

#[test]
fn function_call_with_repeated_argument_name_is_refused() {
    let args = vec![
        ("q".to_string(), JsonValue::Str("a".to_string())),
        ("q".to_string(), JsonValue::Str("b".to_string())),
    ];
    let call = vec![
        ("name".to_string(), JsonValue::Str("f".to_string())),
        ("args".to_string(), JsonValue::Object(args)),
    ];
    let part = JsonValue::Object(vec![("functionCall".to_string(), JsonValue::Object(call))]);
    assert!(read_part(&part).is_none());
}

#[test]
fn written_chunk_has_only_its_own_members() {
    let w = write_chunk(&text_chunk(&["a"]));
    assert_eq!(keys(&w), vec!["candidates"]);
    assert!(matches!(classify(w), Ok(GenerateContentResponse::Chunk(_))));
}
