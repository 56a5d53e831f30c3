use soksak::codec::{decode_reply, decode_translation, encode_items, Codec};
use soksak::provider::{
    ApiType, ChatCall, ChatResult, ClientError, JsonModeType, LlmClient, LlmProviderConfig,
    Message, split_model,
};
use soksak::segment::BatchItem;
use soksak::pipeline::Pipeline;
use soksak::config::{Translate, TranslateEngine};
use soksak::lang::Language;
use soksak::segment::TranscriptSegment;

fn items(texts: &[&str]) -> Vec<BatchItem> {
    texts
        .iter()
        .enumerate()
        .map(|(i, t)| BatchItem { id: i, text: t.to_string() })
        .collect()
}

#[test]
fn tagged_encode_and_decode() {
    let it = items(&["Hello", "World"]);
    assert_eq!(encode_items(Codec::TaggedLines, &it), "[0] Hello\n[1] World");
    let pairs = decode_reply(Codec::TaggedLines, "[0] Bonjour\n[1] Monde").unwrap();
    assert_eq!(pairs, vec![(0u64, "Bonjour".to_string()), (1u64, "Monde".to_string())]);
}

#[test]
fn tagged_decode_strips_fences_and_skips_junk() {
    let reply = "```\n[0] Un\nnote to self\n[2] Trois\n```";
    let pairs = decode_reply(Codec::TaggedLines, reply).unwrap();
    assert_eq!(pairs, vec![(0u64, "Un".to_string()), (2u64, "Trois".to_string())]);
}

#[test]
fn positional_encode_and_decode() {
    let it = items(&["a", "b"]);
    assert_eq!(encode_items(Codec::PositionalLines, &it), "a\nb");
    let pairs = decode_reply(Codec::PositionalLines, " x \n y ").unwrap();
    assert_eq!(pairs, vec![(0u64, "x".to_string()), (1u64, "y".to_string())]);
}

#[test]
fn json_encode_escapes_text() {
    let it = items(&["say \"hi\"\nplease"]);
    assert_eq!(
        encode_items(Codec::BestEffortJson, &it),
        "[{\"id\":0,\"text\":\"say \\\"hi\\\"\\nplease\"}]"
    );
}

#[test]
fn json_decode_accepts_both_member_orders_and_escapes() {
    let reply = "```json\n[ {\"id\": 0, \"translated_text\": \"li\\nne\"},\n  {\"translated_text\": \"two\", \"id\": 1} ]\n```";
    let pairs = decode_reply(Codec::SchemaJson, reply).unwrap();
    assert_eq!(pairs, vec![(0u64, "li\nne".to_string()), (1u64, "two".to_string())]);
}

#[test]
fn duplicate_ids_keep_the_last_line() {
    let it = items(&["Hello"]);
    let out = decode_translation(Codec::TaggedLines, &it, "[0] first\n[0] second");
    assert_eq!(out[0].translated_text, "second");
    let out2 = decode_translation(
        Codec::BestEffortJson,
        &it,
        "[{\"id\":0,\"translated_text\":\"a\"},{\"id\":0,\"translated_text\":\"b\"}]",
    );
    assert_eq!(out2[0].translated_text, "b");
}

#[test]
fn unknown_members_are_skipped() {
    let reply = "[{\"id\": 0, \"note\": {\"deep\": [1, -2.5e3, \"]\", null]}, \"translated_text\": \"ok\", \"score\": 0.9}]";
    let pairs = decode_reply(Codec::SchemaJson, reply).unwrap();
    assert_eq!(pairs, vec![(0u64, "ok".to_string())]);
    // a repeated known member is a failure, recovered by the identity fallback
    assert!(decode_reply(
        Codec::SchemaJson,
        "[{\"id\":0,\"id\":1,\"translated_text\":\"x\"}]"
    )
    .is_none());
}

#[test]
fn unicode_escapes_decode() {
    let pairs = decode_reply(
        Codec::BestEffortJson,
        "[{\"id\":0,\"translated_text\":\"\\u0041\\u00e9 \\ud83d\\ude00\"}]",
    )
    .unwrap();
    assert_eq!(pairs, vec![(0u64, "A\u{e9} \u{1f600}".to_string())]);
    // a lone surrogate is a decode failure
    assert!(decode_reply(
        Codec::BestEffortJson,
        "[{\"id\":0,\"translated_text\":\"\\ud83d\"}]"
    )
    .is_none());
}

#[test]
fn json_decode_failure_is_recoverable() {
    assert!(decode_reply(Codec::BestEffortJson, "not json").is_none());
    assert!(decode_reply(Codec::SchemaJson, "[{\"id\":0}]").is_none());
    // the empty array is a successful decode of zero pairs
    assert_eq!(decode_reply(Codec::BestEffortJson, "[]").unwrap(), vec![]);
}

#[test]
fn translation_missing_id_falls_back_to_source() {
    let it = items(&["Hello", "World", "Again"]);
    let out = decode_translation(Codec::TaggedLines, &it, "[1] Monde");
    assert_eq!(out.len(), 3);
    assert_eq!(out[0].id, 0);
    assert_eq!(out[0].translated_text, "Hello");
    assert_eq!(out[1].translated_text, "Monde");
    assert_eq!(out[2].translated_text, "Again");
}

#[test]
fn translation_total_decode_failure_is_identity() {
    let it = items(&["Hello", "World"]);
    let out = decode_translation(Codec::BestEffortJson, &it, "```oops```");
    assert_eq!(out.len(), 2);
    assert_eq!(out[0].translated_text, "Hello");
    assert_eq!(out[1].translated_text, "World");
}

#[test]
fn positional_truncation_resolves_to_empty() {
    let it = items(&["one", "two", "three"]);
    let out = decode_translation(Codec::PositionalLines, &it, "uno\ndos");
    assert_eq!(out.len(), 3);
    assert_eq!(out[0].translated_text, "uno");
    assert_eq!(out[1].translated_text, "dos");
    assert_eq!(out[2].translated_text, "");
}

fn openai_provider(jmt: JsonModeType) -> LlmProviderConfig {
    LlmProviderConfig {
        id: "oai".to_string(),
        base_url: None,
        api_key: Some("SECRET-REDACTED".to_string()),
        api_type: ApiType::OpenAI,
        json_mode_type: jmt,
    }
}

fn msg(role: &str, content: &str) -> Message {
    Message { role: role.to_string(), content: content.to_string() }
}

fn call_of(p: LlmProviderConfig, json_mode: bool, schema: Option<String>) -> ChatCall {
    LlmClient::new(p).begin("m1".to_string(), vec![msg("user", "hi")], json_mode, schema)
}

#[test]
fn openai_request_url_body_and_auth() {
    let call = call_of(openai_provider(JsonModeType::Unsupported), false, None);
    let req = call.request(false).ok().unwrap();
    assert_eq!(req.url, "https://api.openai.com/v1/chat/completions");
    assert_eq!(req.body, "{\"model\":\"m1\",\"messages\":[{\"role\":\"user\",\"content\":\"hi\"}]}");
    assert_eq!(req.headers.len(), 1);
    assert_eq!(req.headers[0].0, "Authorization");
    assert_eq!(req.headers[0].1, "Bearer SECRET-REDACTED");
}

#[test]
fn openai_json_object_mode_and_retry_strips_field() {
    let call = call_of(openai_provider(JsonModeType::JsonObject), true, None);
    let req = call.request(false).ok().unwrap();
    assert!(req.body.contains("\"response_format\":{\"type\":\"json_object\"}"));
    let retry_req = call.request(true).ok().unwrap();
    assert!(!retry_req.body.contains("response_format"));
}

#[test]
fn openai_schema_mode_embeds_schema() {
    let call = call_of(
        openai_provider(JsonModeType::JsonSchema),
        true,
        Some("{\"type\":\"object\"}".to_string()),
    );
    let req = call.request(false).ok().unwrap();
    assert!(req.body.contains(
        "\"response_format\":{\"type\":\"json_schema\",\"json_schema\":{\"name\":\"response\",\"strict\":true,\"schema\":{\"type\":\"object\"}}}"
    ));
}

#[test]
fn ollama_defaults_and_format_field() {
    let p = LlmProviderConfig {
        id: "ol".to_string(),
        base_url: None,
        api_key: None,
        api_type: ApiType::Ollama,
        json_mode_type: JsonModeType::JsonObject,
    };
    let call = call_of(p, true, None);
    let req = call.request(false).ok().unwrap();
    assert_eq!(req.url, "http://localhost:11434/v1/chat/completions");
    assert!(req.body.contains("\"format\":\"json\""));
    assert!(req.headers.is_empty());
    // the plain format field is no response-format field: the retry keeps it
    let retry_req = call.request(true).ok().unwrap();
    assert!(retry_req.body.contains("\"format\":\"json\""));
}

#[test]
fn messages_protocol_request_shape() {
    let p = LlmProviderConfig {
        id: "cl".to_string(),
        base_url: Some("https://example.test/".to_string()),
        api_key: Some("SECRET-REDACTED".to_string()),
        api_type: ApiType::Claude,
        json_mode_type: JsonModeType::Unsupported,
    };
    let call = call_of(p, false, None);
    let req = call.request(false).ok().unwrap();
    assert_eq!(req.url, "https://example.test/v1/messages");
    assert!(req.body.ends_with(",\"max_tokens\":4096}"));
    assert_eq!(req.headers[0].0, "x-api-key");
    assert_eq!(req.headers[1], ("anthropic-version".to_string(), "2023-06-01".to_string()));
}

#[test]
fn gemini_request_shape_and_missing_key() {
    let p = LlmProviderConfig {
        id: "gm".to_string(),
        base_url: None,
        api_key: Some("SECRET-REDACTED".to_string()),
        api_type: ApiType::Gemini,
        json_mode_type: JsonModeType::JsonObject,
    };
    let call = LlmClient::new(p).begin(
        "g1".to_string(),
        vec![msg("system", "be terse"), msg("user", "hi")],
        true,
        None,
    );
    let req = call.request(false).ok().unwrap();
    assert_eq!(
        req.url,
        "https://generativelanguage.googleapis.com/v1beta/models/g1:generateContent?key=SECRET-REDACTED"
    );
    // non-user roles are remapped to `model`
    assert!(req.body.contains("{\"role\":\"model\",\"parts\":[{\"text\":\"be terse\"}]}"));
    assert!(req.body.contains("{\"role\":\"user\",\"parts\":[{\"text\":\"hi\"}]}"));
    assert!(req.body.contains("\"generationConfig\":{\"responseMimeType\":\"application/json\"}"));

    let keyless = LlmProviderConfig {
        id: "gm".to_string(),
        base_url: None,
        api_key: None,
        api_type: ApiType::Gemini,
        json_mode_type: JsonModeType::JsonObject,
    };
    let call2 = LlmClient::new(keyless).begin("g1".to_string(), vec![msg("user", "hi")], false, None);
    assert!(matches!(call2.request(false), Err(ClientError::MissingApiKey)));
}

#[test]
fn scenario_schema_rejection_retries_exactly_once() {
    let call = call_of(openai_provider(JsonModeType::JsonSchema), true, Some("{}".to_string()));
    let err_body = "'response_format.type' must be 'json_schema' or 'text'";
    // first rejection: retry without the field
    let mut retries = 0;
    let r1 = call.decide(false, 400, err_body);
    assert!(matches!(r1, ChatResult::RetryWithoutFormat));
    retries += 1;
    // the retried request succeeds
    let r2 = call.decide(true, 200, "{\"choices\":[{\"message\":{\"content\":\"ok\"}}]}");
    match r2 {
        ChatResult::Done(text) => assert_eq!(text, "ok"),
        _ => panic!("expected success after the single retry"),
    }
    assert_eq!(retries, 1);
    // a second rejection never retries again
    let r3 = call.decide(true, 400, err_body);
    assert!(matches!(r3, ChatResult::Fail(ClientError::Api(_))));
}

#[test]
fn decide_error_paths() {
    let call = call_of(openai_provider(JsonModeType::Unsupported), false, None);
    // unrelated error text: no retry
    match call.decide(false, 500, "server exploded") {
        ChatResult::Fail(ClientError::Api(t)) => assert_eq!(t, "server exploded"),
        _ => panic!("expected a transport failure"),
    }
    // 2xx with an unreadable envelope
    assert!(matches!(
        call.decide(false, 200, "{\"choices\":[]}"),
        ChatResult::Fail(ClientError::Envelope)
    ));
}

#[test]
fn envelope_extraction_per_vendor() {
    let oai = call_of(openai_provider(JsonModeType::Unsupported), false, None);
    match oai.decide(false, 200, "{\"choices\":[{\"message\":{\"content\":\"bonjour\"}}]}") {
        ChatResult::Done(t) => assert_eq!(t, "bonjour"),
        _ => panic!("openai envelope"),
    }
    let cl = LlmProviderConfig {
        id: "cl".to_string(),
        base_url: None,
        api_key: Some("SECRET-REDACTED".to_string()),
        api_type: ApiType::Claude,
        json_mode_type: JsonModeType::Unsupported,
    };
    let cl_call = LlmClient::new(cl).begin("c".to_string(), vec![msg("user", "x")], false, None);
    match cl_call.decide(false, 200, "{\"content\":[{\"type\":\"text\",\"text\":\"salut\"}]}") {
        ChatResult::Done(t) => assert_eq!(t, "salut"),
        _ => panic!("unexpected messages envelope"),
    }
    let gm = LlmProviderConfig {
        id: "gm".to_string(),
        base_url: None,
        api_key: Some("SECRET-REDACTED".to_string()),
        api_type: ApiType::Gemini,
        json_mode_type: JsonModeType::Unsupported,
    };
    let gm_call = LlmClient::new(gm).begin("g".to_string(), vec![msg("user", "x")], false, None);
    match gm_call.decide(
        false,
        200,
        "{\"candidates\":[{\"content\":{\"parts\":[{\"text\":\"coucou\"}]}}]}",
    ) {
        ChatResult::Done(t) => assert_eq!(t, "coucou"),
        _ => panic!("gemini envelope"),
    }
}

#[test]
fn model_reference_splitting() {
    assert_eq!(split_model("prov/mod"), ("prov".to_string(), "mod".to_string()));
    assert_eq!(split_model("prov/a/b"), ("prov".to_string(), "a/b".to_string()));
    assert_eq!(split_model("bare"), ("bare".to_string(), "default".to_string()));
}

#[test]
fn tagged_decode_tolerates_overlong_ids_and_spacing() {
    // an id that overflows is skipped as unreadable; spacing is trimmed
    let pairs =
        decode_reply(Codec::TaggedLines, "[99999999999999999999999] X\n  [1]   spaced  ").unwrap();
    assert_eq!(pairs, vec![(1u64, "spaced".to_string())]);
}

#[test]
fn json_encode_escapes_control_characters() {
    let it = items(&["a\u{1}b"]);
    assert_eq!(
        encode_items(Codec::BestEffortJson, &it),
        "[{\"id\":0,\"text\":\"a\\u0001b\"}]"
    );
}

#[test]
fn schema_codec_call_carries_schema_and_json_mode() {
    let providers = vec![openai_provider(JsonModeType::JsonSchema)];
    let segments = vec![TranscriptSegment { start: 0, end: 1, text: "hey".to_string() }];
    let p = Pipeline::new(
        Language::Auto,
        Translate {
            engine: TranslateEngine::LLM {
                model: "oai/m".to_string(),
                system_prompt: Some("Be formal. ".to_string()),
                window: None,
                codec: Codec::SchemaJson,
            },
            target_lang: Language::German,
        },
        None,
        &providers,
        segments,
    )
    .unwrap();
    let call = p.next_call();
    assert!(call.json_mode);
    let schema = call.schema.clone().unwrap();
    assert!(schema.contains("\"translated_text\":{\"type\":\"string\"}"));
    assert!(call.messages[0].content.starts_with("Be formal. You are a professional"));
    assert!(call.messages[0].content.contains("into de.\n"));
    assert!(call.messages[1].content.contains("[{\"id\":0,\"text\":\"hey\"}]"));
}
