use soksak::codec::Codec;
use soksak::config::{Edit, FilterConfig, Translate, TranslateEngine};
use soksak::lang::Language;
use soksak::pipeline::{Backend, Phase, Pipeline, PipelineError};
use soksak::provider::{ApiType, JsonModeType, LlmProviderConfig};
use soksak::segment::TranscriptSegment;

fn provider(id: &str) -> LlmProviderConfig {
    LlmProviderConfig {
        id: id.to_string(),
        base_url: Some("http://localhost:1234".to_string()),
        api_key: Some("SECRET-REDACTED".to_string()),
        api_type: ApiType::OpenAI,
        json_mode_type: JsonModeType::JsonObject,
    }
}

fn seg(start: i64, end: i64, text: &str) -> TranscriptSegment {
    TranscriptSegment { start, end, text: text.to_string() }
}

fn llm_translate(codec: Codec, window: Option<usize>) -> Translate {
    Translate {
        engine: TranslateEngine::LLM {
            model: "local/mymodel".to_string(),
            system_prompt: None,
            window,
            codec,
        },
        target_lang: Language::French,
    }
}

#[test]
fn scenario_two_segments_no_edit_no_filter() {
    let providers = vec![provider("local")];
    let segments = vec![seg(0, 1000, "Hello"), seg(1000, 2000, "World")];
    let mut p = Pipeline::new(
        Language::Auto,
        llm_translate(Codec::TaggedLines, Some(100)),
        None,
        &providers,
        segments,
    )
    .unwrap();

    let mut translate_calls = 0;
    let mut summary_calls = 0;
    assert!(matches!(p.phase, Phase::Translate));
    let call = p.next_call();
    translate_calls += 1;
    assert_eq!(call.messages.len(), 2);
    assert!(call.messages[1].content.contains("[0] Hello"));
    assert!(call.messages[1].content.contains("[1] World"));
    assert!(call.messages[1].content.contains("No context yet."));
    p.feed_translate("[0] Bonjour\n[1] Monde");

    assert!(matches!(p.phase, Phase::Summarize));
    let s_call = p.next_call();
    summary_calls += 1;
    assert!(s_call.messages[0].content.contains("Bonjour Monde"));
    p.feed_summary("Greetings were exchanged.");

    assert!(matches!(p.phase, Phase::Advance));
    let ticks = p.advance();
    assert_eq!(ticks, 2);
    assert!(p.done());
    assert_eq!(translate_calls, 1);
    assert_eq!(summary_calls, 1);

    let out = p.into_output();
    assert_eq!(out.len(), 2);
    assert_eq!(out[0].start, 0);
    assert_eq!(out[0].end, 1000);
    assert_eq!(out[0].original, "Hello");
    assert_eq!(out[0].translated, "Bonjour");
    assert_eq!(out[1].start, 1000);
    assert_eq!(out[1].end, 2000);
    assert_eq!(out[1].original, "World");
    assert_eq!(out[1].translated, "Monde");
    assert!(!out[0].translated.is_empty());
    assert!(!out[1].translated.is_empty());
}

#[test]
fn scenario_malformed_json_reply_falls_back_to_identity() {
    let providers = vec![provider("local")];
    let segments = vec![seg(0, 10, "alpha"), seg(10, 20, "beta")];
    let mut p = Pipeline::new(
        Language::Auto,
        llm_translate(Codec::BestEffortJson, Some(100)),
        None,
        &providers,
        segments,
    )
    .unwrap();
    p.feed_translate("this is not json at all {{{");
    p.feed_summary("sum");
    p.advance();
    assert!(p.done());
    let out = p.into_output();
    assert_eq!(out.len(), 2);
    assert_eq!(out[0].translated, "alpha");
    assert_eq!(out[1].translated, "beta");
}

#[test]
fn scenario_filter_drops_named_id() {
    let providers = vec![provider("local")];
    let segments = vec![seg(0, 10, "a"), seg(10, 20, "b"), seg(20, 30, "c")];
    let edit = Edit {
        default_model: "local/editmodel".to_string(),
        instructions: None,
        filters: Some(vec![FilterConfig {
            prompt: "drop profanity".to_string(),
            threshold: Some(50),
            llm: None,
        }]),
    };
    let mut p = Pipeline::new(
        Language::Auto,
        llm_translate(Codec::TaggedLines, Some(100)),
        Some(edit),
        &providers,
        segments,
    )
    .unwrap();
    p.feed_translate("[0] A\n[1] B\n[2] C");
    assert!(matches!(p.phase, Phase::Filter));
    let f_call = p.next_call();
    assert!(f_call.json_mode);
    assert!(f_call.messages[0].content.contains("(Confidence Threshold: 0.5)"));
    p.feed_filter("{\"remove_ids\":[1]}");
    p.feed_summary("sum");
    p.advance();
    let out = p.into_output();
    assert_eq!(out.len(), 2);
    assert_eq!(out[0].translated, "A");
    assert_eq!(out[1].translated, "C");
}

#[test]
fn filter_fails_open_on_undecodable_decision() {
    let providers = vec![provider("local")];
    let segments = vec![seg(0, 10, "a"), seg(10, 20, "b")];
    let edit = Edit {
        default_model: "local/editmodel".to_string(),
        instructions: None,
        filters: Some(vec![FilterConfig {
            prompt: "drop ads".to_string(),
            threshold: None,
            llm: None,
        }]),
    };
    let mut p = Pipeline::new(
        Language::Auto,
        llm_translate(Codec::TaggedLines, Some(100)),
        Some(edit),
        &providers,
        segments,
    )
    .unwrap();
    p.feed_translate("[0] A\n[1] B");
    p.feed_filter("sorry, I cannot help with that");
    p.feed_summary("sum");
    p.advance();
    let out = p.into_output();
    assert_eq!(out.len(), 2);
}

#[test]
fn one_call_per_stage_per_window_with_all_stages() {
    let providers = vec![provider("local")];
    let segments = vec![seg(0, 10, "one"), seg(10, 20, "two"), seg(20, 30, "three")];
    let edit = Edit {
        default_model: "local/editmodel".to_string(),
        instructions: Some(vec!["keep it short".to_string()]),
        filters: Some(vec![FilterConfig {
            prompt: "drop empty chatter".to_string(),
            threshold: Some(70),
            llm: None,
        }]),
    };
    // window size 2: two windows (2 segments, then 1)
    let mut p = Pipeline::new(
        Language::English,
        llm_translate(Codec::TaggedLines, Some(2)),
        Some(edit),
        &providers,
        segments,
    )
    .unwrap();

    let mut windows = 0;
    let mut calls_per_window: Vec<(u32, u32, u32, u32)> = Vec::new();
    while !p.done() {
        let (mut t, mut e, mut f, mut s) = (0u32, 0u32, 0u32, 0u32);
        loop {
            match p.phase {
                Phase::Translate => {
                    let _ = p.next_call();
                    t += 1;
                    p.feed_translate("[0] X\n[1] Y");
                }
                Phase::Edit => {
                    let _ = p.next_call();
                    e += 1;
                    p.feed_edit("X'\nY'");
                }
                Phase::Filter => {
                    let _ = p.next_call();
                    f += 1;
                    p.feed_filter("{\"remove_ids\":[]}");
                }
                Phase::Summarize => {
                    let _ = p.next_call();
                    s += 1;
                    p.feed_summary("recap");
                }
                Phase::Advance => {
                    p.advance();
                    break;
                }
                Phase::Done => break,
            }
        }
        windows += 1;
        calls_per_window.push((t, e, f, s));
    }
    assert_eq!(windows, 2);
    for (t, e, f, s) in calls_per_window {
        assert_eq!(t, 1);
        assert!(e <= 1);
        assert!(f <= 1);
        assert!(s <= 1);
    }
}

#[test]
fn summary_carries_between_windows() {
    let providers = vec![provider("local")];
    let segments = vec![seg(0, 10, "one"), seg(10, 20, "two")];
    let mut p = Pipeline::new(
        Language::Auto,
        llm_translate(Codec::TaggedLines, Some(1)),
        None,
        &providers,
        segments,
    )
    .unwrap();
    let c1 = p.next_call();
    assert!(c1.messages[1].content.contains("No context yet."));
    p.feed_translate("[0] un");
    let s1 = p.next_call();
    assert!(s1.messages[0].content.contains("Old Summary: No context yet."));
    p.feed_summary("  They counted to one.  ");
    p.advance();
    // window two sees window one's summary, trimmed, and nothing newer
    let c2 = p.next_call();
    assert!(c2.messages[1].content.contains(
        "Summary of previous conversation: They counted to one."
    ));
    p.feed_translate("[0] deux");
    let s2 = p.next_call();
    assert!(s2.messages[0].content.contains("Old Summary: They counted to one."));
    assert!(s2.messages[0].content.contains("New Text: deux"));
    p.feed_summary("They counted to two.");
    p.advance();
    assert!(p.done());
    assert_eq!(p.into_output().len(), 2);
}

#[test]
fn missing_provider_is_fatal_before_any_call() {
    let providers = vec![provider("local")];
    let segments = vec![seg(0, 10, "x")];
    let r = Pipeline::new(
        Language::Auto,
        Translate {
            engine: TranslateEngine::LLM {
                model: "nosuch/model".to_string(),
                system_prompt: None,
                window: None,
                codec: Codec::TaggedLines,
            },
            target_lang: Language::Korean,
        },
        None,
        &providers,
        segments,
    );
    match r {
        Err(PipelineError::ProviderNotFound(id)) => assert_eq!(id, "nosuch"),
        _ => panic!("expected a missing-provider error"),
    }
}

#[test]
fn filter_provider_override_falls_back_to_default() {
    let providers = vec![provider("local")];
    let segments = vec![seg(0, 10, "x")];
    let edit = Edit {
        default_model: "local/editmodel".to_string(),
        instructions: None,
        filters: Some(vec![FilterConfig {
            prompt: "drop it".to_string(),
            threshold: None,
            llm: Some("missing/othermodel".to_string()),
        }]),
    };
    let p = Pipeline::new(
        Language::Auto,
        llm_translate(Codec::TaggedLines, None),
        Some(edit),
        &providers,
        segments,
    )
    .unwrap();
    let fs = p.filter.as_ref().unwrap();
    assert_eq!(fs.client.provider.id, "local");
    assert_eq!(fs.model, "othermodel");
}

#[test]
fn local_backend_short_circuits_empty_text() {
    let providers: Vec<LlmProviderConfig> = Vec::new();
    let segments = vec![seg(0, 10, ""), seg(10, 20, "hello")];
    let mut p = Pipeline::new(
        Language::English,
        Translate {
            engine: TranslateEngine::Apple { window: Some(100) },
            target_lang: Language::Korean,
        },
        None,
        &providers,
        segments,
    )
    .unwrap();
    assert!(matches!(p.backend, Backend::Local));
    let texts = soksak::stages::texts_for_local(&p.items);
    assert_eq!(texts, vec!["hello".to_string()]);
    p.feed_local(&vec!["annyeong".to_string()]);
    assert!(matches!(p.phase, Phase::Advance));
    p.advance();
    assert!(p.done());
    let out = p.into_output();
    assert_eq!(out.len(), 2);
    assert_eq!(out[0].translated, "");
    assert_eq!(out[1].translated, "annyeong");
}

#[test]
fn edit_preserves_length_and_falls_back() {
    let providers = vec![provider("local")];
    let segments = vec![seg(0, 10, "a"), seg(10, 20, "b"), seg(20, 30, "c")];
    let edit = Edit {
        default_model: "local/editmodel".to_string(),
        instructions: Some(vec!["tighten".to_string()]),
        filters: None,
    };
    let mut p = Pipeline::new(
        Language::Auto,
        llm_translate(Codec::TaggedLines, Some(100)),
        Some(edit),
        &providers,
        segments,
    )
    .unwrap();
    p.feed_translate("[0] A\n[1] B\n[2] C");
    assert!(matches!(p.phase, Phase::Edit));
    let call = p.next_call();
    assert!(call.messages[0].content.contains("tighten"));
    assert!(call.messages[1].content.contains("A\nB\nC"));
    // the model returns only two lines: position 2 keeps its prior text
    p.feed_edit("  A2  \nB2");
    assert_eq!(p.current.len(), 3);
    assert_eq!(p.current[0].translated, "A2");
    assert_eq!(p.current[1].translated, "B2");
    assert_eq!(p.current[2].translated, "C");
    p.feed_summary("sum");
    p.advance();
    assert!(p.done());
}

#[test]
fn empty_transcript_finishes_without_calls() {
    let providers = vec![provider("local")];
    let p = Pipeline::new(
        Language::Auto,
        llm_translate(Codec::TaggedLines, Some(100)),
        None,
        &providers,
        Vec::new(),
    )
    .unwrap();
    assert!(p.done());
    assert!(p.into_output().is_empty());
}

#[test]
fn window_size_exactly_divides_segments() {
    let providers = vec![provider("local")];
    let segments = vec![seg(0, 1, "a"), seg(1, 2, "b"), seg(2, 3, "c"), seg(3, 4, "d")];
    let mut p = Pipeline::new(
        Language::Auto,
        llm_translate(Codec::TaggedLines, Some(2)),
        None,
        &providers,
        segments,
    )
    .unwrap();
    let mut windows = 0;
    while !p.done() {
        match p.phase {
            Phase::Translate => p.feed_translate("[0] x\n[1] y"),
            Phase::Summarize => p.feed_summary("s"),
            Phase::Advance => {
                assert_eq!(p.advance(), 2);
                windows += 1;
            }
            _ => panic!("unexpected phase"),
        }
    }
    assert_eq!(windows, 2);
    assert_eq!(p.into_output().len(), 4);
}

#[test]
fn filter_emptying_window_skips_summary() {
    let providers = vec![provider("local")];
    let segments = vec![seg(0, 1, "a")];
    let edit = Edit {
        default_model: "local/m".to_string(),
        instructions: None,
        filters: Some(vec![FilterConfig {
            prompt: "drop everything".to_string(),
            threshold: Some(10),
            llm: None,
        }]),
    };
    let mut p = Pipeline::new(
        Language::Auto,
        llm_translate(Codec::TaggedLines, Some(100)),
        Some(edit),
        &providers,
        segments,
    )
    .unwrap();
    p.feed_translate("[0] A");
    p.feed_filter("{\"remove_ids\":[0]}");
    // nothing left to summarize: the window closes directly
    assert!(matches!(p.phase, Phase::Advance));
    assert_eq!(p.advance(), 1);
    assert!(p.done());
    assert!(p.into_output().is_empty());
}
