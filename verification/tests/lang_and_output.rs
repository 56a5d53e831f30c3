use soksak::lang::Language;
use soksak::output::{format_timestamp, srt_text};
use soksak::segment::TranslatedSegment;
use soksak::stages::{apply_filter, assemble_local_results, decode_filter_reply, texts_for_local};
use soksak::segment::BatchItem;
use soksak::config::FilterConfig;
use soksak::stages::{build_filter_messages, build_translate_messages};
use soksak::codec::Codec;

#[test]
fn language_codes_round_trip() {
    assert_eq!(Language::Auto.as_str(), "auto");
    assert_eq!(Language::English.as_str(), "en");
    assert_eq!(Language::Korean.as_str(), "ko");
    assert_eq!(Language::Hawaiian.as_str(), "haw");
    assert!(matches!(Language::from_code("fr"), Language::French));
    assert!(matches!(Language::from_code("haw"), Language::Hawaiian));
    assert!(matches!(Language::from_code("auto"), Language::Auto));
    // an unknown code maps to Auto
    assert!(matches!(Language::from_code("zz"), Language::Auto));
    assert!(matches!(Language::from_code(""), Language::Auto));
    for code in ["en", "zh", "de", "es", "ru", "ko", "fr", "ja", "su", "jw"] {
        assert_eq!(Language::from_code(code).as_str(), code);
    }
}

#[test]
fn timestamps_format_as_srt_times() {
    assert_eq!(format_timestamp(0), "00:00:00,000");
    assert_eq!(format_timestamp(3661001), "01:01:01,001");
    assert_eq!(format_timestamp(59999), "00:00:59,999");
    assert_eq!(format_timestamp(45296789), "12:34:56,789");
    assert_eq!(format_timestamp(360000000), "100:00:00,000");
}

fn tseg(start: i64, end: i64, original: &str, translated: &str) -> TranslatedSegment {
    TranslatedSegment {
        start,
        end,
        original: original.to_string(),
        translated: translated.to_string(),
    }
}

#[test]
fn srt_document_rendering() {
    let segs = vec![tseg(0, 1000, "Hello", "Bonjour"), tseg(1000, 2000, "World", "Monde")];
    assert_eq!(
        srt_text(&segs),
        "1\n00:00:00,000 --> 00:00:01,000\nBonjour\n\n2\n00:00:01,000 --> 00:00:02,000\nMonde\n\n"
    );
    assert_eq!(srt_text(&Vec::new()), "");
}

#[test]
fn filter_decision_decoding() {
    let fr = decode_filter_reply("```json\n{\"remove_ids\": [0, 2]}\n```").unwrap();
    assert_eq!(fr.remove_ids, vec![0, 2]);
    let empty = decode_filter_reply("{\"remove_ids\":[]}").unwrap();
    assert!(empty.remove_ids.is_empty());
    assert!(decode_filter_reply("{\"remove_ids\":\"nope\"}").is_none());
    assert!(decode_filter_reply("whatever").is_none());
}

#[test]
fn filtering_drops_only_named_positions() {
    let batch = vec![tseg(0, 1, "a", "A"), tseg(1, 2, "b", "B"), tseg(2, 3, "c", "C")];
    let decision = decode_filter_reply("{\"remove_ids\":[1]}");
    let out = apply_filter(&batch, &decision);
    assert_eq!(out.len(), 2);
    assert_eq!(out[0].translated, "A");
    assert_eq!(out[1].translated, "C");
    // ids out of range remove nothing
    let decision2 = decode_filter_reply("{\"remove_ids\":[7]}");
    assert_eq!(apply_filter(&batch, &decision2).len(), 3);
    // fail open
    assert_eq!(apply_filter(&batch, &None).len(), 3);
}

#[test]
fn local_backend_batching_rules() {
    let items = vec![
        BatchItem { id: 0, text: "".to_string() },
        BatchItem { id: 1, text: "hi".to_string() },
        BatchItem { id: 2, text: "".to_string() },
        BatchItem { id: 3, text: "there".to_string() },
    ];
    let texts = texts_for_local(&items);
    assert_eq!(texts, vec!["hi".to_string(), "there".to_string()]);
    let replies = vec!["HI".to_string(), "THERE".to_string()];
    let out = assemble_local_results(&items, &replies);
    assert_eq!(out.len(), 4);
    assert_eq!(out[0].id, 0);
    assert_eq!(out[0].translated_text, "");
    assert_eq!(out[1].translated_text, "HI");
    assert_eq!(out[2].translated_text, "");
    assert_eq!(out[3].translated_text, "THERE");
}

#[test]
fn filter_reply_with_extra_members_still_decodes() {
    let fr = decode_filter_reply(
        "{\"remove_ids\": [1], \"reason\": \"contains an ad\", \"confidence\": 0.92}",
    )
    .unwrap();
    assert_eq!(fr.remove_ids, vec![1]);
    let fr2 = decode_filter_reply(
        "{\"analysis\": {\"notes\": [\"}\", false]}, \"remove_ids\": [0, 2]}",
    )
    .unwrap();
    assert_eq!(fr2.remove_ids, vec![0, 2]);
    // a repeated remove_ids member is a failure, recovered by failing open
    assert!(decode_filter_reply("{\"remove_ids\":[1],\"remove_ids\":[2]}").is_none());
}

#[test]
fn oversized_remove_ids_fail_open() {
    // an id too large to name any position makes the whole decode fail open
    assert!(decode_filter_reply("{\"remove_ids\":[99999999999999999999999]}").is_none());
}

#[test]
fn filter_prompt_enumerates_conditions_with_thresholds() {
    let batch = vec![tseg(0, 1, "a", "A")];
    let filters = vec![
        FilterConfig { prompt: "no ads".to_string(), threshold: Some(75), llm: None },
        FilterConfig { prompt: "no slurs".to_string(), threshold: Some(100), llm: None },
        FilterConfig { prompt: "no spam".to_string(), threshold: None, llm: None },
    ];
    let msgs = build_filter_messages(&batch, &filters);
    assert_eq!(msgs.len(), 1);
    let c = &msgs[0].content;
    assert!(c.contains("1. no ads (Confidence Threshold: 0.75)"));
    assert!(c.contains("2. no slurs (Confidence Threshold: 1)"));
    assert!(c.contains("3. no spam (Confidence Threshold: 0.7)"));
    assert!(c.contains("[{\"id\":0,\"text\":\"A\"}]"));
}

#[test]
fn translate_prompt_names_target_language() {
    let items = vec![BatchItem { id: 0, text: "hi".to_string() }];
    let msgs = build_translate_messages(Codec::TaggedLines, &items, "fr", "", "No context yet.");
    assert!(msgs[0].content.contains("Translate the following text into fr."));
    assert!(msgs[1].content.contains("Input Text:\n[0] hi"));
}
