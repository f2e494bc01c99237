use dwctl::rewrap::{
    delta_chunk, event_frame, length_stop_frame, merge_usage, reframe_chunk, sse_frame, usage_frame,
    usage_of, Envelope, MergedUsage, UsageAnomaly, DONE_FRAME,
};
use serde_json::Value;

fn env() -> Envelope {
    Envelope { id: "chatcmpl-abc".to_string(), model: "dsv4-flash".to_string(), created: 1_700_000_000 }
}

fn doc(text: &str) -> Value {
    serde_json::from_str(text).unwrap()
}

#[test]
fn merge_usage_subtracts_the_partial_generation_from_the_leg_prompt() {
    let (usage, anomaly) = merge_usage(40, 1040, 60, 1042);
    assert_eq!(anomaly, None);
    assert_eq!(usage.prompt_tokens, 1000, "the customer pays for their original prompt once");
    assert_eq!(usage.completion_tokens, 100, "everything the client received across both legs");
    assert_eq!(usage.total_tokens, 1100);
}

#[test]
fn merge_usage_with_no_generation_before_the_leg_is_the_leg_itself() {
    let (usage, anomaly) = merge_usage(0, 1000, 60, 1000);
    assert_eq!(anomaly, None);
    assert_eq!(
        usage,
        MergedUsage { prompt_tokens: 1000, completion_tokens: 60, total_tokens: 1060 }
    );
}

#[test]
fn merge_usage_falls_back_to_render_when_the_provider_undercounts() {
    let (usage, anomaly) = merge_usage(40, 30, 60, 1042);
    assert_eq!(anomaly, Some(UsageAnomaly::PromptUnderflow));
    assert_eq!(usage.prompt_tokens, 1002, "render-derived prompt (total 1042 - seg 40)");
    assert_eq!(usage.completion_tokens, 100, "the generation total is unaffected by the anomaly");
    assert_eq!(usage.total_tokens, 1102);
}

#[test]
fn merge_usage_never_underflows_even_when_the_render_is_smaller_than_the_segment() {
    let (usage, anomaly) = merge_usage(40, 0, 0, 10);
    assert_eq!(anomaly, Some(UsageAnomaly::PromptUnderflow));
    assert_eq!(usage.prompt_tokens, 0);
    assert_eq!(usage.completion_tokens, 40);
}

#[test]
fn merge_usage_holds_sums_at_the_largest_count() {
    let (usage, anomaly) = merge_usage(u64::MAX, u64::MAX, 5, 0);
    assert_eq!(anomaly, None);
    assert_eq!(
        usage,
        MergedUsage { prompt_tokens: 0, completion_tokens: u64::MAX, total_tokens: u64::MAX }
    );
}

#[test]
fn anomalies_have_a_label() {
    assert_eq!(UsageAnomaly::PromptUnderflow.kind(), "prompt_underflow");
}

#[test]
fn usage_of_reads_counts_and_tolerates_null_usage() {
    assert_eq!(
        usage_of(&doc(r#"{"usage": {"prompt_tokens": 7, "completion_tokens": 3}}"#)),
        Some((7, 3))
    );
    assert_eq!(usage_of(&doc(r#"{"usage": null}"#)), None);
    assert_eq!(usage_of(&doc(r#"{"choices": []}"#)), None);
    assert_eq!(usage_of(&doc(r#"{"usage": {"prompt_tokens": 7}}"#)), Some((7, 0)));
}

#[test]
fn usage_of_takes_unsigned_counts_only() {
    assert_eq!(
        usage_of(&doc(r#"{"usage": {"prompt_tokens": -7, "completion_tokens": 3.5}}"#)),
        Some((0, 0))
    );
    assert_eq!(usage_of(&doc(r#"{"usage": [1]}"#)), None);
}

#[test]
fn reframe_maps_text_onto_the_original_envelope() {
    let chunk = doc(
        r#"{
            "id": "cmpl-leg2", "object": "text_completion", "created": 1800000000,
            "model": "continuation-composite",
            "choices": [{"text": " world", "index": 0, "logprobs": null, "finish_reason": null}]
        }"#,
    );
    let out = reframe_chunk(&chunk, &env()).unwrap();
    assert_eq!(out["id"], "chatcmpl-abc", "the client's stream id, not the leg's");
    assert_eq!(out["object"], "chat.completion.chunk");
    assert_eq!(out["created"], 1_700_000_000);
    assert_eq!(out["model"], "dsv4-flash");
    assert_eq!(out["choices"][0]["delta"]["content"], " world");
    assert!(
        out["choices"][0]["delta"].get("role").is_none(),
        "leg 1 already opened the message; a second role delta would start a new one"
    );
    assert_eq!(out["choices"][0]["finish_reason"], Value::Null);
}

#[test]
fn reframe_passes_through_finish_reason_on_the_last_content_chunk() {
    let chunk = doc(r#"{"choices": [{"text": "!", "index": 0, "finish_reason": "stop"}]}"#);
    let out = reframe_chunk(&chunk, &env()).unwrap();
    assert_eq!(out["choices"][0]["finish_reason"], "stop");
    assert_eq!(out["choices"][0]["delta"]["content"], "!");
}

#[test]
fn reframe_emits_a_bare_finish_reason_chunk_with_no_content_key() {
    let chunk = doc(r#"{"choices": [{"text": "", "index": 0, "finish_reason": "length"}]}"#);
    let out = reframe_chunk(&chunk, &env()).unwrap();
    assert_eq!(out["choices"][0]["finish_reason"], "length");
    assert!(out["choices"][0]["delta"].as_object().unwrap().is_empty());
}

#[test]
fn reframe_skips_frames_with_nothing_for_the_client() {
    assert!(reframe_chunk(&doc(r#"{"choices": [], "usage": {"prompt_tokens": 1}}"#), &env()).is_none());
    assert!(reframe_chunk(&doc(r#"{"choices": [{"text": "", "finish_reason": null}]}"#), &env()).is_none());
    assert!(reframe_chunk(&doc(r#"{"error": {"message": "boom"}}"#), &env()).is_none());
}

#[test]
fn reframed_chunk_is_exactly_the_envelope_and_one_choice() {
    let chunk = doc(r#"{"choices": [{"text": "a", "finish_reason": "stop"}, {"text": "b"}]}"#);
    assert_eq!(
        reframe_chunk(&chunk, &env()).unwrap(),
        doc(
            r#"{"id": "chatcmpl-abc", "object": "chat.completion.chunk", "created": 1700000000,
                "model": "dsv4-flash",
                "choices": [{"index": 0, "delta": {"content": "a"}, "finish_reason": "stop"}]}"#
        )
    );
}

#[test]
fn delta_and_finish_reason_stand_in_the_chunk() {
    let delta = doc(r#"{"content": "x"}"#);
    let out = delta_chunk(&env(), delta, Value::Null);
    assert_eq!(out["choices"][0]["delta"]["content"], "x");
    assert_eq!(out["choices"][0]["finish_reason"], Value::Null);
    assert_eq!(out["choices"][0]["index"], 0);
}

#[test]
fn length_stop_has_an_empty_delta() {
    let out = length_stop_frame(&env());
    assert_eq!(out["choices"][0]["finish_reason"], "length");
    assert!(out["choices"][0]["delta"].as_object().unwrap().is_empty());
    assert_eq!(out["id"], "chatcmpl-abc");
}

#[test]
fn usage_frame_is_a_choiceless_chat_chunk() {
    let frame = usage_frame(
        &env(),
        MergedUsage { prompt_tokens: 1000, completion_tokens: 100, total_tokens: 1100 },
    );
    assert_eq!(frame["object"], "chat.completion.chunk");
    assert_eq!(frame["choices"].as_array().unwrap().len(), 0);
    assert_eq!(frame["usage"]["prompt_tokens"], 1000);
    assert_eq!(frame["usage"]["completion_tokens"], 100);
    assert_eq!(frame["usage"]["total_tokens"], 1100);
    assert!(
        frame["usage"].get("prompt_tokens_details").is_none(),
        "our frame stays minimal — the cache layer above injects its own cache_* fields"
    );
}

#[test]
fn usage_frame_reads_back_what_it_was_made_of() {
    let usage = MergedUsage { prompt_tokens: 3, completion_tokens: 4, total_tokens: 7 };
    assert_eq!(usage_of(&usage_frame(&env(), usage)), Some((3, 4)));
}

#[test]
fn sse_frame_wraps_json_in_a_data_event() {
    let bytes = sse_frame(&doc(r#"{"a": 1}"#));
    assert_eq!(&bytes[..], b"data: {\"a\":1}\n\n");
}

#[test]
fn a_document_that_cannot_be_written_is_an_empty_object() {
    assert_eq!(event_frame(None), b"data: {}\n\n".to_vec());
    assert_eq!(event_frame(Some(b"[1]".to_vec())), b"data: [1]\n\n".to_vec());
}

#[test]
fn done_frame_ends_the_stream() {
    assert_eq!(&DONE_FRAME[..], b"data: [DONE]\n\n");
}
