//! Re-wrapping a resume leg back into the client's original stream shape, and
//! the merged terminal usage frame.
//!
//! A resume leg streams `text_completion` chunks with `choices[0].text`, while
//! the client is midway through a `chat.completion.chunk` stream. Every leg
//! chunk is put on the original stream's envelope (`id`, `model`, `created`),
//! with its text moved into `choices[0].delta.content`.
//!
//! The leg's own usage counts the leg: its prompt is the original prompt plus
//! everything generated so far. [`merge_usage`] turns it into the usage of the
//! whole request.

use bytes::Bytes;
use serde_json::Value;
use vstd::prelude::*;
use crate::json;
use crate::json::{empty_members, json_bytes, json_tree, json_trees, member, JsonNumber, JsonTree};

verus! {

/// A shared run of bytes.
#[verifier::external_type_specification]
#[verifier::external_body]
pub struct ExBytes(Bytes);

/// What a `bytes::Bytes` holds.
pub uninterp spec fn bytes_of(bytes: Bytes) -> Seq<u8>;

/// Calls `bytes::Bytes::from` with a vector: the same bytes.
#[verifier::external_body]
fn into_bytes(v: Vec<u8>) -> (r: Bytes)
    ensures
        bytes_of(r) == v@,
{
    Bytes::from(v)
}

/// The frame that ends an event stream: `data: [DONE]` and an empty line.
pub const DONE_FRAME: [u8; 14] = [100, 97, 116, 97, 58, 32, 91, 68, 79, 78, 69, 93, 10, 10];

/// The original stream's identity, taken from its first chunk.
#[derive(Debug, Clone, PartialEq, Eq)]
pub struct Envelope {
    pub id: String,
    pub model: String,
    pub created: u64,
}

/// The token counts of the whole request, as the client sees them.
#[derive(Debug, Clone, Copy, PartialEq, Eq, Structural)]
pub struct MergedUsage {
    pub prompt_tokens: u64,
    pub completion_tokens: u64,
    pub total_tokens: u64,
}

/// Why a merge of usages had to fall back.
#[derive(Debug, Clone, Copy, PartialEq, Eq, Structural)]
pub enum UsageAnomaly {
    /// The leg reported fewer prompt tokens than the partial generation alone
    /// occupies in the render.
    PromptUnderflow,
}

/// `a + b`, held at the largest `u64`.
pub open spec fn saturating_sum(a: int, b: int) -> int {
    if a + b > u64::MAX {
        u64::MAX as int
    } else {
        a + b
    }
}

/// `a - b`, held at zero.
pub open spec fn saturating_difference(a: int, b: int) -> int {
    if a < b {
        0
    } else {
        a - b
    }
}

/// Whether a leg's prompt count cannot even cover the partial generation.
pub open spec fn prompt_underflows(seg: u64, reported_prompt: u64) -> bool {
    reported_prompt < seg
}

/// The prompt tokens of the whole request.
pub open spec fn merged_prompt(seg: u64, reported_prompt: u64, render_total: u64) -> int {
    if prompt_underflows(seg, reported_prompt) {
        saturating_difference(render_total as int, seg as int)
    } else {
        reported_prompt - seg
    }
}

/// The completion tokens of the whole request.
pub open spec fn merged_completion(seg: u64, leg_completion: u64) -> int {
    saturating_sum(seg as int, leg_completion as int)
}

impl UsageAnomaly {
    /// The metric label of an anomaly.
    pub fn kind(self) -> (r: &'static str)
        ensures
            match self {
                UsageAnomaly::PromptUnderflow => r@ == "prompt_underflow"@,
            },
    {
        match self {
            UsageAnomaly::PromptUnderflow => "prompt_underflow",
        }
    }
}

/// The usage of the whole request.
///
/// `seg` counts everything generated before the final leg, `reported_prompt`
/// and `leg_completion` are the final leg's own usage, and `render_total` is the
/// token count of the final render. Where the leg's prompt count cannot cover
/// `seg`, the prompt comes from the render, and the anomaly says so.
pub fn merge_usage(
    seg: u64,
    reported_prompt: u64,
    leg_completion: u64,
    render_total: u64,
) -> (r: (MergedUsage, Option<UsageAnomaly>))
    ensures
        r.0.prompt_tokens == merged_prompt(seg, reported_prompt, render_total),
        r.0.completion_tokens == merged_completion(seg, leg_completion),
        r.0.total_tokens == saturating_sum(
            merged_prompt(seg, reported_prompt, render_total),
            merged_completion(seg, leg_completion),
        ),
        r.1 == (if prompt_underflows(seg, reported_prompt) {
            Some(UsageAnomaly::PromptUnderflow)
        } else {
            None
        }),
{
    let (prompt_tokens, anomaly): (u64, Option<UsageAnomaly>) = if reported_prompt >= seg {
        (reported_prompt - seg, None)
    } else {
        (render_total.saturating_sub(seg), Some(UsageAnomaly::PromptUnderflow))
    };
    let completion_tokens: u64 = seg.saturating_add(leg_completion);
    (
        MergedUsage {
            prompt_tokens,
            completion_tokens,
            total_tokens: prompt_tokens.saturating_add(completion_tokens),
        },
        anomaly,
    )
}

/// The count under `key` in a usage object: zero unless it is an unsigned
/// integer.
pub open spec fn count_under(usage: JsonTree, key: Seq<char>) -> u64 {
    match member(usage, key) {
        Some(JsonTree::Number(JsonNumber::Unsigned(n))) => n,
        _ => 0,
    }
}

/// The prompt and completion counts of a chunk, where its `usage` is an object.
pub open spec fn usage_counts(chunk: JsonTree) -> Option<(u64, u64)> {
    match member(chunk, "usage"@) {
        Some(usage) => if usage is Object {
            Some((count_under(usage, "prompt_tokens"@), count_under(usage, "completion_tokens"@)))
        } else {
            None
        },
        None => None,
    }
}

/// The prompt and completion counts that a chunk carries, if its `usage` is an
/// object at all.
pub fn usage_of(chunk: &Value) -> (r: Option<(u64, u64)>)
    ensures
        r == usage_counts(json_tree(*chunk)),
{
    let usage = match json::get(chunk, "usage") {
        Some(v) => v,
        None => {
            return None;
        },
    };
    let members = match json::as_object(usage) {
        Some(m) => m,
        None => {
            return None;
        },
    };
    let prompt: u64 = match json::get_member(members, "prompt_tokens") {
        Some(v) => match json::as_u64(v) {
            Some(n) => n,
            None => 0,
        },
        None => 0,
    };
    let completion: u64 = match json::get_member(members, "completion_tokens") {
        Some(v) => match json::as_u64(v) {
            Some(n) => n,
            None => 0,
        },
        None => 0,
    };
    Some((prompt, completion))
}

/// The text of a choice: empty unless it is a string.
pub open spec fn text_of_choice(choice: JsonTree) -> Seq<char> {
    match member(choice, "text"@) {
        Some(JsonTree::Str(s)) => s,
        _ => Seq::empty(),
    }
}

/// The finish reason of a choice: `null` where there is none.
pub open spec fn finish_of_choice(choice: JsonTree) -> JsonTree {
    match member(choice, "finish_reason"@) {
        Some(t) => t,
        None => JsonTree::Null,
    }
}

/// The text and finish reason of a chunk's first choice, where it has one.
pub open spec fn first_choice_parts(chunk: JsonTree) -> Option<(Seq<char>, JsonTree)> {
    match member(chunk, "choices"@) {
        Some(JsonTree::Array(items)) => if items.len() > 0 {
            Some((text_of_choice(items[0]), finish_of_choice(items[0])))
        } else {
            None
        },
        _ => None,
    }
}

/// The generated text and the finish reason of one `text_completion` chunk;
/// nothing for a chunk without a choice.
pub fn completion_parts<'a>(chunk: &'a Value) -> (r: Option<(&'a str, Value)>)
    ensures
        match r {
            Some((text, finish)) => first_choice_parts(json_tree(*chunk)) == Some(
                (text@, json_tree(finish)),
            ),
            None => first_choice_parts(json_tree(*chunk)) is None,
        },
{
    let choices = match json::get(chunk, "choices") {
        Some(v) => v,
        None => {
            return None;
        },
    };
    let items = match json::as_array(choices) {
        Some(items) => items,
        None => {
            return None;
        },
    };
    if items.len() == 0 {
        return None;
    }
    let choice = &items[0];
    assert(json_trees(items@)[0] == json_tree(*choice));
    let text = match json::get(choice, "text") {
        Some(v) => match json::as_str(v) {
            Some(s) => s,
            None => "",
        },
        None => "",
    };
    proof {
        reveal_strlit("");
        assert(""@ =~= Seq::<char>::empty());
    }
    let finish = match json::get(choice, "finish_reason") {
        Some(v) => json::duplicate(v),
        None => json::null(),
    };
    Some((text, finish))
}

/// The members of a chat chunk on the envelope, without usage.
pub open spec fn chat_chunk(env: Envelope, choices: Seq<JsonTree>) -> Map<Seq<char>, JsonTree> {
    empty_members().insert("id"@, JsonTree::Str(env.id@)).insert(
        "object"@,
        JsonTree::Str("chat.completion.chunk"@),
    ).insert("created"@, JsonTree::Number(JsonNumber::Unsigned(env.created))).insert(
        "model"@,
        JsonTree::Str(env.model@),
    ).insert("choices"@, JsonTree::Array(choices))
}

/// One choice of a chat chunk.
pub open spec fn chat_choice(delta: JsonTree, finish_reason: JsonTree) -> JsonTree {
    JsonTree::Object(
        empty_members().insert("index"@, JsonTree::Number(JsonNumber::Unsigned(0))).insert(
            "delta"@,
            delta,
        ).insert("finish_reason"@, finish_reason),
    )
}

/// A chat chunk with one choice.
pub open spec fn delta_chunk_tree(
    env: Envelope,
    delta: JsonTree,
    finish_reason: JsonTree,
) -> JsonTree {
    JsonTree::Object(chat_chunk(env, seq![chat_choice(delta, finish_reason)]))
}

/// The members of a chat chunk on the envelope.
fn chat_members(env: &Envelope, choices: Vec<Value>) -> (r: serde_json::Map<String, Value>)
    ensures
        json::json_members(r) == chat_chunk(*env, json_trees(choices@)),
{
    let mut members = json::no_members();
    json::set_member(&mut members, "id", json::string(env.id.clone()));
    json::set_member(&mut members, "object", json::string("chat.completion.chunk".to_owned()));
    json::set_member(&mut members, "created", json::unsigned(env.created));
    json::set_member(&mut members, "model", json::string(env.model.clone()));
    json::set_member(&mut members, "choices", json::array(choices));
    members
}

/// One chat chunk on the original stream's envelope, carrying a `delta` object
/// that is already built. No `role` is added.
pub fn delta_chunk(env: &Envelope, delta: Value, finish_reason: Value) -> (r: Value)
    ensures
        json_tree(r) == delta_chunk_tree(*env, json_tree(delta), json_tree(finish_reason)),
{
    let mut choice = json::no_members();
    json::set_member(&mut choice, "index", json::unsigned(0));
    json::set_member(&mut choice, "delta", delta);
    json::set_member(&mut choice, "finish_reason", finish_reason);
    let mut choices: Vec<Value> = Vec::new();
    choices.push(json::object(choice));
    assert(json_trees(choices@) =~= seq![
        chat_choice(json_tree(delta), json_tree(finish_reason)),
    ]);
    json::object(chat_members(env, choices))
}

/// The delta that carries a text: a `content` member, or none for an empty text.
pub open spec fn content_delta(text: Seq<char>) -> JsonTree {
    if text.len() == 0 {
        JsonTree::Object(empty_members())
    } else {
        JsonTree::Object(empty_members().insert("content"@, JsonTree::Str(text)))
    }
}

/// A `text_completion` chunk on the original envelope, if there is anything in
/// it for the client.
pub open spec fn reframed(chunk: JsonTree, env: Envelope) -> Option<JsonTree> {
    match first_choice_parts(chunk) {
        Some((text, finish)) => if text.len() == 0 && finish is Null {
            None
        } else {
            Some(delta_chunk_tree(env, content_delta(text), finish))
        },
        None => None,
    }
}

/// Puts one `text_completion` chunk on the original envelope, its text as plain
/// content. Nothing comes of a chunk without a choice, nor of an empty text
/// without a finish reason.
pub fn reframe_chunk(chunk: &Value, env: &Envelope) -> (r: Option<Value>)
    ensures
        match r {
            Some(v) => reframed(json_tree(*chunk), *env) == Some(json_tree(v)),
            None => reframed(json_tree(*chunk), *env) is None,
        },
{
    let (text, finish_reason) = match completion_parts(chunk) {
        Some(parts) => parts,
        None => {
            return None;
        },
    };
    if text.is_empty() && json::is_null(&finish_reason) {
        return None;
    }
    let mut delta = json::no_members();
    if !text.is_empty() {
        json::set_member(&mut delta, "content", json::string(text.to_owned()));
    }
    Some(delta_chunk(env, json::object(delta), finish_reason))
}

/// A bare chunk with the finish reason `length`: the end of a stream whose
/// token limit is already spent.
pub fn length_stop_frame(env: &Envelope) -> (r: Value)
    ensures
        json_tree(r) == delta_chunk_tree(
            *env,
            JsonTree::Object(empty_members()),
            JsonTree::Str("length"@),
        ),
{
    delta_chunk(env, json::object(json::no_members()), json::string("length".to_owned()))
}

/// The usage object of a terminal frame.
pub open spec fn usage_tree(usage: MergedUsage) -> JsonTree {
    JsonTree::Object(
        empty_members().insert(
            "prompt_tokens"@,
            JsonTree::Number(JsonNumber::Unsigned(usage.prompt_tokens)),
        ).insert(
            "completion_tokens"@,
            JsonTree::Number(JsonNumber::Unsigned(usage.completion_tokens)),
        ).insert("total_tokens"@, JsonTree::Number(JsonNumber::Unsigned(usage.total_tokens))),
    )
}

/// The terminal frame: a chat chunk without choices that carries the usage.
pub open spec fn usage_frame_tree(env: Envelope, usage: MergedUsage) -> JsonTree {
    JsonTree::Object(chat_chunk(env, Seq::empty()).insert("usage"@, usage_tree(usage)))
}

impl MergedUsage {
    /// The usage object of a terminal frame.
    fn to_value(self) -> (r: Value)
        ensures
            json_tree(r) == usage_tree(self),
    {
        let mut members = json::no_members();
        json::set_member(&mut members, "prompt_tokens", json::unsigned(self.prompt_tokens));
        json::set_member(&mut members, "completion_tokens", json::unsigned(self.completion_tokens));
        json::set_member(&mut members, "total_tokens", json::unsigned(self.total_tokens));
        json::object(members)
    }
}

/// The terminal usage frame: a chat chunk without choices that carries the
/// merged counts.
pub fn usage_frame(env: &Envelope, usage: MergedUsage) -> (r: Value)
    ensures
        json_tree(r) == usage_frame_tree(*env, usage),
{
    let choices: Vec<Value> = Vec::new();
    assert(json_trees(choices@) =~= Seq::<JsonTree>::empty());
    let mut members = chat_members(env, choices);
    json::set_member(&mut members, "usage", usage.to_value());
    json::object(members)
}

/// The bytes of one event: `data: `, the payload, and an empty line. Without a
/// payload an empty object stands in.
pub open spec fn event_bytes(payload: Option<Seq<u8>>) -> Seq<u8> {
    vstd::utf8::encode_utf8("data: "@) + (match payload {
        Some(bytes) => bytes,
        None => vstd::utf8::encode_utf8("{}"@),
    }) + vstd::utf8::encode_utf8("\n\n"@)
}

/// Frames a payload, or an empty object where there is none, as one event.
pub fn event_frame(payload: Option<Vec<u8>>) -> (r: Vec<u8>)
    ensures
        r@ == event_bytes(
            match payload {
                Some(v) => Some(v@),
                None => None,
            },
        ),
{
    let mut out: Vec<u8> = Vec::with_capacity(64);
    out.extend_from_slice("data: ".as_bytes());
    let ghost head = out@;
    assert(head =~= vstd::utf8::encode_utf8("data: "@));
    let mut body = match payload {
        Some(v) => v,
        None => {
            let mut empty: Vec<u8> = Vec::new();
            empty.extend_from_slice("{}".as_bytes());
            assert(empty@ =~= vstd::utf8::encode_utf8("{}"@));
            empty
        },
    };
    let ghost middle = body@;
    out.append(&mut body);
    out.extend_from_slice("\n\n".as_bytes());
    assert(out@ =~= head + middle + vstd::utf8::encode_utf8("\n\n"@));
    out
}

/// Writes a chunk as one event of the stream.
pub fn sse_frame(value: &Value) -> (r: Bytes)
    ensures
        bytes_of(r) == event_bytes(json_bytes(json_tree(*value))),
{
    let payload: Option<Vec<u8>> = match json::write(value) {
        Ok(v) => Some(v),
        Err(_) => None,
    };
    into_bytes(event_frame(payload))
}

/// Where the provider's prompt count covers the partial generation and nothing
/// saturates, the merge moves tokens from prompt to completion and loses none:
/// the total is what the final leg itself reported.
pub proof fn law_merge_conserves_tokens(
    seg: u64,
    reported_prompt: u64,
    leg_completion: u64,
    render_total: u64,
)
    requires
        !prompt_underflows(seg, reported_prompt),
        reported_prompt + leg_completion <= u64::MAX,
    ensures
        merged_prompt(seg, reported_prompt, render_total) + merged_completion(seg, leg_completion)
            == reported_prompt + leg_completion,
{
}

/// Without any generation before the leg, the merged usage is the leg's own.
pub proof fn law_merge_without_generation_is_the_leg(
    reported_prompt: u64,
    leg_completion: u64,
    render_total: u64,
)
    ensures
        !prompt_underflows(0, reported_prompt),
        merged_prompt(0, reported_prompt, render_total) == reported_prompt,
        merged_completion(0, leg_completion) == leg_completion,
{
}

/// A merge never goes below zero nor above the largest `u64`, whatever the
/// provider reported, and the completion never shrinks below what was generated
/// before the leg.
pub proof fn law_merge_stays_in_range(
    seg: u64,
    reported_prompt: u64,
    leg_completion: u64,
    render_total: u64,
)
    ensures
        0 <= merged_prompt(seg, reported_prompt, render_total) <= u64::MAX,
        seg <= merged_completion(seg, leg_completion) <= u64::MAX,
        leg_completion <= merged_completion(seg, leg_completion),
{
}

/// The counts read off a terminal usage frame are the counts it was made of.
pub proof fn law_usage_frame_reads_back(env: Envelope, usage: MergedUsage)
    ensures
        usage_counts(usage_frame_tree(env, usage)) == Some(
            (usage.prompt_tokens, usage.completion_tokens),
        ),
        first_choice_parts(usage_frame_tree(env, usage)) is None,
{
    reveal_strlit("prompt_tokens");
    reveal_strlit("completion_tokens");
    reveal_strlit("total_tokens");
    reveal_strlit("usage");
    reveal_strlit("choices");
    assert("prompt_tokens"@.len() != "completion_tokens"@.len());
    assert("prompt_tokens"@.len() != "total_tokens"@.len());
    assert("completion_tokens"@.len() != "total_tokens"@.len());
    assert("usage"@.len() != "choices"@.len());
}

/// Whatever a leg chunk holds, its reframed chunk has the original stream's
/// identity, is a chat chunk, and carries no usage of the leg.
pub proof fn law_reframed_keeps_envelope(chunk: JsonTree, env: Envelope)
    requires
        reframed(chunk, env) is Some,
    ensures
        member(reframed(chunk, env)->0, "id"@) == Some(JsonTree::Str(env.id@)),
        member(reframed(chunk, env)->0, "model"@) == Some(JsonTree::Str(env.model@)),
        member(reframed(chunk, env)->0, "created"@) == Some(
            JsonTree::Number(JsonNumber::Unsigned(env.created)),
        ),
        member(reframed(chunk, env)->0, "object"@) == Some(JsonTree::Str("chat.completion.chunk"@)),
        usage_counts(reframed(chunk, env)->0) is None,
{
    lemma_chunk_keys_differ();
}

/// A reframed chunk keeps the leg's finish reason, never re-opens the message
/// with a role, and its content is the leg's text.
pub proof fn law_reframed_choice(chunk: JsonTree, env: Envelope)
    requires
        reframed(chunk, env) is Some,
    ensures
        ({
            let (text, finish) = first_choice_parts(chunk)->0;
            let delta = content_delta(text);
            &&& member(reframed(chunk, env)->0, "choices"@) == Some(
                JsonTree::Array(seq![chat_choice(delta, finish)]),
            )
            &&& member(chat_choice(delta, finish), "delta"@) == Some(delta)
            &&& member(chat_choice(delta, finish), "finish_reason"@) == Some(finish)
            &&& member(delta, "role"@) is None
            &&& text.len() > 0 ==> member(delta, "content"@) == Some(JsonTree::Str(text))
            &&& text.len() == 0 ==> member(delta, "content"@) is None
        }),
{
    lemma_chunk_keys_differ();
    reveal_strlit("role");
    reveal_strlit("content");
    reveal_strlit("delta");
    reveal_strlit("finish_reason");
    assert("role"@.len() != "content"@.len());
    assert("delta"@.len() != "finish_reason"@.len());
}

/// A chunk without a choice, such as the leg's own terminal usage chunk, never
/// reaches the client.
pub proof fn law_chunk_without_choice_is_dropped(chunk: JsonTree, env: Envelope)
    requires
        first_choice_parts(chunk) is None,
    ensures
        reframed(chunk, env) is None,
{
}

proof fn lemma_chunk_keys_differ()
    ensures
        "id"@ != "object"@,
        "id"@ != "created"@,
        "id"@ != "model"@,
        "id"@ != "choices"@,
        "object"@ != "created"@,
        "object"@ != "model"@,
        "object"@ != "choices"@,
        "created"@ != "model"@,
        "created"@ != "choices"@,
        "model"@ != "choices"@,
        "usage"@ != "id"@,
        "usage"@ != "object"@,
        "usage"@ != "created"@,
        "usage"@ != "model"@,
        "usage"@ != "choices"@,
{
    reveal_strlit("id");
    reveal_strlit("object");
    reveal_strlit("created");
    reveal_strlit("model");
    reveal_strlit("choices");
    reveal_strlit("usage");
    assert("id"@.len() == 2 && "object"@.len() == 6 && "created"@.len() == 7 && "model"@.len() == 5
        && "choices"@.len() == 7 && "usage"@.len() == 5);
    assert("created"@[1] != "choices"@[1]);
    assert("usage"@[0] != "model"@[0]);
}

/// What the client is charged: the prompt that the leg reported without what was
/// generated before it, and all that was generated, before the leg and by it.
/// Where the leg reported less than that, the prompt is the render's count
/// without it, and never below zero. Nothing goes beyond the largest count.
pub proof fn law_merge_bills_prompt_and_completion(
    seg: u64,
    reported_prompt: u64,
    leg_completion: u64,
    render_total: u64,
)
    ensures
        reported_prompt >= seg ==> merged_prompt(seg, reported_prompt, render_total) + seg
            == reported_prompt,
        reported_prompt < seg && render_total >= seg ==> merged_prompt(
            seg,
            reported_prompt,
            render_total,
        ) + seg == render_total,
        reported_prompt < seg && render_total < seg ==> merged_prompt(
            seg,
            reported_prompt,
            render_total,
        ) == 0,
        prompt_underflows(seg, reported_prompt) <==> reported_prompt < seg,
        seg + leg_completion <= u64::MAX ==> merged_completion(seg, leg_completion) == seg
            + leg_completion,
        seg + leg_completion > u64::MAX ==> merged_completion(seg, leg_completion) == u64::MAX,
{
}

/// A sum is exact unless it is too large, and a difference unless it is below
/// zero.
pub proof fn law_saturation_is_exact_within_range(a: u64, b: u64)
    ensures
        a + b <= u64::MAX ==> saturating_sum(a as int, b as int) == a + b,
        a + b > u64::MAX ==> saturating_sum(a as int, b as int) == u64::MAX,
        a >= b ==> saturating_difference(a as int, b as int) + b == a,
        a < b ==> saturating_difference(a as int, b as int) == 0,
{
}

/// A terminal frame says all three counts, each under its own name.
pub proof fn law_usage_frame_says_every_count(env: Envelope, usage: MergedUsage)
    ensures
        ({
            let said = member(usage_frame_tree(env, usage), "usage"@);
            &&& said is Some
            &&& member(said->0, "prompt_tokens"@) == Some(
                JsonTree::Number(JsonNumber::Unsigned(usage.prompt_tokens)),
            )
            &&& member(said->0, "completion_tokens"@) == Some(
                JsonTree::Number(JsonNumber::Unsigned(usage.completion_tokens)),
            )
            &&& member(said->0, "total_tokens"@) == Some(
                JsonTree::Number(JsonNumber::Unsigned(usage.total_tokens)),
            )
        }),
        member(usage_frame_tree(env, usage), "id"@) == Some(JsonTree::Str(env.id@)),
        member(usage_frame_tree(env, usage), "model"@) == Some(JsonTree::Str(env.model@)),
        member(usage_frame_tree(env, usage), "created"@) == Some(
            JsonTree::Number(JsonNumber::Unsigned(env.created)),
        ),
        member(usage_frame_tree(env, usage), "choices"@) == Some(JsonTree::Array(Seq::empty())),
{
    lemma_chunk_keys_differ();
    reveal_strlit("prompt_tokens");
    reveal_strlit("completion_tokens");
    reveal_strlit("total_tokens");
    assert("prompt_tokens"@.len() != "completion_tokens"@.len());
    assert("prompt_tokens"@.len() != "total_tokens"@.len());
    assert("completion_tokens"@.len() != "total_tokens"@.len());
}

/// The counts of a chunk are those under their names in its usage object, zero
/// for one that is no unsigned integer; a chunk without such an object has none.
pub proof fn law_usage_is_read_by_name(
    usage: Map<Seq<char>, JsonTree>,
    rest: Map<Seq<char>, JsonTree>,
    n: u64,
)
    requires
        !rest.contains_key("usage"@),
    ensures
        ({
            let chunk = JsonTree::Object(rest.insert("usage"@, JsonTree::Object(usage)));
            let number = JsonTree::Number(JsonNumber::Unsigned(n));
            &&& usage_counts(chunk) is Some
            &&& usage.contains_key("prompt_tokens"@) && usage["prompt_tokens"@] == number ==> (
            usage_counts(chunk)->0).0 == n
            &&& !usage.contains_key("prompt_tokens"@) ==> (usage_counts(chunk)->0).0 == 0
            &&& usage.contains_key("completion_tokens"@) && usage["completion_tokens"@] == number
                ==> (usage_counts(chunk)->0).1 == n
            &&& !usage.contains_key("completion_tokens"@) ==> (usage_counts(chunk)->0).1 == 0
        }),
        usage_counts(JsonTree::Object(rest)) is None,
        usage_counts(JsonTree::Object(rest.insert("usage"@, JsonTree::Null))) is None,
{
}

/// The text and the finish reason of a chunk are those of its first choice.
pub proof fn law_first_choice_is_read(
    choice: Map<Seq<char>, JsonTree>,
    others: Seq<JsonTree>,
    rest: Map<Seq<char>, JsonTree>,
    text: Seq<char>,
)
    ensures
        ({
            let chunk = JsonTree::Object(
                rest.insert("choices"@, JsonTree::Array(seq![JsonTree::Object(choice)] + others)),
            );
            &&& first_choice_parts(chunk) is Some
            &&& choice.contains_key("text"@) && choice["text"@] == JsonTree::Str(text) ==> (
            first_choice_parts(chunk)->0).0 == text
            &&& !choice.contains_key("text"@) ==> (first_choice_parts(chunk)->0).0.len() == 0
            &&& choice.contains_key("finish_reason"@) ==> (first_choice_parts(chunk)->0).1
                == choice["finish_reason"@]
            &&& !choice.contains_key("finish_reason"@) ==> (first_choice_parts(
                chunk,
            )->0).1 is Null
        }),
        first_choice_parts(
            JsonTree::Object(rest.insert("choices"@, JsonTree::Array(Seq::empty()))),
        ) is None,
{
}

/// A chunk reaches the client exactly where it has a text or a finish reason.
pub proof fn law_nothing_to_say_is_not_said(chunk: JsonTree, env: Envelope)
    ensures
        reframed(chunk, env) is Some <==> first_choice_parts(chunk) is Some && ((
        first_choice_parts(chunk)->0).0.len() > 0 || !((first_choice_parts(chunk)->0).1 is Null)),
{
}

/// An event holds its payload whole, behind the same front and before the same
/// end whatever it is.
pub proof fn law_event_holds_its_payload(payload: Seq<u8>, other: Seq<u8>)
    ensures
        event_bytes(Some(payload)).len() - payload.len() == event_bytes(Some(other)).len()
            - other.len(),
        event_bytes(Some(payload)) == event_bytes(Some(other)) ==> payload == other,
{
    let front = vstd::utf8::encode_utf8("data: "@);
    let n = front.len() as int;
    let a = event_bytes(Some(payload));
    let b = event_bytes(Some(other));
    assert(a.subrange(n, n + payload.len()) =~= payload);
    assert(b.subrange(n, n + other.len()) =~= other);
}

/// The usage of a whole request: prompt and completion as they are billed, their
/// sum as the total, and an anomaly exactly where the leg's prompt cannot cover
/// what was generated before it.
pub proof fn law_merged_usage_adds_up(
    seg: u64,
    reported_prompt: u64,
    leg_completion: u64,
    render_total: u64,
    r: (MergedUsage, Option<UsageAnomaly>),
)
    requires
        call_ensures(merge_usage, (seg, reported_prompt, leg_completion, render_total), r),
    ensures
        r.1 is Some <==> reported_prompt < seg,
        reported_prompt >= seg ==> r.0.prompt_tokens + seg == reported_prompt,
        reported_prompt < seg && render_total >= seg ==> r.0.prompt_tokens + seg == render_total,
        reported_prompt < seg && render_total < seg ==> r.0.prompt_tokens == 0,
        seg + leg_completion <= u64::MAX ==> r.0.completion_tokens == seg + leg_completion,
        seg + leg_completion > u64::MAX ==> r.0.completion_tokens == u64::MAX,
        r.0.prompt_tokens + r.0.completion_tokens <= u64::MAX ==> r.0.total_tokens
            == r.0.prompt_tokens + r.0.completion_tokens,
        r.0.prompt_tokens + r.0.completion_tokens > u64::MAX ==> r.0.total_tokens == u64::MAX,
{
    law_merge_bills_prompt_and_completion(seg, reported_prompt, leg_completion, render_total);
}

/// A reframed chunk is on the stream's own envelope.
pub proof fn law_reframing_keeps_the_stream(chunk: Value, env: Envelope, r: Option<Value>)
    requires
        call_ensures(reframe_chunk, (&chunk, &env), r),
        r is Some,
    ensures
        member(json_tree(r->0), "id"@) == Some(JsonTree::Str(env.id@)),
        member(json_tree(r->0), "model"@) == Some(JsonTree::Str(env.model@)),
        member(json_tree(r->0), "created"@) == Some(
            JsonTree::Number(JsonNumber::Unsigned(env.created)),
        ),
{
    law_reframed_keeps_envelope(json_tree(chunk), env);
}

/// A frame that stops a stream says `length` in its only choice, with nothing in
/// its delta, on the stream's own envelope.
pub proof fn law_length_stops_say_so(env: Envelope, r: Value)
    requires
        call_ensures(length_stop_frame, (&env,), r),
    ensures
        member(json_tree(r), "id"@) == Some(JsonTree::Str(env.id@)),
        member(json_tree(r), "model"@) == Some(JsonTree::Str(env.model@)),
        member(json_tree(r), "choices"@) matches Some(JsonTree::Array(choices)) && choices.len()
            == 1 && member(choices[0], "finish_reason"@) == Some(JsonTree::Str("length"@))
            && member(choices[0], "delta"@) == Some(JsonTree::Object(empty_members())),
{
    lemma_chunk_keys_differ();
    reveal_strlit("delta");
    reveal_strlit("finish_reason");
    reveal_strlit("index");
    assert("delta"@.len() != "finish_reason"@.len());
}

/// The usage frame of a stream reads back as the usage it was made of.
pub proof fn law_usage_frames_read_back(env: Envelope, usage: MergedUsage, r: Value)
    requires
        call_ensures(usage_frame, (&env, usage), r),
    ensures
        usage_counts(json_tree(r)) == Some((usage.prompt_tokens, usage.completion_tokens)),
        member(json_tree(r), "usage"@) matches Some(said) && member(said, "total_tokens"@) == Some(
            JsonTree::Number(JsonNumber::Unsigned(usage.total_tokens)),
        ),
        member(json_tree(r), "id"@) == Some(JsonTree::Str(env.id@)),
{
    law_usage_frame_reads_back(env, usage);
    law_usage_frame_says_every_count(env, usage);
}

/// A chat chunk carries its delta and its finish reason in its only choice, on the
/// stream's own envelope.
pub proof fn law_chunks_carry_their_delta(
    env: Envelope,
    delta: Value,
    finish_reason: Value,
    r: Value,
)
    requires
        call_ensures(delta_chunk, (&env, delta, finish_reason), r),
    ensures
        member(json_tree(r), "id"@) == Some(JsonTree::Str(env.id@)),
        member(json_tree(r), "model"@) == Some(JsonTree::Str(env.model@)),
        member(json_tree(r), "created"@) == Some(
            JsonTree::Number(JsonNumber::Unsigned(env.created)),
        ),
        member(json_tree(r), "choices"@) matches Some(JsonTree::Array(choices)) && choices.len()
            == 1 && member(choices[0], "finish_reason"@) == Some(json_tree(finish_reason))
            && member(choices[0], "delta"@) == Some(json_tree(delta)),
{
    lemma_chunk_keys_differ();
    reveal_strlit("delta");
    reveal_strlit("finish_reason");
    reveal_strlit("index");
    assert("delta"@.len() != "finish_reason"@.len());
}

}
