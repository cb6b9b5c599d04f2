//! Which keys of JSON objects differ.
use vstd::prelude::*;

verus! {

pub(crate) proof fn lemma_message_keys()
    ensures
        "id"@ != "type"@,
        "id"@ != "role"@,
        "id"@ != "model"@,
        "id"@ != "content"@,
        "id"@ != "stop_reason"@,
        "id"@ != "stop_sequence"@,
        "id"@ != "usage"@,
        "type"@ != "role"@,
        "type"@ != "model"@,
        "type"@ != "content"@,
        "type"@ != "stop_reason"@,
        "type"@ != "stop_sequence"@,
        "type"@ != "usage"@,
        "role"@ != "model"@,
        "role"@ != "content"@,
        "role"@ != "stop_reason"@,
        "role"@ != "stop_sequence"@,
        "role"@ != "usage"@,
        "model"@ != "content"@,
        "model"@ != "stop_reason"@,
        "model"@ != "stop_sequence"@,
        "model"@ != "usage"@,
        "content"@ != "stop_reason"@,
        "content"@ != "stop_sequence"@,
        "content"@ != "usage"@,
        "stop_reason"@ != "stop_sequence"@,
        "stop_reason"@ != "usage"@,
        "stop_sequence"@ != "usage"@,
{
    reveal_strlit("id");
    reveal_strlit("type");
    reveal_strlit("role");
    reveal_strlit("model");
    reveal_strlit("content");
    reveal_strlit("stop_reason");
    reveal_strlit("stop_sequence");
    reveal_strlit("usage");
    assert("id"@.len() == 2);
    assert("type"@.len() == 4);
    assert("role"@.len() == 4);
    assert("model"@.len() == 5);
    assert("content"@.len() == 7);
    assert("stop_reason"@.len() == 11);
    assert("stop_sequence"@.len() == 13);
    assert("usage"@.len() == 5);
    assert("type"@[0] == 't' && "role"@[0] == 'r');
    assert("model"@[0] == 'm' && "usage"@[0] == 'u');
}

pub(crate) proof fn lemma_usage_keys()
    ensures
        "input_tokens"@ != "output_tokens"@,
        "input_tokens"@ != "server_tool_use"@,
        "input_tokens"@ != "cache_read_input_tokens"@,
        "output_tokens"@ != "server_tool_use"@,
        "output_tokens"@ != "cache_read_input_tokens"@,
        "server_tool_use"@ != "cache_read_input_tokens"@,
{
    reveal_strlit("input_tokens");
    reveal_strlit("output_tokens");
    reveal_strlit("server_tool_use");
    reveal_strlit("cache_read_input_tokens");
    assert("input_tokens"@.len() == 12);
    assert("output_tokens"@.len() == 13);
    assert("server_tool_use"@.len() == 15);
    assert("cache_read_input_tokens"@.len() == 23);
}

pub(crate) proof fn lemma_browsing_keys()
    ensures
        "web_search_requests"@ != "web_fetch_requests"@,
{
    reveal_strlit("web_search_requests");
    reveal_strlit("web_fetch_requests");
    assert("web_search_requests"@.len() == 19);
    assert("web_fetch_requests"@.len() == 18);
}

pub(crate) proof fn lemma_block_keys()
    ensures
        "type"@ != "id"@,
        "type"@ != "name"@,
        "type"@ != "input"@,
        "type"@ != "text"@,
        "type"@ != "thinking"@,
        "id"@ != "name"@,
        "id"@ != "input"@,
        "id"@ != "text"@,
        "id"@ != "thinking"@,
        "name"@ != "input"@,
        "name"@ != "text"@,
        "name"@ != "thinking"@,
        "input"@ != "text"@,
        "input"@ != "thinking"@,
        "text"@ != "thinking"@,
{
    reveal_strlit("type");
    reveal_strlit("id");
    reveal_strlit("name");
    reveal_strlit("input");
    reveal_strlit("text");
    reveal_strlit("thinking");
    assert("type"@.len() == 4);
    assert("id"@.len() == 2);
    assert("name"@.len() == 4);
    assert("input"@.len() == 5);
    assert("text"@.len() == 4);
    assert("thinking"@.len() == 8);
    assert("type"@[0] == 't' && "name"@[0] == 'n');
    assert("type"@[1] == 'y' && "text"@[1] == 'e');
    assert("name"@[0] == 'n' && "text"@[0] == 't');
}

pub(crate) proof fn lemma_result_keys()
    ensures
        "type"@ != "tool_use_id"@,
        "type"@ != "content"@,
        "tool_use_id"@ != "content"@,
{
    reveal_strlit("type");
    reveal_strlit("tool_use_id");
    reveal_strlit("content");
    assert("type"@.len() == 4);
    assert("tool_use_id"@.len() == 11);
    assert("content"@.len() == 7);
}

pub(crate) proof fn lemma_page_keys()
    ensures
        "type"@ != "url"@,
        "type"@ != "title"@,
        "type"@ != "content"@,
        "type"@ != "source"@,
        "type"@ != "media_type"@,
        "type"@ != "data"@,
        "type"@ != "error_code"@,
        "url"@ != "title"@,
        "url"@ != "content"@,
        "url"@ != "source"@,
        "url"@ != "media_type"@,
        "url"@ != "data"@,
        "url"@ != "error_code"@,
        "title"@ != "content"@,
        "title"@ != "source"@,
        "title"@ != "media_type"@,
        "title"@ != "data"@,
        "title"@ != "error_code"@,
        "content"@ != "source"@,
        "content"@ != "media_type"@,
        "content"@ != "data"@,
        "content"@ != "error_code"@,
        "source"@ != "media_type"@,
        "source"@ != "data"@,
        "source"@ != "error_code"@,
        "media_type"@ != "data"@,
        "media_type"@ != "error_code"@,
        "data"@ != "error_code"@,
{
    reveal_strlit("type");
    reveal_strlit("url");
    reveal_strlit("title");
    reveal_strlit("content");
    reveal_strlit("source");
    reveal_strlit("media_type");
    reveal_strlit("data");
    reveal_strlit("error_code");
    assert("type"@.len() == 4);
    assert("url"@.len() == 3);
    assert("title"@.len() == 5);
    assert("content"@.len() == 7);
    assert("source"@.len() == 6);
    assert("media_type"@.len() == 10);
    assert("data"@.len() == 4);
    assert("error_code"@.len() == 10);
    assert("type"@[0] == 't' && "data"@[0] == 'd');
    assert("media_type"@[0] == 'm' && "error_code"@[0] == 'e');
}

pub(crate) proof fn lemma_event_keys()
    ensures
        "type"@ != "index"@,
        "type"@ != "content_block"@,
        "type"@ != "delta"@,
        "type"@ != "message"@,
        "type"@ != "usage"@,
        "type"@ != "stop_reason"@,
        "type"@ != "stop_sequence"@,
        "type"@ != "text"@,
        "type"@ != "partial_json"@,
        "type"@ != "thinking"@,
        "index"@ != "content_block"@,
        "index"@ != "delta"@,
        "index"@ != "message"@,
        "index"@ != "usage"@,
        "index"@ != "stop_reason"@,
        "index"@ != "stop_sequence"@,
        "index"@ != "text"@,
        "index"@ != "partial_json"@,
        "index"@ != "thinking"@,
        "content_block"@ != "delta"@,
        "content_block"@ != "message"@,
        "content_block"@ != "usage"@,
        "content_block"@ != "stop_reason"@,
        "content_block"@ != "stop_sequence"@,
        "content_block"@ != "text"@,
        "content_block"@ != "partial_json"@,
        "content_block"@ != "thinking"@,
        "delta"@ != "message"@,
        "delta"@ != "usage"@,
        "delta"@ != "stop_reason"@,
        "delta"@ != "stop_sequence"@,
        "delta"@ != "text"@,
        "delta"@ != "partial_json"@,
        "delta"@ != "thinking"@,
        "message"@ != "usage"@,
        "message"@ != "stop_reason"@,
        "message"@ != "stop_sequence"@,
        "message"@ != "text"@,
        "message"@ != "partial_json"@,
        "message"@ != "thinking"@,
        "usage"@ != "stop_reason"@,
        "usage"@ != "stop_sequence"@,
        "usage"@ != "text"@,
        "usage"@ != "partial_json"@,
        "usage"@ != "thinking"@,
        "stop_reason"@ != "stop_sequence"@,
        "stop_reason"@ != "text"@,
        "stop_reason"@ != "partial_json"@,
        "stop_reason"@ != "thinking"@,
        "stop_sequence"@ != "text"@,
        "stop_sequence"@ != "partial_json"@,
        "stop_sequence"@ != "thinking"@,
        "text"@ != "partial_json"@,
        "text"@ != "thinking"@,
        "partial_json"@ != "thinking"@,
{
    reveal_strlit("type");
    reveal_strlit("index");
    reveal_strlit("content_block");
    reveal_strlit("delta");
    reveal_strlit("message");
    reveal_strlit("usage");
    reveal_strlit("stop_reason");
    reveal_strlit("stop_sequence");
    reveal_strlit("text");
    reveal_strlit("partial_json");
    reveal_strlit("thinking");
    assert("type"@.len() == 4);
    assert("index"@.len() == 5);
    assert("content_block"@.len() == 13);
    assert("delta"@.len() == 5);
    assert("message"@.len() == 7);
    assert("usage"@.len() == 5);
    assert("stop_reason"@.len() == 11);
    assert("stop_sequence"@.len() == 13);
    assert("text"@.len() == 4);
    assert("partial_json"@.len() == 12);
    assert("thinking"@.len() == 8);
    assert("type"@[1] == 'y' && "text"@[1] == 'e');
    assert("index"@[0] == 'i' && "delta"@[0] == 'd');
    assert("index"@[0] == 'i' && "usage"@[0] == 'u');
    assert("content_block"@[0] == 'c' && "stop_sequence"@[0] == 's');
    assert("delta"@[0] == 'd' && "usage"@[0] == 'u');
}

pub(crate) proof fn lemma_search_keys()
    ensures
        "vector"@ != "limit"@,
        "vector"@ != "with_payload"@,
        "vector"@ != "score_threshold"@,
        "vector"@ != "filter"@,
        "vector"@ != "with_vector"@,
        "vector"@ != "key"@,
        "vector"@ != "match"@,
        "vector"@ != "payload"@,
        "vector"@ != "points"@,
        "vector"@ != "id"@,
        "limit"@ != "with_payload"@,
        "limit"@ != "score_threshold"@,
        "limit"@ != "filter"@,
        "limit"@ != "with_vector"@,
        "limit"@ != "key"@,
        "limit"@ != "match"@,
        "limit"@ != "payload"@,
        "limit"@ != "points"@,
        "limit"@ != "id"@,
        "with_payload"@ != "score_threshold"@,
        "with_payload"@ != "filter"@,
        "with_payload"@ != "with_vector"@,
        "with_payload"@ != "key"@,
        "with_payload"@ != "match"@,
        "with_payload"@ != "payload"@,
        "with_payload"@ != "points"@,
        "with_payload"@ != "id"@,
        "score_threshold"@ != "filter"@,
        "score_threshold"@ != "with_vector"@,
        "score_threshold"@ != "key"@,
        "score_threshold"@ != "match"@,
        "score_threshold"@ != "payload"@,
        "score_threshold"@ != "points"@,
        "score_threshold"@ != "id"@,
        "filter"@ != "with_vector"@,
        "filter"@ != "key"@,
        "filter"@ != "match"@,
        "filter"@ != "payload"@,
        "filter"@ != "points"@,
        "filter"@ != "id"@,
        "with_vector"@ != "key"@,
        "with_vector"@ != "match"@,
        "with_vector"@ != "payload"@,
        "with_vector"@ != "points"@,
        "with_vector"@ != "id"@,
        "key"@ != "match"@,
        "key"@ != "payload"@,
        "key"@ != "points"@,
        "key"@ != "id"@,
        "match"@ != "payload"@,
        "match"@ != "points"@,
        "match"@ != "id"@,
        "payload"@ != "points"@,
        "payload"@ != "id"@,
        "points"@ != "id"@,
{
    reveal_strlit("vector");
    reveal_strlit("limit");
    reveal_strlit("with_payload");
    reveal_strlit("score_threshold");
    reveal_strlit("filter");
    reveal_strlit("with_vector");
    reveal_strlit("key");
    reveal_strlit("match");
    reveal_strlit("payload");
    reveal_strlit("points");
    reveal_strlit("id");
    assert("vector"@.len() == 6);
    assert("limit"@.len() == 5);
    assert("with_payload"@.len() == 12);
    assert("score_threshold"@.len() == 15);
    assert("filter"@.len() == 6);
    assert("with_vector"@.len() == 11);
    assert("key"@.len() == 3);
    assert("match"@.len() == 5);
    assert("payload"@.len() == 7);
    assert("points"@.len() == 6);
    assert("id"@.len() == 2);
    assert("vector"@[0] == 'v' && "filter"@[0] == 'f');
    assert("vector"@[0] == 'v' && "points"@[0] == 'p');
    assert("limit"@[0] == 'l' && "match"@[0] == 'm');
    assert("filter"@[0] == 'f' && "points"@[0] == 'p');
}

pub(crate) proof fn lemma_chat_keys()
    ensures
        "model"@ != "messages"@,
        "model"@ != "max_tokens"@,
        "model"@ != "temperature"@,
        "model"@ != "reasoning_effort"@,
        "model"@ != "stream"@,
        "model"@ != "role"@,
        "model"@ != "content"@,
        "model"@ != "input"@,
        "messages"@ != "max_tokens"@,
        "messages"@ != "temperature"@,
        "messages"@ != "reasoning_effort"@,
        "messages"@ != "stream"@,
        "messages"@ != "role"@,
        "messages"@ != "content"@,
        "messages"@ != "input"@,
        "max_tokens"@ != "temperature"@,
        "max_tokens"@ != "reasoning_effort"@,
        "max_tokens"@ != "stream"@,
        "max_tokens"@ != "role"@,
        "max_tokens"@ != "content"@,
        "max_tokens"@ != "input"@,
        "temperature"@ != "reasoning_effort"@,
        "temperature"@ != "stream"@,
        "temperature"@ != "role"@,
        "temperature"@ != "content"@,
        "temperature"@ != "input"@,
        "reasoning_effort"@ != "stream"@,
        "reasoning_effort"@ != "role"@,
        "reasoning_effort"@ != "content"@,
        "reasoning_effort"@ != "input"@,
        "stream"@ != "role"@,
        "stream"@ != "content"@,
        "stream"@ != "input"@,
        "role"@ != "content"@,
        "role"@ != "input"@,
        "content"@ != "input"@,
{
    reveal_strlit("model");
    reveal_strlit("messages");
    reveal_strlit("max_tokens");
    reveal_strlit("temperature");
    reveal_strlit("reasoning_effort");
    reveal_strlit("stream");
    reveal_strlit("role");
    reveal_strlit("content");
    reveal_strlit("input");
    assert("model"@.len() == 5);
    assert("messages"@.len() == 8);
    assert("max_tokens"@.len() == 10);
    assert("temperature"@.len() == 11);
    assert("reasoning_effort"@.len() == 16);
    assert("stream"@.len() == 6);
    assert("role"@.len() == 4);
    assert("content"@.len() == 7);
    assert("input"@.len() == 5);
    assert("model"@[0] == 'm' && "input"@[0] == 'i');
}

pub(crate) proof fn lemma_lesson_keys()
    ensures
        "tier"@ != "title"@,
        "tier"@ != "when_to_use"@,
        "tier"@ != "body"@,
        "tier"@ != "kind"@,
        "tier"@ != "source"@,
        "tier"@ != "outcome"@,
        "tier"@ != "created_at"@,
        "tier"@ != "updated_at"@,
        "tier"@ != "use_count"@,
        "tier"@ != "success_count"@,
        "tier"@ != "verified_at"@,
        "tier"@ != "verify_attempted_at"@,
        "tier"@ != "trusted_at"@,
        "title"@ != "when_to_use"@,
        "title"@ != "body"@,
        "title"@ != "kind"@,
        "title"@ != "source"@,
        "title"@ != "outcome"@,
        "title"@ != "created_at"@,
        "title"@ != "updated_at"@,
        "title"@ != "use_count"@,
        "title"@ != "success_count"@,
        "title"@ != "verified_at"@,
        "title"@ != "verify_attempted_at"@,
        "title"@ != "trusted_at"@,
        "when_to_use"@ != "body"@,
        "when_to_use"@ != "kind"@,
        "when_to_use"@ != "source"@,
        "when_to_use"@ != "outcome"@,
        "when_to_use"@ != "created_at"@,
        "when_to_use"@ != "updated_at"@,
        "when_to_use"@ != "use_count"@,
        "when_to_use"@ != "success_count"@,
        "when_to_use"@ != "verified_at"@,
        "when_to_use"@ != "verify_attempted_at"@,
        "when_to_use"@ != "trusted_at"@,
        "body"@ != "kind"@,
        "body"@ != "source"@,
        "body"@ != "outcome"@,
        "body"@ != "created_at"@,
        "body"@ != "updated_at"@,
        "body"@ != "use_count"@,
        "body"@ != "success_count"@,
        "body"@ != "verified_at"@,
        "body"@ != "verify_attempted_at"@,
        "body"@ != "trusted_at"@,
        "kind"@ != "source"@,
        "kind"@ != "outcome"@,
        "kind"@ != "created_at"@,
        "kind"@ != "updated_at"@,
        "kind"@ != "use_count"@,
        "kind"@ != "success_count"@,
        "kind"@ != "verified_at"@,
        "kind"@ != "verify_attempted_at"@,
        "kind"@ != "trusted_at"@,
        "source"@ != "outcome"@,
        "source"@ != "created_at"@,
        "source"@ != "updated_at"@,
        "source"@ != "use_count"@,
        "source"@ != "success_count"@,
        "source"@ != "verified_at"@,
        "source"@ != "verify_attempted_at"@,
        "source"@ != "trusted_at"@,
        "outcome"@ != "created_at"@,
        "outcome"@ != "updated_at"@,
        "outcome"@ != "use_count"@,
        "outcome"@ != "success_count"@,
        "outcome"@ != "verified_at"@,
        "outcome"@ != "verify_attempted_at"@,
        "outcome"@ != "trusted_at"@,
        "created_at"@ != "updated_at"@,
        "created_at"@ != "use_count"@,
        "created_at"@ != "success_count"@,
        "created_at"@ != "verified_at"@,
        "created_at"@ != "verify_attempted_at"@,
        "created_at"@ != "trusted_at"@,
        "updated_at"@ != "use_count"@,
        "updated_at"@ != "success_count"@,
        "updated_at"@ != "verified_at"@,
        "updated_at"@ != "verify_attempted_at"@,
        "updated_at"@ != "trusted_at"@,
        "use_count"@ != "success_count"@,
        "use_count"@ != "verified_at"@,
        "use_count"@ != "verify_attempted_at"@,
        "use_count"@ != "trusted_at"@,
        "success_count"@ != "verified_at"@,
        "success_count"@ != "verify_attempted_at"@,
        "success_count"@ != "trusted_at"@,
        "verified_at"@ != "verify_attempted_at"@,
        "verified_at"@ != "trusted_at"@,
        "verify_attempted_at"@ != "trusted_at"@,
{
    reveal_strlit("tier");
    reveal_strlit("title");
    reveal_strlit("when_to_use");
    reveal_strlit("body");
    reveal_strlit("kind");
    reveal_strlit("source");
    reveal_strlit("outcome");
    reveal_strlit("created_at");
    reveal_strlit("updated_at");
    reveal_strlit("use_count");
    reveal_strlit("success_count");
    reveal_strlit("verified_at");
    reveal_strlit("verify_attempted_at");
    reveal_strlit("trusted_at");
    assert("tier"@.len() == 4);
    assert("title"@.len() == 5);
    assert("when_to_use"@.len() == 11);
    assert("body"@.len() == 4);
    assert("kind"@.len() == 4);
    assert("source"@.len() == 6);
    assert("outcome"@.len() == 7);
    assert("created_at"@.len() == 10);
    assert("updated_at"@.len() == 10);
    assert("use_count"@.len() == 9);
    assert("success_count"@.len() == 13);
    assert("verified_at"@.len() == 11);
    assert("verify_attempted_at"@.len() == 19);
    assert("trusted_at"@.len() == 10);
    assert("tier"@[0] == 't' && "body"@[0] == 'b');
    assert("tier"@[0] == 't' && "kind"@[0] == 'k');
    assert("when_to_use"@[0] == 'w' && "verified_at"@[0] == 'v');
    assert("body"@[0] == 'b' && "kind"@[0] == 'k');
    assert("created_at"@[0] == 'c' && "updated_at"@[0] == 'u');
    assert("created_at"@[0] == 'c' && "trusted_at"@[0] == 't');
    assert("updated_at"@[0] == 'u' && "trusted_at"@[0] == 't');
}

pub(crate) proof fn lemma_fact_keys()
    ensures
        "subject"@ != "value"@,
        "subject"@ != "claim"@,
        "subject"@ != "volatility"@,
        "subject"@ != "half_life_secs"@,
        "subject"@ != "confidence"@,
        "subject"@ != "sources"@,
        "subject"@ != "observed_at"@,
        "subject"@ != "valid_from"@,
        "subject"@ != "source"@,
        "value"@ != "claim"@,
        "value"@ != "volatility"@,
        "value"@ != "half_life_secs"@,
        "value"@ != "confidence"@,
        "value"@ != "sources"@,
        "value"@ != "observed_at"@,
        "value"@ != "valid_from"@,
        "value"@ != "source"@,
        "claim"@ != "volatility"@,
        "claim"@ != "half_life_secs"@,
        "claim"@ != "confidence"@,
        "claim"@ != "sources"@,
        "claim"@ != "observed_at"@,
        "claim"@ != "valid_from"@,
        "claim"@ != "source"@,
        "volatility"@ != "half_life_secs"@,
        "volatility"@ != "confidence"@,
        "volatility"@ != "sources"@,
        "volatility"@ != "observed_at"@,
        "volatility"@ != "valid_from"@,
        "volatility"@ != "source"@,
        "half_life_secs"@ != "confidence"@,
        "half_life_secs"@ != "sources"@,
        "half_life_secs"@ != "observed_at"@,
        "half_life_secs"@ != "valid_from"@,
        "half_life_secs"@ != "source"@,
        "confidence"@ != "sources"@,
        "confidence"@ != "observed_at"@,
        "confidence"@ != "valid_from"@,
        "confidence"@ != "source"@,
        "sources"@ != "observed_at"@,
        "sources"@ != "valid_from"@,
        "sources"@ != "source"@,
        "observed_at"@ != "valid_from"@,
        "observed_at"@ != "source"@,
        "valid_from"@ != "source"@,
{
    reveal_strlit("subject");
    reveal_strlit("value");
    reveal_strlit("claim");
    reveal_strlit("volatility");
    reveal_strlit("half_life_secs");
    reveal_strlit("confidence");
    reveal_strlit("sources");
    reveal_strlit("observed_at");
    reveal_strlit("valid_from");
    reveal_strlit("source");
    assert("subject"@.len() == 7);
    assert("value"@.len() == 5);
    assert("claim"@.len() == 5);
    assert("volatility"@.len() == 10);
    assert("half_life_secs"@.len() == 14);
    assert("confidence"@.len() == 10);
    assert("sources"@.len() == 7);
    assert("observed_at"@.len() == 11);
    assert("valid_from"@.len() == 10);
    assert("source"@.len() == 6);
    assert("subject"@[1] == 'u' && "sources"@[1] == 'o');
    assert("value"@[0] == 'v' && "claim"@[0] == 'c');
    assert("volatility"@[0] == 'v' && "confidence"@[0] == 'c');
    assert("volatility"@[1] == 'o' && "valid_from"@[1] == 'a');
    assert("confidence"@[0] == 'c' && "valid_from"@[0] == 'v');
}

pub(crate) proof fn lemma_rpc_keys()
    ensures
        "jsonrpc"@ != "id"@,
        "jsonrpc"@ != "method"@,
        "jsonrpc"@ != "params"@,
        "jsonrpc"@ != "name"@,
        "jsonrpc"@ != "arguments"@,
        "jsonrpc"@ != "library"@,
        "jsonrpc"@ != "query"@,
        "jsonrpc"@ != "limit"@,
        "jsonrpc"@ != "searchMode"@,
        "jsonrpc"@ != "engines"@,
        "jsonrpc"@ != "url"@,
        "jsonrpc"@ != "maxChars"@,
        "id"@ != "method"@,
        "id"@ != "params"@,
        "id"@ != "name"@,
        "id"@ != "arguments"@,
        "id"@ != "library"@,
        "id"@ != "query"@,
        "id"@ != "limit"@,
        "id"@ != "searchMode"@,
        "id"@ != "engines"@,
        "id"@ != "url"@,
        "id"@ != "maxChars"@,
        "method"@ != "params"@,
        "method"@ != "name"@,
        "method"@ != "arguments"@,
        "method"@ != "library"@,
        "method"@ != "query"@,
        "method"@ != "limit"@,
        "method"@ != "searchMode"@,
        "method"@ != "engines"@,
        "method"@ != "url"@,
        "method"@ != "maxChars"@,
        "params"@ != "name"@,
        "params"@ != "arguments"@,
        "params"@ != "library"@,
        "params"@ != "query"@,
        "params"@ != "limit"@,
        "params"@ != "searchMode"@,
        "params"@ != "engines"@,
        "params"@ != "url"@,
        "params"@ != "maxChars"@,
        "name"@ != "arguments"@,
        "name"@ != "library"@,
        "name"@ != "query"@,
        "name"@ != "limit"@,
        "name"@ != "searchMode"@,
        "name"@ != "engines"@,
        "name"@ != "url"@,
        "name"@ != "maxChars"@,
        "arguments"@ != "library"@,
        "arguments"@ != "query"@,
        "arguments"@ != "limit"@,
        "arguments"@ != "searchMode"@,
        "arguments"@ != "engines"@,
        "arguments"@ != "url"@,
        "arguments"@ != "maxChars"@,
        "library"@ != "query"@,
        "library"@ != "limit"@,
        "library"@ != "searchMode"@,
        "library"@ != "engines"@,
        "library"@ != "url"@,
        "library"@ != "maxChars"@,
        "query"@ != "limit"@,
        "query"@ != "searchMode"@,
        "query"@ != "engines"@,
        "query"@ != "url"@,
        "query"@ != "maxChars"@,
        "limit"@ != "searchMode"@,
        "limit"@ != "engines"@,
        "limit"@ != "url"@,
        "limit"@ != "maxChars"@,
        "searchMode"@ != "engines"@,
        "searchMode"@ != "url"@,
        "searchMode"@ != "maxChars"@,
        "engines"@ != "url"@,
        "engines"@ != "maxChars"@,
        "url"@ != "maxChars"@,
{
    reveal_strlit("jsonrpc");
    reveal_strlit("id");
    reveal_strlit("method");
    reveal_strlit("params");
    reveal_strlit("name");
    reveal_strlit("arguments");
    reveal_strlit("library");
    reveal_strlit("query");
    reveal_strlit("limit");
    reveal_strlit("searchMode");
    reveal_strlit("engines");
    reveal_strlit("url");
    reveal_strlit("maxChars");
    assert("jsonrpc"@.len() == 7);
    assert("id"@.len() == 2);
    assert("method"@.len() == 6);
    assert("params"@.len() == 6);
    assert("name"@.len() == 4);
    assert("arguments"@.len() == 9);
    assert("library"@.len() == 7);
    assert("query"@.len() == 5);
    assert("limit"@.len() == 5);
    assert("searchMode"@.len() == 10);
    assert("engines"@.len() == 7);
    assert("url"@.len() == 3);
    assert("maxChars"@.len() == 8);
    assert("jsonrpc"@[0] == 'j' && "library"@[0] == 'l');
    assert("jsonrpc"@[0] == 'j' && "engines"@[0] == 'e');
    assert("method"@[0] == 'm' && "params"@[0] == 'p');
    assert("library"@[0] == 'l' && "engines"@[0] == 'e');
    assert("query"@[0] == 'q' && "limit"@[0] == 'l');
}

pub(crate) proof fn lemma_models_keys()
    ensures
        "type"@ != "id"@,
        "type"@ != "display_name"@,
        "type"@ != "data"@,
        "type"@ != "first_id"@,
        "type"@ != "last_id"@,
        "type"@ != "has_more"@,
        "id"@ != "display_name"@,
        "id"@ != "data"@,
        "id"@ != "first_id"@,
        "id"@ != "last_id"@,
        "id"@ != "has_more"@,
        "display_name"@ != "data"@,
        "display_name"@ != "first_id"@,
        "display_name"@ != "last_id"@,
        "display_name"@ != "has_more"@,
        "data"@ != "first_id"@,
        "data"@ != "last_id"@,
        "data"@ != "has_more"@,
        "first_id"@ != "last_id"@,
        "first_id"@ != "has_more"@,
        "last_id"@ != "has_more"@,
{
    reveal_strlit("type");
    reveal_strlit("id");
    reveal_strlit("display_name");
    reveal_strlit("data");
    reveal_strlit("first_id");
    reveal_strlit("last_id");
    reveal_strlit("has_more");
    assert("type"@.len() == 4);
    assert("id"@.len() == 2);
    assert("display_name"@.len() == 12);
    assert("data"@.len() == 4);
    assert("first_id"@.len() == 8);
    assert("last_id"@.len() == 7);
    assert("has_more"@.len() == 8);
    assert("type"@[0] == 't' && "data"@[0] == 'd');
    assert("first_id"@[0] == 'f' && "has_more"@[0] == 'h');
}

pub(crate) proof fn lemma_schema_keys()
    ensures
        "type"@ != "properties"@,
        "type"@ != "required"@,
        "type"@ != "description"@,
        "properties"@ != "required"@,
        "properties"@ != "description"@,
        "required"@ != "description"@,
{
    reveal_strlit("type");
    reveal_strlit("properties");
    reveal_strlit("required");
    reveal_strlit("description");
    assert("type"@.len() == 4);
    assert("properties"@.len() == 10);
    assert("required"@.len() == 8);
    assert("description"@.len() == 11);
}

pub(crate) proof fn lemma_log_keys()
    ensures
        "t"@ != "ev"@,
        "t"@ != "title"@,
        "t"@ != "q"@,
        "t"@ != "dropped"@,
        "t"@ != "deduped"@,
        "t"@ != "from"@,
        "t"@ != "tier"@,
        "ev"@ != "title"@,
        "ev"@ != "q"@,
        "ev"@ != "dropped"@,
        "ev"@ != "deduped"@,
        "ev"@ != "from"@,
        "ev"@ != "tier"@,
        "title"@ != "q"@,
        "title"@ != "dropped"@,
        "title"@ != "deduped"@,
        "title"@ != "from"@,
        "title"@ != "tier"@,
        "q"@ != "dropped"@,
        "q"@ != "deduped"@,
        "q"@ != "from"@,
        "q"@ != "tier"@,
        "dropped"@ != "deduped"@,
        "dropped"@ != "from"@,
        "dropped"@ != "tier"@,
        "deduped"@ != "from"@,
        "deduped"@ != "tier"@,
        "from"@ != "tier"@,
{
    reveal_strlit("t");
    reveal_strlit("ev");
    reveal_strlit("title");
    reveal_strlit("q");
    reveal_strlit("dropped");
    reveal_strlit("deduped");
    reveal_strlit("from");
    reveal_strlit("tier");
    assert("t"@.len() == 1);
    assert("ev"@.len() == 2);
    assert("title"@.len() == 5);
    assert("q"@.len() == 1);
    assert("dropped"@.len() == 7);
    assert("deduped"@.len() == 7);
    assert("from"@.len() == 4);
    assert("tier"@.len() == 4);
    assert("t"@[0] == 't' && "q"@[0] == 'q');
    assert("dropped"@[1] == 'r' && "deduped"@[1] == 'e');
    assert("from"@[0] == 'f' && "tier"@[0] == 't');
}

} // verus!
