//! The names that the wire formats use are different texts.

use vstd::prelude::*;

verus! {

spec fn character(s: Seq<char>, i: int) -> int {
    if 0 <= i < s.len() {
        s[i] as int
    } else {
        0
    }
}

/// A number that tells the names of the wire formats apart, made of a text's length and five of
/// its characters.
pub(crate) closed spec fn mark(s: Seq<char>) -> int {
    let n = s.len() as int;
    n + 128 * (character(s, 0) + 128 * (character(s, n - 1) + 128 * (character(s, n / 2) + 128 * (
    character(s, n - 5) + 128 * character(s, n - 8)))))
}

proof fn first_names()
    ensures
        mark("-0.0"@) == 97261188,
        mark("0.0"@) == 97261571,
        mark("AnthropicMessages"@) == 2676779442321,
        mark("OpenAiChat"@) == 3498741409674,
        mark("OpenAiResponses"@) == 3500343617423,
        mark("[DONE]"@) == 18418724230,
        mark("accepted_prediction_tokens"@) == 3809589653658,
        mark("adaptive"@) == 3363204329608,
        mark("allowed_domains"@) == 3293635735695,
        mark("annotation"@) == 3805814698122,
        mark("annotation_index"@) == 3842351444112,
        mark("annotations"@) == 3845274792075,
        mark("any"@) == 232681603,
        mark("api_error"@) == 3875616370825,
        mark("application/octet-stream"@) == 4017102745752,
        mark("arguments"@) == 3946500124809,
        mark("assistant"@) == 3982483075209,
        mark("audio"@) == 26249785477,
        mark("audio_tokens"@) == 3843972460684,
        mark("auto"@) == 245100676,
        mark("background"@) == 3432456466698,
        mark("base64"@) == 26250916102,
        mark("bash"@) == 242888964,
        mark("bash_"@) == 26549416197,
        mark("bash_20250124"@) == 1732315525389,
        mark("blocked_domains"@) == 3293635735823,
        mark("browser"@) == 30047777031,
        mark("budget_tokens"@) == 4015727112461,
        mark("cache_creation_input_tokens"@) == 4015758569883,
        mark("cache_read_input_tokens"@) == 4015748084119,
        mark("cached_tokens"@) == 3465971298701,
        mark("call_"@) == 26803171717,
        mark("call_id"@) == 29219172743,
        mark("cancelled"@) == 3360220066185,
        mark("chat.completion"@) == 3772553867663,
        mark("chat.completion.chunk"@) == 3840719647125,
        mark("chat.content"@) == 1610310562188,
        mark("chat_audio_response"@) == 3947309396371,
        mark("chatcmpl_"@) == 3600197087625,
        mark("choices"@) == 30018433415,
        mark("citation"@) == 3427897422216,
        mark("citations"@) == 3639156208009,
        mark("citations_delta"@) == 3806647054735,
        mark("cited_text"@) == 4011432161674,
        mark("code_execution"@) == 4154789179790,
        mark("code_execution_"@) == 3501685469583,
        mark("code_execution_20250522"@) == 1732435030423,
        mark("code_interpreter"@) == 3501148909968,
        mark("completed"@) == 3843150131593,
        mark("completion_tokens"@) == 3809602236817,
        mark("completion_tokens_details"@) == 3295548338585,
        mark("computer"@) == 3431926116744,
        mark("computer_"@) == 3845584843145,
        mark("computer_20250124"@) == 1732414091665,
        mark("computer_use_preview"@) == 3291530260884,
        mark("container"@) == 3840174502281,
        mark("content"@) == 29773083015,
        mark("content_block"@) == 3806122930573,
        mark("content_block_delta"@) == 3428685738387,
        mark("content_block_start"@) == 3432712581523,
{
    assert(mark("-0.0"@) == 97261188) by {
        reveal_strlit("-0.0");
    }
    assert(mark("0.0"@) == 97261571) by {
        reveal_strlit("0.0");
    }
    assert(mark("AnthropicMessages"@) == 2676779442321) by {
        reveal_strlit("AnthropicMessages");
    }
    assert(mark("OpenAiChat"@) == 3498741409674) by {
        reveal_strlit("OpenAiChat");
    }
    assert(mark("OpenAiResponses"@) == 3500343617423) by {
        reveal_strlit("OpenAiResponses");
    }
    assert(mark("[DONE]"@) == 18418724230) by {
        reveal_strlit("[DONE]");
    }
    assert(mark("accepted_prediction_tokens"@) == 3809589653658) by {
        reveal_strlit("accepted_prediction_tokens");
    }
    assert(mark("adaptive"@) == 3363204329608) by {
        reveal_strlit("adaptive");
    }
    assert(mark("allowed_domains"@) == 3293635735695) by {
        reveal_strlit("allowed_domains");
    }
    assert(mark("annotation"@) == 3805814698122) by {
        reveal_strlit("annotation");
    }
    assert(mark("annotation_index"@) == 3842351444112) by {
        reveal_strlit("annotation_index");
    }
    assert(mark("annotations"@) == 3845274792075) by {
        reveal_strlit("annotations");
    }
    assert(mark("any"@) == 232681603) by {
        reveal_strlit("any");
    }
    assert(mark("api_error"@) == 3875616370825) by {
        reveal_strlit("api_error");
    }
    assert(mark("application/octet-stream"@) == 4017102745752) by {
        reveal_strlit("application/octet-stream");
    }
    assert(mark("arguments"@) == 3946500124809) by {
        reveal_strlit("arguments");
    }
    assert(mark("assistant"@) == 3982483075209) by {
        reveal_strlit("assistant");
    }
    assert(mark("audio"@) == 26249785477) by {
        reveal_strlit("audio");
    }
    assert(mark("audio_tokens"@) == 3843972460684) by {
        reveal_strlit("audio_tokens");
    }
    assert(mark("auto"@) == 245100676) by {
        reveal_strlit("auto");
    }
    assert(mark("background"@) == 3432456466698) by {
        reveal_strlit("background");
    }
    assert(mark("base64"@) == 26250916102) by {
        reveal_strlit("base64");
    }
    assert(mark("bash"@) == 242888964) by {
        reveal_strlit("bash");
    }
    assert(mark("bash_"@) == 26549416197) by {
        reveal_strlit("bash_");
    }
    assert(mark("bash_20250124"@) == 1732315525389) by {
        reveal_strlit("bash_20250124");
    }
    assert(mark("blocked_domains"@) == 3293635735823) by {
        reveal_strlit("blocked_domains");
    }
    assert(mark("browser"@) == 30047777031) by {
        reveal_strlit("browser");
    }
    assert(mark("budget_tokens"@) == 4015727112461) by {
        reveal_strlit("budget_tokens");
    }
    assert(mark("cache_creation_input_tokens"@) == 4015758569883) by {
        reveal_strlit("cache_creation_input_tokens");
    }
    assert(mark("cache_read_input_tokens"@) == 4015748084119) by {
        reveal_strlit("cache_read_input_tokens");
    }
    assert(mark("cached_tokens"@) == 3465971298701) by {
        reveal_strlit("cached_tokens");
    }
    assert(mark("call_"@) == 26803171717) by {
        reveal_strlit("call_");
    }
    assert(mark("call_id"@) == 29219172743) by {
        reveal_strlit("call_id");
    }
    assert(mark("cancelled"@) == 3360220066185) by {
        reveal_strlit("cancelled");
    }
    assert(mark("chat.completion"@) == 3772553867663) by {
        reveal_strlit("chat.completion");
    }
    assert(mark("chat.completion.chunk"@) == 3840719647125) by {
        reveal_strlit("chat.completion.chunk");
    }
    assert(mark("chat.content"@) == 1610310562188) by {
        reveal_strlit("chat.content");
    }
    assert(mark("chat_audio_response"@) == 3947309396371) by {
        reveal_strlit("chat_audio_response");
    }
    assert(mark("chatcmpl_"@) == 3600197087625) by {
        reveal_strlit("chatcmpl_");
    }
    assert(mark("choices"@) == 30018433415) by {
        reveal_strlit("choices");
    }
    assert(mark("citation"@) == 3427897422216) by {
        reveal_strlit("citation");
    }
    assert(mark("citations"@) == 3639156208009) by {
        reveal_strlit("citations");
    }
    assert(mark("citations_delta"@) == 3806647054735) by {
        reveal_strlit("citations_delta");
    }
    assert(mark("cited_text"@) == 4011432161674) by {
        reveal_strlit("cited_text");
    }
    assert(mark("code_execution"@) == 4154789179790) by {
        reveal_strlit("code_execution");
    }
    assert(mark("code_execution_"@) == 3501685469583) by {
        reveal_strlit("code_execution_");
    }
    assert(mark("code_execution_20250522"@) == 1732435030423) by {
        reveal_strlit("code_execution_20250522");
    }
    assert(mark("code_interpreter"@) == 3501148909968) by {
        reveal_strlit("code_interpreter");
    }
    assert(mark("completed"@) == 3843150131593) by {
        reveal_strlit("completed");
    }
    assert(mark("completion_tokens"@) == 3809602236817) by {
        reveal_strlit("completion_tokens");
    }
    assert(mark("completion_tokens_details"@) == 3295548338585) by {
        reveal_strlit("completion_tokens_details");
    }
    assert(mark("computer"@) == 3431926116744) by {
        reveal_strlit("computer");
    }
    assert(mark("computer_"@) == 3845584843145) by {
        reveal_strlit("computer_");
    }
    assert(mark("computer_20250124"@) == 1732414091665) by {
        reveal_strlit("computer_20250124");
    }
    assert(mark("computer_use_preview"@) == 3291530260884) by {
        reveal_strlit("computer_use_preview");
    }
    assert(mark("container"@) == 3840174502281) by {
        reveal_strlit("container");
    }
    assert(mark("content"@) == 29773083015) by {
        reveal_strlit("content");
    }
    assert(mark("content_block"@) == 3806122930573) by {
        reveal_strlit("content_block");
    }
    assert(mark("content_block_delta"@) == 3428685738387) by {
        reveal_strlit("content_block_delta");
    }
    assert(mark("content_block_start"@) == 3432712581523) by {
        reveal_strlit("content_block_start");
    }
}

proof fn second_names()
    ensures
        mark("content_block_stop"@) == 3839660667282,
        mark("content_filter"@) == 4014116483470,
        mark("content_index"@) == 3808002191757,
        mark("context_management"@) == 3806888538514,
        mark("conversation"@) == 3496614801804,
        mark("created"@) == 27317055879,
        mark("created_at"@) == 3497659281802,
        mark("data"@) == 244871684,
        mark("default"@) == 27585753607,
        mark("delta"@) == 27071640069,
        mark("description"@) == 3431900885515,
        mark("detail"@) == 27317187078,
        mark("developer"@) == 3499552977417,
        mark("disable_parallel_tool_use"@) == 4014948839961,
        mark("disabled"@) == 3462219248136,
        mark("display_height"@) == 4184841466382,
        mark("display_height_px"@) == 3498470945297,
        mark("display_width"@) == 3365093913101,
        mark("display_width_px"@) == 4120198918672,
        mark("document"@) == 3467611288072,
        mark("effort"@) == 27615113862,
        mark("enabled"@) == 26245411463,
        mark("encrypted_content"@) == 3293914673809,
        mark("end_char_index"@) == 3361321398926,
        mark("end_index"@) == 3807979123337,
        mark("end_turn"@) == 3496080028296,
        mark("environment"@) == 3637535126155,
        mark("error"@) == 27352937093,
        mark("event"@) == 27325706885,
        mark("failed"@) == 26266383110,
        mark("fc_"@) == 209187587,
        mark("file"@) == 228160260,
        mark("file_citation"@) == 3427874353933,
        mark("file_data"@) == 3633474728713,
        mark("file_id"@) == 29204493063,
        mark("file_url"@) == 3532006306568,
        mark("filename"@) == 3532037649160,
        mark("filters"@) == 29236196103,
        mark("finish_reason"@) == 3600725816077,
        mark("format"@) == 30026838790,
        mark("frequency_penalty"@) == 3293958796049,
        mark("function"@) == 3531513508616,
        mark("function_call"@) == 3633508463373,
        mark("function_call.name"@) == 3345451938578,
        mark("function_call_output"@) == 3742464029460,
        mark("function_call_output.call_id"@) == 1609773429532,
        mark("high"@) == 217723908,
        mark("id"@) == 211367042,
        mark("image"@) == 28390814853,
        mark("image_url"@) == 3772537058441,
        mark("in_progress"@) == 3876174230667,
        mark("include"@) == 26803270791,
        mark("incomplete"@) == 3431915418762,
        mark("incomplete_details"@) == 3295527367826,
        mark("index"@) == 28397417605,
        mark("inference_geo"@) == 3497678075021,
        mark("input"@) == 28422517893,
        mark("input_audio"@) == 4046328689803,
        mark("input_file"@) == 3873992963210,
        mark("input_image"@) == 4048476009611,
{
    assert(mark("content_block_stop"@) == 3839660667282) by {
        reveal_strlit("content_block_stop");
    }
    assert(mark("content_filter"@) == 4014116483470) by {
        reveal_strlit("content_filter");
    }
    assert(mark("content_index"@) == 3808002191757) by {
        reveal_strlit("content_index");
    }
    assert(mark("context_management"@) == 3806888538514) by {
        reveal_strlit("context_management");
    }
    assert(mark("conversation"@) == 3496614801804) by {
        reveal_strlit("conversation");
    }
    assert(mark("created"@) == 27317055879) by {
        reveal_strlit("created");
    }
    assert(mark("created_at"@) == 3497659281802) by {
        reveal_strlit("created_at");
    }
    assert(mark("data"@) == 244871684) by {
        reveal_strlit("data");
    }
    assert(mark("default"@) == 27585753607) by {
        reveal_strlit("default");
    }
    assert(mark("delta"@) == 27071640069) by {
        reveal_strlit("delta");
    }
    assert(mark("description"@) == 3431900885515) by {
        reveal_strlit("description");
    }
    assert(mark("detail"@) == 27317187078) by {
        reveal_strlit("detail");
    }
    assert(mark("developer"@) == 3499552977417) by {
        reveal_strlit("developer");
    }
    assert(mark("disable_parallel_tool_use"@) == 4014948839961) by {
        reveal_strlit("disable_parallel_tool_use");
    }
    assert(mark("disabled"@) == 3462219248136) by {
        reveal_strlit("disabled");
    }
    assert(mark("display_height"@) == 4184841466382) by {
        reveal_strlit("display_height");
    }
    assert(mark("display_height_px"@) == 3498470945297) by {
        reveal_strlit("display_height_px");
    }
    assert(mark("display_width"@) == 3365093913101) by {
        reveal_strlit("display_width");
    }
    assert(mark("display_width_px"@) == 4120198918672) by {
        reveal_strlit("display_width_px");
    }
    assert(mark("document"@) == 3467611288072) by {
        reveal_strlit("document");
    }
    assert(mark("effort"@) == 27615113862) by {
        reveal_strlit("effort");
    }
    assert(mark("enabled"@) == 26245411463) by {
        reveal_strlit("enabled");
    }
    assert(mark("encrypted_content"@) == 3293914673809) by {
        reveal_strlit("encrypted_content");
    }
    assert(mark("end_char_index"@) == 3361321398926) by {
        reveal_strlit("end_char_index");
    }
    assert(mark("end_index"@) == 3807979123337) by {
        reveal_strlit("end_index");
    }
    assert(mark("end_turn"@) == 3496080028296) by {
        reveal_strlit("end_turn");
    }
    assert(mark("environment"@) == 3637535126155) by {
        reveal_strlit("environment");
    }
    assert(mark("error"@) == 27352937093) by {
        reveal_strlit("error");
    }
    assert(mark("event"@) == 27325706885) by {
        reveal_strlit("event");
    }
    assert(mark("failed"@) == 26266383110) by {
        reveal_strlit("failed");
    }
    assert(mark("fc_"@) == 209187587) by {
        reveal_strlit("fc_");
    }
    assert(mark("file"@) == 228160260) by {
        reveal_strlit("file");
    }
    assert(mark("file_citation"@) == 3427874353933) by {
        reveal_strlit("file_citation");
    }
    assert(mark("file_data"@) == 3633474728713) by {
        reveal_strlit("file_data");
    }
    assert(mark("file_id"@) == 29204493063) by {
        reveal_strlit("file_id");
    }
    assert(mark("file_url"@) == 3532006306568) by {
        reveal_strlit("file_url");
    }
    assert(mark("filename"@) == 3532037649160) by {
        reveal_strlit("filename");
    }
    assert(mark("filters"@) == 29236196103) by {
        reveal_strlit("filters");
    }
    assert(mark("finish_reason"@) == 3600725816077) by {
        reveal_strlit("finish_reason");
    }
    assert(mark("format"@) == 30026838790) by {
        reveal_strlit("format");
    }
    assert(mark("frequency_penalty"@) == 3293958796049) by {
        reveal_strlit("frequency_penalty");
    }
    assert(mark("function"@) == 3531513508616) by {
        reveal_strlit("function");
    }
    assert(mark("function_call"@) == 3633508463373) by {
        reveal_strlit("function_call");
    }
    assert(mark("function_call.name"@) == 3345451938578) by {
        reveal_strlit("function_call.name");
    }
    assert(mark("function_call_output"@) == 3742464029460) by {
        reveal_strlit("function_call_output");
    }
    assert(mark("function_call_output.call_id"@) == 1609773429532) by {
        reveal_strlit("function_call_output.call_id");
    }
    assert(mark("high"@) == 217723908) by {
        reveal_strlit("high");
    }
    assert(mark("id"@) == 211367042) by {
        reveal_strlit("id");
    }
    assert(mark("image"@) == 28390814853) by {
        reveal_strlit("image");
    }
    assert(mark("image_url"@) == 3772537058441) by {
        reveal_strlit("image_url");
    }
    assert(mark("in_progress"@) == 3876174230667) by {
        reveal_strlit("in_progress");
    }
    assert(mark("include"@) == 26803270791) by {
        reveal_strlit("include");
    }
    assert(mark("incomplete"@) == 3431915418762) by {
        reveal_strlit("incomplete");
    }
    assert(mark("incomplete_details"@) == 3295527367826) by {
        reveal_strlit("incomplete_details");
    }
    assert(mark("index"@) == 28397417605) by {
        reveal_strlit("index");
    }
    assert(mark("inference_geo"@) == 3497678075021) by {
        reveal_strlit("inference_geo");
    }
    assert(mark("input"@) == 28422517893) by {
        reveal_strlit("input");
    }
    assert(mark("input_audio"@) == 4046328689803) by {
        reveal_strlit("input_audio");
    }
    assert(mark("input_file"@) == 3873992963210) by {
        reveal_strlit("input_file");
    }
    assert(mark("input_image"@) == 4048476009611) by {
        reveal_strlit("input_image");
    }
}

proof fn third_names()
    ensures
        mark("input_json_delta"@) == 3841008891024,
        mark("input_schema"@) == 4012547536012,
        mark("input_text"@) == 3873993208970,
        mark("input_tokens"@) == 4015771153548,
        mark("input_tokens_details"@) == 3295546242196,
        mark("instructions"@) == 3948358202508,
        mark("is_error"@) == 3635125466248,
        mark("item"@) == 213611652,
        mark("item_id"@) == 27342222471,
        mark("json_schema"@) == 3806389105931,
        mark("legacy_function_call"@) == 3633483298324,
        mark("legacy_function_result"@) == 3806928385558,
        mark("length"@) == 27329705478,
        mark("local_shell"@) == 3363965711883,
        mark("logit_bias"@) == 3564755547658,
        mark("logprobs"@) == 3741157488136,
        mark("low"@) == 234747395,
        mark("max_completion_tokens"@) == 3809612723861,
        mark("max_output_tokens"@) == 4015773251217,
        mark("max_tokens"@) == 4153199621770,
        mark("max_tool_calls"@) == 3840734459534,
        mark("max_uses"@) == 3770960115336,
        mark("mcp_servers"@) == 3294990497419,
        mark("media_type"@) == 3461676103306,
        mark("medium"@) == 27333981830,
        mark("message"@) == 31112918663,
        mark("message_delta"@) == 3566110013069,
        mark("message_start"@) == 3570136856205,
        mark("message_stop"@) == 3358609651340,
        mark("messages"@) == 3776286881416,
        mark("metadata"@) == 3771461039752,
        mark("modalities"@) == 3464381658762,
        mark("model"@) == 29470963333,
        mark("model_context_window_exceeded"@) == 3497696769693,
        mark("msg_"@) == 217577092,
        mark("n"@) == 232503041,
        mark("name"@) == 230258436,
        mark("none"@) == 232355588,
        mark("object"@) == 26520401798,
        mark("output"@) == 31643744134,
        mark("output.function_call.name"@) == 3345464522649,
        mark("output_config"@) == 4015726917517,
        mark("output_format"@) == 4015727130509,
        mark("output_index"@) == 4048476321676,
        mark("output_text"@) == 3874037249931,
        mark("output_tokens"@) == 4015727114125,
        mark("output_tokens_details"@) == 3295527368597,
        mark("parallel_tool_calls"@) == 3840751237139,
        mark("parameters"@) == 3944335865866,
        mark("part"@) == 240990212,
        mark("partial_json"@) == 3633502205964,
        mark("pause_turn"@) == 4045791803402,
        mark("ping"@) == 232388612,
        mark("prediction"@) == 3497118119946,
        mark("presence_penalty"@) == 3293904271376,
        mark("previous_response_id"@) == 3879374239764,
        mark("prompt"@) == 30832146438,
        mark("prompt_cache_key"@) == 3360212023312,
        mark("prompt_cache_retention"@) == 3500075104278,
        mark("prompt_tokens"@) == 4015727114253,
{
    assert(mark("input_json_delta"@) == 3841008891024) by {
        reveal_strlit("input_json_delta");
    }
    assert(mark("input_schema"@) == 4012547536012) by {
        reveal_strlit("input_schema");
    }
    assert(mark("input_text"@) == 3873993208970) by {
        reveal_strlit("input_text");
    }
    assert(mark("input_tokens"@) == 4015771153548) by {
        reveal_strlit("input_tokens");
    }
    assert(mark("input_tokens_details"@) == 3295546242196) by {
        reveal_strlit("input_tokens_details");
    }
    assert(mark("instructions"@) == 3948358202508) by {
        reveal_strlit("instructions");
    }
    assert(mark("is_error"@) == 3635125466248) by {
        reveal_strlit("is_error");
    }
    assert(mark("item"@) == 213611652) by {
        reveal_strlit("item");
    }
    assert(mark("item_id"@) == 27342222471) by {
        reveal_strlit("item_id");
    }
    assert(mark("json_schema"@) == 3806389105931) by {
        reveal_strlit("json_schema");
    }
    assert(mark("legacy_function_call"@) == 3633483298324) by {
        reveal_strlit("legacy_function_call");
    }
    assert(mark("legacy_function_result"@) == 3806928385558) by {
        reveal_strlit("legacy_function_result");
    }
    assert(mark("length"@) == 27329705478) by {
        reveal_strlit("length");
    }
    assert(mark("local_shell"@) == 3363965711883) by {
        reveal_strlit("local_shell");
    }
    assert(mark("logit_bias"@) == 3564755547658) by {
        reveal_strlit("logit_bias");
    }
    assert(mark("logprobs"@) == 3741157488136) by {
        reveal_strlit("logprobs");
    }
    assert(mark("low"@) == 234747395) by {
        reveal_strlit("low");
    }
    assert(mark("max_completion_tokens"@) == 3809612723861) by {
        reveal_strlit("max_completion_tokens");
    }
    assert(mark("max_output_tokens"@) == 4015773251217) by {
        reveal_strlit("max_output_tokens");
    }
    assert(mark("max_tokens"@) == 4153199621770) by {
        reveal_strlit("max_tokens");
    }
    assert(mark("max_tool_calls"@) == 3840734459534) by {
        reveal_strlit("max_tool_calls");
    }
    assert(mark("max_uses"@) == 3770960115336) by {
        reveal_strlit("max_uses");
    }
    assert(mark("mcp_servers"@) == 3294990497419) by {
        reveal_strlit("mcp_servers");
    }
    assert(mark("media_type"@) == 3461676103306) by {
        reveal_strlit("media_type");
    }
    assert(mark("medium"@) == 27333981830) by {
        reveal_strlit("medium");
    }
    assert(mark("message"@) == 31112918663) by {
        reveal_strlit("message");
    }
    assert(mark("message_delta"@) == 3566110013069) by {
        reveal_strlit("message_delta");
    }
    assert(mark("message_start"@) == 3570136856205) by {
        reveal_strlit("message_start");
    }
    assert(mark("message_stop"@) == 3358609651340) by {
        reveal_strlit("message_stop");
    }
    assert(mark("messages"@) == 3776286881416) by {
        reveal_strlit("messages");
    }
    assert(mark("metadata"@) == 3771461039752) by {
        reveal_strlit("metadata");
    }
    assert(mark("modalities"@) == 3464381658762) by {
        reveal_strlit("modalities");
    }
    assert(mark("model"@) == 29470963333) by {
        reveal_strlit("model");
    }
    assert(mark("model_context_window_exceeded"@) == 3497696769693) by {
        reveal_strlit("model_context_window_exceeded");
    }
    assert(mark("msg_"@) == 217577092) by {
        reveal_strlit("msg_");
    }
    assert(mark("n"@) == 232503041) by {
        reveal_strlit("n");
    }
    assert(mark("name"@) == 230258436) by {
        reveal_strlit("name");
    }
    assert(mark("none"@) == 232355588) by {
        reveal_strlit("none");
    }
    assert(mark("object"@) == 26520401798) by {
        reveal_strlit("object");
    }
    assert(mark("output"@) == 31643744134) by {
        reveal_strlit("output");
    }
    assert(mark("output.function_call.name"@) == 3345464522649) by {
        reveal_strlit("output.function_call.name");
    }
    assert(mark("output_config"@) == 4015726917517) by {
        reveal_strlit("output_config");
    }
    assert(mark("output_format"@) == 4015727130509) by {
        reveal_strlit("output_format");
    }
    assert(mark("output_index"@) == 4048476321676) by {
        reveal_strlit("output_index");
    }
    assert(mark("output_text"@) == 3874037249931) by {
        reveal_strlit("output_text");
    }
    assert(mark("output_tokens"@) == 4015727114125) by {
        reveal_strlit("output_tokens");
    }
    assert(mark("output_tokens_details"@) == 3295527368597) by {
        reveal_strlit("output_tokens_details");
    }
    assert(mark("parallel_tool_calls"@) == 3840751237139) by {
        reveal_strlit("parallel_tool_calls");
    }
    assert(mark("parameters"@) == 3944335865866) by {
        reveal_strlit("parameters");
    }
    assert(mark("part"@) == 240990212) by {
        reveal_strlit("part");
    }
    assert(mark("partial_json"@) == 3633502205964) by {
        reveal_strlit("partial_json");
    }
    assert(mark("pause_turn"@) == 4045791803402) by {
        reveal_strlit("pause_turn");
    }
    assert(mark("ping"@) == 232388612) by {
        reveal_strlit("ping");
    }
    assert(mark("prediction"@) == 3497118119946) by {
        reveal_strlit("prediction");
    }
    assert(mark("presence_penalty"@) == 3293904271376) by {
        reveal_strlit("presence_penalty");
    }
    assert(mark("previous_response_id"@) == 3879374239764) by {
        reveal_strlit("previous_response_id");
    }
    assert(mark("prompt"@) == 30832146438) by {
        reveal_strlit("prompt");
    }
    assert(mark("prompt_cache_key"@) == 3360212023312) by {
        reveal_strlit("prompt_cache_key");
    }
    assert(mark("prompt_cache_retention"@) == 3500075104278) by {
        reveal_strlit("prompt_cache_retention");
    }
    assert(mark("prompt_tokens"@) == 4015727114253) by {
        reveal_strlit("prompt_tokens");
    }
}

proof fn fourth_names()
    ensures
        mark("prompt_tokens_details"@) == 3295527368725,
        mark("raw_finish_reason"@) == 3600767760657,
        mark("reason"@) == 27354970374,
        mark("reasoning"@) == 3500364396809,
        mark("reasoning_content"@) == 3293920966929,
        mark("reasoning_effort"@) == 3566651390224,
        mark("reasoning_signature"@) == 3634011666707,
        mark("reasoning_text"@) == 3633506498830,
        mark("reasoning_tokens"@) == 3569067292944,
        mark("redacted_thinking"@) == 4015458482449,
        mark("refusal"@) == 27627567367,
        mark("rejected_prediction_tokens"@) == 3809589655834,
        mark("required"@) == 3948638976264,
        mark("resp_"@) == 30844385541,
        mark("response"@) == 3947309398280,
        mark("response.completed"@) == 3843131259154,
        mark("response.content_part.added"@) == 3943261878555,
        mark("response.content_part.done"@) == 3345456134426,
        mark("response.created"@) == 1607758067984,
        mark("response.failed"@) == 3496585279759,
        mark("response.function_call_arguments.delta"@) == 4012778223910,
        mark("response.function_call_arguments.done"@) == 3792128538917,
        mark("response.in_progress"@) == 3876172134676,
        mark("response.incomplete"@) == 3431900739859,
        mark("response.output_item.added"@) == 3496618834202,
        mark("response.output_item.done"@) == 3998314232089,
        mark("response.output_text.annotation.added"@) == 3840222509349,
        mark("response.output_text.delta"@) == 4150259120410,
        mark("response.output_text.done"@) == 3482918156569,
        mark("response.queued"@) == 3501953988879,
        mark("response.reasoning_summary_part.added"@) == 3943249295653,
        mark("response.reasoning_summary_part.done"@) == 3345443551524,
        mark("response.reasoning_summary_text.delta"@) == 4150212983077,
        mark("response.reasoning_summary_text.done"@) == 3482882504996,
        mark("response.reasoning_text.delta"@) == 4150244440349,
        mark("response.reasoning_text.done"@) == 3482913962268,
        mark("response.refusal.delta"@) == 3359953680662,
        mark("response.refusal.done"@) == 3963931425045,
        mark("response_format"@) == 3500343638287,
        mark("response_id"@) == 3879393114379,
        mark("responses.content"@) == 1610318952721,
        mark("retry"@) == 30846908677,
        mark("role"@) == 228161796,
        mark("rs_"@) == 242743555,
        mark("safety_identifier"@) == 3498730895761,
        mark("search_context_size"@) == 3496067299731,
        mark("seed"@) == 213465476,
        mark("sequence_number"@) == 3501954218383,
        mark("server_tool_use"@) == 4014965619087,
        mark("service_tier"@) == 3633487591820,
        mark("signature"@) == 3634015861129,
        mark("signature_delta"@) == 3944094398863,
        mark("source"@) == 30037080454,
        mark("speed"@) == 31083542917,
        mark("standard_only"@) == 3358637062541,
        mark("start_char_index"@) == 3361285749136,
        mark("start_index"@) == 3945397107083,
        mark("status"@) == 31383681414,
        mark("stop"@) == 234633604,
        mark("stop_reason"@) == 3875643570571,
{
    assert(mark("prompt_tokens_details"@) == 3295527368725) by {
        reveal_strlit("prompt_tokens_details");
    }
    assert(mark("raw_finish_reason"@) == 3600767760657) by {
        reveal_strlit("raw_finish_reason");
    }
    assert(mark("reason"@) == 27354970374) by {
        reveal_strlit("reason");
    }
    assert(mark("reasoning"@) == 3500364396809) by {
        reveal_strlit("reasoning");
    }
    assert(mark("reasoning_content"@) == 3293920966929) by {
        reveal_strlit("reasoning_content");
    }
    assert(mark("reasoning_effort"@) == 3566651390224) by {
        reveal_strlit("reasoning_effort");
    }
    assert(mark("reasoning_signature"@) == 3634011666707) by {
        reveal_strlit("reasoning_signature");
    }
    assert(mark("reasoning_text"@) == 3633506498830) by {
        reveal_strlit("reasoning_text");
    }
    assert(mark("reasoning_tokens"@) == 3569067292944) by {
        reveal_strlit("reasoning_tokens");
    }
    assert(mark("redacted_thinking"@) == 4015458482449) by {
        reveal_strlit("redacted_thinking");
    }
    assert(mark("refusal"@) == 27627567367) by {
        reveal_strlit("refusal");
    }
    assert(mark("rejected_prediction_tokens"@) == 3809589655834) by {
        reveal_strlit("rejected_prediction_tokens");
    }
    assert(mark("required"@) == 3948638976264) by {
        reveal_strlit("required");
    }
    assert(mark("resp_"@) == 30844385541) by {
        reveal_strlit("resp_");
    }
    assert(mark("response"@) == 3947309398280) by {
        reveal_strlit("response");
    }
    assert(mark("response.completed"@) == 3843131259154) by {
        reveal_strlit("response.completed");
    }
    assert(mark("response.content_part.added"@) == 3943261878555) by {
        reveal_strlit("response.content_part.added");
    }
    assert(mark("response.content_part.done"@) == 3345456134426) by {
        reveal_strlit("response.content_part.done");
    }
    assert(mark("response.created"@) == 1607758067984) by {
        reveal_strlit("response.created");
    }
    assert(mark("response.failed"@) == 3496585279759) by {
        reveal_strlit("response.failed");
    }
    assert(mark("response.function_call_arguments.delta"@) == 4012778223910) by {
        reveal_strlit("response.function_call_arguments.delta");
    }
    assert(mark("response.function_call_arguments.done"@) == 3792128538917) by {
        reveal_strlit("response.function_call_arguments.done");
    }
    assert(mark("response.in_progress"@) == 3876172134676) by {
        reveal_strlit("response.in_progress");
    }
    assert(mark("response.incomplete"@) == 3431900739859) by {
        reveal_strlit("response.incomplete");
    }
    assert(mark("response.output_item.added"@) == 3496618834202) by {
        reveal_strlit("response.output_item.added");
    }
    assert(mark("response.output_item.done"@) == 3998314232089) by {
        reveal_strlit("response.output_item.done");
    }
    assert(mark("response.output_text.annotation.added"@) == 3840222509349) by {
        reveal_strlit("response.output_text.annotation.added");
    }
    assert(mark("response.output_text.delta"@) == 4150259120410) by {
        reveal_strlit("response.output_text.delta");
    }
    assert(mark("response.output_text.done"@) == 3482918156569) by {
        reveal_strlit("response.output_text.done");
    }
    assert(mark("response.queued"@) == 3501953988879) by {
        reveal_strlit("response.queued");
    }
    assert(mark("response.reasoning_summary_part.added"@) == 3943249295653) by {
        reveal_strlit("response.reasoning_summary_part.added");
    }
    assert(mark("response.reasoning_summary_part.done"@) == 3345443551524) by {
        reveal_strlit("response.reasoning_summary_part.done");
    }
    assert(mark("response.reasoning_summary_text.delta"@) == 4150212983077) by {
        reveal_strlit("response.reasoning_summary_text.delta");
    }
    assert(mark("response.reasoning_summary_text.done"@) == 3482882504996) by {
        reveal_strlit("response.reasoning_summary_text.done");
    }
    assert(mark("response.reasoning_text.delta"@) == 4150244440349) by {
        reveal_strlit("response.reasoning_text.delta");
    }
    assert(mark("response.reasoning_text.done"@) == 3482913962268) by {
        reveal_strlit("response.reasoning_text.done");
    }
    assert(mark("response.refusal.delta"@) == 3359953680662) by {
        reveal_strlit("response.refusal.delta");
    }
    assert(mark("response.refusal.done"@) == 3963931425045) by {
        reveal_strlit("response.refusal.done");
    }
    assert(mark("response_format"@) == 3500343638287) by {
        reveal_strlit("response_format");
    }
    assert(mark("response_id"@) == 3879393114379) by {
        reveal_strlit("response_id");
    }
    assert(mark("responses.content"@) == 1610318952721) by {
        reveal_strlit("responses.content");
    }
    assert(mark("retry"@) == 30846908677) by {
        reveal_strlit("retry");
    }
    assert(mark("role"@) == 228161796) by {
        reveal_strlit("role");
    }
    assert(mark("rs_"@) == 242743555) by {
        reveal_strlit("rs_");
    }
    assert(mark("safety_identifier"@) == 3498730895761) by {
        reveal_strlit("safety_identifier");
    }
    assert(mark("search_context_size"@) == 3496067299731) by {
        reveal_strlit("search_context_size");
    }
    assert(mark("seed"@) == 213465476) by {
        reveal_strlit("seed");
    }
    assert(mark("sequence_number"@) == 3501954218383) by {
        reveal_strlit("sequence_number");
    }
    assert(mark("server_tool_use"@) == 4014965619087) by {
        reveal_strlit("server_tool_use");
    }
    assert(mark("service_tier"@) == 3633487591820) by {
        reveal_strlit("service_tier");
    }
    assert(mark("signature"@) == 3634015861129) by {
        reveal_strlit("signature");
    }
    assert(mark("signature_delta"@) == 3944094398863) by {
        reveal_strlit("signature_delta");
    }
    assert(mark("source"@) == 30037080454) by {
        reveal_strlit("source");
    }
    assert(mark("speed"@) == 31083542917) by {
        reveal_strlit("speed");
    }
    assert(mark("standard_only"@) == 3358637062541) by {
        reveal_strlit("standard_only");
    }
    assert(mark("start_char_index"@) == 3361285749136) by {
        reveal_strlit("start_char_index");
    }
    assert(mark("start_index"@) == 3945397107083) by {
        reveal_strlit("start_index");
    }
    assert(mark("status"@) == 31383681414) by {
        reveal_strlit("status");
    }
    assert(mark("stop"@) == 234633604) by {
        reveal_strlit("stop");
    }
    assert(mark("stop_reason"@) == 3875643570571) by {
        reveal_strlit("stop_reason");
    }
}

proof fn fifth_names()
    ensures
        mark("stop_sequence"@) == 3982990342541,
        mark("stop_sequences"@) == 3497684433294,
        mark("store"@) == 31104530821,
        mark("stream"@) == 31352125830,
        mark("stream_json"@) == 3496065350027,
        mark("stream_options"@) == 3295548340622,
        mark("strict"@) == 31360629126,
        mark("summary"@) == 29490051463,
        mark("summary_index"@) == 3945451633037,
        mark("summary_text"@) == 3358651660684,
        mark("system"@) == 32725760390,
        mark("temperature"@) == 3874569681419,
        mark("text"@) == 253573636,
        mark("text/plain"@) == 4153470073354,
        mark("text_delta"@) == 4150223469066,
        mark("thinking"@) == 4015483648520,
        mark("thinking_delta"@) == 3806632376846,
        mark("title"@) == 31383452165,
        mark("tool"@) == 234568196,
        mark("tool_call"@) == 3839633340937,
        mark("tool_call_id"@) == 3293371251212,
        mark("tool_calls"@) == 3840715586058,
        mark("tool_calls.function.name"@) == 3620367596056,
        mark("tool_choice"@) == 3738978318859,
        mark("tool_message.content"@) == 1610293787156,
        mark("tool_result"@) == 3738204715531,
        mark("tool_use"@) == 4014921579016,
        mark("tool_use_id"@) == 3741968841227,
        mark("tools"@) == 31373195781,
        mark("tools.name"@) == 3826377128458,
        mark("toolu_"@) == 30024399366,
        mark("top_k"@) == 31375161861,
        mark("top_logprobs"@) == 3741134420492,
        mark("top_p"@) == 31375243781,
        mark("total_tokens"@) == 3740893248012,
        mark("truncation"@) == 4046332869130,
        mark("type"@) == 236550660,
        mark("unknown"@) == 28955097735,
        mark("url"@) == 240859779,
        mark("url_citation"@) == 3427897424524,
        mark("usage"@) == 31612041861,
        mark("user"@) == 213695108,
        mark("user_id"@) == 27352709767,
        mark("user_location"@) == 3737124584077,
        mark("value"@) == 31903546117,
        mark("verbosity"@) == 3500364692233,
        mark("web_search"@) == 3394579872650,
        mark("web_search_20250305"@) == 1732432984979,
        mark("web_search_options"@) == 3295533661074,
        mark("web_search_preview"@) == 3291507194770,
        mark("web_search_result_location"@) == 3737132972954,
        mark("x-"@) == 95124482,
{
    assert(mark("stop_sequence"@) == 3982990342541) by {
        reveal_strlit("stop_sequence");
    }
    assert(mark("stop_sequences"@) == 3497684433294) by {
        reveal_strlit("stop_sequences");
    }
    assert(mark("store"@) == 31104530821) by {
        reveal_strlit("store");
    }
    assert(mark("stream"@) == 31352125830) by {
        reveal_strlit("stream");
    }
    assert(mark("stream_json"@) == 3496065350027) by {
        reveal_strlit("stream_json");
    }
    assert(mark("stream_options"@) == 3295548340622) by {
        reveal_strlit("stream_options");
    }
    assert(mark("strict"@) == 31360629126) by {
        reveal_strlit("strict");
    }
    assert(mark("summary"@) == 29490051463) by {
        reveal_strlit("summary");
    }
    assert(mark("summary_index"@) == 3945451633037) by {
        reveal_strlit("summary_index");
    }
    assert(mark("summary_text"@) == 3358651660684) by {
        reveal_strlit("summary_text");
    }
    assert(mark("system"@) == 32725760390) by {
        reveal_strlit("system");
    }
    assert(mark("temperature"@) == 3874569681419) by {
        reveal_strlit("temperature");
    }
    assert(mark("text"@) == 253573636) by {
        reveal_strlit("text");
    }
    assert(mark("text/plain"@) == 4153470073354) by {
        reveal_strlit("text/plain");
    }
    assert(mark("text_delta"@) == 4150223469066) by {
        reveal_strlit("text_delta");
    }
    assert(mark("thinking"@) == 4015483648520) by {
        reveal_strlit("thinking");
    }
    assert(mark("thinking_delta"@) == 3806632376846) by {
        reveal_strlit("thinking_delta");
    }
    assert(mark("title"@) == 31383452165) by {
        reveal_strlit("title");
    }
    assert(mark("tool"@) == 234568196) by {
        reveal_strlit("tool");
    }
    assert(mark("tool_call"@) == 3839633340937) by {
        reveal_strlit("tool_call");
    }
    assert(mark("tool_call_id"@) == 3293371251212) by {
        reveal_strlit("tool_call_id");
    }
    assert(mark("tool_calls"@) == 3840715586058) by {
        reveal_strlit("tool_calls");
    }
    assert(mark("tool_calls.function.name"@) == 3620367596056) by {
        reveal_strlit("tool_calls.function.name");
    }
    assert(mark("tool_choice"@) == 3738978318859) by {
        reveal_strlit("tool_choice");
    }
    assert(mark("tool_message.content"@) == 1610293787156) by {
        reveal_strlit("tool_message.content");
    }
    assert(mark("tool_result"@) == 3738204715531) by {
        reveal_strlit("tool_result");
    }
    assert(mark("tool_use"@) == 4014921579016) by {
        reveal_strlit("tool_use");
    }
    assert(mark("tool_use_id"@) == 3741968841227) by {
        reveal_strlit("tool_use_id");
    }
    assert(mark("tools"@) == 31373195781) by {
        reveal_strlit("tools");
    }
    assert(mark("tools.name"@) == 3826377128458) by {
        reveal_strlit("tools.name");
    }
    assert(mark("toolu_"@) == 30024399366) by {
        reveal_strlit("toolu_");
    }
    assert(mark("top_k"@) == 31375161861) by {
        reveal_strlit("top_k");
    }
    assert(mark("top_logprobs"@) == 3741134420492) by {
        reveal_strlit("top_logprobs");
    }
    assert(mark("top_p"@) == 31375243781) by {
        reveal_strlit("top_p");
    }
    assert(mark("total_tokens"@) == 3740893248012) by {
        reveal_strlit("total_tokens");
    }
    assert(mark("truncation"@) == 4046332869130) by {
        reveal_strlit("truncation");
    }
    assert(mark("type"@) == 236550660) by {
        reveal_strlit("type");
    }
    assert(mark("unknown"@) == 28955097735) by {
        reveal_strlit("unknown");
    }
    assert(mark("url"@) == 240859779) by {
        reveal_strlit("url");
    }
    assert(mark("url_citation"@) == 3427897424524) by {
        reveal_strlit("url_citation");
    }
    assert(mark("usage"@) == 31612041861) by {
        reveal_strlit("usage");
    }
    assert(mark("user"@) == 213695108) by {
        reveal_strlit("user");
    }
    assert(mark("user_id"@) == 27352709767) by {
        reveal_strlit("user_id");
    }
    assert(mark("user_location"@) == 3737124584077) by {
        reveal_strlit("user_location");
    }
    assert(mark("value"@) == 31903546117) by {
        reveal_strlit("value");
    }
    assert(mark("verbosity"@) == 3500364692233) by {
        reveal_strlit("verbosity");
    }
    assert(mark("web_search"@) == 3394579872650) by {
        reveal_strlit("web_search");
    }
    assert(mark("web_search_20250305"@) == 1732432984979) by {
        reveal_strlit("web_search_20250305");
    }
    assert(mark("web_search_options"@) == 3295533661074) by {
        reveal_strlit("web_search_options");
    }
    assert(mark("web_search_preview"@) == 3291507194770) by {
        reveal_strlit("web_search_preview");
    }
    assert(mark("web_search_result_location"@) == 3737132972954) by {
        reveal_strlit("web_search_result_location");
    }
    assert(mark("x-"@) == 95124482) by {
        reveal_strlit("x-");
    }
}

/// The names that the wire formats use have different marks, so they are different texts.
pub(crate) proof fn names_differ()
    ensures
        mark(""@) == 0,
        mark("-0.0"@) == 97261188,
        mark("0.0"@) == 97261571,
        mark("AnthropicMessages"@) == 2676779442321,
        mark("OpenAiChat"@) == 3498741409674,
        mark("OpenAiResponses"@) == 3500343617423,
        mark("[DONE]"@) == 18418724230,
        mark("accepted_prediction_tokens"@) == 3809589653658,
        mark("adaptive"@) == 3363204329608,
        mark("allowed_domains"@) == 3293635735695,
        mark("annotation"@) == 3805814698122,
        mark("annotation_index"@) == 3842351444112,
        mark("annotations"@) == 3845274792075,
        mark("any"@) == 232681603,
        mark("api_error"@) == 3875616370825,
        mark("application/octet-stream"@) == 4017102745752,
        mark("arguments"@) == 3946500124809,
        mark("assistant"@) == 3982483075209,
        mark("audio"@) == 26249785477,
        mark("audio_tokens"@) == 3843972460684,
        mark("auto"@) == 245100676,
        mark("background"@) == 3432456466698,
        mark("base64"@) == 26250916102,
        mark("bash"@) == 242888964,
        mark("bash_"@) == 26549416197,
        mark("bash_20250124"@) == 1732315525389,
        mark("blocked_domains"@) == 3293635735823,
        mark("browser"@) == 30047777031,
        mark("budget_tokens"@) == 4015727112461,
        mark("cache_creation_input_tokens"@) == 4015758569883,
        mark("cache_read_input_tokens"@) == 4015748084119,
        mark("cached_tokens"@) == 3465971298701,
        mark("call_"@) == 26803171717,
        mark("call_id"@) == 29219172743,
        mark("cancelled"@) == 3360220066185,
        mark("chat.completion"@) == 3772553867663,
        mark("chat.completion.chunk"@) == 3840719647125,
        mark("chat.content"@) == 1610310562188,
        mark("chat_audio_response"@) == 3947309396371,
        mark("chatcmpl_"@) == 3600197087625,
        mark("choices"@) == 30018433415,
        mark("citation"@) == 3427897422216,
        mark("citations"@) == 3639156208009,
        mark("citations_delta"@) == 3806647054735,
        mark("cited_text"@) == 4011432161674,
        mark("code_execution"@) == 4154789179790,
        mark("code_execution_"@) == 3501685469583,
        mark("code_execution_20250522"@) == 1732435030423,
        mark("code_interpreter"@) == 3501148909968,
        mark("completed"@) == 3843150131593,
        mark("completion_tokens"@) == 3809602236817,
        mark("completion_tokens_details"@) == 3295548338585,
        mark("computer"@) == 3431926116744,
        mark("computer_"@) == 3845584843145,
        mark("computer_20250124"@) == 1732414091665,
        mark("computer_use_preview"@) == 3291530260884,
        mark("container"@) == 3840174502281,
        mark("content"@) == 29773083015,
        mark("content_block"@) == 3806122930573,
        mark("content_block_delta"@) == 3428685738387,
        mark("content_block_start"@) == 3432712581523,
        mark("content_block_stop"@) == 3839660667282,
        mark("content_filter"@) == 4014116483470,
        mark("content_index"@) == 3808002191757,
        mark("context_management"@) == 3806888538514,
        mark("conversation"@) == 3496614801804,
        mark("created"@) == 27317055879,
        mark("created_at"@) == 3497659281802,
        mark("data"@) == 244871684,
        mark("default"@) == 27585753607,
        mark("delta"@) == 27071640069,
        mark("description"@) == 3431900885515,
        mark("detail"@) == 27317187078,
        mark("developer"@) == 3499552977417,
        mark("disable_parallel_tool_use"@) == 4014948839961,
        mark("disabled"@) == 3462219248136,
        mark("display_height"@) == 4184841466382,
        mark("display_height_px"@) == 3498470945297,
        mark("display_width"@) == 3365093913101,
        mark("display_width_px"@) == 4120198918672,
        mark("document"@) == 3467611288072,
        mark("effort"@) == 27615113862,
        mark("enabled"@) == 26245411463,
        mark("encrypted_content"@) == 3293914673809,
        mark("end_char_index"@) == 3361321398926,
        mark("end_index"@) == 3807979123337,
        mark("end_turn"@) == 3496080028296,
        mark("environment"@) == 3637535126155,
        mark("error"@) == 27352937093,
        mark("event"@) == 27325706885,
        mark("failed"@) == 26266383110,
        mark("fc_"@) == 209187587,
        mark("file"@) == 228160260,
        mark("file_citation"@) == 3427874353933,
        mark("file_data"@) == 3633474728713,
        mark("file_id"@) == 29204493063,
        mark("file_url"@) == 3532006306568,
        mark("filename"@) == 3532037649160,
        mark("filters"@) == 29236196103,
        mark("finish_reason"@) == 3600725816077,
        mark("format"@) == 30026838790,
        mark("frequency_penalty"@) == 3293958796049,
        mark("function"@) == 3531513508616,
        mark("function_call"@) == 3633508463373,
        mark("function_call.name"@) == 3345451938578,
        mark("function_call_output"@) == 3742464029460,
        mark("function_call_output.call_id"@) == 1609773429532,
        mark("high"@) == 217723908,
        mark("id"@) == 211367042,
        mark("image"@) == 28390814853,
        mark("image_url"@) == 3772537058441,
        mark("in_progress"@) == 3876174230667,
        mark("include"@) == 26803270791,
        mark("incomplete"@) == 3431915418762,
        mark("incomplete_details"@) == 3295527367826,
        mark("index"@) == 28397417605,
        mark("inference_geo"@) == 3497678075021,
        mark("input"@) == 28422517893,
        mark("input_audio"@) == 4046328689803,
        mark("input_file"@) == 3873992963210,
        mark("input_image"@) == 4048476009611,
        mark("input_json_delta"@) == 3841008891024,
        mark("input_schema"@) == 4012547536012,
        mark("input_text"@) == 3873993208970,
        mark("input_tokens"@) == 4015771153548,
        mark("input_tokens_details"@) == 3295546242196,
        mark("instructions"@) == 3948358202508,
        mark("is_error"@) == 3635125466248,
        mark("item"@) == 213611652,
        mark("item_id"@) == 27342222471,
        mark("json_schema"@) == 3806389105931,
        mark("legacy_function_call"@) == 3633483298324,
        mark("legacy_function_result"@) == 3806928385558,
        mark("length"@) == 27329705478,
        mark("local_shell"@) == 3363965711883,
        mark("logit_bias"@) == 3564755547658,
        mark("logprobs"@) == 3741157488136,
        mark("low"@) == 234747395,
        mark("max_completion_tokens"@) == 3809612723861,
        mark("max_output_tokens"@) == 4015773251217,
        mark("max_tokens"@) == 4153199621770,
        mark("max_tool_calls"@) == 3840734459534,
        mark("max_uses"@) == 3770960115336,
        mark("mcp_servers"@) == 3294990497419,
        mark("media_type"@) == 3461676103306,
        mark("medium"@) == 27333981830,
        mark("message"@) == 31112918663,
        mark("message_delta"@) == 3566110013069,
        mark("message_start"@) == 3570136856205,
        mark("message_stop"@) == 3358609651340,
        mark("messages"@) == 3776286881416,
        mark("metadata"@) == 3771461039752,
        mark("modalities"@) == 3464381658762,
        mark("model"@) == 29470963333,
        mark("model_context_window_exceeded"@) == 3497696769693,
        mark("msg_"@) == 217577092,
        mark("n"@) == 232503041,
        mark("name"@) == 230258436,
        mark("none"@) == 232355588,
        mark("object"@) == 26520401798,
        mark("output"@) == 31643744134,
        mark("output.function_call.name"@) == 3345464522649,
        mark("output_config"@) == 4015726917517,
        mark("output_format"@) == 4015727130509,
        mark("output_index"@) == 4048476321676,
        mark("output_text"@) == 3874037249931,
        mark("output_tokens"@) == 4015727114125,
        mark("output_tokens_details"@) == 3295527368597,
        mark("parallel_tool_calls"@) == 3840751237139,
        mark("parameters"@) == 3944335865866,
        mark("part"@) == 240990212,
        mark("partial_json"@) == 3633502205964,
        mark("pause_turn"@) == 4045791803402,
        mark("ping"@) == 232388612,
        mark("prediction"@) == 3497118119946,
        mark("presence_penalty"@) == 3293904271376,
        mark("previous_response_id"@) == 3879374239764,
        mark("prompt"@) == 30832146438,
        mark("prompt_cache_key"@) == 3360212023312,
        mark("prompt_cache_retention"@) == 3500075104278,
        mark("prompt_tokens"@) == 4015727114253,
        mark("prompt_tokens_details"@) == 3295527368725,
        mark("raw_finish_reason"@) == 3600767760657,
        mark("reason"@) == 27354970374,
        mark("reasoning"@) == 3500364396809,
        mark("reasoning_content"@) == 3293920966929,
        mark("reasoning_effort"@) == 3566651390224,
        mark("reasoning_signature"@) == 3634011666707,
        mark("reasoning_text"@) == 3633506498830,
        mark("reasoning_tokens"@) == 3569067292944,
        mark("redacted_thinking"@) == 4015458482449,
        mark("refusal"@) == 27627567367,
        mark("rejected_prediction_tokens"@) == 3809589655834,
        mark("required"@) == 3948638976264,
        mark("resp_"@) == 30844385541,
        mark("response"@) == 3947309398280,
        mark("response.completed"@) == 3843131259154,
        mark("response.content_part.added"@) == 3943261878555,
        mark("response.content_part.done"@) == 3345456134426,
        mark("response.created"@) == 1607758067984,
        mark("response.failed"@) == 3496585279759,
        mark("response.function_call_arguments.delta"@) == 4012778223910,
        mark("response.function_call_arguments.done"@) == 3792128538917,
        mark("response.in_progress"@) == 3876172134676,
        mark("response.incomplete"@) == 3431900739859,
        mark("response.output_item.added"@) == 3496618834202,
        mark("response.output_item.done"@) == 3998314232089,
        mark("response.output_text.annotation.added"@) == 3840222509349,
        mark("response.output_text.delta"@) == 4150259120410,
        mark("response.output_text.done"@) == 3482918156569,
        mark("response.queued"@) == 3501953988879,
        mark("response.reasoning_summary_part.added"@) == 3943249295653,
        mark("response.reasoning_summary_part.done"@) == 3345443551524,
        mark("response.reasoning_summary_text.delta"@) == 4150212983077,
        mark("response.reasoning_summary_text.done"@) == 3482882504996,
        mark("response.reasoning_text.delta"@) == 4150244440349,
        mark("response.reasoning_text.done"@) == 3482913962268,
        mark("response.refusal.delta"@) == 3359953680662,
        mark("response.refusal.done"@) == 3963931425045,
        mark("response_format"@) == 3500343638287,
        mark("response_id"@) == 3879393114379,
        mark("responses.content"@) == 1610318952721,
        mark("retry"@) == 30846908677,
        mark("role"@) == 228161796,
        mark("rs_"@) == 242743555,
        mark("safety_identifier"@) == 3498730895761,
        mark("search_context_size"@) == 3496067299731,
        mark("seed"@) == 213465476,
        mark("sequence_number"@) == 3501954218383,
        mark("server_tool_use"@) == 4014965619087,
        mark("service_tier"@) == 3633487591820,
        mark("signature"@) == 3634015861129,
        mark("signature_delta"@) == 3944094398863,
        mark("source"@) == 30037080454,
        mark("speed"@) == 31083542917,
        mark("standard_only"@) == 3358637062541,
        mark("start_char_index"@) == 3361285749136,
        mark("start_index"@) == 3945397107083,
        mark("status"@) == 31383681414,
        mark("stop"@) == 234633604,
        mark("stop_reason"@) == 3875643570571,
        mark("stop_sequence"@) == 3982990342541,
        mark("stop_sequences"@) == 3497684433294,
        mark("store"@) == 31104530821,
        mark("stream"@) == 31352125830,
        mark("stream_json"@) == 3496065350027,
        mark("stream_options"@) == 3295548340622,
        mark("strict"@) == 31360629126,
        mark("summary"@) == 29490051463,
        mark("summary_index"@) == 3945451633037,
        mark("summary_text"@) == 3358651660684,
        mark("system"@) == 32725760390,
        mark("temperature"@) == 3874569681419,
        mark("text"@) == 253573636,
        mark("text/plain"@) == 4153470073354,
        mark("text_delta"@) == 4150223469066,
        mark("thinking"@) == 4015483648520,
        mark("thinking_delta"@) == 3806632376846,
        mark("title"@) == 31383452165,
        mark("tool"@) == 234568196,
        mark("tool_call"@) == 3839633340937,
        mark("tool_call_id"@) == 3293371251212,
        mark("tool_calls"@) == 3840715586058,
        mark("tool_calls.function.name"@) == 3620367596056,
        mark("tool_choice"@) == 3738978318859,
        mark("tool_message.content"@) == 1610293787156,
        mark("tool_result"@) == 3738204715531,
        mark("tool_use"@) == 4014921579016,
        mark("tool_use_id"@) == 3741968841227,
        mark("tools"@) == 31373195781,
        mark("tools.name"@) == 3826377128458,
        mark("toolu_"@) == 30024399366,
        mark("top_k"@) == 31375161861,
        mark("top_logprobs"@) == 3741134420492,
        mark("top_p"@) == 31375243781,
        mark("total_tokens"@) == 3740893248012,
        mark("truncation"@) == 4046332869130,
        mark("type"@) == 236550660,
        mark("unknown"@) == 28955097735,
        mark("url"@) == 240859779,
        mark("url_citation"@) == 3427897424524,
        mark("usage"@) == 31612041861,
        mark("user"@) == 213695108,
        mark("user_id"@) == 27352709767,
        mark("user_location"@) == 3737124584077,
        mark("value"@) == 31903546117,
        mark("verbosity"@) == 3500364692233,
        mark("web_search"@) == 3394579872650,
        mark("web_search_20250305"@) == 1732432984979,
        mark("web_search_options"@) == 3295533661074,
        mark("web_search_preview"@) == 3291507194770,
        mark("web_search_result_location"@) == 3737132972954,
        mark("x-"@) == 95124482,
{
    reveal_strlit("");
    first_names();
    second_names();
    third_names();
    fourth_names();
    fifth_names();
}

} // verus!
