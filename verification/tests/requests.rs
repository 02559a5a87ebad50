use explorer_kit::llm::{
    bearer_authorization, called_function_name, get_body, get_func_body, Choice, FnCallResponse,
    FnMessage, Payload, RespFunction, RespTool, Usage,
};

#[test]
fn plain_body() {
    let b = get_body("What is the temperature Tamilnadu".to_string(), 100);
    assert_eq!(b.model, "gpt-4o-mini");
    assert_eq!(b.max_tokens, 100);
    assert_eq!(b.messages.len(), 1);
    assert_eq!(b.messages[0].role, "user");
    assert_eq!(b.messages[0].content, "What is the temperature Tamilnadu");
}

#[test]
fn function_call_body() {
    let f = get_func_body(Payload { query: "weather in Paris".to_string() });
    assert_eq!(f.model, "gpt-4o-mini");
    assert_eq!(f.tool_choice, "auto");
    assert_eq!(f.messages[0].content, "weather in Paris");
    assert_eq!(f.tools.len(), 1);
    let func = &f.tools[0].function;
    assert_eq!(f.tools[0].tool_type, "function");
    assert_eq!(func.name, "get_current_weather");
    assert_eq!(func.description, "Get the current weather in a given location");
    assert_eq!(func.required, vec!["location".to_string()]);
    assert_eq!(func.paramters.param_type, "object");
    let props: serde_json::Value = serde_json::from_str(&func.paramters.properties).unwrap();
    assert_eq!(props["unit"]["enum"][1], "fahrenheit");
    assert_eq!(props["location"]["type"], "string");
}

#[test]
fn authorization_header_value() {
    assert_eq!(bearer_authorization("sk-abc"), "Bearer sk-abc");
}

#[test]
fn function_name_of_reply() {
    let resp = FnCallResponse {
        id: "c1".to_string(),
        object: "chat.completion".to_string(),
        created: 1,
        model: "gpt-4o-mini".to_string(),
        choices: vec![Choice {
            message: FnMessage {
                role: "assistant".to_string(),
                tool_calls: vec![RespTool {
                    id: "t1".to_string(),
                    tool_type: "function".to_string(),
                    function: RespFunction {
                        name: "get_current_weather".to_string(),
                        arguments: "{}".to_string(),
                    },
                }],
            },
            finish_reason: "tool_calls".to_string(),
            index: 0,
        }],
        usage: Usage {
            prompt_tokens: 1,
            completion_tokens: 2,
            total_tokens: 3,
            completion_tokens_details: "{}".to_string(),
        },
    };
    assert_eq!(called_function_name(&resp), "get_current_weather");
}
