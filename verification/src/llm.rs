//! Requests to a chat-completion service and the function-call replies it
//! sends back. JSON values that the code only carries along (the tool's
//! parameter schema, the usage details of a reply) are held as JSON text.
use vstd::prelude::*;

verus! {

/// One chat message of a request.
#[derive(Debug)]
pub struct InMessage {
    pub role: String,
    pub content: String,
}

/// A plain chat-completion request.
#[derive(Debug)]
pub struct Body {
    pub model: String,
    pub messages: Vec<InMessage>,
    pub max_tokens: u32,
}

/// The JSON schema of a tool's parameters.
#[derive(Debug)]
pub struct Parameters {
    pub param_type: String,
    /// The `properties` object of the schema, as JSON text.
    pub properties: String,
}

/// A function the model may call.
#[derive(Debug)]
pub struct Function {
    pub name: String,
    pub description: String,
    pub paramters: Parameters,
    pub required: Vec<String>,
}

/// A tool offered to the model.
#[derive(Debug)]
pub struct Tool {
    pub tool_type: String,
    pub function: Function,
}

/// A chat-completion request that offers tools.
#[derive(Debug)]
pub struct FuncBody {
    pub model: String,
    pub messages: Vec<InMessage>,
    pub tools: Vec<Tool>,
    pub tool_choice: String,
}

/// The query string of a function-call request.
#[derive(Debug)]
pub struct Payload {
    pub query: String,
}

/// Token counts of a reply.
#[derive(Debug)]
pub struct Usage {
    pub prompt_tokens: u32,
    pub completion_tokens: u32,
    pub total_tokens: u32,
    /// The `completion_tokens_details` value, as JSON text.
    pub completion_tokens_details: String,
}

/// The function a tool call names, and its arguments as JSON text.
#[derive(Debug)]
pub struct RespFunction {
    pub name: String,
    pub arguments: String,
}

/// One tool call of a reply.
#[derive(Debug)]
pub struct RespTool {
    pub id: String,
    pub tool_type: String,
    pub function: RespFunction,
}

/// The message of a reply choice: its role and the tool calls it makes.
#[derive(Debug)]
pub struct FnMessage {
    pub role: String,
    pub tool_calls: Vec<RespTool>,
}

/// One choice of a reply.
#[derive(Debug)]
pub struct Choice {
    pub message: FnMessage,
    pub finish_reason: String,
    pub index: i32,
}

/// A function-call reply of the chat-completion service.
#[derive(Debug)]
pub struct FnCallResponse {
    pub id: String,
    pub object: String,
    pub created: usize,
    pub model: String,
    pub choices: Vec<Choice>,
    pub usage: Usage,
}

/// The model every request names.
pub open spec fn request_model() -> Seq<char> {
    "gpt-4o-mini"@
}

/// The parameter schema of the weather tool: a location string and a unit
/// that is `celsius` or `fahrenheit`, as JSON text with keys in order.
pub open spec fn weather_properties() -> Seq<char> {
    "{\"location\":{\"description\":\"The city and state, e.g. San Francisco, CA\",\"type\":\"string\"},\"unit\":{\"enum\":[\"celsius\",\"fahrenheit\"],\"type\":\"string\"}}"@
}

/// A JSON string of characters that need no escape.
pub open spec fn json_string(s: Seq<char>) -> Seq<char> {
    seq!['"'] + s + seq!['"']
}

/// A member of a JSON object: the key as a string, a colon, the value.
pub open spec fn json_member(key: Seq<char>, value: Seq<char>) -> Seq<char> {
    json_string(key) + seq![':'] + value
}

/// JSON texts separated by commas.
pub open spec fn json_list(items: Seq<Seq<char>>) -> Seq<char>
    decreases items.len(),
{
    if items.len() == 0 {
        Seq::empty()
    } else if items.len() == 1 {
        items[0]
    } else {
        json_list(items.drop_last()) + seq![','] + items.last()
    }
}

/// A compact JSON object of the given members.
pub open spec fn json_object(members: Seq<Seq<char>>) -> Seq<char> {
    seq!['{'] + json_list(members) + seq!['}']
}

/// A compact JSON array of the given items.
pub open spec fn json_array(items: Seq<Seq<char>>) -> Seq<char> {
    seq!['['] + json_list(items) + seq![']']
}

/// The weather tool's parameter schema, read as JSON: an object with two
/// members. `location` is a string described as the city and state;
/// `unit` is a string whose allowed values are exactly `celsius` and
/// `fahrenheit`, in that order.
pub proof fn law_weather_schema(location_desc: Seq<char>)
    requires
        location_desc == "The city and state, e.g. San Francisco, CA"@,
    ensures
        weather_properties() == json_object(
            seq![
                json_member(
                    "location"@,
                    json_object(
                        seq![
                            json_member("description"@, json_string(location_desc)),
                            json_member("type"@, json_string("string"@)),
                        ],
                    ),
                ),
                json_member(
                    "unit"@,
                    json_object(
                        seq![
                            json_member(
                                "enum"@,
                                json_array(seq![json_string("celsius"@), json_string("fahrenheit"@)]),
                            ),
                            json_member("type"@, json_string("string"@)),
                        ],
                    ),
                ),
            ],
        ),
{
    reveal_strlit("{\"location\":{\"description\":\"The city and state, e.g. San Francisco, CA\",\"type\":\"string\"},\"unit\":{\"enum\":[\"celsius\",\"fahrenheit\"],\"type\":\"string\"}}");
    reveal_strlit("The city and state, e.g. San Francisco, CA");
    reveal_strlit("location");
    reveal_strlit("description");
    reveal_strlit("type");
    reveal_strlit("string");
    reveal_strlit("unit");
    reveal_strlit("enum");
    reveal_strlit("celsius");
    reveal_strlit("fahrenheit");
    reveal_with_fuel(json_list, 3);
    let loc = json_object(
        seq![
            json_member("description"@, json_string(location_desc)),
            json_member("type"@, json_string("string"@)),
        ],
    );
    let unit = json_object(
        seq![
            json_member("enum"@, json_array(seq![json_string("celsius"@), json_string("fahrenheit"@)])),
            json_member("type"@, json_string("string"@)),
        ],
    );
    assert(json_list(seq![json_string("celsius"@), json_string("fahrenheit"@)]) =~= json_string("celsius"@)
        + seq![','] + json_string("fahrenheit"@));
    assert(seq![json_member("location"@, loc), json_member("unit"@, unit)].drop_last() =~= seq![
        json_member("location"@, loc),
    ]);
    assert(weather_properties() =~= json_object(
        seq![json_member("location"@, loc), json_member("unit"@, unit)],
    ));
}

/// `m` is a user message with the given content.
pub open spec fn is_user_message(m: InMessage, content: Seq<char>) -> bool {
    m.role@ == "user"@ && m.content@ == content
}

fn user_message(content: String) -> (r: InMessage)
    ensures
        is_user_message(r, content@),
{
    InMessage { role: String::from_str("user"), content }
}

/// A plain request for `tokens` tokens at most, whose only message is the
/// user's query.
pub fn get_body(query: String, tokens: u32) -> (r: Body)
    ensures
        r.model@ == request_model(),
        r.messages@.len() == 1,
        is_user_message(r.messages@[0], query@),
        r.max_tokens == tokens,
{
    let message = user_message(query);
    let mut messages = Vec::new();
    messages.push(message);
    Body { model: String::from_str("gpt-4o-mini"), messages, max_tokens: tokens }
}

/// A request whose only message is the user's query and that offers one
/// tool, the function `get_current_weather` with a required location, for
/// the model to call when it chooses to.
pub fn get_func_body(payload: Payload) -> (r: FuncBody)
    ensures
        r.model@ == request_model(),
        r.messages@.len() == 1,
        is_user_message(r.messages@[0], payload.query@),
        r.tool_choice@ == "auto"@,
        r.tools@.len() == 1,
        r.tools@[0].tool_type@ == "function"@,
        r.tools@[0].function.name@ == "get_current_weather"@,
        r.tools@[0].function.description@ == "Get the current weather in a given location"@,
        r.tools@[0].function.paramters.param_type@ == "object"@,
        r.tools@[0].function.paramters.properties@ == weather_properties(),
        r.tools@[0].function.required@.len() == 1,
        r.tools@[0].function.required@[0]@ == "location"@,
{
    let inmsg = user_message(payload.query);
    let params = Parameters {
        param_type: String::from_str("object"),
        properties: String::from_str(
            "{\"location\":{\"description\":\"The city and state, e.g. San Francisco, CA\",\"type\":\"string\"},\"unit\":{\"enum\":[\"celsius\",\"fahrenheit\"],\"type\":\"string\"}}",
        ),
    };
    let mut required = Vec::new();
    required.push(String::from_str("location"));
    let function = Function {
        name: String::from_str("get_current_weather"),
        description: String::from_str("Get the current weather in a given location"),
        paramters: params,
        required,
    };
    let tool = Tool { tool_type: String::from_str("function"), function };
    let mut messages = Vec::new();
    messages.push(inmsg);
    let mut tools = Vec::new();
    tools.push(tool);
    FuncBody {
        model: String::from_str("gpt-4o-mini"),
        messages,
        tools,
        tool_choice: String::from_str("auto"),
    }
}

/// The value of the `Authorization` header for an API key.
pub fn bearer_authorization(api_key: &str) -> (r: String)
    ensures
        r@ == "Bearer "@ + api_key@,
{
    let mut s = String::from_str("Bearer ");
    s.append(api_key);
    s
}

/// The name of the function that the first tool call of the first choice
/// of a reply names.
pub fn called_function_name(resp: &FnCallResponse) -> (r: &String)
    requires
        resp.choices@.len() > 0,
        resp.choices@[0].message.tool_calls@.len() > 0,
    ensures
        r == resp.choices@[0].message.tool_calls@[0].function.name,
{
    &resp.choices[0].message.tool_calls[0].function.name
}

} // verus!
