//! The tools that are offered to a client, with the schemas of their arguments.

use vstd::prelude::*;
use crate::fast_mcp_command::{called_command, lemma_tool_names, Arguments};
use crate::json::{
    items_view, law_member_reads_back, lemma_member_push, no_members, set_member, signed_number,
    text_of, with_member, Fields, Json, JsonView, NumberView,
};
use crate::text::{no_words, one_word, push_word, texts_view, two_words};

verus! {

/// The longest time that a call may take, in milliseconds.
pub const MAX_TIMEOUT_MS: u64 = 600_000;

/// The schema of a string.
pub open spec fn text_schema(description: Seq<char>) -> JsonView {
    JsonView::Object(
        no_members().push(("type"@, JsonView::Text("string"@))).push(
            ("description"@, JsonView::Text(description)),
        ),
    )
}

/// The schema of an integer.
pub open spec fn number_schema(minimum: i64, maximum: i64) -> JsonView {
    JsonView::Object(
        no_members().push(("type"@, JsonView::Text("integer"@))).push(
            ("minimum"@, signed_number(minimum)),
        ).push(("maximum"@, signed_number(maximum))),
    )
}

/// A schema that only gives a type.
pub open spec fn type_schema(name: Seq<char>) -> JsonView {
    JsonView::Object(no_members().push(("type"@, JsonView::Text(name))))
}

/// Strings as a list of values.
pub open spec fn text_items(texts: Seq<Seq<char>>) -> JsonView {
    JsonView::Array(Seq::new(texts.len(), |i: int| JsonView::Text(texts[i])))
}

/// The schema of one string or a list of at least one.
pub open spec fn values_schema() -> JsonView {
    let list = JsonView::Object(
        no_members().push(("type"@, JsonView::Text("array"@))).push(
            ("items"@, type_schema("string"@)),
        ).push(("minItems"@, signed_number(1))),
    );
    JsonView::Object(
        no_members().push(
            (
                "oneOf"@,
                JsonView::Array(
                    Seq::<JsonView>::empty().push(type_schema("string"@)).push(list),
                ),
            ),
        ),
    )
}

/// The schema of a way to scroll.
pub open spec fn direction_schema() -> JsonView {
    JsonView::Object(
        no_members().push(("type"@, JsonView::Text("string"@))).push(
            (
                "enum"@,
                text_items(no_words().push("up"@).push("down"@).push("left"@).push("right"@)),
            ),
        ).push(("default"@, JsonView::Text("down"@))),
    )
}

/// A tool, with the schemas of its own arguments and the names of those that a call must give.
/// Every tool also takes a session and a time limit.
pub open spec fn tool_view(
    name: Seq<char>,
    description: Seq<char>,
    properties: Seq<(Seq<char>, JsonView)>,
    required: Seq<Seq<char>>,
) -> JsonView {
    let all = with_member(
        with_member(properties, "session"@, text_schema("Optional validated session override"@)),
        "timeoutMs"@,
        number_schema(1, MAX_TIMEOUT_MS as i64),
    );
    let schema = JsonView::Object(
        no_members().push(("type"@, JsonView::Text("object"@))).push(
            ("properties"@, JsonView::Object(all)),
        ).push(("required"@, text_items(required))).push(
            ("additionalProperties"@, JsonView::Bool(false)),
        ),
    );
    JsonView::Object(
        no_members().push(("name"@, JsonView::Text(name))).push(
            ("description"@, JsonView::Text(description)),
        ).push(("inputSchema"@, schema)),
    )
}

/// A tool without arguments of its own.
pub open spec fn bare_tool(name: Seq<char>, description: Seq<char>) -> JsonView {
    tool_view(name, description, no_members(), no_words())
}

/// A tool on one element.
pub open spec fn element_tool(name: Seq<char>, description: Seq<char>) -> JsonView {
    tool_view(
        name,
        description,
        no_members().push(("selector"@, text_schema("Selector or @ref"@))),
        no_words().push("selector"@),
    )
}

/// All tools.
pub open spec fn tool_list() -> Seq<JsonView> {
    seq![
        tool_view(
            "agent_browser_fast_status"@,
            "Inspect the resident transport without touching the browser."@,
            no_members(),
            no_words(),
        ),
        tool_view(
            "agent_browser_open"@,
            "Navigate the current browser tab."@,
            no_members().push(("url"@, text_schema("URL to open"@))),
            no_words().push("url"@),
        ),
        bare_tool("agent_browser_back"@, "Navigate back."@),
        bare_tool("agent_browser_forward"@, "Navigate forward."@),
        bare_tool("agent_browser_reload"@, "Reload the current page."@),
        bare_tool("agent_browser_snapshot"@, "Capture the current semantic browser snapshot."@),
        element_tool("agent_browser_click"@, "Click a semantic selector or @ref."@),
        element_tool("agent_browser_dblclick"@, "Double-click a semantic selector or @ref."@),
        tool_view(
            "agent_browser_fill"@,
            "Clear and fill a field."@,
            no_members().push(("selector"@, text_schema("Selector or @ref"@))).push(
                ("value"@, text_schema("Value to fill"@)),
            ),
            no_words().push("selector"@).push("value"@),
        ),
        tool_view(
            "agent_browser_type"@,
            "Type into a field without exposing text in a child-process argv."@,
            no_members().push(("selector"@, text_schema("Selector or @ref"@))).push(
                ("text"@, text_schema("Text to type"@)),
            ).push(("clear"@, type_schema("boolean"@))).push(
                ("delayMs"@, number_schema(0, 60_000)),
            ),
            no_words().push("selector"@).push("text"@),
        ),
        tool_view(
            "agent_browser_press"@,
            "Press a keyboard key."@,
            no_members().push(("key"@, text_schema("Playwright-style key name"@))),
            no_words().push("key"@),
        ),
        element_tool("agent_browser_hover"@, "Hover a semantic selector or @ref."@),
        element_tool("agent_browser_focus"@, "Focus a semantic selector or @ref."@),
        element_tool("agent_browser_check"@, "Check a checkbox or radio control."@),
        element_tool("agent_browser_uncheck"@, "Uncheck a checkbox."@),
        tool_view(
            "agent_browser_select"@,
            "Select one or more option values."@,
            no_members().push(("selector"@, text_schema("Selector or @ref"@))).push(
                ("values"@, values_schema()),
            ),
            no_words().push("selector"@).push("values"@),
        ),
        tool_view(
            "agent_browser_scroll"@,
            "Scroll the page or a semantic container."@,
            no_members().push(("direction"@, direction_schema())).push(
                ("amount"@, number_schema((-100_000) as i64, 100_000)),
            ).push(("selector"@, text_schema("Optional selector or @ref"@))),
            no_words(),
        ),
        bare_tool("agent_browser_get_url"@, "Read the current page URL."@),
        bare_tool("agent_browser_get_title"@, "Read the current page title."@),
        bare_tool("agent_browser_close"@, "Close the current browser session."@),
    ]
}

/// Adds a value to a list.
fn push_item(items: &mut Vec<Json>, item: Json)
    ensures
        items_view(final(items)@) == items_view(old(items)@).push(item@),
{
    let ghost before = items@;
    items.push(item);
    assert(items_view(items@) =~= items_view(before).push(item@));
}

/// Strings as a list of values.
fn text_list(texts: &Vec<String>) -> (json: Json)
    ensures
        json@ == text_items(texts_view(texts@)),
{
    let mut items: Vec<Json> = Vec::new();
    let mut i: usize = 0;
    while i < texts.len()
        invariant
            i <= texts@.len(),
            items@.len() == i,
            forall|j: int| 0 <= j < i ==> (#[trigger] items@[j])@ == JsonView::Text(texts@[j]@),
        decreases texts@.len() - i,
    {
        items.push(Json::text(texts[i].as_str()));
        i += 1;
    }
    let json = Json::array(items);
    assert(json@->Array_0 =~= text_items(texts_view(texts@))->Array_0);
    json
}

/// The schema of a string.
pub fn string_schema(description: &str) -> (schema: Json)
    ensures
        schema@ == text_schema(description@),
{
    Fields::new()
        .with("type", Json::text("string"))
        .with("description", Json::text(description))
        .done()
}

/// The schema of an integer.
pub fn integer_schema(minimum: i64, maximum: i64) -> (schema: Json)
    ensures
        schema@ == number_schema(minimum, maximum),
{
    Fields::new()
        .with("type", Json::text("integer"))
        .with("minimum", Json::signed(minimum))
        .with("maximum", Json::signed(maximum))
        .done()
}

/// A schema that only gives a type.
fn named_schema(name: &str) -> (schema: Json)
    ensures
        schema@ == type_schema(name@),
{
    Fields::new().with("type", Json::text(name)).done()
}

/// The schema of one string or a list of at least one.
fn values_choice() -> (schema: Json)
    ensures
        schema@ == values_schema(),
{
    let list = Fields::new()
        .with("type", Json::text("array"))
        .with("items", named_schema("string"))
        .with("minItems", Json::signed(1))
        .done();
    let mut choices: Vec<Json> = Vec::new();
    assert(items_view(choices@) =~= Seq::<JsonView>::empty());
    push_item(&mut choices, named_schema("string"));
    push_item(&mut choices, list);
    Fields::new().with("oneOf", Json::array(choices)).done()
}

/// The schema of a way to scroll.
fn direction_choice() -> (schema: Json)
    ensures
        schema@ == direction_schema(),
{
    let mut ways = two_words("up", "down");
    push_word(&mut ways, "left");
    push_word(&mut ways, "right");
    Fields::new()
        .with("type", Json::text("string"))
        .with("enum", text_list(&ways))
        .with("default", Json::text("down"))
        .done()
}

/// A tool, with the schemas of its own arguments and the names of those that a call must give.
pub fn tool(name: &str, description: &str, properties: Fields, required: Vec<String>) -> (json:
    Json)
    ensures
        json@ == tool_view(name@, description@, properties@, texts_view(required@)),
{
    let mut all = properties.members;
    set_member(&mut all, "session", string_schema("Optional validated session override"));
    set_member(&mut all, "timeoutMs", integer_schema(1, MAX_TIMEOUT_MS as i64));
    let schema = Fields::new()
        .with("type", Json::text("object"))
        .with("properties", Json::object(all))
        .with("required", text_list(&required))
        .with("additionalProperties", Json::flag(false))
        .done();
    Fields::new()
        .with("name", Json::text(name))
        .with("description", Json::text(description))
        .with("inputSchema", schema)
        .done()
}

/// No names.
fn no_names() -> (names: Vec<String>)
    ensures
        texts_view(names@) == no_words(),
{
    let names: Vec<String> = Vec::new();
    assert(texts_view(names@) =~= no_words());
    names
}

/// A tool without arguments of its own.
pub fn no_arg_tool(name: &str, description: &str) -> (json: Json)
    ensures
        json@ == bare_tool(name@, description@),
{
    tool(name, description, Fields::new(), no_names())
}

/// A tool on one element.
pub fn selector_tool(name: &str, description: &str) -> (json: Json)
    ensures
        json@ == element_tool(name@, description@),
{
    let properties = Fields::new().with("selector", string_schema("Selector or @ref"));
    tool(name, description, properties, one_word("selector"))
}

/// All tools.
pub fn tool_specs() -> (tools: Vec<Json>)
    ensures
        items_view(tools@) == tool_list(),
{
    let mut tools: Vec<Json> = Vec::new();
    push_item(
        &mut tools,
        tool(
            "agent_browser_fast_status",
            "Inspect the resident transport without touching the browser.",
            Fields::new(),
            no_names(),
        ),
    );
    push_item(
        &mut tools,
        tool(
            "agent_browser_open",
            "Navigate the current browser tab.",
            Fields::new()
                .with("url", string_schema("URL to open")),
            one_word("url"),
        ),
    );
    push_item(&mut tools, no_arg_tool("agent_browser_back", "Navigate back."));
    push_item(&mut tools, no_arg_tool("agent_browser_forward", "Navigate forward."));
    push_item(&mut tools, no_arg_tool("agent_browser_reload", "Reload the current page."));
    push_item(
        &mut tools,
        no_arg_tool("agent_browser_snapshot", "Capture the current semantic browser snapshot."),
    );
    push_item(
        &mut tools,
        selector_tool("agent_browser_click", "Click a semantic selector or @ref."),
    );
    push_item(
        &mut tools,
        selector_tool("agent_browser_dblclick", "Double-click a semantic selector or @ref."),
    );
    push_item(
        &mut tools,
        tool(
            "agent_browser_fill",
            "Clear and fill a field.",
            Fields::new()
                .with("selector", string_schema("Selector or @ref"))
                .with("value", string_schema("Value to fill")),
            two_words("selector", "value"),
        ),
    );
    push_item(
        &mut tools,
        tool(
            "agent_browser_type",
            "Type into a field without exposing text in a child-process argv.",
            Fields::new()
                .with("selector", string_schema("Selector or @ref"))
                .with("text", string_schema("Text to type"))
                .with("clear", named_schema("boolean"))
                .with("delayMs", integer_schema(0, 60_000)),
            two_words("selector", "text"),
        ),
    );
    push_item(
        &mut tools,
        tool(
            "agent_browser_press",
            "Press a keyboard key.",
            Fields::new()
                .with("key", string_schema("Playwright-style key name")),
            one_word("key"),
        ),
    );
    push_item(
        &mut tools,
        selector_tool("agent_browser_hover", "Hover a semantic selector or @ref."),
    );
    push_item(
        &mut tools,
        selector_tool("agent_browser_focus", "Focus a semantic selector or @ref."),
    );
    push_item(
        &mut tools,
        selector_tool("agent_browser_check", "Check a checkbox or radio control."),
    );
    push_item(&mut tools, selector_tool("agent_browser_uncheck", "Uncheck a checkbox."));
    push_item(
        &mut tools,
        tool(
            "agent_browser_select",
            "Select one or more option values.",
            Fields::new()
                .with("selector", string_schema("Selector or @ref"))
                .with("values", values_choice()),
            two_words("selector", "values"),
        ),
    );
    push_item(
        &mut tools,
        tool(
            "agent_browser_scroll",
            "Scroll the page or a semantic container.",
            Fields::new()
                .with("direction", direction_choice())
                .with("amount", integer_schema(-100_000, 100_000))
                .with("selector", string_schema("Optional selector or @ref")),
            no_names(),
        ),
    );
    push_item(&mut tools, no_arg_tool("agent_browser_get_url", "Read the current page URL."));
    push_item(&mut tools, no_arg_tool("agent_browser_get_title", "Read the current page title."));
    push_item(&mut tools, no_arg_tool("agent_browser_close", "Close the current browser session."));
    assert(items_view(tools@) =~= tool_list());
    tools
}

// ---------------------------------------------------------------------------
// Laws
// ---------------------------------------------------------------------------

/// The schema that a tool gives for one of its arguments.
pub open spec fn argument_schema(tool: JsonView, name: Seq<char>) -> Option<JsonView> {
    match tool.get("inputSchema"@) {
        Some(schema) => match schema.get("properties"@) {
            Some(properties) => properties.get(name),
            None => None,
        },
        None => None,
    }
}

/// The names of the arguments that a call of a tool must give.
pub open spec fn required_arguments(tool: JsonView) -> Option<JsonView> {
    match tool.get("inputSchema"@) {
        Some(schema) => schema.get("required"@),
        None => None,
    }
}

/// What a tool says of itself.
proof fn lemma_tool_view(
    name: Seq<char>,
    description: Seq<char>,
    properties: Seq<(Seq<char>, JsonView)>,
    required: Seq<Seq<char>>,
)
    ensures
        tool_view(name, description, properties, required).get("name"@) == Some(
            JsonView::Text(name),
        ),
        argument_schema(tool_view(name, description, properties, required), "session"@) == Some(
            text_schema("Optional validated session override"@),
        ),
        argument_schema(tool_view(name, description, properties, required), "timeoutMs"@) == Some(
            number_schema(1, MAX_TIMEOUT_MS as i64),
        ),
        required_arguments(tool_view(name, description, properties, required)) == Some(
            text_items(required),
        ),
{
    broadcast use lemma_member_push;

    reveal_strlit("name");
    reveal_strlit("description");
    reveal_strlit("inputSchema");
    reveal_strlit("type");
    reveal_strlit("properties");
    reveal_strlit("required");
    reveal_strlit("additionalProperties");
    reveal_strlit("session");
    reveal_strlit("timeoutMs");
    assert("name"@.len() == 4 && "description"@.len() == 11 && "inputSchema"@.len() == 11
        && "description"@[0] == 'd' && "inputSchema"@[0] == 'i' && "properties"@.len() == 10
        && "required"@.len() == 8 && "additionalProperties"@.len() == 20 && "session"@.len() == 7
        && "timeoutMs"@.len() == 9);
    let own = with_member(
        properties,
        "session"@,
        text_schema("Optional validated session override"@),
    );
    law_member_reads_back(
        properties,
        "session"@,
        text_schema("Optional validated session override"@),
        "session"@,
    );
    law_member_reads_back(
        own,
        "timeoutMs"@,
        number_schema(1, MAX_TIMEOUT_MS as i64),
        "session"@,
    );
}

/// Whether a tool takes a session and a time limit, and no call has to give them.
pub open spec fn takes_session(tool: JsonView) -> bool {
    &&& argument_schema(tool, "session"@) == Some(
        text_schema("Optional validated session override"@),
    )
    &&& argument_schema(tool, "timeoutMs"@) == Some(number_schema(1, MAX_TIMEOUT_MS as i64))
    &&& required_arguments(tool) matches Some(JsonView::Array(names)) && !names.contains(
        JsonView::Text("session"@),
    ) && !names.contains(JsonView::Text("timeoutMs"@))
}

/// Whether neither a session nor a time limit is among the names.
spec fn leaves_session_optional(required: Seq<Seq<char>>) -> bool {
    forall|i: int|
        0 <= i < required.len() ==> #[trigger] required[i] != "session"@ && required[i]
            != "timeoutMs"@
}

proof fn lemma_takes_session(
    name: Seq<char>,
    description: Seq<char>,
    properties: Seq<(Seq<char>, JsonView)>,
    required: Seq<Seq<char>>,
)
    requires
        leaves_session_optional(required),
    ensures
        takes_session(tool_view(name, description, properties, required)),
        text_of(tool_view(name, description, properties, required).get("name"@)) == Some(name),
{
    lemma_tool_view(name, description, properties, required);
    let names = text_items(required)->Array_0;
    assert forall|i: int| 0 <= i < names.len() implies #[trigger] names[i] != JsonView::Text(
        "session"@,
    ) && names[i] != JsonView::Text("timeoutMs"@) by {
        assert(required[i] != "session"@);
    }
}

/// The names of all tools, in order.
pub open spec fn tool_names() -> Seq<Seq<char>> {
    seq![
        "agent_browser_fast_status"@,
        "agent_browser_open"@,
        "agent_browser_back"@,
        "agent_browser_forward"@,
        "agent_browser_reload"@,
        "agent_browser_snapshot"@,
        "agent_browser_click"@,
        "agent_browser_dblclick"@,
        "agent_browser_fill"@,
        "agent_browser_type"@,
        "agent_browser_press"@,
        "agent_browser_hover"@,
        "agent_browser_focus"@,
        "agent_browser_check"@,
        "agent_browser_uncheck"@,
        "agent_browser_select"@,
        "agent_browser_scroll"@,
        "agent_browser_get_url"@,
        "agent_browser_get_title"@,
        "agent_browser_close"@,
    ]
}

/// Every tool has its name, takes a session as a string and a time limit as an integer, and no call
/// has to give either.
pub proof fn law_every_tool_keeps_session_optional(i: int)
    requires
        0 <= i < tool_list().len(),
    ensures
        tool_names().len() == tool_list().len(),
        text_of(tool_list()[i].get("name"@)) == Some(tool_names()[i]),
        takes_session(tool_list()[i]),
{
    reveal_strlit("session");
    reveal_strlit("timeoutMs");
    reveal_strlit("url");
    reveal_strlit("selector");
    reveal_strlit("value");
    reveal_strlit("text");
    reveal_strlit("key");
    reveal_strlit("values");
    assert("session"@.len() == 7 && "timeoutMs"@.len() == 9 && "url"@.len() == 3);
    assert("selector"@.len() == 8 && "value"@.len() == 5 && "text"@.len() == 4);
    assert("key"@.len() == 3 && "values"@.len() == 6);
    assert forall|
        name: Seq<char>,
        description: Seq<char>,
        properties: Seq<(Seq<char>, JsonView)>,
        required: Seq<Seq<char>>,
    |
        leaves_session_optional(required) implies takes_session(
        #[trigger] tool_view(name, description, properties, required),
    ) && text_of(tool_view(name, description, properties, required).get("name"@)) == Some(name) by {
        lemma_takes_session(name, description, properties, required);
    }
    assert(leaves_session_optional(no_words()));
    assert(leaves_session_optional(no_words().push("url"@)));
    assert(leaves_session_optional(no_words().push("key"@)));
    assert(leaves_session_optional(no_words().push("selector"@)));
    assert(leaves_session_optional(no_words().push("selector"@).push("value"@)));
    assert(leaves_session_optional(no_words().push("selector"@).push("text"@)));
    assert(leaves_session_optional(no_words().push("selector"@).push("values"@)));
}

/// Each tool but the one that reports on the transport is served by a command of its own, and every
/// command is offered as a tool.
pub proof fn law_tools_and_commands_agree(name: Seq<char>, arguments: Arguments)
    ensures
        called_command(name, arguments) is Some <==> tool_names().contains(name) && name
            != "agent_browser_fast_status"@,
{
    lemma_tool_names();
    let names = tool_names();
    assert(names[0] == "agent_browser_fast_status"@);
    assert(names[1] == "agent_browser_open"@);
    assert(names[2] == "agent_browser_back"@);
    assert(names[3] == "agent_browser_forward"@);
    assert(names[4] == "agent_browser_reload"@);
    assert(names[5] == "agent_browser_snapshot"@);
    assert(names[6] == "agent_browser_click"@);
    assert(names[7] == "agent_browser_dblclick"@);
    assert(names[8] == "agent_browser_fill"@);
    assert(names[9] == "agent_browser_type"@);
    assert(names[10] == "agent_browser_press"@);
    assert(names[11] == "agent_browser_hover"@);
    assert(names[12] == "agent_browser_focus"@);
    assert(names[13] == "agent_browser_check"@);
    assert(names[14] == "agent_browser_uncheck"@);
    assert(names[15] == "agent_browser_select"@);
    assert(names[16] == "agent_browser_scroll"@);
    assert(names[17] == "agent_browser_get_url"@);
    assert(names[18] == "agent_browser_get_title"@);
    assert(names[19] == "agent_browser_close"@);
}

/// The words of schemas differ.
proof fn lemma_schema_words()
    ensures
        "name"@.len() == 4 && "name"@[0] == 'n',
        "description"@.len() == 11 && "description"@[0] == 'd',
        "inputSchema"@.len() == 11 && "inputSchema"@[0] == 'i',
        "type"@.len() == 4 && "type"@[0] == 't' && "type"@[1] == 'y',
        "properties"@.len() == 10,
        "required"@.len() == 8 && "required"@[0] == 'r',
        "additionalProperties"@.len() == 20,
        "session"@.len() == 7 && "session"@[0] == 's',
        "timeoutMs"@.len() == 9 && "timeoutMs"@[0] == 't',
        "minimum"@.len() == 7 && "minimum"@[0] == 'm' && "minimum"@[1] == 'i',
        "maximum"@.len() == 7 && "maximum"@[0] == 'm' && "maximum"@[1] == 'a',
        "url"@.len() == 3 && "url"@[0] == 'u',
        "selector"@.len() == 8 && "selector"@[0] == 's',
        "value"@.len() == 5 && "value"@[0] == 'v',
        "text"@.len() == 4 && "text"@[0] == 't' && "text"@[1] == 'e',
        "clear"@.len() == 5 && "clear"@[0] == 'c',
        "delayMs"@.len() == 7 && "delayMs"@[0] == 'd' && "delayMs"@[2] == 'l',
        "key"@.len() == 3 && "key"@[0] == 'k',
        "values"@.len() == 6 && "values"@[0] == 'v',
        "direction"@.len() == 9 && "direction"@[0] == 'd',
        "amount"@.len() == 6 && "amount"@[0] == 'a',
        "enum"@.len() == 4 && "enum"@[0] == 'e',
        "default"@.len() == 7 && "default"@[0] == 'd' && "default"@[2] == 'f',
        "oneOf"@.len() == 5 && "oneOf"@[0] == 'o',
        "items"@.len() == 5 && "items"@[0] == 'i',
        "minItems"@.len() == 8 && "minItems"@[0] == 'm',
{
    reveal_strlit("name");
    reveal_strlit("description");
    reveal_strlit("inputSchema");
    reveal_strlit("type");
    reveal_strlit("properties");
    reveal_strlit("required");
    reveal_strlit("additionalProperties");
    reveal_strlit("session");
    reveal_strlit("timeoutMs");
    reveal_strlit("minimum");
    reveal_strlit("maximum");
    reveal_strlit("url");
    reveal_strlit("selector");
    reveal_strlit("value");
    reveal_strlit("text");
    reveal_strlit("clear");
    reveal_strlit("delayMs");
    reveal_strlit("key");
    reveal_strlit("values");
    reveal_strlit("direction");
    reveal_strlit("amount");
    reveal_strlit("enum");
    reveal_strlit("default");
    reveal_strlit("oneOf");
    reveal_strlit("items");
    reveal_strlit("minItems");
}

/// Whether a tool says what it is called, what it does, and which arguments a call must give; it
/// takes an object, and no arguments but those that it lists.
pub open spec fn describes(
    tool: JsonView,
    name: Seq<char>,
    description: Seq<char>,
    required: Seq<Seq<char>>,
) -> bool {
    &&& tool.get("name"@) == Some(JsonView::Text(name))
    &&& tool.get("description"@) == Some(JsonView::Text(description))
    &&& tool.get("inputSchema"@) matches Some(schema)
    &&& schema.get("type"@) == Some(JsonView::Text("object"@))
    &&& schema.get("additionalProperties"@) == Some(JsonView::Bool(false))
    &&& schema.get("required"@) matches Some(JsonView::Array(names))
    &&& names.len() == required.len()
    &&& forall|i: int|
        0 <= i < required.len() ==> names[i] == JsonView::Text(#[trigger] required[i])
}

proof fn lemma_describes(
    name: Seq<char>,
    description: Seq<char>,
    properties: Seq<(Seq<char>, JsonView)>,
    required: Seq<Seq<char>>,
)
    ensures
        describes(
            tool_view(name, description, properties, required),
            name,
            description,
            required,
        ),
{
    broadcast use lemma_member_push;

    lemma_schema_words();
    let tool = tool_view(name, description, properties, required);
    let schema = tool.get("inputSchema"@)->0;
    assert(schema.get("required"@) == Some(text_items(required)));
    assert(schema.get("additionalProperties"@) == Some(JsonView::Bool(false)));
    assert(schema.get("type"@) == Some(JsonView::Text("object"@)));
}

/// Each tool says what it does and which arguments a call must give.
pub proof fn law_tools_describe_themselves()
    ensures
        tool_list().len() == 20,
        describes(
            tool_list()[0],
            "agent_browser_fast_status"@,
            "Inspect the resident transport without touching the browser."@,
            Seq::empty(),
        ),
        describes(
            tool_list()[1],
            "agent_browser_open"@,
            "Navigate the current browser tab."@,
            Seq::empty().push("url"@),
        ),
        describes(tool_list()[2], "agent_browser_back"@, "Navigate back."@, Seq::empty()),
        describes(tool_list()[3], "agent_browser_forward"@, "Navigate forward."@, Seq::empty()),
        describes(
            tool_list()[4],
            "agent_browser_reload"@,
            "Reload the current page."@,
            Seq::empty(),
        ),
        describes(
            tool_list()[5],
            "agent_browser_snapshot"@,
            "Capture the current semantic browser snapshot."@,
            Seq::empty(),
        ),
        describes(
            tool_list()[6],
            "agent_browser_click"@,
            "Click a semantic selector or @ref."@,
            Seq::empty().push("selector"@),
        ),
        describes(
            tool_list()[7],
            "agent_browser_dblclick"@,
            "Double-click a semantic selector or @ref."@,
            Seq::empty().push("selector"@),
        ),
        describes(
            tool_list()[8],
            "agent_browser_fill"@,
            "Clear and fill a field."@,
            Seq::empty().push("selector"@).push("value"@),
        ),
        describes(
            tool_list()[9],
            "agent_browser_type"@,
            "Type into a field without exposing text in a child-process argv."@,
            Seq::empty().push("selector"@).push("text"@),
        ),
        describes(
            tool_list()[10],
            "agent_browser_press"@,
            "Press a keyboard key."@,
            Seq::empty().push("key"@),
        ),
        describes(
            tool_list()[11],
            "agent_browser_hover"@,
            "Hover a semantic selector or @ref."@,
            Seq::empty().push("selector"@),
        ),
        describes(
            tool_list()[12],
            "agent_browser_focus"@,
            "Focus a semantic selector or @ref."@,
            Seq::empty().push("selector"@),
        ),
        describes(
            tool_list()[13],
            "agent_browser_check"@,
            "Check a checkbox or radio control."@,
            Seq::empty().push("selector"@),
        ),
        describes(
            tool_list()[14],
            "agent_browser_uncheck"@,
            "Uncheck a checkbox."@,
            Seq::empty().push("selector"@),
        ),
        describes(
            tool_list()[15],
            "agent_browser_select"@,
            "Select one or more option values."@,
            Seq::empty().push("selector"@).push("values"@),
        ),
        describes(
            tool_list()[16],
            "agent_browser_scroll"@,
            "Scroll the page or a semantic container."@,
            Seq::empty(),
        ),
        describes(
            tool_list()[17],
            "agent_browser_get_url"@,
            "Read the current page URL."@,
            Seq::empty(),
        ),
        describes(
            tool_list()[18],
            "agent_browser_get_title"@,
            "Read the current page title."@,
            Seq::empty(),
        ),
        describes(
            tool_list()[19],
            "agent_browser_close"@,
            "Close the current browser session."@,
            Seq::empty(),
        ),
{
    assert forall|
        name: Seq<char>,
        description: Seq<char>,
        properties: Seq<(Seq<char>, JsonView)>,
        required: Seq<Seq<char>>,
    |
        describes(
            #[trigger] tool_view(name, description, properties, required),
            name,
            description,
            required,
        ) by {
        lemma_describes(name, description, properties, required);
    }
}

/// Whether a schema asks for a string.
pub open spec fn asks_for_text(schema: Option<JsonView>) -> bool {
    &&& schema matches Some(told)
    &&& told.get("type"@) == Some(JsonView::Text("string"@))
}

/// Whether a schema asks for a whole number between two others.
pub open spec fn asks_for_number(schema: Option<JsonView>, low: int, high: int) -> bool {
    &&& schema matches Some(told)
    &&& told.get("type"@) == Some(JsonView::Text("integer"@))
    &&& told.get("minimum"@) == Some(
        JsonView::Number(
            if low < 0 {
                NumberView::Negative(low as i64)
            } else {
                NumberView::Unsigned(low as u64)
            },
        ),
    )
    &&& told.get("maximum"@) == Some(JsonView::Number(NumberView::Unsigned(high as u64)))
}

proof fn lemma_property(
    name: Seq<char>,
    description: Seq<char>,
    properties: Seq<(Seq<char>, JsonView)>,
    required: Seq<Seq<char>>,
    property: Seq<char>,
)
    ensures
        property != "session"@ && property != "timeoutMs"@ ==> argument_schema(
            tool_view(name, description, properties, required),
            property,
        ) == JsonView::Object(properties).get(property),
        asks_for_text(
            argument_schema(tool_view(name, description, properties, required), "session"@),
        ),
        asks_for_number(
            argument_schema(tool_view(name, description, properties, required), "timeoutMs"@),
            1,
            600_000,
        ),
{
    broadcast use lemma_member_push;

    lemma_schema_words();
    lemma_tool_view(name, description, properties, required);
    let session = text_schema("Optional validated session override"@);
    let own = with_member(properties, "session"@, session);
    let limit = number_schema(1, MAX_TIMEOUT_MS as i64);
    law_member_reads_back(properties, "session"@, session, property);
    law_member_reads_back(own, "timeoutMs"@, limit, property);
    let tool = tool_view(name, description, properties, required);
    let schema = tool.get("inputSchema"@)->0;
    assert(schema.get("properties"@) == Some(
        JsonView::Object(with_member(own, "timeoutMs"@, limit)),
    ));
}

/// The arguments of the tools are asked for as what they are: addresses, selectors, values, texts
/// and keys as strings, pauses as milliseconds up to a minute, ways to scroll as one of four, and
/// distances as pixels up to 100000 either way. Every tool takes a session and a time limit of up
/// to ten minutes.
pub proof fn law_arguments_are_described(i: int)
    requires
        0 <= i < tool_list().len(),
    ensures
        asks_for_text(argument_schema(tool_list()[i], "session"@)),
        asks_for_number(argument_schema(tool_list()[i], "timeoutMs"@), 1, 600_000),
        asks_for_text(argument_schema(tool_list()[1], "url"@)),
        i == 6 || i == 7 || i == 8 || i == 9 || 11 <= i <= 16 ==> asks_for_text(
            argument_schema(tool_list()[i], "selector"@),
        ),
        asks_for_text(argument_schema(tool_list()[8], "value"@)),
        asks_for_text(argument_schema(tool_list()[9], "text"@)),
        argument_schema(tool_list()[9], "clear"@) matches Some(clear) && clear.get("type"@) == Some(
            JsonView::Text("boolean"@),
        ),
        asks_for_number(argument_schema(tool_list()[9], "delayMs"@), 0, 60_000),
        asks_for_text(argument_schema(tool_list()[10], "key"@)),
        asks_for_text(argument_schema(tool_list()[16], "direction"@)),
        argument_schema(tool_list()[16], "direction"@) matches Some(direction) && direction.get(
            "default"@,
        ) == Some(JsonView::Text("down"@)),
        asks_for_number(argument_schema(tool_list()[16], "amount"@), -100_000, 100_000),
{
    broadcast use lemma_member_push;

    lemma_schema_words();
    assert forall|
        name: Seq<char>,
        description: Seq<char>,
        properties: Seq<(Seq<char>, JsonView)>,
        required: Seq<Seq<char>>,
        property: Seq<char>,
    |
        property != "session"@ && property != "timeoutMs"@ implies #[trigger] argument_schema(
        tool_view(name, description, properties, required),
        property,
    ) == JsonView::Object(properties).get(property) by {
        lemma_property(name, description, properties, required, property);
    }
    assert forall|
        name: Seq<char>,
        description: Seq<char>,
        properties: Seq<(Seq<char>, JsonView)>,
        required: Seq<Seq<char>>,
    |
        #![trigger tool_view(name, description, properties, required)]
        asks_for_text(
            argument_schema(tool_view(name, description, properties, required), "session"@),
        ) && asks_for_number(
            argument_schema(tool_view(name, description, properties, required), "timeoutMs"@),
            1,
            600_000,
        ) by {
        lemma_property(name, description, properties, required, "session"@);
    }
    assert forall|description: Seq<char>| #[trigger]
        asks_for_text(Some(text_schema(description))) by {}
    assert(asks_for_number(Some(number_schema(0, 60_000)), 0, 60_000));
    assert(asks_for_number(
        Some(number_schema((-100_000) as i64, 100_000)),
        -100_000,
        100_000,
    ));
}

/// The ways to scroll are up, down, left and right. Options are selected with one string or a list
/// of at least one.
pub proof fn law_choices_are_described()
    ensures
        argument_schema(tool_list()[16], "direction"@) matches Some(direction) && direction.get(
            "enum"@,
        ) == Some(
            JsonView::Array(
                Seq::empty().push(JsonView::Text("up"@)).push(JsonView::Text("down"@)).push(
                    JsonView::Text("left"@),
                ).push(JsonView::Text("right"@)),
            ),
        ),
        argument_schema(tool_list()[15], "values"@) matches Some(values) && {
            &&& values.get("oneOf"@) matches Some(JsonView::Array(choices))
            &&& choices.len() == 2
            &&& choices[0].get("type"@) == Some(JsonView::Text("string"@))
            &&& choices[1].get("type"@) == Some(JsonView::Text("array"@))
            &&& choices[1].get("items"@) matches Some(item)
            &&& item.get("type"@) == Some(JsonView::Text("string"@))
            &&& choices[1].get("minItems"@) == Some(JsonView::Number(NumberView::Unsigned(1)))
        },
{
    broadcast use lemma_member_push;

    lemma_schema_words();
    assert forall|
        name: Seq<char>,
        description: Seq<char>,
        properties: Seq<(Seq<char>, JsonView)>,
        required: Seq<Seq<char>>,
        property: Seq<char>,
    |
        property != "session"@ && property != "timeoutMs"@ implies #[trigger] argument_schema(
        tool_view(name, description, properties, required),
        property,
    ) == JsonView::Object(properties).get(property) by {
        lemma_property(name, description, properties, required, property);
    }
    let ways = no_words().push("up"@).push("down"@).push("left"@).push("right"@);
    assert(text_items(ways)->Array_0 =~= Seq::empty().push(JsonView::Text("up"@)).push(
        JsonView::Text("down"@),
    ).push(JsonView::Text("left"@)).push(JsonView::Text("right"@)));
    let direction = argument_schema(tool_list()[16], "direction"@)->0;
    assert(direction == direction_schema());
    let values = argument_schema(tool_list()[15], "values"@)->0;
    assert(values == values_schema());
    let choices = values.get("oneOf"@)->0->Array_0;
    assert(choices.len() == 2);
    assert(choices[1].get("items"@) == Some(type_schema("string"@)));
}

} // verus!
