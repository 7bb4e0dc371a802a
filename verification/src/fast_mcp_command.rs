//! Browser commands from tool calls: the arguments are read and checked, and each call becomes one
//! command for the daemon and one command line for a process that starts the daemon.

use vstd::prelude::*;
use vstd::utf8::encode_utf8;
use crate::json::{
    get_member, items_view, lemma_member_push, member, members_view, no_members, optional_string,
    signed_number, signed_of, text_of, unsigned_of, flag_of, Fields, Json, JsonView, NumberView,
};
use crate::text::{
    begins_with_folded, char_is_control, char_is_whitespace, chars_of, contains_char, decimal,
    decimal_text, no_words, one_word, push_word, same, signed_decimal, signed_decimal_text,
    starts_with_folded, texts_view, three_words, two_words,
};

verus! {

/// The longest selector, in bytes.
pub const MAX_SELECTOR_BYTES: usize = 16 * 1024;

/// The longest text or value, in bytes.
pub const MAX_TEXT_BYTES: usize = 1024 * 1024;

/// The longest address, in bytes.
pub const MAX_URL_BYTES: usize = 64 * 1024;

/// The longest name of a key, in bytes.
pub const MAX_KEY_BYTES: usize = 256;

/// The longest pause between typed characters, in milliseconds.
pub const MAX_DELAY_MS: u64 = 60_000;

/// The longest way to scroll, in pixels.
pub const MAX_SCROLL: i64 = 100_000;

// ---------------------------------------------------------------------------
// Arguments
// ---------------------------------------------------------------------------

/// The arguments of a call.
pub type Arguments = Seq<(Seq<char>, JsonView)>;

/// What is wrong with the value of `key`, where anything is: it is empty, too long or holds the
/// character zero.
pub open spec fn bound_trouble(value: Seq<char>, key: Seq<char>, maximum: usize) -> Option<
    Seq<char>,
> {
    if value.len() == 0 {
        Some(key + " must not be empty"@)
    } else if encode_utf8(value).len() > maximum {
        Some(key + " exceeds its "@ + decimal(maximum as nat) + "-byte limit"@)
    } else if value.contains('\0') {
        Some(key + " must not contain NUL"@)
    } else {
        None
    }
}

/// The string under `key`, or what is wrong with it.
pub open spec fn bounded_text(arguments: Arguments, key: Seq<char>, maximum: usize) -> Result<
    Seq<char>,
    Seq<char>,
> {
    match text_of(member(arguments, key)) {
        None => Err(key + " must be a string"@),
        Some(value) => match bound_trouble(value, key, maximum) {
            Some(words) => Err(words),
            None => Ok(value),
        },
    }
}

/// What is wrong with the first value of a list that something is wrong with.
pub open spec fn first_trouble(values: Seq<Seq<char>>, key: Seq<char>, maximum: usize) -> Option<
    Seq<char>,
>
    decreases values.len(),
{
    if values.len() == 0 {
        None
    } else {
        match bound_trouble(values[0], key, maximum) {
            Some(words) => Some(words),
            None => first_trouble(values.drop_first(), key, maximum),
        }
    }
}

/// The strings of a list, where it holds nothing else.
pub open spec fn all_texts(items: Seq<JsonView>) -> Option<Seq<Seq<char>>> {
    if forall|i: int| 0 <= i < items.len() ==> #[trigger] items[i] is Text {
        Some(Seq::new(items.len(), |i: int| items[i]->Text_0))
    } else {
        None
    }
}

/// The strings under `key`, one or a list of at least one, or what is wrong with them.
pub open spec fn chosen_texts(arguments: Arguments, key: Seq<char>, maximum: usize) -> Result<
    Seq<Seq<char>>,
    Seq<char>,
> {
    let values = match member(arguments, key) {
        None => Err(key + " is required"@),
        Some(JsonView::Text(value)) => Ok(seq![value]),
        Some(JsonView::Array(items)) => if items.len() == 0 {
            Err(key + " must contain at least one value"@)
        } else {
            match all_texts(items) {
                Some(values) => Ok(values),
                None => Err(key + " must contain only strings"@),
            }
        },
        Some(_) => Err(key + " must be a string or string array"@),
    };
    match values {
        Err(words) => Err(words),
        Ok(list) => match first_trouble(list, key, maximum) {
            Some(words) => Err(words),
            None => Ok(list),
        },
    }
}

/// The model of a string or the words of what is wrong.
pub open spec fn text_result(result: Result<String, String>) -> Result<Seq<char>, Seq<char>> {
    match result {
        Ok(text) => Ok(text@),
        Err(words) => Err(words@),
    }
}

/// The model of strings or the words of what is wrong.
pub open spec fn texts_result(result: Result<Vec<String>, String>) -> Result<
    Seq<Seq<char>>,
    Seq<char>,
> {
    match result {
        Ok(list) => Ok(texts_view(list@)),
        Err(words) => Err(words@),
    }
}

/// Whether a value is within its bounds.
pub fn validate_bounded(value: &str, key: &str, maximum: usize) -> (result: Result<(), String>)
    ensures
        match result {
            Ok(_) => bound_trouble(value@, key@, maximum) is None,
            Err(words) => bound_trouble(value@, key@, maximum) == Some(words@),
        },
{
    let mut words = key.to_owned();
    if value.is_empty() {
        words.append(" must not be empty");
        return Err(words);
    }
    if value.as_bytes().len() > maximum {
        words.append(" exceeds its ");
        words.append(decimal_text(maximum as u64).as_str());
        words.append("-byte limit");
        return Err(words);
    }
    if contains_char(value, '\0') {
        words.append(" must not contain NUL");
        return Err(words);
    }
    Ok(())
}

/// The string under `key`, where there is one.
pub fn optional_text_argument(arguments: &Vec<(String, Json)>, key: &str) -> (value: Option<String>)
    ensures
        optional_string(value) == text_of(member(members_view(arguments@), key@)),
{
    match get_member(arguments, key) {
        Some(json) => match json.as_str() {
            Some(text) => Some(text.to_owned()),
            None => None,
        },
        None => None,
    }
}

/// The number without a sign under `key`, where there is one.
pub fn optional_u64(arguments: &Vec<(String, Json)>, key: &str) -> (value: Option<u64>)
    ensures
        value == unsigned_of(member(members_view(arguments@), key@)),
{
    match get_member(arguments, key) {
        Some(json) => json.as_u64(),
        None => None,
    }
}

/// The integer under `key`, where there is one.
pub fn optional_i64(arguments: &Vec<(String, Json)>, key: &str) -> (value: Option<i64>)
    ensures
        value == signed_of(member(members_view(arguments@), key@)),
{
    match get_member(arguments, key) {
        Some(json) => json.as_i64(),
        None => None,
    }
}

/// The truth value under `key`, where there is one.
pub fn optional_bool(arguments: &Vec<(String, Json)>, key: &str) -> (value: Option<bool>)
    ensures
        value == flag_of(member(members_view(arguments@), key@)),
{
    match get_member(arguments, key) {
        Some(json) => json.as_bool(),
        None => None,
    }
}

/// The string under `key`, or what is wrong with it.
pub fn bounded_string(
    arguments: &Vec<(String, Json)>,
    key: &str,
    maximum: usize,
) -> (result: Result<String, String>)
    ensures
        text_result(result) == bounded_text(members_view(arguments@), key@, maximum),
{
    match optional_text_argument(arguments, key) {
        None => {
            let mut words = key.to_owned();
            words.append(" must be a string");
            Err(words)
        },
        Some(value) => match validate_bounded(value.as_str(), key, maximum) {
            Ok(_) => Ok(value),
            Err(words) => Err(words),
        },
    }
}

/// The strings of a list, where it holds nothing else.
fn strings_of(items: &Vec<Json>) -> (list: Option<Vec<String>>)
    ensures
        match list {
            Some(texts) => all_texts(items_view(items@)) == Some(texts_view(texts@)),
            None => all_texts(items_view(items@)) is None,
        },
{
    let mut texts: Vec<String> = Vec::new();
    let ghost all = items_view(items@);
    let mut i: usize = 0;
    while i < items.len()
        invariant
            i <= items@.len(),
            all == items_view(items@),
            texts@.len() == i,
            forall|j: int|
                0 <= j < i ==> (#[trigger] all[j]) is Text && all[j]->Text_0 == texts@[j]@,
        decreases items@.len() - i,
    {
        match items[i].as_str() {
            Some(text) => {
                texts.push(text.to_owned());
            },
            None => {
                assert(!(all[i as int] is Text));
                return None;
            },
        }
        i += 1;
    }
    assert(all_texts(all)->0 =~= texts_view(texts@));
    Some(texts)
}

/// The strings under `key`, one or a list of at least one, or what is wrong with them.
pub fn string_or_string_array(
    arguments: &Vec<(String, Json)>,
    key: &str,
    maximum: usize,
) -> (result: Result<Vec<String>, String>)
    ensures
        texts_result(result) == chosen_texts(members_view(arguments@), key@, maximum),
{
    let mut words = key.to_owned();
    let value = match get_member(arguments, key) {
        Some(value) => value,
        None => {
            words.append(" is required");
            return Err(words);
        },
    };
    let values: Vec<String> = match value.as_str() {
        Some(text) => {
            let list = one_word(text);
            assert(texts_view(list@) =~= seq![text@]);
            list
        },
        None => match value.as_array() {
            Some(items) => {
                if items.len() == 0 {
                    words.append(" must contain at least one value");
                    return Err(words);
                }
                match strings_of(items) {
                    Some(list) => list,
                    None => {
                        words.append(" must contain only strings");
                        return Err(words);
                    },
                }
            },
            None => {
                words.append(" must be a string or string array");
                return Err(words);
            },
        },
    };
    let ghost texts = texts_view(values@);
    let mut i: usize = 0;
    assert(texts.skip(0) =~= texts);
    while i < values.len()
        invariant
            i <= values@.len(),
            texts == texts_view(values@),
            first_trouble(texts, key@, maximum) == first_trouble(
                texts.skip(i as int),
                key@,
                maximum,
            ),
            chosen_texts(members_view(arguments@), key@, maximum) == match first_trouble(
                texts,
                key@,
                maximum,
            ) {
                Some(words) => Err::<Seq<Seq<char>>, Seq<char>>(words),
                None => Ok(texts),
            },
        decreases values@.len() - i,
    {
        assert(texts.skip(i as int)[0] == values@[i as int]@);
        assert(texts.skip(i as int).drop_first() =~= texts.skip(i + 1));
        match validate_bounded(values[i].as_str(), key, maximum) {
            Ok(_) => {},
            Err(words) => {
                return Err(words);
            },
        }
        i += 1;
    }
    Ok(values)
}

// ---------------------------------------------------------------------------
// Addresses
// ---------------------------------------------------------------------------

/// Whether an address says how it is to be reached.
pub open spec fn has_scheme(url: Seq<char>) -> bool {
    begins_with_folded(url, "http://"@) || begins_with_folded(url, "https://"@)
        || begins_with_folded(url, "about:"@) || begins_with_folded(url, "data:"@)
        || begins_with_folded(url, "file:"@) || begins_with_folded(url, "chrome-extension://"@)
        || begins_with_folded(url, "chrome://"@)
}

/// Whether an address holds a character that no address may hold.
pub open spec fn has_blank_or_control(url: Seq<char>) -> bool {
    exists|i: int|
        0 <= i < url.len() && (char_is_control(#[trigger] url[i]) || char_is_whitespace(url[i]))
}

/// The address to open, or what is wrong with it.
pub open spec fn normalized_url(url: Seq<char>) -> Result<Seq<char>, Seq<char>> {
    match bound_trouble(url, "url"@, MAX_URL_BYTES) {
        Some(words) => Err(words),
        None => if has_blank_or_control(url) {
            Err("url must not contain whitespace or control characters"@)
        } else if has_scheme(url) {
            Ok(url)
        } else {
            Ok("https://"@ + url)
        },
    }
}

/// The address to open, or what is wrong with it.
pub fn normalize_url(url: &str) -> (result: Result<String, String>)
    ensures
        text_result(result) == normalized_url(url@),
{
    match validate_bounded(url, "url", MAX_URL_BYTES) {
        Ok(_) => {},
        Err(words) => {
            return Err(words);
        },
    }
    let chars = chars_of(url);
    let mut i: usize = 0;
    while i < chars.len()
        invariant
            i <= chars@.len(),
            chars@ == url@,
            bound_trouble(url@, "url"@, MAX_URL_BYTES) is None,
            forall|j: int|
                0 <= j < i ==> !char_is_control(#[trigger] url@[j]) && !char_is_whitespace(url@[j]),
        decreases chars@.len() - i,
    {
        if chars[i].is_control() || chars[i].is_whitespace() {
            assert(char_is_control(url@[i as int]) || char_is_whitespace(url@[i as int]));
            return Err("url must not contain whitespace or control characters".to_owned());
        }
        i += 1;
    }
    let known = starts_with_folded(url, "http://") || starts_with_folded(url, "https://")
        || starts_with_folded(url, "about:") || starts_with_folded(url, "data:")
        || starts_with_folded(url, "file:") || starts_with_folded(url, "chrome-extension://")
        || starts_with_folded(url, "chrome://");
    if known {
        Ok(url.to_owned())
    } else {
        let mut address = "https://".to_owned();
        address.append(url);
        Ok(address)
    }
}

/// An address that is opened says how it is to be reached, and is what was asked for up to that.
pub proof fn law_opened_address_has_a_scheme(url: Seq<char>)
    ensures
        normalized_url(url) matches Ok(address) ==> {
            &&& has_scheme(address)
            &&& address == url || address == "https://"@ + url
        },
{
    reveal_strlit("https://");
    assert(begins_with_folded("https://"@ + url, "https://"@));
}

// ---------------------------------------------------------------------------
// Commands
// ---------------------------------------------------------------------------

/// What a tool call asks of the browser.
pub struct ToolCommand {
    /// The command for the daemon.
    pub command: Json,
    /// The same for a command line.
    pub cli_args: Vec<String>,
    /// Whether it may go through a command line, which other processes can read.
    pub bootstrap_safe: bool,
}

/// The model of what a tool call asks.
#[verifier::ext_equal]
pub struct CommandView {
    pub command: JsonView,
    pub cli_args: Seq<Seq<char>>,
    pub bootstrap_safe: bool,
}

impl View for ToolCommand {
    type V = CommandView;

    open spec fn view(&self) -> CommandView {
        CommandView {
            command: self.command@,
            cli_args: texts_view(self.cli_args@),
            bootstrap_safe: self.bootstrap_safe,
        }
    }
}

/// The model of a command or the words of what is wrong.
pub open spec fn command_result(result: Result<ToolCommand, String>) -> Result<
    CommandView,
    Seq<char>,
> {
    match result {
        Ok(command) => Ok(command@),
        Err(words) => Err(words@),
    }
}

/// The members of a command that only names its action.
pub open spec fn action_members(action: Seq<char>) -> Seq<(Seq<char>, JsonView)> {
    no_members().push(("action"@, JsonView::Text(action)))
}

/// A command without arguments.
pub open spec fn bare_command(action: Seq<char>, cli_args: Seq<Seq<char>>) -> Result<
    CommandView,
    Seq<char>,
> {
    Ok(
        CommandView {
            command: JsonView::Object(action_members(action)),
            cli_args: cli_args,
            bootstrap_safe: true,
        },
    )
}

/// A command on one element.
pub open spec fn element_command(
    arguments: Arguments,
    action: Seq<char>,
    cli_action: Seq<char>,
    bootstrap_safe: bool,
) -> Result<CommandView, Seq<char>> {
    match bounded_text(arguments, "selector"@, MAX_SELECTOR_BYTES) {
        Err(words) => Err(words),
        Ok(selector) => Ok(
            CommandView {
                command: JsonView::Object(
                    action_members(action).push(("selector"@, JsonView::Text(selector))),
                ),
                cli_args: no_words().push(cli_action).push(selector),
                bootstrap_safe: bootstrap_safe,
            },
        ),
    }
}

/// The command that opens an address.
pub open spec fn open_command(arguments: Arguments) -> Result<CommandView, Seq<char>> {
    match bounded_text(arguments, "url"@, MAX_URL_BYTES) {
        Err(words) => Err(words),
        Ok(url) => match normalized_url(url) {
            Err(words) => Err(words),
            Ok(address) => Ok(
                CommandView {
                    command: JsonView::Object(
                        action_members("navigate"@).push(("url"@, JsonView::Text(address))),
                    ),
                    cli_args: no_words().push("open"@).push(url),
                    bootstrap_safe: true,
                },
            ),
        },
    }
}

/// The command that fills a field.
pub open spec fn fill_command(arguments: Arguments) -> Result<CommandView, Seq<char>> {
    match bounded_text(arguments, "selector"@, MAX_SELECTOR_BYTES) {
        Err(words) => Err(words),
        Ok(selector) => match bounded_text(arguments, "value"@, MAX_TEXT_BYTES) {
            Err(words) => Err(words),
            Ok(value) => Ok(
                CommandView {
                    command: JsonView::Object(
                        action_members("fill"@).push(("selector"@, JsonView::Text(selector))).push(
                            ("value"@, JsonView::Text(value)),
                        ),
                    ),
                    cli_args: no_words().push("fill"@).push(selector).push(value),
                    bootstrap_safe: false,
                },
            ),
        },
    }
}

/// The command that types a text, with an empty field before it and pauses in it where asked for.
pub open spec fn typing(
    selector: Seq<char>,
    text: Seq<char>,
    clear: bool,
    delay: Option<u64>,
) -> CommandView {
    let members = action_members("type"@).push(("selector"@, JsonView::Text(selector))).push(
        ("text"@, JsonView::Text(text)),
    );
    let cli_args = no_words().push("type"@).push(selector).push(text);
    let members = if clear {
        members.push(("clear"@, JsonView::Bool(true)))
    } else {
        members
    };
    let cli_args = if clear {
        cli_args.push("--clear"@)
    } else {
        cli_args
    };
    CommandView {
        command: JsonView::Object(
            match delay {
                Some(ms) => members.push(("delay"@, JsonView::Number(NumberView::Unsigned(ms)))),
                None => members,
            },
        ),
        cli_args: match delay {
            Some(ms) => cli_args.push("--delay"@).push(decimal(ms as nat)),
            None => cli_args,
        },
        bootstrap_safe: false,
    }
}

/// The command that types into a field.
pub open spec fn type_command(arguments: Arguments) -> Result<CommandView, Seq<char>> {
    let clear = flag_of(member(arguments, "clear"@)) == Some(true);
    let delay = unsigned_of(member(arguments, "delayMs"@));
    match bounded_text(arguments, "selector"@, MAX_SELECTOR_BYTES) {
        Err(words) => Err(words),
        Ok(selector) => match bounded_text(arguments, "text"@, MAX_TEXT_BYTES) {
            Err(words) => Err(words),
            Ok(text) => if delay matches Some(ms) && ms > MAX_DELAY_MS {
                Err("delayMs must be <= 60000"@)
            } else {
                Ok(typing(selector, text, clear, delay))
            },
        },
    }
}

/// The command that presses a key.
pub open spec fn press_command(arguments: Arguments) -> Result<CommandView, Seq<char>> {
    match bounded_text(arguments, "key"@, MAX_KEY_BYTES) {
        Err(words) => Err(words),
        Ok(key) => Ok(
            CommandView {
                command: JsonView::Object(
                    action_members("press"@).push(("key"@, JsonView::Text(key))),
                ),
                cli_args: no_words().push("press"@).push(key),
                bootstrap_safe: true,
            },
        ),
    }
}

/// Values as one value: a single one stands alone.
pub open spec fn values_view(values: Seq<Seq<char>>) -> JsonView {
    if values.len() == 1 {
        JsonView::Text(values[0])
    } else {
        JsonView::Array(Seq::new(values.len(), |i: int| JsonView::Text(values[i])))
    }
}

/// The command that selects options.
pub open spec fn select_command(arguments: Arguments) -> Result<CommandView, Seq<char>> {
    match bounded_text(arguments, "selector"@, MAX_SELECTOR_BYTES) {
        Err(words) => Err(words),
        Ok(selector) => match chosen_texts(arguments, "values"@, MAX_TEXT_BYTES) {
            Err(words) => Err(words),
            Ok(values) => Ok(
                CommandView {
                    command: JsonView::Object(
                        action_members("select"@).push(
                            ("selector"@, JsonView::Text(selector)),
                        ).push(("values"@, values_view(values))),
                    ),
                    cli_args: no_words().push("select"@).push(selector) + values,
                    bootstrap_safe: false,
                },
            ),
        },
    }
}

/// The command that scrolls, the page or one element.
pub open spec fn scrolling(
    direction: Seq<char>,
    amount: i64,
    selector: Option<Seq<char>>,
) -> CommandView {
    let members = action_members("scroll"@).push(("direction"@, JsonView::Text(direction))).push(
        ("amount"@, signed_number(amount)),
    );
    let cli_args = no_words().push("scroll"@).push(direction).push(signed_decimal(amount as int));
    CommandView {
        command: JsonView::Object(
            match selector {
                Some(text) => members.push(("selector"@, JsonView::Text(text))),
                None => members,
            },
        ),
        cli_args: match selector {
            Some(text) => cli_args.push("--selector"@).push(text),
            None => cli_args,
        },
        bootstrap_safe: true,
    }
}

/// Whether one can scroll this way.
pub open spec fn is_direction(direction: Seq<char>) -> bool {
    direction == "up"@ || direction == "down"@ || direction == "left"@ || direction == "right"@
}

/// The command that scrolls.
pub open spec fn scroll_command(arguments: Arguments) -> Result<CommandView, Seq<char>> {
    let direction = match text_of(member(arguments, "direction"@)) {
        Some(text) => text,
        None => "down"@,
    };
    let amount = match signed_of(member(arguments, "amount"@)) {
        Some(number) => number,
        None => 300,
    };
    let selector = text_of(member(arguments, "selector"@));
    let trouble = match selector {
        Some(text) => bound_trouble(text, "selector"@, MAX_SELECTOR_BYTES),
        None => None,
    };
    if !is_direction(direction) {
        Err("direction must be up, down, left, or right"@)
    } else if !(-MAX_SCROLL <= amount <= MAX_SCROLL) {
        Err("amount must be between -100000 and 100000"@)
    } else if trouble is Some {
        Err(trouble->0)
    } else {
        Ok(scrolling(direction, amount, selector))
    }
}

/// What a call of the tool `name` asks of the browser, where there is such a tool.
pub open spec fn called_command(name: Seq<char>, arguments: Arguments) -> Option<
    Result<CommandView, Seq<char>>,
> {
    if name == "agent_browser_open"@ {
        Some(open_command(arguments))
    } else if name == "agent_browser_back"@ {
        Some(bare_command("back"@, no_words().push("back"@)))
    } else if name == "agent_browser_forward"@ {
        Some(bare_command("forward"@, no_words().push("forward"@)))
    } else if name == "agent_browser_reload"@ {
        Some(bare_command("reload"@, no_words().push("reload"@)))
    } else if name == "agent_browser_snapshot"@ {
        Some(bare_command("snapshot"@, no_words().push("snapshot"@)))
    } else if name == "agent_browser_click"@ {
        Some(element_command(arguments, "click"@, "click"@, true))
    } else if name == "agent_browser_dblclick"@ {
        Some(element_command(arguments, "dblclick"@, "dblclick"@, true))
    } else if name == "agent_browser_fill"@ {
        Some(fill_command(arguments))
    } else if name == "agent_browser_type"@ {
        Some(type_command(arguments))
    } else if name == "agent_browser_press"@ {
        Some(press_command(arguments))
    } else if name == "agent_browser_hover"@ {
        Some(element_command(arguments, "hover"@, "hover"@, true))
    } else if name == "agent_browser_focus"@ {
        Some(element_command(arguments, "focus"@, "focus"@, true))
    } else if name == "agent_browser_check"@ {
        Some(element_command(arguments, "check"@, "check"@, true))
    } else if name == "agent_browser_uncheck"@ {
        Some(element_command(arguments, "uncheck"@, "uncheck"@, true))
    } else if name == "agent_browser_select"@ {
        Some(select_command(arguments))
    } else if name == "agent_browser_scroll"@ {
        Some(scroll_command(arguments))
    } else if name == "agent_browser_get_url"@ {
        Some(bare_command("get_url"@, no_words().push("get"@).push("url"@)))
    } else if name == "agent_browser_get_title"@ {
        Some(bare_command("get_title"@, no_words().push("get"@).push("title"@)))
    } else if name == "agent_browser_close"@ {
        Some(bare_command("close"@, no_words().push("close"@)))
    } else {
        None
    }
}

/// A command without arguments.
fn bare(action: &str, cli_args: Vec<String>) -> (command: ToolCommand)
    ensures
        bare_command(action@, texts_view(cli_args@)) == Ok::<CommandView, Seq<char>>(command@),
{
    let command = Fields::new().with("action", Json::text(action)).done();
    ToolCommand { command, cli_args, bootstrap_safe: true }
}

/// A command on one element.
pub fn selector_command(
    arguments: &Vec<(String, Json)>,
    action: &str,
    cli_action: &str,
    bootstrap_safe: bool,
) -> (result: Result<ToolCommand, String>)
    ensures
        command_result(result) == element_command(
            members_view(arguments@),
            action@,
            cli_action@,
            bootstrap_safe,
        ),
{
    match bounded_string(arguments, "selector", MAX_SELECTOR_BYTES) {
        Err(words) => Err(words),
        Ok(selector) => {
            let cli_args = two_words(cli_action, selector.as_str());
            let command = Fields::new()
                .with("action", Json::text(action))
                .with("selector", Json::owned(selector))
                .done();
            Ok(ToolCommand { command, cli_args, bootstrap_safe })
        },
    }
}

/// The command that opens an address.
fn opening(arguments: &Vec<(String, Json)>) -> (result: Result<ToolCommand, String>)
    ensures
        command_result(result) == open_command(members_view(arguments@)),
{
    let url = match bounded_string(arguments, "url", MAX_URL_BYTES) {
        Ok(url) => url,
        Err(words) => {
            return Err(words);
        },
    };
    match normalize_url(url.as_str()) {
        Err(words) => Err(words),
        Ok(address) => {
            let command = Fields::new()
                .with("action", Json::text("navigate"))
                .with("url", Json::owned(address))
                .done();
            let cli_args = two_words("open", url.as_str());
            Ok(ToolCommand { command, cli_args, bootstrap_safe: true })
        },
    }
}

/// The command that fills a field.
fn filling(arguments: &Vec<(String, Json)>) -> (result: Result<ToolCommand, String>)
    ensures
        command_result(result) == fill_command(members_view(arguments@)),
{
    let selector = match bounded_string(arguments, "selector", MAX_SELECTOR_BYTES) {
        Ok(selector) => selector,
        Err(words) => {
            return Err(words);
        },
    };
    match bounded_string(arguments, "value", MAX_TEXT_BYTES) {
        Err(words) => Err(words),
        Ok(value) => {
            let cli_args = three_words("fill", selector.as_str(), value.as_str());
            let command = Fields::new()
                .with("action", Json::text("fill"))
                .with("selector", Json::owned(selector))
                .with("value", Json::owned(value))
                .done();
            Ok(ToolCommand { command, cli_args, bootstrap_safe: false })
        },
    }
}

/// The command that types into a field.
fn typing_into(arguments: &Vec<(String, Json)>) -> (result: Result<ToolCommand, String>)
    ensures
        command_result(result) == type_command(members_view(arguments@)),
{
    let selector = match bounded_string(arguments, "selector", MAX_SELECTOR_BYTES) {
        Ok(selector) => selector,
        Err(words) => {
            return Err(words);
        },
    };
    let text = match bounded_string(arguments, "text", MAX_TEXT_BYTES) {
        Ok(text) => text,
        Err(words) => {
            return Err(words);
        },
    };
    let clear = match optional_bool(arguments, "clear") {
        Some(flag) => flag,
        None => false,
    };
    let delay = optional_u64(arguments, "delayMs");
    let mut cli_args = three_words("type", selector.as_str(), text.as_str());
    let mut fields = Fields::new()
        .with("action", Json::text("type"))
        .with("selector", Json::owned(selector))
        .with("text", Json::owned(text));
    if clear {
        fields = fields.with("clear", Json::flag(true));
        push_word(&mut cli_args, "--clear");
    }
    match delay {
        Some(ms) => {
            if ms > MAX_DELAY_MS {
                return Err("delayMs must be <= 60000".to_owned());
            }
            fields = fields.with("delay", Json::unsigned(ms));
            push_word(&mut cli_args, "--delay");
            push_word(&mut cli_args, decimal_text(ms).as_str());
        },
        None => {},
    }
    let command = fields.done();
    Ok(ToolCommand { command, cli_args, bootstrap_safe: false })
}

/// The command that presses a key.
fn pressing(arguments: &Vec<(String, Json)>) -> (result: Result<ToolCommand, String>)
    ensures
        command_result(result) == press_command(members_view(arguments@)),
{
    match bounded_string(arguments, "key", MAX_KEY_BYTES) {
        Err(words) => Err(words),
        Ok(key) => {
            let cli_args = two_words("press", key.as_str());
            let command = Fields::new()
                .with("action", Json::text("press"))
                .with("key", Json::owned(key))
                .done();
            Ok(ToolCommand { command, cli_args, bootstrap_safe: true })
        },
    }
}

/// Values as one value: a single one stands alone.
fn values_json(values: &Vec<String>) -> (json: Json)
    ensures
        json@ == values_view(texts_view(values@)),
{
    if values.len() == 1 {
        return Json::text(values[0].as_str());
    }
    let mut items: Vec<Json> = Vec::new();
    let mut i: usize = 0;
    while i < values.len()
        invariant
            i <= values@.len(),
            items@.len() == i,
            forall|j: int| 0 <= j < i ==> (#[trigger] items@[j])@ == JsonView::Text(values@[j]@),
        decreases values@.len() - i,
    {
        items.push(Json::text(values[i].as_str()));
        i += 1;
    }
    let json = Json::array(items);
    assert(json@->Array_0 =~= values_view(texts_view(values@))->Array_0);
    json
}

/// The command that selects options.
fn selecting(arguments: &Vec<(String, Json)>) -> (result: Result<ToolCommand, String>)
    ensures
        command_result(result) == select_command(members_view(arguments@)),
{
    let selector = match bounded_string(arguments, "selector", MAX_SELECTOR_BYTES) {
        Ok(selector) => selector,
        Err(words) => {
            return Err(words);
        },
    };
    let values = match string_or_string_array(arguments, "values", MAX_TEXT_BYTES) {
        Ok(values) => values,
        Err(words) => {
            return Err(words);
        },
    };
    let mut cli_args = two_words("select", selector.as_str());
    let ghost start = texts_view(cli_args@);
    let ghost texts = texts_view(values@);
    let mut i: usize = 0;
    assert(start + texts.take(0) =~= start);
    while i < values.len()
        invariant
            i <= values@.len(),
            texts == texts_view(values@),
            texts_view(cli_args@) == start + texts.take(i as int),
        decreases values@.len() - i,
    {
        push_word(&mut cli_args, values[i].as_str());
        assert(start + texts.take(i + 1) =~= (start + texts.take(i as int)).push(texts[i as int]));
        i += 1;
    }
    assert(texts.take(i as int) =~= texts);
    let command = Fields::new()
        .with("action", Json::text("select"))
        .with("selector", Json::owned(selector))
        .with("values", values_json(&values))
        .done();
    Ok(ToolCommand { command, cli_args, bootstrap_safe: false })
}

/// The command that scrolls.
fn scrolling_by(arguments: &Vec<(String, Json)>) -> (result: Result<ToolCommand, String>)
    ensures
        command_result(result) == scroll_command(members_view(arguments@)),
{
    let direction = match optional_text_argument(arguments, "direction") {
        Some(text) => text,
        None => "down".to_owned(),
    };
    let known = same(direction.as_str(), "up") || same(direction.as_str(), "down") || same(
        direction.as_str(),
        "left",
    ) || same(direction.as_str(), "right");
    if !known {
        return Err("direction must be up, down, left, or right".to_owned());
    }
    let amount: i64 = match optional_i64(arguments, "amount") {
        Some(number) => number,
        None => 300,
    };
    if amount < -MAX_SCROLL || amount > MAX_SCROLL {
        return Err("amount must be between -100000 and 100000".to_owned());
    }
    let selector = optional_text_argument(arguments, "selector");
    let mut cli_args = three_words(
        "scroll",
        direction.as_str(),
        signed_decimal_text(amount).as_str(),
    );
    let mut fields = Fields::new()
        .with("action", Json::text("scroll"))
        .with("direction", Json::owned(direction))
        .with("amount", Json::signed(amount));
    match selector {
        Some(text) => {
            match validate_bounded(text.as_str(), "selector", MAX_SELECTOR_BYTES) {
                Ok(_) => {},
                Err(words) => {
                    return Err(words);
                },
            }
            push_word(&mut cli_args, "--selector");
            push_word(&mut cli_args, text.as_str());
            fields = fields.with("selector", Json::owned(text));
        },
        None => {},
    }
    let command = fields.done();
    Ok(ToolCommand { command, cli_args, bootstrap_safe: true })
}

/// What a call of the tool `name` asks of the browser, where there is such a tool.
pub fn tool_command(name: &str, arguments: &Vec<(String, Json)>) -> (command: Option<
    Result<ToolCommand, String>,
>)
    ensures
        match command {
            Some(result) => called_command(name@, members_view(arguments@)) == Some(
                command_result(result),
            ),
            None => called_command(name@, members_view(arguments@)) is None,
        },
{
    if same(name, "agent_browser_open") {
        Some(opening(arguments))
    } else if same(name, "agent_browser_back") {
        Some(Ok(bare("back", one_word("back"))))
    } else if same(name, "agent_browser_forward") {
        Some(Ok(bare("forward", one_word("forward"))))
    } else if same(name, "agent_browser_reload") {
        Some(Ok(bare("reload", one_word("reload"))))
    } else if same(name, "agent_browser_snapshot") {
        Some(Ok(bare("snapshot", one_word("snapshot"))))
    } else if same(name, "agent_browser_click") {
        Some(selector_command(arguments, "click", "click", true))
    } else if same(name, "agent_browser_dblclick") {
        Some(selector_command(arguments, "dblclick", "dblclick", true))
    } else if same(name, "agent_browser_fill") {
        Some(filling(arguments))
    } else if same(name, "agent_browser_type") {
        Some(typing_into(arguments))
    } else if same(name, "agent_browser_press") {
        Some(pressing(arguments))
    } else if same(name, "agent_browser_hover") {
        Some(selector_command(arguments, "hover", "hover", true))
    } else if same(name, "agent_browser_focus") {
        Some(selector_command(arguments, "focus", "focus", true))
    } else if same(name, "agent_browser_check") {
        Some(selector_command(arguments, "check", "check", true))
    } else if same(name, "agent_browser_uncheck") {
        Some(selector_command(arguments, "uncheck", "uncheck", true))
    } else if same(name, "agent_browser_select") {
        Some(selecting(arguments))
    } else if same(name, "agent_browser_scroll") {
        Some(scrolling_by(arguments))
    } else if same(name, "agent_browser_get_url") {
        Some(Ok(bare("get_url", two_words("get", "url"))))
    } else if same(name, "agent_browser_get_title") {
        Some(Ok(bare("get_title", two_words("get", "title"))))
    } else if same(name, "agent_browser_close") {
        Some(Ok(bare("close", one_word("close"))))
    } else {
        None
    }
}

// ---------------------------------------------------------------------------
// Laws
// ---------------------------------------------------------------------------

/// Whether a command carries a text or a value that the user gave.
pub open spec fn carries_text(command: JsonView) -> bool {
    command.get("text"@) is Some || command.get("value"@) is Some || command.get("values"@) is Some
}

/// The names of the members of commands differ.
proof fn lemma_member_names()
    ensures
        "text"@ != "action"@,
        "text"@ != "selector"@,
        "text"@ != "url"@,
        "text"@ != "key"@,
        "text"@ != "direction"@,
        "text"@ != "amount"@,
        "text"@ != "clear"@,
        "text"@ != "delay"@,
        "value"@ != "action"@,
        "value"@ != "selector"@,
        "value"@ != "url"@,
        "value"@ != "key"@,
        "value"@ != "direction"@,
        "value"@ != "amount"@,
        "values"@ != "action"@,
        "values"@ != "selector"@,
        "values"@ != "url"@,
        "values"@ != "key"@,
        "values"@ != "direction"@,
        "values"@ != "amount"@,
        "action"@ != "selector"@,
        "action"@ != "url"@,
        "action"@ != "key"@,
        "action"@ != "direction"@,
        "action"@ != "amount"@,
        "action"@ != "clear"@,
        "action"@ != "delay"@,
{
    reveal_strlit("action");
    reveal_strlit("selector");
    reveal_strlit("url");
    reveal_strlit("key");
    reveal_strlit("direction");
    reveal_strlit("amount");
    reveal_strlit("text");
    reveal_strlit("value");
    reveal_strlit("values");
    reveal_strlit("clear");
    reveal_strlit("delay");
    assert("action"@.len() == 6 && "action"@[0] == 'a');
    assert("selector"@.len() == 8 && "selector"@[0] == 's');
    assert("url"@.len() == 3 && "url"@[0] == 'u');
    assert("key"@.len() == 3 && "key"@[0] == 'k');
    assert("direction"@.len() == 9 && "direction"@[0] == 'd');
    assert("amount"@.len() == 6 && "amount"@[0] == 'a');
    assert("text"@.len() == 4 && "text"@[0] == 't');
    assert("value"@.len() == 5 && "value"@[0] == 'v');
    assert("values"@.len() == 6 && "values"@[0] == 'v');
    assert("clear"@.len() == 5 && "clear"@[0] == 'c');
    assert("delay"@.len() == 5 && "delay"@[0] == 'd');
    assert("amount"@[1] == 'm' && "action"@[1] == 'c');
}

/// What goes through a command line, which other processes can read, never carries a text or a
/// value that the user gave. What fills a field, types into it or selects options always does, and
/// so never goes that way.
pub proof fn law_text_never_goes_through_a_command_line(name: Seq<char>, arguments: Arguments)
    ensures
        called_command(name, arguments) matches Some(Ok(called)) ==> called.bootstrap_safe
            == !carries_text(called.command),
{
    broadcast use lemma_member_push;

    lemma_member_names();
    assert(member(no_members(), "text"@) is None);
    assert(member(no_members(), "value"@) is None);
    assert(member(no_members(), "values"@) is None);
}

/// Every command names its action.
pub proof fn law_commands_name_their_action(name: Seq<char>, arguments: Arguments)
    ensures
        called_command(name, arguments) matches Some(Ok(called)) ==> text_of(
            called.command.get("action"@),
        ) is Some,
{
    broadcast use lemma_member_push;

    lemma_member_names();
}

/// How long the names of the tools are, and what follows their common start.
pub proof fn lemma_tool_names()
    ensures
        "agent_browser_fast_status"@.len() == 25 && "agent_browser_fast_status"@[14] == 'f',
        "agent_browser_open"@.len() == 18 && "agent_browser_open"@[14] == 'o',
        "agent_browser_back"@.len() == 18 && "agent_browser_back"@[14] == 'b',
        "agent_browser_forward"@.len() == 21 && "agent_browser_forward"@[14] == 'f',
        "agent_browser_reload"@.len() == 20 && "agent_browser_reload"@[14] == 'r',
        "agent_browser_snapshot"@.len() == 22 && "agent_browser_snapshot"@[14] == 's',
        "agent_browser_click"@.len() == 19 && "agent_browser_click"@[14] == 'c',
        "agent_browser_dblclick"@.len() == 22 && "agent_browser_dblclick"@[14] == 'd',
        "agent_browser_fill"@.len() == 18 && "agent_browser_fill"@[14] == 'f',
        "agent_browser_type"@.len() == 18 && "agent_browser_type"@[14] == 't',
        "agent_browser_press"@.len() == 19 && "agent_browser_press"@[14] == 'p',
        "agent_browser_hover"@.len() == 19 && "agent_browser_hover"@[14] == 'h',
        "agent_browser_focus"@.len() == 19 && "agent_browser_focus"@[14] == 'f',
        "agent_browser_check"@.len() == 19 && "agent_browser_check"@[14] == 'c',
        "agent_browser_uncheck"@.len() == 21 && "agent_browser_uncheck"@[14] == 'u',
        "agent_browser_select"@.len() == 20 && "agent_browser_select"@[14] == 's',
        "agent_browser_scroll"@.len() == 20 && "agent_browser_scroll"@[14] == 's',
        "agent_browser_get_url"@.len() == 21 && "agent_browser_get_url"@[14] == 'g',
        "agent_browser_get_title"@.len() == 23 && "agent_browser_get_title"@[14] == 'g',
        "agent_browser_close"@.len() == 19 && "agent_browser_close"@[14] == 'c',
{
    reveal_strlit("agent_browser_fast_status");
    reveal_strlit("agent_browser_open");
    reveal_strlit("agent_browser_back");
    reveal_strlit("agent_browser_forward");
    reveal_strlit("agent_browser_reload");
    reveal_strlit("agent_browser_snapshot");
    reveal_strlit("agent_browser_click");
    reveal_strlit("agent_browser_dblclick");
    reveal_strlit("agent_browser_fill");
    reveal_strlit("agent_browser_type");
    reveal_strlit("agent_browser_press");
    reveal_strlit("agent_browser_hover");
    reveal_strlit("agent_browser_focus");
    reveal_strlit("agent_browser_check");
    reveal_strlit("agent_browser_uncheck");
    reveal_strlit("agent_browser_select");
    reveal_strlit("agent_browser_scroll");
    reveal_strlit("agent_browser_get_url");
    reveal_strlit("agent_browser_get_title");
    reveal_strlit("agent_browser_close");
}

/// What fills a field, types into it or selects options never goes through a command line.
pub proof fn law_text_tools_are_never_bootstrap_safe(name: Seq<char>, arguments: Arguments)
    requires
        name == "agent_browser_fill"@ || name == "agent_browser_type"@ || name
            == "agent_browser_select"@,
    ensures
        called_command(name, arguments) is Some,
        called_command(name, arguments) matches Some(Ok(called)) ==> !called.bootstrap_safe,
{
    lemma_tool_names();
}

/// The names of the tools differ.
proof fn lemma_tools_differ()
    ensures
        "agent_browser_fast_status"@.len() == 25,
        "agent_browser_open"@.len() == 18 && "agent_browser_open"@[14] == 'o',
        "agent_browser_back"@.len() == 18 && "agent_browser_back"@[14] == 'b',
        "agent_browser_forward"@.len() == 21 && "agent_browser_forward"@[14] == 'f',
        "agent_browser_reload"@.len() == 20 && "agent_browser_reload"@[14] == 'r',
        "agent_browser_snapshot"@.len() == 22 && "agent_browser_snapshot"@[14] == 's',
        "agent_browser_click"@.len() == 19 && "agent_browser_click"@[14] == 'c'
            && "agent_browser_click"@[15] == 'l' && "agent_browser_click"@[16] == 'i',
        "agent_browser_dblclick"@.len() == 22 && "agent_browser_dblclick"@[14] == 'd',
        "agent_browser_fill"@.len() == 18 && "agent_browser_fill"@[14] == 'f',
        "agent_browser_type"@.len() == 18 && "agent_browser_type"@[14] == 't',
        "agent_browser_press"@.len() == 19 && "agent_browser_press"@[14] == 'p',
        "agent_browser_hover"@.len() == 19 && "agent_browser_hover"@[14] == 'h',
        "agent_browser_focus"@.len() == 19 && "agent_browser_focus"@[14] == 'f',
        "agent_browser_check"@.len() == 19 && "agent_browser_check"@[14] == 'c'
            && "agent_browser_check"@[15] == 'h',
        "agent_browser_uncheck"@.len() == 21 && "agent_browser_uncheck"@[14] == 'u',
        "agent_browser_select"@.len() == 20 && "agent_browser_select"@[14] == 's'
            && "agent_browser_select"@[15] == 'e',
        "agent_browser_scroll"@.len() == 20 && "agent_browser_scroll"@[14] == 's'
            && "agent_browser_scroll"@[15] == 'c',
        "agent_browser_get_url"@.len() == 21 && "agent_browser_get_url"@[14] == 'g',
        "agent_browser_get_title"@.len() == 23,
        "agent_browser_close"@.len() == 19 && "agent_browser_close"@[14] == 'c'
            && "agent_browser_close"@[15] == 'l' && "agent_browser_close"@[16] == 'o',
{
    reveal_strlit("agent_browser_fast_status");
    reveal_strlit("agent_browser_open");
    reveal_strlit("agent_browser_back");
    reveal_strlit("agent_browser_forward");
    reveal_strlit("agent_browser_reload");
    reveal_strlit("agent_browser_snapshot");
    reveal_strlit("agent_browser_click");
    reveal_strlit("agent_browser_dblclick");
    reveal_strlit("agent_browser_fill");
    reveal_strlit("agent_browser_type");
    reveal_strlit("agent_browser_press");
    reveal_strlit("agent_browser_hover");
    reveal_strlit("agent_browser_focus");
    reveal_strlit("agent_browser_check");
    reveal_strlit("agent_browser_uncheck");
    reveal_strlit("agent_browser_select");
    reveal_strlit("agent_browser_scroll");
    reveal_strlit("agent_browser_get_url");
    reveal_strlit("agent_browser_get_title");
    reveal_strlit("agent_browser_close");
}

/// Whether a text may be given: it is not empty, its UTF-8 is no longer than the limit, and it does
/// not hold the character zero.
pub open spec fn is_bounded(value: Seq<char>, limit: nat) -> bool {
    &&& value.len() > 0
    &&& encode_utf8(value).len() <= limit
    &&& forall|i: int| 0 <= i < value.len() ==> #[trigger] value[i] != '\0'
}

/// The text that the argument `key` gives, where it is a text that may be given.
pub open spec fn given_text(arguments: Arguments, key: Seq<char>, limit: nat) -> Option<Seq<char>> {
    match member(arguments, key) {
        Some(JsonView::Text(value)) => if is_bounded(value, limit) {
            Some(value)
        } else {
            None
        },
        _ => None,
    }
}

proof fn lemma_given_text(arguments: Arguments, key: Seq<char>, maximum: usize)
    ensures
        match given_text(arguments, key, maximum as nat) {
            Some(value) => bounded_text(arguments, key, maximum) == Ok::<Seq<char>, Seq<char>>(
                value,
            ),
            None => bounded_text(arguments, key, maximum) is Err,
        },
{
    match member(arguments, key) {
        Some(JsonView::Text(value)) => {
            if value.contains('\0') {
                let i = choose|i: int| 0 <= i < value.len() && value[i] == '\0';
                assert(!is_bounded(value, maximum as nat));
            }
        },
        _ => {},
    }
}

/// What is wrong with an argument is said of it by name: it is no string, it is empty, it is longer
/// than its limit, or it holds the character zero. An argument of which none is true is taken as it
/// is.
pub proof fn law_arguments_are_bounded(arguments: Arguments, key: Seq<char>, maximum: usize)
    ensures
        bounded_text(arguments, key, maximum) == match member(arguments, key) {
            Some(JsonView::Text(value)) => if value.len() == 0 {
                Err(key + " must not be empty"@)
            } else if encode_utf8(value).len() > maximum {
                Err(key + " exceeds its "@ + decimal(maximum as nat) + "-byte limit"@)
            } else if exists|i: int| 0 <= i < value.len() && #[trigger] value[i] == '\0' {
                Err(key + " must not contain NUL"@)
            } else {
                Ok(value)
            },
            _ => Err(key + " must be a string"@),
        },
{
    match member(arguments, key) {
        Some(JsonView::Text(value)) => {
            assert(value.contains('\0') <==> exists|i: int|
                0 <= i < value.len() && #[trigger] value[i] == '\0');
        },
        _ => {},
    }
}

/// The tools on one element, each with the word for what it does.
pub open spec fn is_element_tool(name: Seq<char>, word: Seq<char>) -> bool {
    ||| name == "agent_browser_click"@ && word == "click"@
    ||| name == "agent_browser_dblclick"@ && word == "dblclick"@
    ||| name == "agent_browser_hover"@ && word == "hover"@
    ||| name == "agent_browser_focus"@ && word == "focus"@
    ||| name == "agent_browser_check"@ && word == "check"@
    ||| name == "agent_browser_uncheck"@ && word == "uncheck"@
}

/// A tool on one element does what its name says to the element that the selector names, and
/// nothing more; the command line says the same. Without a selector of at most 16 KiB nothing is
/// done.
pub proof fn law_element_tools_do_what_they_say(
    name: Seq<char>,
    word: Seq<char>,
    arguments: Arguments,
)
    requires
        is_element_tool(name, word),
    ensures
        match given_text(arguments, "selector"@, 16_384) {
            Some(selector) => called_command(name, arguments) == Some(
                Ok::<CommandView, Seq<char>>(
                    CommandView {
                        command: JsonView::Object(
                            Seq::empty().push(("action"@, JsonView::Text(word))).push(
                                ("selector"@, JsonView::Text(selector)),
                            ),
                        ),
                        cli_args: Seq::empty().push(word).push(selector),
                        bootstrap_safe: true,
                    },
                ),
            ),
            None => called_command(name, arguments) matches Some(Err(_)),
        },
{
    lemma_tools_differ();
    lemma_given_text(arguments, "selector"@, 16_384);
}

/// The tools without arguments of their own that are named by one word.
pub open spec fn is_bare_tool(name: Seq<char>, word: Seq<char>) -> bool {
    ||| name == "agent_browser_back"@ && word == "back"@
    ||| name == "agent_browser_forward"@ && word == "forward"@
    ||| name == "agent_browser_reload"@ && word == "reload"@
    ||| name == "agent_browser_snapshot"@ && word == "snapshot"@
    ||| name == "agent_browser_close"@ && word == "close"@
}

/// A tool without arguments does what its name says, and the command line says the same. The
/// address and the title are read with two words on the command line.
pub proof fn law_bare_tools_do_what_they_say(
    name: Seq<char>,
    word: Seq<char>,
    arguments: Arguments,
)
    ensures
        is_bare_tool(name, word) ==> called_command(name, arguments) == Some(
            Ok::<CommandView, Seq<char>>(
                CommandView {
                    command: JsonView::Object(
                        Seq::empty().push(("action"@, JsonView::Text(word))),
                    ),
                    cli_args: Seq::empty().push(word),
                    bootstrap_safe: true,
                },
            ),
        ),
        called_command("agent_browser_get_url"@, arguments) == Some(
            Ok::<CommandView, Seq<char>>(
                CommandView {
                    command: JsonView::Object(
                        Seq::empty().push(("action"@, JsonView::Text("get_url"@))),
                    ),
                    cli_args: Seq::empty().push("get"@).push("url"@),
                    bootstrap_safe: true,
                },
            ),
        ),
        called_command("agent_browser_get_title"@, arguments) == Some(
            Ok::<CommandView, Seq<char>>(
                CommandView {
                    command: JsonView::Object(
                        Seq::empty().push(("action"@, JsonView::Text("get_title"@))),
                    ),
                    cli_args: Seq::empty().push("get"@).push("title"@),
                    bootstrap_safe: true,
                },
            ),
        ),
{
    lemma_tools_differ();
}

/// Two different tools never ask the daemon for the same action.
pub proof fn law_tools_ask_for_different_actions(
    left: Seq<char>,
    right: Seq<char>,
    left_arguments: Arguments,
    right_arguments: Arguments,
)
    requires
        left != right,
    ensures
        called_command(left, left_arguments) matches Some(Ok(one)) ==> (called_command(
            right,
            right_arguments,
        ) matches Some(Ok(other)) ==> one.command.get("action"@) != other.command.get("action"@)),
{
    lemma_action_of_tool(left, left_arguments);
    lemma_action_of_tool(right, right_arguments);
    if called_command(left, left_arguments) matches Some(Ok(_)) && (called_command(
        right,
        right_arguments,
    ) matches Some(Ok(_))) {
        assert(left =~= left.take(14) + left.skip(14));
        assert(right =~= right.take(14) + right.skip(14));
        reveal_strlit("agent_browser_");
        reveal_strlit("agent_browser_navigate");
        reveal_strlit("navigate");
        assert("agent_browser_navigate"@ =~= "agent_browser_"@ + "navigate"@);
    }
}

/// The action that the tool `name` asks for.
pub open spec fn action_of_tool(name: Seq<char>) -> Seq<char> {
    if name == "agent_browser_open"@ {
        "navigate"@
    } else {
        name.skip(14)
    }
}

proof fn lemma_action_of_tool(name: Seq<char>, arguments: Arguments)
    ensures
        called_command(name, arguments) matches Some(Ok(called)) ==> {
            &&& called.command.get("action"@) == Some(JsonView::Text(action_of_tool(name)))
            &&& name.len() > 14
            &&& name.take(14) == "agent_browser_"@
            &&& name != "agent_browser_navigate"@
        },
{
    broadcast use lemma_member_push;

    lemma_member_names();
    lemma_tools_differ();
    reveal_strlit("agent_browser_");
    reveal_strlit("agent_browser_navigate");
    assert("agent_browser_navigate"@.len() == 22 && "agent_browser_navigate"@[14] == 'n');
    reveal_strlit("navigate");
    reveal_strlit("agent_browser_open");
    reveal_strlit("agent_browser_back");
    reveal_strlit("agent_browser_forward");
    reveal_strlit("agent_browser_reload");
    reveal_strlit("agent_browser_snapshot");
    reveal_strlit("agent_browser_click");
    reveal_strlit("agent_browser_dblclick");
    reveal_strlit("agent_browser_fill");
    reveal_strlit("agent_browser_type");
    reveal_strlit("agent_browser_press");
    reveal_strlit("agent_browser_hover");
    reveal_strlit("agent_browser_focus");
    reveal_strlit("agent_browser_check");
    reveal_strlit("agent_browser_uncheck");
    reveal_strlit("agent_browser_select");
    reveal_strlit("agent_browser_scroll");
    reveal_strlit("agent_browser_get_url");
    reveal_strlit("agent_browser_get_title");
    reveal_strlit("agent_browser_close");
    reveal_strlit("back");
    assert("agent_browser_back"@.skip(14) =~= "back"@);
    reveal_strlit("forward");
    assert("agent_browser_forward"@.skip(14) =~= "forward"@);
    reveal_strlit("reload");
    assert("agent_browser_reload"@.skip(14) =~= "reload"@);
    reveal_strlit("snapshot");
    assert("agent_browser_snapshot"@.skip(14) =~= "snapshot"@);
    reveal_strlit("click");
    assert("agent_browser_click"@.skip(14) =~= "click"@);
    reveal_strlit("dblclick");
    assert("agent_browser_dblclick"@.skip(14) =~= "dblclick"@);
    reveal_strlit("fill");
    assert("agent_browser_fill"@.skip(14) =~= "fill"@);
    reveal_strlit("type");
    assert("agent_browser_type"@.skip(14) =~= "type"@);
    reveal_strlit("press");
    assert("agent_browser_press"@.skip(14) =~= "press"@);
    reveal_strlit("hover");
    assert("agent_browser_hover"@.skip(14) =~= "hover"@);
    reveal_strlit("focus");
    assert("agent_browser_focus"@.skip(14) =~= "focus"@);
    reveal_strlit("check");
    assert("agent_browser_check"@.skip(14) =~= "check"@);
    reveal_strlit("uncheck");
    assert("agent_browser_uncheck"@.skip(14) =~= "uncheck"@);
    reveal_strlit("select");
    assert("agent_browser_select"@.skip(14) =~= "select"@);
    reveal_strlit("scroll");
    assert("agent_browser_scroll"@.skip(14) =~= "scroll"@);
    reveal_strlit("get_url");
    assert("agent_browser_get_url"@.skip(14) =~= "get_url"@);
    reveal_strlit("get_title");
    assert("agent_browser_get_title"@.skip(14) =~= "get_title"@);
    reveal_strlit("close");
    assert("agent_browser_close"@.skip(14) =~= "close"@);
    assert("agent_browser_open"@.take(14) =~= "agent_browser_"@);
    assert("agent_browser_back"@.take(14) =~= "agent_browser_"@);
    assert("agent_browser_forward"@.take(14) =~= "agent_browser_"@);
    assert("agent_browser_reload"@.take(14) =~= "agent_browser_"@);
    assert("agent_browser_snapshot"@.take(14) =~= "agent_browser_"@);
    assert("agent_browser_click"@.take(14) =~= "agent_browser_"@);
    assert("agent_browser_dblclick"@.take(14) =~= "agent_browser_"@);
    assert("agent_browser_fill"@.take(14) =~= "agent_browser_"@);
    assert("agent_browser_type"@.take(14) =~= "agent_browser_"@);
    assert("agent_browser_press"@.take(14) =~= "agent_browser_"@);
    assert("agent_browser_hover"@.take(14) =~= "agent_browser_"@);
    assert("agent_browser_focus"@.take(14) =~= "agent_browser_"@);
    assert("agent_browser_check"@.take(14) =~= "agent_browser_"@);
    assert("agent_browser_uncheck"@.take(14) =~= "agent_browser_"@);
    assert("agent_browser_select"@.take(14) =~= "agent_browser_"@);
    assert("agent_browser_scroll"@.take(14) =~= "agent_browser_"@);
    assert("agent_browser_get_url"@.take(14) =~= "agent_browser_"@);
    assert("agent_browser_get_title"@.take(14) =~= "agent_browser_"@);
    assert("agent_browser_close"@.take(14) =~= "agent_browser_"@);
}

/// Every tool but the one that opens an address asks for the action that its name ends with.
pub proof fn law_tools_ask_for_the_action_of_their_name(name: Seq<char>, arguments: Arguments)
    ensures
        called_command(name, arguments) matches Some(Ok(called)) ==> called.command.get("action"@)
            == Some(
            JsonView::Text(
                if name == "agent_browser_open"@ {
                    "navigate"@
                } else {
                    name.skip(14)
                },
            ),
        ),
{
    lemma_action_of_tool(name, arguments);
}

/// An address is opened where it is given with at most 64 KiB and without blanks and control
/// characters. One that names one of the known schemes, in capitals or small letters, is opened as
/// it is, and any other with `https://` before it. The command line gets the address as it was
/// given.
pub proof fn law_addresses_are_opened(arguments: Arguments)
    ensures
        ({
            let called = called_command("agent_browser_open"@, arguments);
            match given_text(arguments, "url"@, 65_536) {
                Some(url) => {
                    let blank = exists|i: int|
                        0 <= i < url.len() && (char_is_control(#[trigger] url[i])
                            || char_is_whitespace(url[i]));
                    let known = begins_with_folded(url, "http://"@) || begins_with_folded(
                        url,
                        "https://"@,
                    ) || begins_with_folded(url, "about:"@) || begins_with_folded(url, "data:"@)
                        || begins_with_folded(url, "file:"@) || begins_with_folded(
                        url,
                        "chrome-extension://"@,
                    ) || begins_with_folded(url, "chrome://"@);
                    let address = if known {
                        url
                    } else {
                        "https://"@ + url
                    };
                    if blank {
                        called == Some(
                            Err::<CommandView, Seq<char>>(
                                "url must not contain whitespace or control characters"@,
                            ),
                        )
                    } else {
                        called == Some(
                            Ok::<CommandView, Seq<char>>(
                                CommandView {
                                    command: JsonView::Object(
                                        Seq::empty().push(
                                            ("action"@, JsonView::Text("navigate"@)),
                                        ).push(("url"@, JsonView::Text(address))),
                                    ),
                                    cli_args: Seq::empty().push("open"@).push(url),
                                    bootstrap_safe: true,
                                },
                            ),
                        )
                    }
                },
                None => called matches Some(Err(_)),
            }
        }),
{
    lemma_tools_differ();
    lemma_given_text(arguments, "url"@, 65_536);
}

/// Filling a field takes the selector and the value as they are given, of at most 16 KiB and 1 MiB,
/// and never goes through a command line.
pub proof fn law_fields_are_filled(arguments: Arguments)
    ensures
        match (given_text(arguments, "selector"@, 16_384), given_text(
            arguments,
            "value"@,
            1_048_576,
        )) {
            (Some(selector), Some(value)) => called_command("agent_browser_fill"@, arguments)
                == Some(
                Ok::<CommandView, Seq<char>>(
                    CommandView {
                        command: JsonView::Object(
                            Seq::empty().push(("action"@, JsonView::Text("fill"@))).push(
                                ("selector"@, JsonView::Text(selector)),
                            ).push(("value"@, JsonView::Text(value))),
                        ),
                        cli_args: Seq::empty().push("fill"@).push(selector).push(value),
                        bootstrap_safe: false,
                    },
                ),
            ),
            _ => called_command("agent_browser_fill"@, arguments) matches Some(Err(_)),
        },
{
    lemma_tools_differ();
    lemma_given_text(arguments, "selector"@, 16_384);
    lemma_given_text(arguments, "value"@, 1_048_576);
}

/// Typing takes the selector and the text as they are given, empties the field first exactly where
/// that is asked for, and pauses between characters for as long as is asked for, up to a minute.
pub proof fn law_texts_are_typed(arguments: Arguments)
    ensures
        ({
            let called = called_command("agent_browser_type"@, arguments);
            let clear = member(arguments, "clear"@) == Some(JsonView::Bool(true));
            match (given_text(arguments, "selector"@, 16_384), given_text(
                arguments,
                "text"@,
                1_048_576,
            )) {
                (Some(selector), Some(text)) => match member(arguments, "delayMs"@) {
                    Some(JsonView::Number(NumberView::Unsigned(delay))) => if delay > 60_000 {
                        called == Some(Err::<CommandView, Seq<char>>("delayMs must be <= 60000"@))
                    } else {
                        types(called, selector, text, clear) && (called matches Some(Ok(command))
                            && command.command.get("delay"@) == Some(
                            JsonView::Number(NumberView::Unsigned(delay)),
                        ) && command.cli_args == typed_words(selector, text, clear).push(
                            "--delay"@,
                        ).push(decimal(delay as nat)))
                    },
                    _ => types(called, selector, text, clear) && (called matches Some(Ok(command))
                        && command.command.get("delay"@) is None && command.cli_args
                        == typed_words(selector, text, clear)),
                },
                _ => called matches Some(Err(_)),
            }
        }),
{
    broadcast use lemma_member_push;

    lemma_tools_differ();
    lemma_member_names();
    lemma_given_text(arguments, "selector"@, 16_384);
    lemma_given_text(arguments, "text"@, 1_048_576);
    reveal_strlit("clear");
    reveal_strlit("delay");
    reveal_strlit("selector");
    reveal_strlit("action");
    assert("clear"@.len() == 5 && "clear"@[0] == 'c' && "delay"@.len() == 5 && "delay"@[0] == 'd');
    assert("selector"@.len() == 8 && "action"@.len() == 6);
    assert(member(no_members(), "clear"@) is None && member(no_members(), "delay"@) is None);
}

/// The words of a command line that types.
pub open spec fn typed_words(selector: Seq<char>, text: Seq<char>, clear: bool) -> Seq<Seq<char>> {
    let words = Seq::empty().push("type"@).push(selector).push(text);
    if clear {
        words.push("--clear"@)
    } else {
        words
    }
}

/// Whether a call types this text into this element.
pub open spec fn types(
    called: Option<Result<CommandView, Seq<char>>>,
    selector: Seq<char>,
    text: Seq<char>,
    clear: bool,
) -> bool {
    &&& called matches Some(Ok(command))
    &&& command.command.get("action"@) == Some(JsonView::Text("type"@))
    &&& command.command.get("selector"@) == Some(JsonView::Text(selector))
    &&& command.command.get("text"@) == Some(JsonView::Text(text))
    &&& command.command.get("clear"@) == if clear {
        Some(JsonView::Bool(true))
    } else {
        None
    }
    &&& !command.bootstrap_safe
}

/// A key is pressed where its name is given with at most 256 bytes.
pub proof fn law_keys_are_pressed(arguments: Arguments)
    ensures
        match given_text(arguments, "key"@, 256) {
            Some(key) => called_command("agent_browser_press"@, arguments) == Some(
                Ok::<CommandView, Seq<char>>(
                    CommandView {
                        command: JsonView::Object(
                            Seq::empty().push(("action"@, JsonView::Text("press"@))).push(
                                ("key"@, JsonView::Text(key)),
                            ),
                        ),
                        cli_args: Seq::empty().push("press"@).push(key),
                        bootstrap_safe: true,
                    },
                ),
            ),
            None => called_command("agent_browser_press"@, arguments) matches Some(Err(_)),
        },
{
    lemma_tools_differ();
    lemma_given_text(arguments, "key"@, 256);
}

proof fn lemma_no_trouble(values: Seq<Seq<char>>, key: Seq<char>, maximum: usize)
    ensures
        first_trouble(values, key, maximum) is None <==> forall|i: int|
            0 <= i < values.len() ==> is_bounded(#[trigger] values[i], maximum as nat),
    decreases values.len(),
{
    if values.len() > 0 {
        let rest = values.drop_first();
        let value = values[0];
        lemma_no_trouble(rest, key, maximum);
        assert(bound_trouble(value, key, maximum) is None <==> is_bounded(
            value,
            maximum as nat,
        )) by {
            if value.contains('\0') {
                let i = choose|i: int| 0 <= i < value.len() && value[i] == '\0';
                assert(!is_bounded(value, maximum as nat));
            }
        }
        assert forall|i: int| 0 <= i < rest.len() implies #[trigger] rest[i] == values[i + 1] by {}
        if forall|i: int| 0 <= i < rest.len() ==> is_bounded(#[trigger] rest[i], maximum as nat) {
            assert forall|i: int| 1 <= i < values.len() implies is_bounded(
                #[trigger] values[i],
                maximum as nat,
            ) by {
                assert(rest[i - 1] == values[i]);
            }
        }
        if forall|i: int|
            0 <= i < values.len() ==> is_bounded(#[trigger] values[i], maximum as nat) {
            assert forall|i: int| 0 <= i < rest.len() implies is_bounded(
                #[trigger] rest[i],
                maximum as nat,
            ) by {
                assert(rest[i] == values[i + 1]);
            }
        }
    }
}

/// One value selects one option: it goes to the daemon as a string.
pub proof fn law_one_option_is_selected(arguments: Arguments, value: Seq<char>)
    requires
        member(arguments, "values"@) == Some(JsonView::Text(value)),
    ensures
        match given_text(arguments, "selector"@, 16_384) {
            Some(selector) if is_bounded(value, 1_048_576) => called_command(
                "agent_browser_select"@,
                arguments,
            ) == Some(
                Ok::<CommandView, Seq<char>>(
                    CommandView {
                        command: JsonView::Object(
                            Seq::empty().push(("action"@, JsonView::Text("select"@))).push(
                                ("selector"@, JsonView::Text(selector)),
                            ).push(("values"@, JsonView::Text(value))),
                        ),
                        cli_args: Seq::empty().push("select"@).push(selector).push(value),
                        bootstrap_safe: false,
                    },
                ),
            ),
            _ => called_command("agent_browser_select"@, arguments) matches Some(Err(_)),
        },
{
    lemma_tools_differ();
    lemma_given_text(arguments, "selector"@, 16_384);
    let list = seq![value];
    lemma_no_trouble(list, "values"@, 1_048_576);
    assert(list[0] == value);
    if is_bounded(value, 1_048_576) {
        assert forall|i: int| 0 <= i < list.len() implies is_bounded(
            #[trigger] list[i],
            1_048_576,
        ) by {}
    }
    let start = Seq::<Seq<char>>::empty();
    assert(forall|selector: Seq<char>|
        start.push("select"@).push(selector) + list =~= #[trigger] start.push("select"@).push(
            selector,
        ).push(value));
}

/// A list of values selects as many options: the daemon gets a list of them in their order, or the
/// one value where there is one. An empty list, or one that holds anything but strings of at most
/// 1 MiB, selects nothing.
pub proof fn law_options_are_selected(arguments: Arguments, items: Seq<JsonView>)
    requires
        member(arguments, "values"@) == Some(JsonView::Array(items)),
    ensures
        ({
            let fit = items.len() > 0 && forall|i: int|
                0 <= i < items.len() ==> (#[trigger] items[i] matches JsonView::Text(text)
                    && is_bounded(text, 1_048_576));
            let called = called_command("agent_browser_select"@, arguments);
            match given_text(arguments, "selector"@, 16_384) {
                Some(selector) if fit => {
                    &&& called matches Some(Ok(command))
                    &&& command.command.get("action"@) == Some(JsonView::Text("select"@))
                    &&& command.command.get("selector"@) == Some(JsonView::Text(selector))
                    &&& command.command.get("values"@) == Some(
                        if items.len() == 1 {
                            items[0]
                        } else {
                            JsonView::Array(items)
                        },
                    )
                    &&& command.cli_args.len() == items.len() + 2
                    &&& command.cli_args[0] == "select"@
                    &&& command.cli_args[1] == selector
                    &&& forall|i: int|
                        0 <= i < items.len() ==> #[trigger] items[i] == JsonView::Text(
                            command.cli_args[i + 2],
                        )
                    &&& !command.bootstrap_safe
                },
                _ => called matches Some(Err(_)),
            }
        }),
{
    broadcast use lemma_member_push;

    lemma_tools_differ();
    lemma_member_names();
    reveal_strlit("selector");
    reveal_strlit("values");
    reveal_strlit("action");
    assert("selector"@.len() == 8 && "values"@.len() == 6 && "action"@.len() == 6);
    lemma_given_text(arguments, "selector"@, 16_384);
    let called = called_command("agent_browser_select"@, arguments);
    if items.len() > 0 {
        match all_texts(items) {
            Some(texts) => {
                lemma_no_trouble(texts, "values"@, 1_048_576);
                assert forall|i: int| 0 <= i < items.len() implies #[trigger] items[i]
                    == JsonView::Text(texts[i]) by {
                    assert(items[i] is Text);
                }
                if forall|i: int|
                    0 <= i < items.len() ==> (#[trigger] items[i] matches JsonView::Text(text)
                        && is_bounded(text, 1_048_576)) {
                    assert forall|i: int| 0 <= i < texts.len() implies is_bounded(
                        #[trigger] texts[i],
                        1_048_576,
                    ) by {
                        assert(items[i] == JsonView::Text(texts[i]));
                    }
                    assert(items.len() > 1 ==> values_view(texts)->Array_0 =~= items);
                } else {
                    let i = choose|i: int|
                        0 <= i < items.len() && !(#[trigger] items[i] matches JsonView::Text(text)
                            && is_bounded(text, 1_048_576));
                    assert(!is_bounded(texts[i], 1_048_576));
                }
            },
            None => {},
        }
    }
}

/// Scrolling goes up, down, left or right, and down where no direction is given, by as many pixels
/// as are asked for, at most 100000 either way, and by 300 where no number is given; the page is
/// scrolled, or the element that a selector names.
pub proof fn law_pages_are_scrolled(arguments: Arguments)
    ensures
        ({
            let called = called_command("agent_browser_scroll"@, arguments);
            let direction = match member(arguments, "direction"@) {
                Some(JsonView::Text(way)) => way,
                _ => "down"@,
            };
            let amount: int = match member(arguments, "amount"@) {
                Some(JsonView::Number(NumberView::Unsigned(pixels))) => if pixels
                    <= 9_223_372_036_854_775_807 {
                    pixels as int
                } else {
                    300
                },
                Some(JsonView::Number(NumberView::Negative(pixels))) => pixels as int,
                _ => 300,
            };
            let selector = match member(arguments, "selector"@) {
                Some(JsonView::Text(text)) => Some(text),
                _ => None,
            };
            if direction != "up"@ && direction != "down"@ && direction != "left"@ && direction
                != "right"@ {
                called == Some(
                    Err::<CommandView, Seq<char>>("direction must be up, down, left, or right"@),
                )
            } else if !(-100_000 <= amount <= 100_000) {
                called == Some(
                    Err::<CommandView, Seq<char>>("amount must be between -100000 and 100000"@),
                )
            } else if selector matches Some(text) && !is_bounded(text, 16_384) {
                called matches Some(Err(_))
            } else {
                &&& called matches Some(Ok(command))
                &&& command.command.get("action"@) == Some(JsonView::Text("scroll"@))
                &&& command.command.get("direction"@) == Some(JsonView::Text(direction))
                &&& command.command.get("amount"@) == Some(
                    JsonView::Number(
                        if amount < 0 {
                            NumberView::Negative(amount as i64)
                        } else {
                            NumberView::Unsigned(amount as u64)
                        },
                    ),
                )
                &&& command.command.get("selector"@) == match selector {
                    Some(text) => Some(JsonView::Text(text)),
                    None => None,
                }
                &&& command.cli_args == match selector {
                    Some(text) => Seq::empty().push("scroll"@).push(direction).push(
                        signed_decimal(amount),
                    ).push("--selector"@).push(text),
                    None => Seq::empty().push("scroll"@).push(direction).push(
                        signed_decimal(amount),
                    ),
                }
                &&& command.bootstrap_safe
            }
        }),
{
    broadcast use lemma_member_push;

    lemma_tools_differ();
    lemma_member_names();
    reveal_strlit("selector");
    reveal_strlit("direction");
    reveal_strlit("amount");
    reveal_strlit("action");
    assert("selector"@.len() == 8 && "direction"@.len() == 9 && "amount"@.len() == 6);
    assert("action"@.len() == 6 && "amount"@[1] == 'm' && "action"@[1] == 'c');
    assert(member(no_members(), "selector"@) is None);
    match member(arguments, "selector"@) {
        Some(JsonView::Text(text)) => {
            lemma_no_trouble(seq![text], "selector"@, 16_384);
            let list = seq![text];
            assert(list[0] == text);
            assert(list.drop_first() =~= Seq::<Seq<char>>::empty());
            assert(first_trouble(Seq::<Seq<char>>::empty(), "selector"@, 16_384) is None);
            if is_bounded(text, 16_384) {
                assert forall|i: int| 0 <= i < list.len() implies is_bounded(
                    #[trigger] list[i],
                    16_384,
                ) by {}
            }
        },
        _ => {},
    }
}

/// A call that gives something wrong is told what: the first of its arguments that is wrong, in the
/// order of the tool, is the one that the words are about.
pub proof fn law_wrong_arguments_are_told(name: Seq<char>, word: Seq<char>, arguments: Arguments)
    ensures
        ({
            let selector = bounded_text(arguments, "selector"@, 16_384);
            let value = bounded_text(arguments, "value"@, 1_048_576);
            let text = bounded_text(arguments, "text"@, 1_048_576);
            &&& (is_element_tool(name, word) || name == "agent_browser_fill"@ || name
                == "agent_browser_type"@ || name == "agent_browser_select"@) ==> (
            selector matches Err(words) ==> called_command(name, arguments) == Some(
                Err::<CommandView, Seq<char>>(words),
            ))
            &&& selector is Ok ==> (value matches Err(words) ==> called_command(
                "agent_browser_fill"@,
                arguments,
            ) == Some(Err::<CommandView, Seq<char>>(words)))
            &&& selector is Ok ==> (text matches Err(words) ==> called_command(
                "agent_browser_type"@,
                arguments,
            ) == Some(Err::<CommandView, Seq<char>>(words)))
            &&& bounded_text(arguments, "url"@, 65_536) matches Err(words) ==> called_command(
                "agent_browser_open"@,
                arguments,
            ) == Some(Err::<CommandView, Seq<char>>(words))
            &&& bounded_text(arguments, "key"@, 256) matches Err(words) ==> called_command(
                "agent_browser_press"@,
                arguments,
            ) == Some(Err::<CommandView, Seq<char>>(words))
        }),
{
    lemma_tools_differ();
}

/// A call that selects options without a value, with something else than strings or with no value
/// in its list is told so.
pub proof fn law_wrong_options_are_told(arguments: Arguments)
    requires
        bounded_text(arguments, "selector"@, 16_384) is Ok,
    ensures
        ({
            let called = called_command("agent_browser_select"@, arguments);
            match member(arguments, "values"@) {
                None => called == Some(Err::<CommandView, Seq<char>>("values"@ + " is required"@)),
                Some(JsonView::Text(value)) => value.len() == 0 ==> called == Some(
                    Err::<CommandView, Seq<char>>("values"@ + " must not be empty"@),
                ),
                Some(JsonView::Array(items)) => {
                    &&& items.len() == 0 ==> called == Some(
                        Err::<CommandView, Seq<char>>(
                            "values"@ + " must contain at least one value"@,
                        ),
                    )
                    &&& (exists|i: int| 0 <= i < items.len() && !(#[trigger] items[i] is Text))
                        ==> called == Some(
                        Err::<CommandView, Seq<char>>("values"@ + " must contain only strings"@),
                    )
                },
                Some(_) => called == Some(
                    Err::<CommandView, Seq<char>>("values"@ + " must be a string or string array"@),
                ),
            }
        }),
{
    lemma_tools_differ();
}

/// The model of a command shows its fields as they are.
pub proof fn law_models_show_their_fields(command: ToolCommand)
    ensures
        command@.command == command.command@,
        command@.bootstrap_safe == command.bootstrap_safe,
        command@.cli_args.len() == command.cli_args@.len(),
        forall|i: int|
            0 <= i < command.cli_args@.len() ==> #[trigger] command@.cli_args[i]
                == command.cli_args@[i]@,
{
}

} // verus!
