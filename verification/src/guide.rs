//! The guide as a tool, as resources and as a prompt.
//!
//! All three are answered without touching the socket: the first thing an
//! agent does should work before the app is started.
use vstd::prelude::*;
use vstd::string::*;

use crate::docs;
use crate::json;
use crate::json::{Fields, Items, Json, JsonValue};
use crate::text;

verus! {

/// A block of text in an answer.
pub open spec fn text_block(s: Seq<char>) -> JsonValue {
    JsonValue::Object(
        json::no_fields().push(("type"@, JsonValue::Text("text"@))).push(
            ("text"@, JsonValue::Text(s)),
        ),
    )
}

/// A block of text in an answer.
pub fn text_content(s: &str) -> (r: Json)
    ensures
        r@ == text_block(s@),
{
    Fields::new().with("type", Json::text("text")).with("text", Json::text(s)).object()
}

/// An answer that is one text.
pub open spec fn text_answer(s: Seq<char>) -> JsonValue {
    JsonValue::Object(
        json::no_fields().push(
            ("content"@, JsonValue::Array(json::no_items().push(text_block(s)))),
        ),
    )
}

/// An answer that is one text, and an error.
pub open spec fn error_answer(s: Seq<char>) -> JsonValue {
    JsonValue::Object(
        json::no_fields().push(
            ("content"@, JsonValue::Array(json::no_items().push(text_block(s)))),
        ).push(("isError"@, JsonValue::Bool(true))),
    )
}

/// An answer that is one text.
pub fn say(s: &str) -> (r: Json)
    ensures
        r@ == text_answer(s@),
{
    Fields::new().with("content", Items::new().with(text_content(s)).array()).object()
}

/// An answer that is one text, and an error.
pub fn say_error(s: &str) -> (r: Json)
    ensures
        r@ == error_answer(s@),
{
    Fields::new().with("content", Items::new().with(text_content(s)).array()).with(
        "isError",
        Json::Bool(true),
    ).object()
}

/// The topic that arguments ask for, where they ask for one.
pub open spec fn topic_asked(arguments: JsonValue) -> Option<Seq<char>> {
    match json::field_text(arguments, "topic"@) {
        Some(asked) => if text::trimmed(asked).len() > 0 {
            Some(text::trimmed(asked))
        } else {
            None
        },
        None => None,
    }
}

fn requested_topic<'a>(arguments: &'a Json) -> (r: Option<&'a str>)
    ensures
        text::maybe(r) == topic_asked(arguments@),
{
    match arguments.get_text("topic") {
        Some(asked) => {
            let trimmed: &str = text::trim(asked);
            if trimmed.unicode_len() > 0 {
                Some(trimmed)
            } else {
                None
            }
        },
        None => None,
    }
}

/// What the guide answers.
pub open spec fn guide_value(arguments: JsonValue) -> JsonValue {
    let asked = match topic_asked(arguments) {
        Some(asked) => asked,
        None => docs::DEFAULT_TOPIC@,
    };
    match docs::named_topic(asked) {
        Some(topic) => text_answer(topic.body),
        None => error_answer(docs::unknown_topic_text(asked)),
    }
}

/// Serve one documentation topic.
pub fn guide_result(arguments: &Json) -> (r: Json)
    ensures
        r@ == guide_value(arguments@),
{
    let asked: &str = match requested_topic(arguments) {
        Some(asked) => asked,
        None => docs::DEFAULT_TOPIC,
    };
    match docs::topic(asked) {
        Some(topic) => say(topic.body),
        None => say_error(docs::unknown_topic_message(asked).as_str()),
    }
}

/// The URI a topic is read under.
pub open spec fn resource_uri(name: Seq<char>) -> Seq<char> {
    docs::RESOURCE_PREFIX@ + name
}

/// How a topic is listed as a resource.
pub open spec fn resource_value(topic: docs::TopicValue) -> JsonValue {
    JsonValue::Object(
        json::no_fields().push(("uri"@, JsonValue::Text(resource_uri(topic.name)))).push(
            ("name"@, JsonValue::Text("gpui-mcp guide: "@ + topic.name)),
        ).push(("description"@, JsonValue::Text(topic.summary))).push(
            ("mimeType"@, JsonValue::Text("text/markdown"@)),
        ),
    )
}

/// How the first `n` topics are listed as resources.
pub open spec fn resources(topics: Seq<docs::TopicValue>, n: int) -> Seq<JsonValue>
    decreases n,
{
    if n <= 0 {
        json::no_items()
    } else {
        resources(topics, n - 1).push(resource_value(topics[n - 1]))
    }
}

/// The same topics as MCP resources, for clients that attach resources
/// instead of calling tools.
pub fn resources_list() -> (r: Json)
    ensures
        r@ == JsonValue::Object(
            json::no_fields().push(
                (
                    "resources"@,
                    JsonValue::Array(
                        resources(docs::all_topics(), docs::all_topics().len() as int),
                    ),
                ),
            ),
        ),
{
    let all: Vec<docs::Topic> = docs::topics();
    let mut list: Items = Items::new();
    let mut i: usize = 0;
    proof {
        assert(all@.len() == docs::all_topics().len());
    }
    while i < all.len()
        invariant
            i <= all@.len(),
            all@.len() == docs::all_topics().len(),
            docs::topics_of(all@) == docs::all_topics(),
            list@ == resources(docs::all_topics(), i as int),
        decreases all@.len() - i,
    {
        proof {
            assert(docs::all_topics()[i as int] == all@[i as int]@);
        }
        let uri: String = docs::RESOURCE_PREFIX.to_owned().concat(all[i].name);
        let name: String = "gpui-mcp guide: ".to_owned().concat(all[i].name);
        let resource: Json = Fields::new().with("uri", Json::Text(uri)).with(
            "name",
            Json::Text(name),
        ).with("description", Json::text(all[i].summary)).with(
            "mimeType",
            Json::text("text/markdown"),
        ).object();
        list = list.with(resource);
        i += 1;
    }
    Fields::new().with("resources", list.array()).object()
}

/// What reading a resource answers, or why there is none.
pub open spec fn resource_read(uri: Seq<char>) -> Result<JsonValue, Seq<char>> {
    if !text::has_prefix(uri, docs::RESOURCE_PREFIX@) {
        Err(
            "Unknown resource '"@ + uri + "'. Guide resources start with "@
                + docs::RESOURCE_PREFIX@,
        )
    } else {
        let name = uri.skip(docs::RESOURCE_PREFIX@.len() as int);
        match docs::named_topic(name) {
            None => Err(docs::unknown_topic_text(name)),
            Some(topic) => Ok(
                JsonValue::Object(
                    json::no_fields().push(
                        (
                            "contents"@,
                            JsonValue::Array(
                                json::no_items().push(
                                    JsonValue::Object(
                                        json::no_fields().push(
                                            ("uri"@, JsonValue::Text(uri)),
                                        ).push(
                                            ("mimeType"@, JsonValue::Text("text/markdown"@)),
                                        ).push(("text"@, JsonValue::Text(topic.body))),
                                    ),
                                ),
                            ),
                        ),
                    ),
                ),
            ),
        }
    }
}

/// What a result of a value or a message holds.
pub open spec fn result_of(r: Result<Json, String>) -> Result<JsonValue, Seq<char>> {
    match r {
        Ok(value) => Ok(value@),
        Err(message) => Err(message@),
    }
}

/// Read one guide resource. `Err` carries the message for a JSON-RPC error.
pub fn read_resource(uri: &str) -> (r: Result<Json, String>)
    ensures
        result_of(r) == resource_read(uri@),
{
    let name: &str = match text::strip_prefix(uri, docs::RESOURCE_PREFIX) {
        Some(name) => name,
        None => {
            let mut out: String = "Unknown resource '".to_owned();
            out.append(uri);
            out.append("'. Guide resources start with ");
            out.append(docs::RESOURCE_PREFIX);
            return Err(out);
        },
    };
    match docs::topic(name) {
        Some(topic) => {
            let contents: Json = Fields::new().with("uri", Json::text(uri)).with(
                "mimeType",
                Json::text("text/markdown"),
            ).with("text", Json::text(topic.body)).object();
            Ok(Fields::new().with("contents", Items::new().with(contents).array()).object())
        },
        None => Err(docs::unknown_topic_message(name)),
    }
}

/// Every resource that is listed can be read, under the URI it is listed with.
pub proof fn lemma_every_listed_resource_is_readable(i: int)
    requires
        0 <= i < docs::all_topics().len(),
    ensures
        resource_read(resource_uri(docs::all_topics()[i].name)) is Ok,
        resources(docs::all_topics(), docs::all_topics().len() as int).contains(
            resource_value(docs::all_topics()[i]),
        ),
{
    let name = docs::all_topics()[i].name;
    let uri = resource_uri(name);
    let prefix = docs::RESOURCE_PREFIX@;
    docs::lemma_every_topic_is_reachable_by_name();
    assert(uri.subrange(0, prefix.len() as int) =~= prefix);
    assert(uri.skip(prefix.len() as int) =~= name);
    lemma_resources(docs::all_topics(), docs::all_topics().len() as int);
    assert(resources(docs::all_topics(), docs::all_topics().len() as int)[i] == resource_value(
        docs::all_topics()[i],
    ));
}

proof fn lemma_resources(topics: Seq<docs::TopicValue>, n: int)
    requires
        0 <= n <= topics.len(),
    ensures
        resources(topics, n).len() == n,
        forall|i: int|
            0 <= i < n ==> #[trigger] resources(topics, n)[i] == resource_value(topics[i]),
    decreases n,
{
    if n > 0 {
        lemma_resources(topics, n - 1);
    }
}

pub const PROMPT_DESCRIPTION: &'static str = "Everything needed to drive a GPUI app through gpui-mcp: orientation, the tool list and worked examples.";

/// How the prompt is listed.
pub open spec fn prompts_value() -> JsonValue {
    JsonValue::Object(
        json::no_fields().push(
            (
                "prompts"@,
                JsonValue::Array(
                    json::no_items().push(
                        JsonValue::Object(
                            json::no_fields().push(
                                ("name"@, JsonValue::Text(docs::PROMPT_NAME@)),
                            ).push(("description"@, JsonValue::Text(PROMPT_DESCRIPTION@))).push(
                                (
                                    "arguments"@,
                                    JsonValue::Array(json::no_items().push(prompt_argument())),
                                ),
                            ),
                        ),
                    ),
                ),
            ),
        ),
    )
}

/// How the argument of the prompt is listed.
pub open spec fn prompt_argument() -> JsonValue {
    JsonValue::Object(
        json::no_fields().push(("name"@, JsonValue::Text("topic"@))).push(
            (
                "description"@,
                JsonValue::Text(
                    "One topic ("@ + text::joined(docs::names_of(docs::all_topics()), ", "@)
                        + "). Omitted: overview, tools and recipes together."@,
                ),
            ),
        ).push(("required"@, JsonValue::Bool(false))),
    )
}

/// One prompt, which clients surface as a slash command.
pub fn prompts_list() -> (r: Json)
    ensures
        r@ == prompts_value(),
{
    let mut topics: String = "One topic (".to_owned();
    topics.append(docs::topic_names().as_str());
    topics.append("). Omitted: overview, tools and recipes together.");
    let argument: Json = Fields::new().with("name", Json::text("topic")).with(
        "description",
        Json::Text(topics),
    ).with("required", Json::Bool(false)).object();
    let prompt: Json = Fields::new().with("name", Json::text(docs::PROMPT_NAME)).with(
        "description",
        Json::text(PROMPT_DESCRIPTION),
    ).with("arguments", Items::new().with(argument).array()).object();
    Fields::new().with("prompts", Items::new().with(prompt).array()).object()
}

/// The three topics that get an agent working, in reading order.
pub open spec fn starting_text() -> Seq<char> {
    docs::OVERVIEW@ + "\n\n---\n\n"@ + docs::TOOLS@ + "\n\n---\n\n"@ + docs::RECIPES@
}

/// The text of the prompt, or why there is none.
pub open spec fn prompt_text(arguments: JsonValue) -> Result<Seq<char>, Seq<char>> {
    match topic_asked(arguments) {
        Some(name) => match docs::named_topic(name) {
            Some(topic) => Ok(topic.body),
            None => Err(docs::unknown_topic_text(name)),
        },
        None => Ok(starting_text()),
    }
}

/// What asking for a prompt answers, or why there is none.
pub open spec fn prompt_got(name: Seq<char>, arguments: JsonValue) -> Result<JsonValue, Seq<char>> {
    if name != docs::PROMPT_NAME@ {
        Err(
            "Unknown prompt '"@ + name + "'. This server offers '"@ + docs::PROMPT_NAME@ + "'."@,
        )
    } else {
        match prompt_text(arguments) {
            Err(message) => Err(message),
            Ok(s) => Ok(
                JsonValue::Object(
                    json::no_fields().push(
                        (
                            "description"@,
                            JsonValue::Text("How to drive a GPUI app through gpui-mcp."@),
                        ),
                    ).push(
                        (
                            "messages"@,
                            JsonValue::Array(
                                json::no_items().push(
                                    JsonValue::Object(
                                        json::no_fields().push(
                                            ("role"@, JsonValue::Text("user"@)),
                                        ).push(("content"@, text_block(s))),
                                    ),
                                ),
                            ),
                        ),
                    ),
                ),
            ),
        }
    }
}

/// Answer `prompts/get`. `Err` carries the message for a JSON-RPC error.
pub fn get_prompt(name: &str, arguments: &Json) -> (r: Result<Json, String>)
    ensures
        result_of(r) == prompt_got(name@, arguments@),
{
    if !text::same_text(name, docs::PROMPT_NAME) {
        let mut out: String = "Unknown prompt '".to_owned();
        out.append(name);
        out.append("'. This server offers '");
        out.append(docs::PROMPT_NAME);
        out.append("'.");
        return Err(out);
    }
    let said: String = match requested_topic(arguments) {
        Some(name) => match docs::topic(name) {
            Some(topic) => topic.body.to_owned(),
            None => {
                return Err(docs::unknown_topic_message(name));
            },
        },
        // No topic asked for: the three that get an agent working, in reading
        // order. The rest are one tool call away.
        None => {
            let mut out: String = docs::OVERVIEW.to_owned();
            out.append("\n\n---\n\n");
            out.append(docs::TOOLS);
            out.append("\n\n---\n\n");
            out.append(docs::RECIPES);
            out
        },
    };
    let message: Json = Fields::new().with("role", Json::text("user")).with(
        "content",
        text_content(said.as_str()),
    ).object();
    Ok(
        Fields::new().with(
            "description",
            Json::text("How to drive a GPUI app through gpui-mcp."),
        ).with("messages", Items::new().with(message).array()).object(),
    )
}

/// Whether an answer tells `s`: its one block is a text, and that text.
pub open spec fn tells(answer: JsonValue, s: Seq<char>) -> bool {
    json::field(answer, "content"@) matches Some(JsonValue::Array(blocks)) && blocks.len() == 1
        && is_text(blocks[0], s)
}

/// Whether a block is a text, and that text.
pub open spec fn is_text(block: JsonValue, s: Seq<char>) -> bool {
    json::field_text(block, "type"@) == Some("text"@) && json::field_text(block, "text"@) == Some(s)
}

/// Whether an answer is marked as an error.
pub open spec fn is_error(answer: JsonValue) -> bool {
    json::field(answer, "isError"@) == Some(JsonValue::Bool(true))
}

/// A text block is a text, and its text; an answer tells the text it is made
/// of, and only one that is an error is marked as one.
pub proof fn lemma_answers_tell(s: Seq<char>)
    ensures
        is_text(text_block(s), s),
        tells(text_answer(s), s) && !is_error(text_answer(s)),
        json::field(text_answer(s), "isError"@) is None,
        tells(error_answer(s), s) && is_error(error_answer(s)),
{
    reveal_strlit("type");
    reveal_strlit("text");
    reveal_strlit("content");
    reveal_strlit("isError");
    assert("type"@[1] == 'y' && "text"@[1] == 'e' && "content"@[0] == 'c' && "isError"@[0] == 'i');
    let block = text_block(s)->Object_0;
    json::lemma_field_at(block, 0);
    json::lemma_field_at(block, 1);
    let answer = text_answer(s)->Object_0;
    json::lemma_field_at(answer, 0);
    json::lemma_no_such_field(answer, "isError"@);
    let error = error_answer(s)->Object_0;
    json::lemma_field_at(error, 0);
    json::lemma_field_at(error, 1);
}

/// The guide serves the topic that was asked for, with white space around its
/// name or without; a name that is no topic's is an error that says so; asked
/// for none, or for a blank one, it serves the overview.
pub proof fn lemma_the_guide_serves_what_was_asked_for(
    arguments: JsonValue,
    before: Seq<char>,
    name: Seq<char>,
    behind: Seq<char>,
    i: int,
)
    requires
        text::all_white(before),
        text::all_white(behind),
        name.len() > 0 ==> !text::white(name[0]) && !text::white(name[name.len() - 1]),
        0 <= i < docs::all_topics().len(),
    ensures
        ({
            let asked = json::field_text(arguments, "topic"@);
            let answer = guide_value(arguments);
            let named = asked == Some(before + name + behind);
            &&& named && name == docs::all_topics()[i].name ==> tells(
                answer,
                docs::all_topics()[i].body,
            ) && !is_error(answer)
            &&& named && name.len() > 0 && (forall|j: int|
                0 <= j < docs::all_topics().len() ==> (#[trigger] docs::all_topics()[j]).name
                    != name) ==> is_error(answer) && tells(answer, docs::unknown_topic_text(name))
            &&& asked is None || (named && name.len() == 0) ==> tells(answer, docs::OVERVIEW@)
                && !is_error(answer)
        }),
{
    text::lemma_trimmed_is(before, name, behind);
    docs::lemma_topic_names_are_words(i);
    docs::lemma_every_topic_is_reachable_by_name();
    docs::lemma_a_topic_is_found_by_its_name(name);
    docs::lemma_topics_give_their_documents();
    lemma_answers_tell(docs::all_topics()[i].body);
    lemma_answers_tell(docs::OVERVIEW@);
    lemma_answers_tell(docs::unknown_topic_text(name));
    assert(named_is(docs::all_topics()[i]));
}

spec fn named_is(topic: docs::TopicValue) -> bool {
    docs::named_topic(topic.name) == Some(topic)
}

/// A resource is read under the prefix of the guide and the name of a topic: it
/// gives that topic's document, under the URI it was asked for by. Nothing else
/// can be read.
pub proof fn lemma_what_a_resource_gives(uri: Seq<char>, i: int)
    requires
        0 <= i < docs::all_topics().len(),
    ensures
        ({
            let named = "gpui://guide/"@ + docs::all_topics()[i].name;
            let r = resource_read(uri);
            &&& uri == named ==> r is Ok && (json::field(r->Ok_0, "contents"@) matches Some(
                JsonValue::Array(contents),
            ) && contents.len() == 1 && json::field_text(contents[0], "uri"@) == Some(uri)
                && json::field_text(contents[0], "mimeType"@) == Some("text/markdown"@)
                && json::field_text(contents[0], "text"@) == Some(docs::all_topics()[i].body))
            &&& (forall|j: int|
                0 <= j < docs::all_topics().len() ==> uri != "gpui://guide/"@ + (
                #[trigger] docs::all_topics()[j]).name) ==> r is Err
        }),
{
    let prefix = docs::RESOURCE_PREFIX@;
    let topic = docs::all_topics()[i];
    docs::lemma_every_topic_is_reachable_by_name();
    if uri == prefix + topic.name {
        assert(uri.subrange(0, prefix.len() as int) =~= prefix);
        assert(uri.skip(prefix.len() as int) =~= topic.name);
        reveal_strlit("contents");
        reveal_strlit("uri");
        reveal_strlit("mimeType");
        reveal_strlit("text");
        assert("uri"@.len() == 3 && "mimeType"@.len() == 8 && "text"@.len() == 4);
        let outer = resource_read(uri)->Ok_0->Object_0;
        json::lemma_field_at(outer, 0);
        let inner = (outer[0].1->Array_0)[0]->Object_0;
        json::lemma_field_at(inner, 0);
        json::lemma_field_at(inner, 1);
        json::lemma_field_at(inner, 2);
    }
    if resource_read(uri) is Ok {
        let name = uri.skip(prefix.len() as int);
        docs::lemma_a_topic_is_found_by_its_name(name);
        assert(uri =~= prefix + name);
    }
}

/// Each topic is listed as a resource under its own name, with its summary.
pub proof fn lemma_how_a_resource_is_listed(topic: docs::TopicValue)
    ensures
        json::field_text(resource_value(topic), "uri"@) == Some("gpui://guide/"@ + topic.name),
        json::field_text(resource_value(topic), "name"@) == Some("gpui-mcp guide: "@ + topic.name),
        json::field_text(resource_value(topic), "description"@) == Some(topic.summary),
        json::field_text(resource_value(topic), "mimeType"@) == Some("text/markdown"@),
{
    let fields = resource_value(topic)->Object_0;
    reveal_strlit("uri");
    reveal_strlit("name");
    reveal_strlit("description");
    reveal_strlit("mimeType");
    assert("uri"@.len() == 3 && "name"@.len() == 4 && "description"@.len() == 11 && "mimeType"@.len()
        == 8);
    json::lemma_field_at(fields, 0);
    json::lemma_field_at(fields, 1);
    json::lemma_field_at(fields, 2);
    json::lemma_field_at(fields, 3);
}

/// The resources are the topics, one for one and in their order.
pub proof fn lemma_the_resources_are_the_topics(i: int)
    ensures
        resources(docs::all_topics(), docs::all_topics().len() as int).len()
            == docs::all_topics().len(),
        0 <= i < docs::all_topics().len() ==> json::field_text(
            resources(docs::all_topics(), docs::all_topics().len() as int)[i],
            "uri"@,
        ) == Some("gpui://guide/"@ + docs::all_topics()[i].name),
{
    lemma_resources(docs::all_topics(), docs::all_topics().len() as int);
    if 0 <= i < docs::all_topics().len() {
        lemma_how_a_resource_is_listed(docs::all_topics()[i]);
        assert(resources(docs::all_topics(), docs::all_topics().len() as int)[i]
            == resource_value(docs::all_topics()[i]));
    }
}

/// Whether a prompt says `s`: its one message is the user's, and that text.
pub open spec fn prompts_with(prompt: JsonValue, s: Seq<char>) -> bool {
    json::field(prompt, "messages"@) matches Some(JsonValue::Array(messages)) && messages.len() == 1
        && json::field_text(messages[0], "role"@) == Some("user"@) && is_text(
        json::field_or_null(messages[0], "content"@),
        s,
    )
}

/// The prompt is offered under one name. It gives the topic that was asked for,
/// an error for one that does not exist, and asked for none the overview, the
/// tools and the recipes, in this order.
pub proof fn lemma_what_the_prompt_gives(
    name: Seq<char>,
    arguments: JsonValue,
    before: Seq<char>,
    topic: Seq<char>,
    behind: Seq<char>,
    i: int,
)
    requires
        text::all_white(before),
        text::all_white(behind),
        topic.len() > 0 ==> !text::white(topic[0]) && !text::white(topic[topic.len() - 1]),
        0 <= i < docs::all_topics().len(),
    ensures
        ({
            let asked = json::field_text(arguments, "topic"@);
            let named = asked == Some(before + topic + behind);
            let r = prompt_got(name, arguments);
            let rule = "\n\n---\n\n"@;
            &&& name != "onboard"@ ==> r is Err && text::mentions(r->Err_0, name)
            &&& name == "onboard"@ && named && topic == docs::all_topics()[i].name ==> r is Ok
                && prompts_with(r->Ok_0, docs::all_topics()[i].body)
            &&& name == "onboard"@ && named && topic.len() > 0 && (forall|j: int|
                0 <= j < docs::all_topics().len() ==> (#[trigger] docs::all_topics()[j]).name
                    != topic) ==> r == Err::<JsonValue, Seq<char>>(docs::unknown_topic_text(topic))
            &&& name == "onboard"@ && (asked is None || (named && topic.len() == 0)) ==> r is Ok
                && prompts_with(
                r->Ok_0,
                docs::OVERVIEW@ + rule + docs::TOOLS@ + rule + docs::RECIPES@,
            )
        }),
{
    text::lemma_trimmed_is(before, topic, behind);
    docs::lemma_topic_names_are_words(i);
    docs::lemma_every_topic_is_reachable_by_name();
    docs::lemma_a_topic_is_found_by_its_name(topic);
    assert(named_is(docs::all_topics()[i]));
    if name != docs::PROMPT_NAME@ {
        let rest = "'. This server offers '"@ + docs::PROMPT_NAME@ + "'."@;
        assert(prompt_got(name, arguments)->Err_0 =~= "Unknown prompt '"@ + name + rest);
        text::lemma_mentions("Unknown prompt '"@, name, rest);
    } else if let Ok(s) = prompt_text(arguments) {
        reveal_strlit("description");
        reveal_strlit("messages");
        reveal_strlit("role");
        reveal_strlit("content");
        assert("description"@.len() == 11 && "messages"@.len() == 8 && "role"@.len() == 4
            && "content"@.len() == 7);
        let outer = prompt_got(name, arguments)->Ok_0->Object_0;
        json::lemma_field_at(outer, 1);
        let message = (outer[1].1->Array_0)[0]->Object_0;
        json::lemma_field_at(message, 0);
        json::lemma_field_at(message, 1);
        lemma_answers_tell(s);
    }
}

/// The one prompt is listed under its name, with the one argument it takes,
/// which names every topic and can be left out.
pub proof fn lemma_how_the_prompt_is_listed()
    ensures
        json::field(prompts_value(), "prompts"@) matches Some(JsonValue::Array(prompts)) && {
            &&& prompts.len() == 1
            &&& json::field_text(prompts[0], "name"@) == Some("onboard"@)
            &&& json::field_text(prompts[0], "description"@) == Some(PROMPT_DESCRIPTION@)
            &&& json::field(prompts[0], "arguments"@) matches Some(JsonValue::Array(arguments))
            &&& arguments.len() == 1
            &&& json::field_text(arguments[0], "name"@) == Some("topic"@)
            &&& json::field_bool(arguments[0], "required"@) == Some(false)
            &&& json::field_text(arguments[0], "description"@) matches Some(said)
            &&& text::mentions(said, text::joined(docs::names_of(docs::all_topics()), ", "@))
        },
{
    reveal_strlit("name");
    reveal_strlit("description");
    reveal_strlit("arguments");
    reveal_strlit("required");
    assert("name"@.len() == 4 && "description"@.len() == 11 && "arguments"@.len() == 9
        && "required"@.len() == 8);
    let argument = prompt_argument()->Object_0;
    json::lemma_field_at(argument, 0);
    json::lemma_field_at(argument, 1);
    json::lemma_field_at(argument, 2);
    let outer = prompts_value()->Object_0;
    json::lemma_field_at(outer, 0);
    let prompt = outer[0].1->Array_0[0]->Object_0;
    json::lemma_field_at(prompt, 0);
    json::lemma_field_at(prompt, 1);
    json::lemma_field_at(prompt, 2);
    text::lemma_mentions(
        "One topic ("@,
        text::joined(docs::names_of(docs::all_topics()), ", "@),
        "). Omitted: overview, tools and recipes together."@,
    );
}

/// A resource that is none of the guide's is refused by its URI, and one of the
/// guide's that names no topic is answered as an unknown topic is.
pub proof fn lemma_what_cannot_be_read(uri: Seq<char>, name: Seq<char>)
    ensures
        !text::has_prefix(uri, "gpui://guide/"@) ==> resource_read(uri) is Err && text::mentions(
            resource_read(uri)->Err_0,
            "'"@ + uri + "'"@,
        ) && text::has_suffix(resource_read(uri)->Err_0, "gpui://guide/"@),
        docs::named_topic(name) is None ==> resource_read("gpui://guide/"@ + name) == Err::<
            JsonValue,
            Seq<char>,
        >(docs::unknown_topic_text(name)),
{
    let head = "Unknown resource '"@;
    let tail = "'. Guide resources start with "@;
    reveal_strlit("Unknown resource '");
    reveal_strlit("'. Guide resources start with ");
    reveal_strlit("'");
    let said = head + uri + tail + docs::RESOURCE_PREFIX@;
    assert(head =~= head.take(17) + "'"@);
    assert(tail =~= "'"@ + tail.skip(1));
    assert(said =~= head.take(17) + ("'"@ + uri + "'"@) + (tail.skip(1) + docs::RESOURCE_PREFIX@));
    text::lemma_mentions(
        head.take(17),
        "'"@ + uri + "'"@,
        tail.skip(1) + docs::RESOURCE_PREFIX@,
    );
    text::lemma_ends_with(head + uri + tail, docs::RESOURCE_PREFIX@);
    text::lemma_begins_with("gpui://guide/"@, name);
    let named = "gpui://guide/"@ + name;
    assert(named.skip("gpui://guide/"@.len() as int) =~= name);
}

/// The resources are listed as the topics are told, each in its place.
pub proof fn lemma_each_resource_is_its_topic(i: int)
    requires
        0 <= i < docs::all_topics().len(),
    ensures
        resources(docs::all_topics(), docs::all_topics().len() as int)[i] == resource_value(
            docs::all_topics()[i],
        ),
{
    lemma_each_resource(docs::all_topics(), docs::all_topics().len() as int, i);
}

proof fn lemma_each_resource(topics: Seq<docs::TopicValue>, n: int, i: int)
    requires
        0 <= i < n <= topics.len(),
    ensures
        resources(topics, n).len() == n,
        resources(topics, n)[i] == resource_value(topics[i]),
    decreases n,
{
    if n > 1 {
        if i < n - 1 {
            lemma_each_resource(topics, n - 1, i);
        } else {
            lemma_each_resource(topics, n - 1, 0);
        }
    } else {
        assert(resources(topics, 0) =~= Seq::empty());
    }
}

} // verus!
