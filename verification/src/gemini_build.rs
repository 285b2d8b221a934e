//! From a conversation request to the body of a Gemini `streamGenerateContent` call.
use crate::conversation::{
    AssistantItem, ContentPart, ConversationItem, ConversationRequest, ToolCall, ToolSpec,
};
use crate::json::{
    field_in, field_views, json_parsed, json_views, one_per_key, parse, rebuilding_keeps_lookups,
    value_view, Json, JsonNumber, JsonView,
};
use crate::lists::unreversed;
use crate::string_map::StringMap;
use vstd::prelude::*;

verus! {

/// Who speaks in a Gemini turn.
#[derive(Clone, Copy, PartialEq, Eq, Structural)]
pub enum Role {
    User,
    Model,
}

/// One entry of `contents`.
pub struct Turn {
    pub role: Role,
    pub parts: Vec<Json>,
}

/// What a turn says.
pub struct TurnView {
    pub role: Role,
    pub parts: Seq<JsonView>,
}

impl View for Turn {
    type V = TurnView;

    open spec fn view(&self) -> TurnView {
        TurnView { role: self.role, parts: json_views(self.parts@) }
    }
}

/// What the turns of a list say.
pub open spec fn turn_views(turns: Seq<Turn>) -> Seq<TurnView> {
    Seq::new(turns.len(), |i: int| turns[i]@)
}

/// A `text` part.
pub open spec fn text_part(text: Seq<char>) -> JsonView {
    JsonView::Object(seq![("text"@, JsonView::Text(text))])
}

/// The arguments of a call: those that could be read, or none at all.
pub open spec fn args_or_none(args: Option<JsonView>) -> JsonView {
    match args {
        Some(value) => value,
        None => JsonView::Object(Seq::empty()),
    }
}

/// A `functionCall` part.
pub open spec fn function_call(name: Seq<char>, args: Option<JsonView>) -> JsonView {
    JsonView::Object(
        seq![
            (
                "functionCall"@,
                JsonView::Object(
                    seq![
                        ("name"@, JsonView::Text(name)),
                        ("args"@, args_or_none(args)),
                    ],
                ),
            ),
        ],
    )
}

/// The part for a call: its arguments are the value that their text parses to.
pub open spec fn call_part(call: ToolCall) -> JsonView {
    function_call(call.name@, json_parsed(call.arguments@))
}

/// A `functionResponse` part.
pub open spec fn response_part(name: Seq<char>, result: Seq<char>) -> JsonView {
    JsonView::Object(
        seq![
            (
                "functionResponse"@,
                JsonView::Object(
                    seq![
                        ("name"@, JsonView::Text(name)),
                        (
                            "response"@,
                            JsonView::Object(seq![("result"@, JsonView::Text(result))]),
                        ),
                    ],
                ),
            ),
        ],
    )
}

/// The parts of a user message: its texts, in order. Images have no part.
pub open spec fn user_parts(content: Seq<ContentPart>) -> Seq<JsonView>
    decreases content.len(),
{
    if content.len() == 0 {
        Seq::empty()
    } else {
        match content.last() {
            ContentPart::Text { text } => user_parts(content.drop_last()).push(text_part(text@)),
            ContentPart::Image { .. } => user_parts(content.drop_last()),
        }
    }
}

/// The parts of an assistant message: its text unless empty, then its calls.
pub open spec fn assistant_parts(item: AssistantItem) -> Seq<JsonView> {
    let calls = Seq::new(item.tool_calls@.len(), |i: int| call_part(item.tool_calls@[i]));
    if item.content@.len() == 0 {
        calls
    } else {
        seq![text_part(item.content@)] + calls
    }
}

/// The tool names by call id once further calls have been seen: the last one counts.
pub open spec fn names_with_calls(
    names: Map<Seq<char>, Seq<char>>,
    calls: Seq<ToolCall>,
) -> Map<Seq<char>, Seq<char>>
    decreases calls.len(),
{
    if calls.len() == 0 {
        names
    } else {
        names_with_calls(names, calls.drop_last()).insert(calls.last().id@, calls.last().name@)
    }
}

/// The tool names by call id after a conversation.
pub open spec fn tool_names(items: Seq<ConversationItem>) -> Map<Seq<char>, Seq<char>>
    decreases items.len(),
{
    if items.len() == 0 {
        Map::empty()
    } else {
        match items.last() {
            ConversationItem::Assistant(a) => names_with_calls(
                tool_names(items.drop_last()),
                a.tool_calls@,
            ),
            _ => tool_names(items.drop_last()),
        }
    }
}

/// The name that a tool result answers to: empty when no earlier call has its id.
pub open spec fn name_for(names: Map<Seq<char>, Seq<char>>, id: Seq<char>) -> Seq<char> {
    if names.dom().contains(id) {
        names[id]
    } else {
        Seq::empty()
    }
}

/// The turn that an item gives, with the tool names known before it. An item without parts
/// gives none.
pub open spec fn turn_of(item: ConversationItem, names: Map<Seq<char>, Seq<char>>) -> Option<
    TurnView,
> {
    match item {
        ConversationItem::User(u) => if user_parts(u.content@).len() == 0 {
            None
        } else {
            Some(TurnView { role: Role::User, parts: user_parts(u.content@) })
        },
        ConversationItem::Assistant(a) => if assistant_parts(a).len() == 0 {
            None
        } else {
            Some(TurnView { role: Role::Model, parts: assistant_parts(a) })
        },
        ConversationItem::ToolResult(r) => Some(
            TurnView {
                role: Role::User,
                parts: seq![response_part(name_for(names, r.tool_call_id@), r.content@)],
            },
        ),
        _ => None,
    }
}

/// The turns of a conversation, one by one.
pub open spec fn turns_of(items: Seq<ConversationItem>) -> Seq<TurnView>
    decreases items.len(),
{
    if items.len() == 0 {
        Seq::empty()
    } else {
        let before = items.drop_last();
        match turn_of(items.last(), tool_names(before)) {
            Some(turn) => turns_of(before).push(turn),
            None => turns_of(before),
        }
    }
}

/// The system texts of a conversation as parts.
pub open spec fn system_parts(items: Seq<ConversationItem>) -> Seq<JsonView>
    decreases items.len(),
{
    if items.len() == 0 {
        Seq::empty()
    } else {
        match items.last() {
            ConversationItem::System(s) => system_parts(items.drop_last()).push(
                text_part(s.content@),
            ),
            _ => system_parts(items.drop_last()),
        }
    }
}

/// `turns` followed by one more: a turn of the same role as the last joins it.
pub open spec fn with_turn(turns: Seq<TurnView>, turn: TurnView) -> Seq<TurnView> {
    if turns.len() > 0 && turns.last().role == turn.role {
        turns.drop_last().push(
            TurnView { role: turn.role, parts: turns.last().parts + turn.parts },
        )
    } else {
        turns.push(turn)
    }
}

/// The turns with neighbours of the same role joined.
pub open spec fn merged(turns: Seq<TurnView>) -> Seq<TurnView>
    decreases turns.len(),
{
    if turns.len() == 0 {
        Seq::empty()
    } else {
        with_turn(merged(turns.drop_last()), turns.last())
    }
}

/// The name Gemini has for a role.
pub open spec fn role_name(role: Role) -> Seq<char> {
    match role {
        Role::User => "user"@,
        Role::Model => "model"@,
    }
}

/// A turn as an entry of `contents`.
pub open spec fn turn_json(turn: TurnView) -> JsonView {
    JsonView::Object(
        seq![
            ("role"@, JsonView::Text(role_name(turn.role))),
            ("parts"@, JsonView::Array(turn.parts)),
        ],
    )
}

/// The `contents` of a list of turns.
pub open spec fn contents_json(turns: Seq<TurnView>) -> JsonView {
    JsonView::Array(Seq::new(turns.len(), |i: int| turn_json(turns[i])))
}

/// One function declaration. A tool without a description has an empty one.
pub open spec fn declaration(tool: ToolSpec) -> JsonView {
    JsonView::Object(
        seq![
            ("name"@, JsonView::Text(tool.name@)),
            (
                "description"@,
                JsonView::Text(
                    match tool.description {
                        Some(d) => d@,
                        None => Seq::empty(),
                    },
                ),
            ),
            ("parameters"@, tool.parameters@),
        ],
    )
}

/// The `tools` of a request.
pub open spec fn tools_json(tools: Seq<ToolSpec>) -> JsonView {
    JsonView::Array(
        seq![
            JsonView::Object(
                seq![
                    (
                        "function_declarations"@,
                        JsonView::Array(Seq::new(tools.len(), |i: int| declaration(tools[i]))),
                    ),
                ],
            ),
        ],
    )
}

/// One field if there is a value, else none.
pub open spec fn field_if(key: Seq<char>, value: Option<JsonView>) -> Seq<(Seq<char>, JsonView)> {
    match value {
        Some(v) => seq![(key, v)],
        None => Seq::empty(),
    }
}

/// What an optional JSON value says.
pub open spec fn opt_json(value: Option<Json>) -> Option<JsonView> {
    match value {
        Some(v) => Some(v@),
        None => None,
    }
}

/// The fields of `generationConfig`.
pub open spec fn generation_fields(req: ConversationRequest) -> Seq<(Seq<char>, JsonView)> {
    field_if("temperature"@, opt_json(req.temperature)) + field_if("topP"@, opt_json(req.top_p))
        + field_if(
        "maxOutputTokens"@,
        match req.max_output_tokens {
            Some(n) => Some(JsonView::Number(JsonNumber::PosInt(n as u64))),
            None => None,
        },
    )
}

/// The `systemInstruction` of a request, if it has any system text.
pub open spec fn instruction_json(req: ConversationRequest) -> Option<JsonView> {
    let parts = system_parts(req.items@);
    if parts.len() == 0 {
        None
    } else {
        Some(JsonView::Object(seq![("parts"@, JsonView::Array(parts))]))
    }
}

/// The `generationConfig` of a request, if it sets any sampling parameter.
pub open spec fn generation_json(req: ConversationRequest) -> Option<JsonView> {
    if generation_fields(req).len() == 0 {
        None
    } else {
        Some(JsonView::Object(generation_fields(req)))
    }
}

/// The `tools` of a request, if it has any.
pub open spec fn declared_tools(req: ConversationRequest) -> Option<JsonView> {
    if req.tools@.len() == 0 {
        None
    } else {
        Some(tools_json(req.tools@))
    }
}

/// The body of a request.
pub open spec fn request_body(req: ConversationRequest) -> JsonView {
    JsonView::Object(
        seq![("contents"@, contents_json(merged(turns_of(req.items@))))] + field_if(
            "systemInstruction"@,
            instruction_json(req),
        ) + field_if("generationConfig"@, generation_json(req)) + field_if(
            "tools"@,
            declared_tools(req),
        ),
    )
}

fn text_json(text: &str) -> (j: Json)
    ensures
        j@ == JsonView::Text(text@),
{
    Json::Text(text.to_owned())
}

fn object_1(key: &str, value: Json) -> (j: Json)
    ensures
        j@ == JsonView::Object(seq![(key@, value@)]),
{
    let mut fields: Vec<(String, Json)> = Vec::new();
    fields.push((key.to_owned(), value));
    assert(field_views(fields@) =~= seq![(key@, value@)]);
    Json::Object(fields)
}

fn object_2(key1: &str, value1: Json, key2: &str, value2: Json) -> (j: Json)
    ensures
        j@ == JsonView::Object(seq![(key1@, value1@), (key2@, value2@)]),
{
    let mut fields: Vec<(String, Json)> = Vec::new();
    fields.push((key1.to_owned(), value1));
    fields.push((key2.to_owned(), value2));
    assert(field_views(fields@) =~= seq![(key1@, value1@), (key2@, value2@)]);
    Json::Object(fields)
}

fn text_part_json(text: &str) -> (j: Json)
    ensures
        j@ == text_part(text@),
{
    object_1("text", text_json(text))
}

/// The part for a call of `name` with arguments that have been read already.
pub fn function_call_part(name: &str, args: Option<Json>) -> (j: Json)
    ensures
        j@ == function_call(name@, opt_json(args)),
{
    let ghost given = opt_json(args);
    let value = match args {
        Some(value) => value,
        None => {
            let fields: Vec<(String, Json)> = Vec::new();
            assert(field_views(fields@) =~= Seq::empty());
            Json::Object(fields)
        },
    };
    assert(value@ == args_or_none(given));
    object_1("functionCall", object_2("name", text_json(name), "args", value))
}

fn call_part_json(call: &ToolCall) -> (j: Json)
    ensures
        j@ == call_part(*call),
{
    function_call_part(call.name.as_str(), parse(call.arguments.as_str()))
}

fn user_parts_json(content: &Vec<ContentPart>) -> (parts: Vec<Json>)
    ensures
        json_views(parts@) == user_parts(content@),
{
    let mut parts: Vec<Json> = Vec::new();
    let mut i: usize = 0;
    assert(json_views(parts@) =~= user_parts(content@.take(0)));
    while i < content.len()
        invariant
            i <= content@.len(),
            json_views(parts@) == user_parts(content@.take(i as int)),
        decreases content@.len() - i,
    {
        let ghost shown = content@.take(i + 1);
        assert(shown.drop_last() =~= content@.take(i as int));
        assert(shown.last() == content@[i as int]);
        let ghost before = parts@;
        match &content[i] {
            ContentPart::Text { text } => {
                parts.push(text_part_json(text.as_str()));
                assert(json_views(parts@) =~= json_views(before).push(text_part(text@)));
            },
            ContentPart::Image { .. } => {},
        }
        i = i + 1;
    }
    assert(content@.take(i as int) =~= content@);
    parts
}

fn assistant_parts_json(item: &AssistantItem) -> (parts: Vec<Json>)
    ensures
        json_views(parts@) == assistant_parts(*item),
{
    let mut parts: Vec<Json> = Vec::new();
    if !item.content.as_str().is_empty() {
        parts.push(text_part_json(item.content.as_str()));
    }
    let ghost lead = json_views(parts@);
    assert(lead =~= if item.content@.len() == 0 {
        Seq::empty()
    } else {
        seq![text_part(item.content@)]
    });
    let ghost calls = Seq::new(
        item.tool_calls@.len(),
        |i: int| call_part(item.tool_calls@[i]),
    );
    let mut i: usize = 0;
    assert(json_views(parts@) =~= lead + calls.take(0));
    while i < item.tool_calls.len()
        invariant
            i <= item.tool_calls@.len(),
            calls == Seq::new(
                item.tool_calls@.len(),
                |i: int| call_part(item.tool_calls@[i]),
            ),
            json_views(parts@) == lead + calls.take(i as int),
        decreases item.tool_calls@.len() - i,
    {
        let ghost before = parts@;
        parts.push(call_part_json(&item.tool_calls[i]));
        assert(json_views(parts@) =~= json_views(before).push(calls[i as int]));
        i = i + 1;
        assert(calls.take(i as int) =~= calls.take(i - 1).push(calls[i - 1]));
        assert(json_views(parts@) =~= lead + calls.take(i as int));
    }
    assert(calls.take(i as int) =~= calls);
    assert(json_views(parts@) =~= assistant_parts(*item));
    parts
}

/// The name map of strings, as texts.
pub open spec fn name_texts(names: Map<Seq<char>, String>) -> Map<Seq<char>, Seq<char>> {
    names.map_values(|name: String| name@)
}

fn note_calls(names: &mut StringMap<String>, calls: &Vec<ToolCall>)
    ensures
        name_texts(final(names)@) == names_with_calls(name_texts(old(names)@), calls@),
{
    let mut i: usize = 0;
    let ghost before = name_texts(names@);
    assert(calls@.take(0) =~= Seq::empty());
    while i < calls.len()
        invariant
            i <= calls@.len(),
            name_texts(names@) == names_with_calls(before, calls@.take(i as int)),
        decreases calls@.len() - i,
    {
        let ghost shown = calls@.take(i + 1);
        assert(shown.drop_last() =~= calls@.take(i as int));
        let ghost known = names@;
        let name = calls[i].name.clone();
        let _ = names.insert(calls[i].id.clone(), name);
        assert(name_texts(names@) =~= name_texts(known).insert(
            calls@[i as int].id@,
            calls@[i as int].name@,
        ));
        i = i + 1;
    }
    assert(calls@.take(i as int) =~= calls@);
}

/// Gemini wants the roles to alternate: turns of the same role that follow each other become
/// one, with the parts of each in order.
pub fn merge_consecutive_same_role(contents: &mut Vec<Turn>)
    ensures
        turn_views(final(contents)@) == merged(turn_views(old(contents)@)),
{
    let mut taken: Vec<Turn> = Vec::new();
    std::mem::swap(&mut taken, contents);
    let ghost all = taken@;
    let mut left = unreversed(taken);
    let mut done: Vec<Turn> = Vec::new();
    let ghost views = turn_views(all);
    assert(turn_views(done@) =~= merged(views.take(0)));
    while left.len() > 0
        invariant
            left@.len() <= all.len(),
            left@ == all.skip(all.len() - left@.len()).reverse(),
            views == turn_views(all),
            turn_views(done@) == merged(views.take(all.len() - left@.len())),
        decreases left.len(),
    {
        let ghost seen = all.len() - left@.len();
        let ghost before = done@;
        let turn = left.pop().unwrap();
        assert(turn == all[seen]);
        assert(left@ =~= all.skip(seen + 1).reverse());
        assert(views.take(seen + 1).drop_last() =~= views.take(seen));
        assert(views.take(seen + 1).last() == turn@);
        let same = if done.len() == 0 {
            false
        } else {
            done[done.len() - 1].role == turn.role
        };
        if same {
            let mut last = done.pop().unwrap();
            let ghost kept = last;
            let mut parts = turn.parts;
            last.parts.append(&mut parts);
            assert(json_views(last.parts@) =~= json_views(kept.parts@) + json_views(
                turn.parts@,
            ));
            done.push(last);
            assert(turn_views(done@) =~= with_turn(turn_views(before), turn@));
        } else {
            done.push(turn);
            assert(turn_views(done@) =~= with_turn(turn_views(before), turn@));
        }
    }
    assert(views.take(all.len() as int) =~= views);
    *contents = done;
}

fn turn_to_json(turn: Turn) -> (j: Json)
    ensures
        j@ == turn_json(turn@),
{
    let role = match turn.role {
        Role::User => "user",
        Role::Model => "model",
    };
    object_2("role", text_json(role), "parts", Json::Array(turn.parts))
}

fn contents_to_json(turns: Vec<Turn>) -> (j: Json)
    ensures
        j@ == contents_json(turn_views(turns@)),
{
    let ghost all = turns@;
    let mut left = unreversed(turns);
    let mut list: Vec<Json> = Vec::new();
    while left.len() > 0
        invariant
            left@.len() + list@.len() == all.len(),
            left@ == all.skip(list@.len() as int).reverse(),
            forall|i: int| 0 <= i < list@.len() ==> (#[trigger] list@[i])@ == turn_json(all[i]@),
        decreases left.len(),
    {
        let ghost seen = list@.len() as int;
        let turn = left.pop().unwrap();
        assert(turn == all[seen]);
        assert(left@ =~= all.skip(seen + 1).reverse());
        list.push(turn_to_json(turn));
    }
    assert(json_views(list@) =~= contents_json(turn_views(all))->Array_0);
    Json::Array(list)
}

fn declaration_json(tool: &ToolSpec) -> (j: Json)
    ensures
        j@ == declaration(*tool),
{
    let description = match &tool.description {
        Some(d) => d.clone(),
        None => String::new(),
    };
    let mut fields: Vec<(String, Json)> = Vec::new();
    fields.push(("name".to_owned(), text_json(tool.name.as_str())));
    fields.push(("description".to_owned(), Json::Text(description)));
    fields.push(("parameters".to_owned(), tool.parameters.copy()));
    assert(field_views(fields@) =~= declaration(*tool)->Object_0);
    Json::Object(fields)
}

fn tools_to_json(tools: &Vec<ToolSpec>) -> (j: Json)
    ensures
        j@ == tools_json(tools@),
{
    let mut list: Vec<Json> = Vec::new();
    let mut i: usize = 0;
    while i < tools.len()
        invariant
            i <= tools@.len(),
            list@.len() == i,
            forall|k: int| 0 <= k < i ==> (#[trigger] list@[k])@ == declaration(tools@[k]),
        decreases tools@.len() - i,
    {
        list.push(declaration_json(&tools[i]));
        i = i + 1;
    }
    assert(json_views(list@) =~= Seq::new(tools@.len(), |i: int| declaration(tools@[i])));
    let mut outer: Vec<Json> = Vec::new();
    outer.push(object_1("function_declarations", Json::Array(list)));
    assert(json_views(outer@) =~= tools_json(tools@)->Array_0);
    Json::Array(outer)
}

fn push_if(fields: &mut Vec<(String, Json)>, key: &str, value: Option<Json>)
    ensures
        field_views(final(fields)@) == field_views(old(fields)@) + field_if(
            key@,
            opt_json(value),
        ),
{
    match value {
        Some(v) => {
            fields.push((key.to_owned(), v));
            assert(field_views(fields@) =~= field_views(old(fields)@) + seq![(key@, v@)]);
        },
        None => {
            assert(field_views(fields@) =~= field_views(old(fields)@) + Seq::empty());
        },
    }
}

fn copy_opt(value: &Option<Json>) -> (r: Option<Json>)
    ensures
        opt_json(r) == opt_json(*value),
{
    match value {
        Some(v) => Some(v.copy()),
        None => None,
    }
}

fn generation_config(req: &ConversationRequest) -> (config: Option<Json>)
    ensures
        opt_json(config) == if generation_fields(*req).len() == 0 {
            None
        } else {
            Some(JsonView::Object(generation_fields(*req)))
        },
{
    let mut fields: Vec<(String, Json)> = Vec::new();
    assert(field_views(fields@) =~= Seq::empty());
    push_if(&mut fields, "temperature", copy_opt(&req.temperature));
    push_if(&mut fields, "topP", copy_opt(&req.top_p));
    let limit = match req.max_output_tokens {
        Some(n) => Some(Json::Number(JsonNumber::PosInt(n as u64))),
        None => None,
    };
    push_if(&mut fields, "maxOutputTokens", limit);
    assert(field_views(fields@) =~= generation_fields(*req));
    if fields.len() == 0 {
        None
    } else {
        Some(Json::Object(fields))
    }
}

/// Maps a conversation request to the JSON body of a Gemini call, as plain data.
pub fn gemini_body(req: &ConversationRequest) -> (body: Json)
    ensures
        body@ == request_body(*req),
{
    let mut system: Vec<Json> = Vec::new();
    let mut contents: Vec<Turn> = Vec::new();
    let mut names: StringMap<String> = StringMap::new();
    let mut i: usize = 0;
    let ghost items = req.items@;
    assert(items.take(0) =~= Seq::empty());
    assert(json_views(system@) =~= Seq::empty());
    assert(turn_views(contents@) =~= Seq::empty());
    assert(name_texts(names@) =~= Map::empty());
    while i < req.items.len()
        invariant
            i <= req.items@.len(),
            items == req.items@,
            json_views(system@) == system_parts(items.take(i as int)),
            turn_views(contents@) == turns_of(items.take(i as int)),
            name_texts(names@) == tool_names(items.take(i as int)),
        decreases req.items@.len() - i,
    {
        let ghost shown = items.take(i + 1);
        assert(shown.drop_last() =~= items.take(i as int));
        assert(shown.last() == items[i as int]);
        let ghost system_before = system@;
        let ghost contents_before = contents@;
        match &req.items[i] {
            ConversationItem::System(s) => {
                system.push(text_part_json(s.content.as_str()));
                assert(json_views(system@) =~= json_views(system_before).push(
                    text_part(s.content@),
                ));
            },
            ConversationItem::User(u) => {
                let parts = user_parts_json(&u.content);
                assert(json_views(parts@).len() == parts@.len());
                if parts.len() > 0 {
                    let turn = Turn { role: Role::User, parts };
                    contents.push(turn);
                    assert(turn_views(contents@) =~= turn_views(contents_before).push(turn@));
                }
            },
            ConversationItem::Assistant(a) => {
                let parts = assistant_parts_json(a);
                assert(json_views(parts@).len() == parts@.len());
                note_calls(&mut names, &a.tool_calls);
                if parts.len() > 0 {
                    let turn = Turn { role: Role::Model, parts };
                    contents.push(turn);
                    assert(turn_views(contents@) =~= turn_views(contents_before).push(turn@));
                }
            },
            ConversationItem::ToolResult(r) => {
                let name = match names.get(r.tool_call_id.as_str()) {
                    Some(name) => name.clone(),
                    None => String::new(),
                };
                assert(name@ == name_for(name_texts(names@), r.tool_call_id@));
                let part = object_1(
                    "functionResponse",
                    object_2(
                        "name",
                        Json::Text(name),
                        "response",
                        object_1("result", text_json(r.content.as_str())),
                    ),
                );
                let mut parts: Vec<Json> = Vec::new();
                parts.push(part);
                assert(json_views(parts@) =~= seq![part@]);
                let turn = Turn { role: Role::User, parts };
                contents.push(turn);
                assert(turn_views(contents@) =~= turn_views(contents_before).push(turn@));
            },
            ConversationItem::Reasoning(_) => {},
            ConversationItem::BackendToolCall(_) => {},
        }
        i = i + 1;
    }
    assert(items.take(i as int) =~= items);
    merge_consecutive_same_role(&mut contents);

    let mut fields: Vec<(String, Json)> = Vec::new();
    fields.push(("contents".to_owned(), contents_to_json(contents)));
    assert(field_views(fields@) =~= seq![("contents"@, contents_json(merged(turns_of(items))))]);
    assert(json_views(system@).len() == system@.len());
    let instruction = if system.len() == 0 {
        None
    } else {
        Some(object_1("parts", Json::Array(system)))
    };
    push_if(&mut fields, "systemInstruction", instruction);
    push_if(&mut fields, "generationConfig", generation_config(req));
    let tools = if req.tools.len() == 0 {
        None
    } else {
        Some(tools_to_json(&req.tools))
    };
    push_if(&mut fields, "tools", tools);
    assert(field_views(fields@) =~= request_body(*req)->Object_0);
    Json::Object(fields)
}

/// Maps a conversation request to the JSON body of a Gemini call.
pub fn build_gemini_request(req: &ConversationRequest) -> (body: serde_json::Value)
    ensures
        value_view(body) == one_per_key(request_body(*req)),
{
    gemini_body(req).to_value()
}

/// What an optional value is once each object is reduced to one field per key.
pub open spec fn opt_one_per_key(value: Option<JsonView>) -> Option<JsonView> {
    match value {
        Some(v) => Some(one_per_key(v)),
        None => None,
    }
}

proof fn lemma_joined_fields(
    first: Seq<(Seq<char>, JsonView)>,
    second: Seq<(Seq<char>, JsonView)>,
    key: Seq<char>,
)
    ensures
        field_in(first + second, key) == match field_in(second, key) {
            Some(v) => Some(v),
            None => field_in(first, key),
        },
    decreases second.len(),
{
    let whole = first + second;
    if second.len() == 0 {
        assert(whole =~= first);
    } else {
        assert(whole.drop_last() =~= first + second.drop_last());
        lemma_joined_fields(first, second.drop_last(), key);
    }
}

proof fn lemma_field_if(name: Seq<char>, value: Option<JsonView>, key: Seq<char>)
    ensures
        field_in(field_if(name, value), key) == if name == key {
            value
        } else {
            None
        },
{
    reveal_with_fuel(field_in, 2);
}

/// What is read of a body by its keys is what was put together: the conversation, and the system
/// instruction, the sampling parameters and the tools where there are any.
pub proof fn body_reads_back(req: ConversationRequest)
    ensures
        ({
            let body = one_per_key(request_body(req));
            &&& body.field("contents"@) == Some(
                one_per_key(contents_json(merged(turns_of(req.items@)))),
            )
            &&& body.field("systemInstruction"@) == opt_one_per_key(instruction_json(req))
            &&& body.field("generationConfig"@) == opt_one_per_key(generation_json(req))
            &&& body.field("tools"@) == opt_one_per_key(declared_tools(req))
        }),
{
    lemma_body_field(req, "contents"@);
    lemma_body_field(req, "systemInstruction"@);
    lemma_body_field(req, "generationConfig"@);
    lemma_body_field(req, "tools"@);
    reveal_strlit("contents");
    reveal_strlit("systemInstruction");
    reveal_strlit("generationConfig");
    reveal_strlit("tools");
    assert("contents"@.len() == 8);
    assert("systemInstruction"@.len() == 17);
    assert("generationConfig"@.len() == 16);
    assert("tools"@.len() == 5);
}

proof fn lemma_body_field(req: ConversationRequest, key: Seq<char>)
    ensures
        one_per_key(request_body(req)).field(key) == opt_one_per_key(
            if key == "tools"@ && declared_tools(req) is Some {
                declared_tools(req)
            } else if key == "generationConfig"@ && generation_json(req) is Some {
                generation_json(req)
            } else if key == "systemInstruction"@ && instruction_json(req) is Some {
                instruction_json(req)
            } else if key == "contents"@ {
                Some(contents_json(merged(turns_of(req.items@))))
            } else {
                None
            },
        ),
{
    rebuilding_keeps_lookups(request_body(req), key);
    let contents = field_if("contents"@, Some(contents_json(merged(turns_of(req.items@)))));
    let system = field_if("systemInstruction"@, instruction_json(req));
    let generation = field_if("generationConfig"@, generation_json(req));
    let tools = field_if("tools"@, declared_tools(req));
    lemma_joined_fields(contents + system + generation, tools, key);
    lemma_joined_fields(contents + system, generation, key);
    lemma_joined_fields(contents, system, key);
    lemma_field_if("contents"@, Some(contents_json(merged(turns_of(req.items@)))), key);
    lemma_field_if("systemInstruction"@, instruction_json(req), key);
    lemma_field_if("generationConfig"@, generation_json(req), key);
    lemma_field_if("tools"@, declared_tools(req), key);
}

/// All parts of a list of turns, in order.
pub open spec fn all_parts(turns: Seq<TurnView>) -> Seq<JsonView>
    decreases turns.len(),
{
    if turns.len() == 0 {
        Seq::empty()
    } else {
        all_parts(turns.drop_last()) + turns.last().parts
    }
}

/// No two neighbours have the same role.
pub open spec fn alternating(turns: Seq<TurnView>) -> bool {
    forall|i: int, j: int|
        #![trigger turns[i], turns[j]]
        0 <= i && j == i + 1 && j < turns.len() ==> turns[i].role != turns[j].role
}

/// The roles of merged turns alternate, as Gemini requires.
pub proof fn merged_roles_alternate(turns: Seq<TurnView>)
    ensures
        alternating(merged(turns)),
    decreases turns.len(),
{
    if turns.len() > 0 {
        merged_roles_alternate(turns.drop_last());
    }
}

/// Merging loses no part and keeps the order of the parts.
pub proof fn merging_keeps_parts(turns: Seq<TurnView>)
    ensures
        all_parts(merged(turns)) == all_parts(turns),
    decreases turns.len(),
{
    if turns.len() > 0 {
        let front = turns.drop_last();
        let last = turns.last();
        merging_keeps_parts(front);
        let before = merged(front);
        let after = merged(turns);
        if before.len() > 0 && before.last().role == last.role {
            assert(after.drop_last() =~= before.drop_last());
            assert(all_parts(after) =~= all_parts(before) + last.parts);
        } else {
            assert(after.drop_last() =~= before);
        }
    }
}

/// Turns whose roles alternate are left as they are, so merging twice changes nothing more.
pub proof fn merging_keeps_alternating_turns(turns: Seq<TurnView>)
    requires
        alternating(turns),
    ensures
        merged(turns) == turns,
    decreases turns.len(),
{
    if turns.len() > 0 {
        let front = turns.drop_last();
        merging_keeps_alternating_turns(front);
        if front.len() > 0 {
            assert(turns[front.len() - 1].role != turns[front.len() as int].role);
        }
        assert(merged(turns) =~= turns);
    }
}

proof fn lemma_later_calls(names: Map<Seq<char>, Seq<char>>, calls: Seq<ToolCall>, k: int)
    requires
        0 <= k < calls.len(),
        forall|j: int| k < j < calls.len() ==> (#[trigger] calls[j]).id@ != calls[k].id@,
    ensures
        names_with_calls(names, calls).dom().contains(calls[k].id@),
        names_with_calls(names, calls)[calls[k].id@] == calls[k].name@,
    decreases calls.len(),
{
    if k < calls.len() - 1 {
        let front = calls.drop_last();
        assert forall|j: int| k < j < front.len() implies (#[trigger] front[j]).id@
            != front[k].id@ by {
            assert(calls[j].id@ != calls[k].id@);
        }
        lemma_later_calls(names, front, k);
        assert(calls[calls.len() - 1].id@ != calls[k].id@);
    }
}

proof fn lemma_other_calls(names: Map<Seq<char>, Seq<char>>, calls: Seq<ToolCall>, id: Seq<char>)
    requires
        forall|j: int| 0 <= j < calls.len() ==> (#[trigger] calls[j]).id@ != id,
    ensures
        name_for(names_with_calls(names, calls), id) == name_for(names, id),
    decreases calls.len(),
{
    if calls.len() > 0 {
        let front = calls.drop_last();
        assert forall|j: int| 0 <= j < front.len() implies (#[trigger] front[j]).id@ != id by {
            assert(calls[j].id@ != id);
        }
        lemma_other_calls(names, front, id);
        assert(calls[calls.len() - 1].id@ != id);
    }
}

/// A tool result that follows a call answers under that call's name, if no later call has the
/// same id.
pub proof fn result_answers_latest_call(
    items: Seq<ConversationItem>,
    message: AssistantItem,
    k: int,
)
    requires
        0 <= k < message.tool_calls@.len(),
        forall|j: int|
            k < j < message.tool_calls@.len() ==> (#[trigger] message.tool_calls@[j]).id@
                != message.tool_calls@[k].id@,
    ensures
        name_for(
            tool_names(items.push(ConversationItem::Assistant(message))),
            message.tool_calls@[k].id@,
        ) == message.tool_calls@[k].name@,
{
    let longer = items.push(ConversationItem::Assistant(message));
    assert(longer.drop_last() =~= items);
    lemma_later_calls(tool_names(items), message.tool_calls@, k);
}

/// An item that holds no call with a given id leaves the name for that id as it was.
pub proof fn other_items_keep_name(
    items: Seq<ConversationItem>,
    item: ConversationItem,
    id: Seq<char>,
)
    requires
        item matches ConversationItem::Assistant(a) ==> forall|j: int|
            0 <= j < a.tool_calls@.len() ==> (#[trigger] a.tool_calls@[j]).id@ != id,
    ensures
        name_for(tool_names(items.push(item)), id) == name_for(tool_names(items), id),
{
    let longer = items.push(item);
    assert(longer.drop_last() =~= items);
    match item {
        ConversationItem::Assistant(a) => {
            lemma_other_calls(tool_names(items), a.tool_calls@, id);
        },
        _ => {},
    }
}

} // verus!
