//! What a Gemini request body says, field by field.
use crate::conversation::{
    AssistantItem, ContentPart, ConversationItem, ConversationRequest, ToolSpec,
};
use crate::gemini_build::{
    alternating, args_or_none, assistant_parts, body_reads_back, contents_json, declaration,
    field_if, function_call, generation_fields, merged, merged_roles_alternate, name_for, opt_json,
    request_body, response_part, role_name, system_parts, tool_names, tools_json, turn_json,
    turn_views, turns_of, user_parts, Role, Turn, TurnView,
};
use crate::json::{
    field_in, json_parsed, one_per_key, rebuilding_keeps_lookups, JsonNumber, JsonView,
};
use crate::json_laws::rebuilding_changes_only_doubled_keys;
use vstd::prelude::*;

verus! {

proof fn lemma_one_field(key: Seq<char>, value: JsonView)
    ensures
        JsonView::Object(seq![(key, value)]).field(key) == Some(value),
{
    reveal_with_fuel(field_in, 2);
}

proof fn lemma_two_fields(a: Seq<char>, v: JsonView, b: Seq<char>, w: JsonView)
    requires
        a != b,
    ensures
        JsonView::Object(seq![(a, v), (b, w)]).field(a) == Some(v),
        JsonView::Object(seq![(a, v), (b, w)]).field(b) == Some(w),
{
    reveal_with_fuel(field_in, 3);
    let both = seq![(a, v), (b, w)];
    assert(both.drop_last() =~= seq![(a, v)]);
}

proof fn lemma_declaration(tool: ToolSpec)
    ensures
        ({
            let d = one_per_key(declaration(tool));
            &&& d.field("name"@) == Some(JsonView::Text(tool.name@))
            &&& tool.description is Some ==> d.field("description"@) == Some(
                JsonView::Text(tool.description->0@),
            )
            &&& tool.description is None ==> d.field("description"@) == Some(
                JsonView::Text(Seq::empty()),
            )
            &&& d.field("parameters"@) == Some(one_per_key(tool.parameters@))
        }),
{
    let d = declaration(tool);
    reveal_strlit("name");
    reveal_strlit("description");
    reveal_strlit("parameters");
    assert("name"@.len() == 4);
    assert("description"@.len() == 11);
    assert("parameters"@.len() == 10);
    reveal_with_fuel(field_in, 4);
    let fields = d->Object_0;
    assert(fields.drop_last().drop_last() =~= seq![fields[0]]);
    assert(fields.drop_last().last() == fields[1]);
    rebuilding_keeps_lookups(d, "name"@);
    rebuilding_keeps_lookups(d, "description"@);
    rebuilding_keeps_lookups(d, "parameters"@);
}

/// Every tool of a request is declared, in order, with its name, its description, empty if it has
/// none, and its parameters; a request without tools declares none.
pub proof fn every_tool_is_declared(req: ConversationRequest, i: int)
    ensures
        ({
            let tools = one_per_key(request_body(req)).field("tools"@);
            &&& req.tools@.len() == 0 ==> tools is None
            &&& req.tools@.len() > 0 ==> {
                &&& tools is Some
                &&& tools->0 is Array
                &&& tools->0->Array_0.len() == 1
                &&& tools->0->Array_0[0].field("function_declarations"@) is Some
                &&& tools->0->Array_0[0].field("function_declarations"@)->0 is Array
                &&& tools->0->Array_0[0].field("function_declarations"@)->0->Array_0.len()
                    == req.tools@.len()
            }
            &&& 0 <= i < req.tools@.len() ==> {
                let d = tools->0->Array_0[0].field("function_declarations"@)->0->Array_0[i];
                &&& d.field("name"@) == Some(JsonView::Text(req.tools@[i].name@))
                &&& req.tools@[i].description is Some ==> d.field("description"@) == Some(
                    JsonView::Text(req.tools@[i].description->0@),
                )
                &&& req.tools@[i].description is None ==> d.field("description"@) == Some(
                    JsonView::Text(Seq::empty()),
                )
                &&& d.field("parameters"@) == Some(one_per_key(req.tools@[i].parameters@))
            }
        }),
{
    body_reads_back(req);
    if req.tools@.len() > 0 {
        let plain = tools_json(req.tools@);
        rebuilding_changes_only_doubled_keys(plain);
        let only = plain->Array_0[0];
        let list = JsonView::Array(
            Seq::new(req.tools@.len(), |k: int| declaration(req.tools@[k])),
        );
        lemma_one_field("function_declarations"@, list);
        rebuilding_keeps_lookups(only, "function_declarations"@);
        rebuilding_changes_only_doubled_keys(list);
        if 0 <= i < req.tools@.len() {
            lemma_declaration(req.tools@[i]);
            assert(one_per_key(list)->Array_0[i] == one_per_key(declaration(req.tools@[i])));
        }
    }
}

/// The sampling parameters that a request sets are in its configuration, each as it was given, and
/// those that it does not set are not; a request that sets none has no configuration.
pub proof fn sampling_parameters_are_passed_on(req: ConversationRequest)
    ensures
        ({
            let config = one_per_key(request_body(req)).field("generationConfig"@);
            let any = req.temperature is Some || req.top_p is Some
                || req.max_output_tokens is Some;
            &&& config is Some == any
            &&& any ==> {
                &&& req.temperature is Some ==> config->0.field("temperature"@) == Some(
                    one_per_key(req.temperature->0@),
                )
                &&& req.temperature is None ==> config->0.field("temperature"@) is None
                &&& req.top_p is Some ==> config->0.field("topP"@) == Some(
                    one_per_key(req.top_p->0@),
                )
                &&& req.top_p is None ==> config->0.field("topP"@) is None
                &&& req.max_output_tokens is Some ==> config->0.field("maxOutputTokens"@) == Some(
                    JsonView::Number(JsonNumber::PosInt(req.max_output_tokens->0 as u64)),
                )
                &&& req.max_output_tokens is None ==> config->0.field("maxOutputTokens"@) is None
            }
        }),
{
    body_reads_back(req);
    let fields = generation_fields(req);
    let config = JsonView::Object(fields);
    reveal_strlit("temperature");
    reveal_strlit("topP");
    reveal_strlit("maxOutputTokens");
    assert("temperature"@.len() == 11);
    assert("topP"@.len() == 4);
    assert("maxOutputTokens"@.len() == 15);
    rebuilding_keeps_lookups(config, "temperature"@);
    rebuilding_keeps_lookups(config, "topP"@);
    rebuilding_keeps_lookups(config, "maxOutputTokens"@);
    reveal_with_fuel(field_in, 4);
    let t = field_if("temperature"@, opt_json(
        req.temperature,
    ));
    let p = field_if("topP"@, opt_json(req.top_p));
    if fields.len() == 3 {
        assert(fields.drop_last() =~= t + p);
        assert((t + p).drop_last() =~= t);
    } else if fields.len() == 2 {
        assert(fields.drop_last() =~= seq![fields[0]]);
    }
}

/// A system instruction is there just where the conversation has system texts, and its parts are
/// those texts in order.
pub proof fn system_texts_are_the_instruction(req: ConversationRequest, i: int)
    ensures
        ({
            let instruction = one_per_key(request_body(req)).field("systemInstruction"@);
            let texts = system_parts(req.items@);
            &&& instruction is Some == (texts.len() > 0)
            &&& texts.len() > 0 ==> {
                &&& instruction->0.field("parts"@) is Some
                &&& instruction->0.field("parts"@)->0 is Array
                &&& instruction->0.field("parts"@)->0->Array_0.len() == texts.len()
            }
            &&& 0 <= i < texts.len() ==> instruction->0.field("parts"@)->0->Array_0[i]
                == one_per_key(texts[i])
        }),
{
    body_reads_back(req);
    let parts = JsonView::Array(system_parts(req.items@));
    let object = JsonView::Object(seq![("parts"@, parts)]);
    lemma_one_field("parts"@, parts);
    rebuilding_keeps_lookups(object, "parts"@);
    rebuilding_changes_only_doubled_keys(parts);
}

/// A system text gives one more part with that text; no other item gives any.
pub proof fn system_texts_are_taken_in_order(items: Seq<ConversationItem>, item: ConversationItem)
    ensures
        system_parts(Seq::empty()).len() == 0,
        match item {
            ConversationItem::System(s) => system_parts(items.push(item)) == system_parts(
                items,
            ).push(JsonView::Object(seq![("text"@, JsonView::Text(s.content@))])),
            _ => system_parts(items.push(item)) == system_parts(items),
        },
{
    assert(items.push(item).drop_last() =~= items);
}

/// The contents of a body are the turns of the conversation with neighbours of one role joined,
/// each with its role by Gemini's name and its parts in order.
pub proof fn contents_are_the_joined_turns(req: ConversationRequest, i: int, j: int)
    ensures
        ({
            let contents = one_per_key(request_body(req)).field("contents"@);
            let turns = merged(turns_of(req.items@));
            &&& contents is Some
            &&& contents->0 is Array
            &&& contents->0->Array_0.len() == turns.len()
            &&& 0 <= i < turns.len() ==> {
                let entry = contents->0->Array_0[i];
                &&& turns[i].role == Role::User ==> entry.field("role"@) == Some(
                    JsonView::Text("user"@),
                )
                &&& turns[i].role == Role::Model ==> entry.field("role"@) == Some(
                    JsonView::Text("model"@),
                )
                &&& entry.field("parts"@) is Some
                &&& entry.field("parts"@)->0 is Array
                &&& entry.field("parts"@)->0->Array_0.len() == turns[i].parts.len()
                &&& 0 <= j < turns[i].parts.len() ==> entry.field("parts"@)->0->Array_0[j]
                    == one_per_key(turns[i].parts[j])
            }
        }),
{
    body_reads_back(req);
    let turns = merged(turns_of(req.items@));
    let plain = contents_json(turns);
    rebuilding_changes_only_doubled_keys(plain);
    if 0 <= i < turns.len() {
        let turn = turn_json(turns[i]);
        assert(plain->Array_0[i] == turn);
        assert(one_per_key(plain)->Array_0[i] == one_per_key(turn));
        reveal_strlit("role");
        reveal_strlit("parts");
        assert("role"@.len() == 4);
        assert("parts"@.len() == 5);
        lemma_two_fields(
            "role"@,
            JsonView::Text(role_name(turns[i].role)),
            "parts"@,
            JsonView::Array(turns[i].parts),
        );
        rebuilding_keeps_lookups(turn, "role"@);
        rebuilding_keeps_lookups(turn, "parts"@);
        rebuilding_changes_only_doubled_keys(JsonView::Array(turns[i].parts));
    }
}

/// Turns are joined one by one: a turn joins the one before it if they have one role, its parts
/// coming behind, and else stands by itself.
pub proof fn a_turn_joins_the_one_before_it(turns: Seq<TurnView>, turn: TurnView)
    ensures
        merged(Seq::empty()).len() == 0,
        ({
            let before = merged(turns);
            let after = merged(turns.push(turn));
            if before.len() > 0 && before.last().role == turn.role {
                &&& after.len() == before.len()
                &&& after.drop_last() =~= before.drop_last()
                &&& after.last().role == turn.role
                &&& after.last().parts == before.last().parts + turn.parts
            } else {
                after == before.push(turn)
            }
        }),
{
    assert(turns.push(turn).drop_last() =~= turns);
}

/// An item of the conversation gives at most one turn, after those before it: a message of the user
/// and a tool result a turn of the user, a message of the assistant a turn of the model, if they
/// have any part; no other item gives one.
pub proof fn items_give_their_turns_in_order(items: Seq<ConversationItem>, item: ConversationItem)
    ensures
        turns_of(Seq::empty()).len() == 0,
        ({
            let before = turns_of(items);
            let after = turns_of(items.push(item));
            match item {
                ConversationItem::User(u) => if user_parts(u.content@).len() == 0 {
                    after == before
                } else {
                    after == before.push(
                        TurnView { role: Role::User, parts: user_parts(u.content@) },
                    )
                },
                ConversationItem::Assistant(a) => if a.content@.len() == 0 && a.tool_calls@.len()
                    == 0 {
                    after == before
                } else {
                    after == before.push(
                        TurnView { role: Role::Model, parts: assistant_parts(a) },
                    )
                },
                ConversationItem::ToolResult(r) => {
                    &&& after.len() == before.len() + 1
                    &&& after.drop_last() =~= before
                    &&& after.last().role == Role::User
                    &&& after.last().parts.len() == 1
                    &&& after.last().parts[0] == response_part(
                        name_for(tool_names(items), r.tool_call_id@),
                        r.content@,
                    )
                },
                _ => after == before,
            }
        }),
{
    assert(items.push(item).drop_last() =~= items);
}

/// The parts of a user's message are its texts in order; an image gives none.
pub proof fn user_texts_are_taken_in_order(content: Seq<ContentPart>, part: ContentPart)
    ensures
        user_parts(Seq::empty()).len() == 0,
        match part {
            ContentPart::Text { text } => user_parts(content.push(part)) == user_parts(
                content,
            ).push(JsonView::Object(seq![("text"@, JsonView::Text(text@))])),
            ContentPart::Image { .. } => user_parts(content.push(part)) == user_parts(content),
        },
{
    assert(content.push(part).drop_last() =~= content);
}

/// The parts of an assistant's message are its text, if it is not empty, and then its calls in
/// order: each with its name and with its arguments as the value that their text is, or an empty
/// object if the text is no JSON.
pub proof fn an_assistant_says_its_text_and_then_its_calls(a: AssistantItem, i: int)
    ensures
        ({
            let parts = assistant_parts(a);
            let shift: int = if a.content@.len() == 0 {
                0
            } else {
                1
            };
            &&& parts.len() == a.tool_calls@.len() + shift
            &&& a.content@.len() > 0 ==> parts[0].field("text"@) == Some(
                JsonView::Text(a.content@),
            )
            &&& 0 <= i < a.tool_calls@.len() ==> {
                let call = parts[i + shift].field("functionCall"@);
                &&& call is Some
                &&& call->0.field("name"@) == Some(JsonView::Text(a.tool_calls@[i].name@))
                &&& json_parsed(a.tool_calls@[i].arguments@) is Some ==> call->0.field("args"@)
                    == json_parsed(a.tool_calls@[i].arguments@)
                &&& json_parsed(a.tool_calls@[i].arguments@) is None ==> call->0.field("args"@)
                    == Some(JsonView::Object(Seq::empty()))
            }
        }),
{
    lemma_one_field("text"@, JsonView::Text(a.content@));
    if 0 <= i < a.tool_calls@.len() {
        let call = a.tool_calls@[i];
        let args = args_or_none(json_parsed(call.arguments@));
        reveal_strlit("name");
        reveal_strlit("args");
        assert("name"@[0] == 'n');
        assert("args"@[0] == 'a');
        lemma_two_fields("name"@, JsonView::Text(call.name@), "args"@, args);
        lemma_one_field(
            "functionCall"@,
            JsonView::Object(seq![("name"@, JsonView::Text(call.name@)), ("args"@, args)]),
        );
    }
}

/// A tool result is answered under the name of its tool, with its text as the result.
pub proof fn a_tool_result_answers_under_its_name(name: Seq<char>, result: Seq<char>)
    ensures
        ({
            let answer = response_part(name, result).field("functionResponse"@);
            &&& answer is Some
            &&& answer->0.field("name"@) == Some(JsonView::Text(name))
            &&& answer->0.field("response"@) is Some
            &&& answer->0.field("response"@)->0.field("result"@) == Some(JsonView::Text(result))
        }),
{
    reveal_strlit("name");
    reveal_strlit("response");
    assert("name"@.len() == 4);
    assert("response"@.len() == 8);
    let inner = JsonView::Object(seq![("result"@, JsonView::Text(result))]);
    lemma_one_field("result"@, JsonView::Text(result));
    lemma_two_fields("name"@, JsonView::Text(name), "response"@, inner);
    lemma_one_field(
        "functionResponse"@,
        JsonView::Object(seq![("name"@, JsonView::Text(name)), ("response"@, inner)]),
    );
}

/// A call part names its function and holds the arguments given, or an empty object.
pub proof fn a_call_part_holds_its_arguments(name: Seq<char>, args: Option<JsonView>)
    ensures
        ({
            let call = function_call(name, args).field("functionCall"@);
            &&& call is Some
            &&& call->0.field("name"@) == Some(JsonView::Text(name))
            &&& args is Some ==> call->0.field("args"@) == args
            &&& args is None ==> call->0.field("args"@) == Some(JsonView::Object(Seq::empty()))
        }),
{
    let value = args_or_none(args);
    reveal_strlit("name");
    reveal_strlit("args");
    assert("name"@[0] == 'n');
    assert("args"@[0] == 'a');
    lemma_two_fields("name"@, JsonView::Text(name), "args"@, value);
    lemma_one_field(
        "functionCall"@,
        JsonView::Object(seq![("name"@, JsonView::Text(name)), ("args"@, value)]),
    );
}

/// A result whose id no earlier call has answers under no name, and an empty conversation knows
/// none.
pub proof fn unknown_calls_have_no_name(names: Map<Seq<char>, Seq<char>>, id: Seq<char>)
    ensures
        !names.dom().contains(id) ==> name_for(names, id).len() == 0,
        names.dom().contains(id) ==> name_for(names, id) == names[id],
        tool_names(Seq::empty()) =~= Map::empty(),
{
}

/// The contents of a body alternate between the user and the model.
pub proof fn contents_alternate(req: ConversationRequest, i: int)
    requires
        0 <= i,
        i + 1 < one_per_key(request_body(req)).field("contents"@)->0->Array_0.len(),
    ensures
        ({
            let contents = one_per_key(request_body(req)).field("contents"@)->0->Array_0;
            contents[i].field("role"@) != contents[i + 1].field("role"@)
        }),
{
    let turns = merged(turns_of(req.items@));
    merged_roles_alternate(turns_of(req.items@));
    contents_are_the_joined_turns(req, i, 0);
    contents_are_the_joined_turns(req, i + 1, 0);
    assert(alternating(turns));
    assert(turns[i].role != turns[i + 1].role);
    reveal_strlit("user");
    reveal_strlit("model");
    assert("user"@.len() != "model"@.len());
}

/// A list of turns says what it holds, turn by turn.
pub proof fn turns_say_what_they_hold(turns: Seq<Turn>, i: int, j: int)
    ensures
        turn_views(turns).len() == turns.len(),
        0 <= i < turns.len() ==> {
            &&& turn_views(turns)[i].role == turns[i].role
            &&& turn_views(turns)[i].parts.len() == turns[i].parts@.len()
            &&& 0 <= j < turns[i].parts@.len() ==> turn_views(turns)[i].parts[j]
                == turns[i].parts@[j]@
        },
{
}

} // verus!
