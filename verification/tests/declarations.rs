use nelfie::discord_tool::DiscordTool;
use nelfie::get_time::GetTime;
use nelfie::latex::LatexExprRenderTool;
use nelfie::modal_builder::{ModalBuilderTool, ModalToolRequest};
use nelfie::schema::{to_gemini_schema, Json};
use nelfie::tool_schema::{gemini_tools, FunctionDeclaration};
use nelfie::tool_args::{ArgValue, ToolArgs};
use nelfie::voicevox_tool::VoicevoxTool;

fn s(text: &str) -> Json {
    Json::Str(text.to_string())
}

fn member<'a>(value: &'a Json, key: &str) -> Option<&'a Json> {
    match value {
        Json::Object(members) => members.iter().find(|(k, _)| k == key).map(|(_, v)| v),
        _ => None,
    }
}

fn at<'a>(value: &'a Json, path: &[&str]) -> &'a Json {
    let mut cur = value;
    for key in path {
        cur = member(cur, key).expect("member present");
    }
    cur
}

fn names(value: &Json) -> Vec<String> {
    match value {
        Json::Object(members) => members.iter().map(|(k, _)| k.clone()).collect(),
        _ => panic!("not an object"),
    }
}

fn strings(value: &Json) -> Vec<String> {
    match value {
        Json::Array(items) => items
            .iter()
            .map(|i| match i {
                Json::Str(t) => t.clone(),
                _ => panic!("not a string"),
            })
            .collect(),
        _ => panic!("not an array"),
    }
}

fn args(entries: Vec<(&str, ArgValue)>) -> ToolArgs {
    ToolArgs { entries: entries.into_iter().map(|(k, v)| (k.to_string(), v)).collect() }
}

fn text(t: &str) -> ArgValue {
    ArgValue::Text(t.to_string())
}

#[test]
fn tool_names_and_descriptions() {
    assert_eq!(VoicevoxTool::new().name(), "voicevox-tool");
    assert_eq!(DiscordTool::new().name(), "discord-tool");
    assert_eq!(ModalBuilderTool::new().name(), "modal-builder-tool");
    assert_eq!(LatexExprRenderTool::new().name(), "latex_expr_render");
    assert_eq!(GetTime::new().name(), "get-location-time");
    assert_eq!(
        GetTime::new().description(),
        "Get the current time of the location based on the country code"
    );
    assert!(VoicevoxTool::new().description().starts_with("Control standalone VOICEVOX CORE"));
    assert!(DiscordTool::new().description().contains("send_message"));
}

#[test]
fn voicevox_schema_lists_operations_and_arguments() {
    let schema = VoicevoxTool::new().json_schema();
    assert_eq!(at(&schema, &["type"]), &s("object"));
    assert_eq!(strings(at(&schema, &["required"])), vec!["operation"]);
    let props = at(&schema, &["properties"]);
    assert_eq!(names(props).len(), 16);
    assert_eq!(names(props)[0], "operation");
    let ops = strings(at(props, &["operation", "enum"]));
    assert_eq!(ops.len(), 12);
    assert_eq!(ops[0], "join_voice");
    assert_eq!(ops[11], "status");
    assert_eq!(strings(at(props, &["speaker", "type"])), vec!["integer", "string", "null"]);
    assert_eq!(at(props, &["limit", "type"]), &s("integer"));
    assert_eq!(at(props, &["enabled", "type"]), &s("boolean"));
}

#[test]
fn voicevox_schema_for_gemini_has_single_types() {
    let schema = to_gemini_schema(VoicevoxTool::new().json_schema());
    let props = at(&schema, &["properties"]);
    assert_eq!(at(props, &["speaker", "type"]), &s("integer"));
    assert_eq!(at(props, &["parallel_count", "type"]), &s("integer"));
    assert_eq!(at(props, &["voice_pan", "type"]), &s("number"));
    assert_eq!(strings(at(props, &["operation", "enum"])).len(), 12);
}

#[test]
fn discord_schema_enums() {
    let schema = DiscordTool::new().json_schema();
    let props = at(&schema, &["properties"]);
    assert_eq!(names(props).len(), 13);
    assert_eq!(strings(at(props, &["operation", "enum"])).len(), 10);
    assert_eq!(strings(at(props, &["thread_type", "enum"])), vec!["public", "private"]);
    assert_eq!(
        strings(at(props, &["channel_type", "enum"])),
        vec!["all", "text", "voice", "stage", "category"]
    );
    assert!(match at(props, &["reaction", "description"]) {
        Json::Str(t) => t.contains('👍'),
        _ => false,
    });
}

#[test]
fn modal_schema_describes_inputs() {
    let schema = ModalBuilderTool::new().json_schema();
    assert_eq!(strings(at(&schema, &["required"])), vec!["operation", "title", "custom_id", "inputs"]);
    let inputs = at(&schema, &["properties", "inputs"]);
    assert_eq!(at(inputs, &["type"]), &s("array"));
    assert_eq!(strings(at(inputs, &["items", "required"])), vec!["label", "custom_id"]);
    assert_eq!(strings(at(inputs, &["items", "properties", "style", "enum"])), vec!["short", "paragraph"]);
}

#[test]
fn small_tool_schemas() {
    let latex = LatexExprRenderTool::new().json_schema();
    assert_eq!(strings(at(&latex, &["required"])), vec!["expression", "channel_id"]);
    assert_eq!(names(at(&latex, &["properties"])), vec!["channel_id", "reply_to", "expression"]);
    let time = GetTime::new().json_schema();
    assert_eq!(strings(at(&time, &["required"])), vec!["country_code"]);
    assert_eq!(names(at(&time, &["properties"])), vec!["country_code", "$explain"]);
}

fn modal_args(extra: Vec<(&str, ArgValue)>) -> ToolArgs {
    let input = args(vec![("label", text("Name")), ("custom_id", text("name")), ("style", text("paragraph"))]);
    let mut e = vec![
        ("title", text("Form")),
        ("custom_id", text("form")),
        ("inputs", ArgValue::List(vec![input])),
    ];
    e.extend(extra);
    args(e)
}

#[test]
fn modal_operations_are_read() {
    match ModalBuilderTool::plan(&modal_args(vec![("operation", text("build_modal"))])) {
        Ok(ModalToolRequest::BuildModal { modal }) => assert_eq!(modal.title, "Form"),
        _ => panic!("build_modal expected"),
    }
    match ModalBuilderTool::plan(&modal_args(vec![
        ("operation", text("build_and_send_trigger")),
        ("channel_id", text("42")),
    ])) {
        Ok(ModalToolRequest::SendTrigger { channel_id, trigger_label, trigger_message, .. }) => {
            assert_eq!(channel_id, 42);
            assert_eq!(trigger_label, "Open modal");
            assert_eq!(trigger_message, "モーダルを開くには下のボタンを押してね。");
        }
        _ => panic!("send trigger expected"),
    }
    match ModalBuilderTool::plan(&modal_args(vec![("operation", text("build_and_send_trigger"))])) {
        Err(e) => assert_eq!(e, "Missing or invalid 'channel_id' parameter"),
        _ => panic!("channel required"),
    }
    match ModalBuilderTool::plan(&modal_args(vec![
        ("operation", text("build_and_send_trigger")),
        ("channel_id", text("0")),
    ])) {
        Err(e) => assert!(e.starts_with("Invalid 'channel_id': ")),
        _ => panic!("zero refused"),
    }
    match ModalBuilderTool::plan(&modal_args(vec![("operation", text("open"))])) {
        Err(e) => assert_eq!(e, "Unsupported 'operation': open. Use: build_modal or build_and_send_trigger."),
        _ => panic!("unknown operation refused"),
    }
    match ModalBuilderTool::plan(&args(vec![])) {
        Err(e) => assert_eq!(e, "Missing or invalid 'operation' parameter"),
        _ => panic!("operation required"),
    }
}

#[test]
fn modal_payload_and_results() {
    let spec = match ModalBuilderTool::plan(&modal_args(vec![("operation", text("build_modal"))])) {
        Ok(ModalToolRequest::BuildModal { modal }) => modal,
        _ => panic!("build_modal expected"),
    };
    let payload = ModalBuilderTool::build_modal_payload(&spec, "modal_builder:submit:7");
    assert_eq!(at(&payload, &["custom_id"]), &s("modal_builder:submit:7"));
    assert_eq!(at(&payload, &["logical_custom_id"]), &s("form"));
    let row = match at(&payload, &["components"]) {
        Json::Array(rows) => &rows[0],
        _ => panic!("rows"),
    };
    assert_eq!(at(row, &["type"]), &Json::Number("1".to_string()));
    let input = match at(row, &["components"]) {
        Json::Array(items) => &items[0],
        _ => panic!("components"),
    };
    assert_eq!(at(input, &["type"]), &Json::Number("4".to_string()));
    assert_eq!(at(input, &["style"]), &Json::Number("2".to_string()));
    assert_eq!(at(input, &["required"]), &Json::Bool(true));
    assert_eq!(at(input, &["placeholder"]), &Json::Null);
    assert_eq!(at(input, &["max_length"]), &Json::Null);

    let built = ModalBuilderTool::build_modal_result(payload);
    assert_eq!(at(&built, &["status"]), &s("ok"));
    assert_eq!(at(&built, &["operation"]), &s("build_modal"));

    let trigger = ModalBuilderTool::trigger_result(
        42,
        9001,
        "modal_builder:open:7",
        ModalBuilderTool::build_modal_payload(&spec, "modal_builder:submit:7"),
    );
    assert_eq!(at(&trigger, &["channel_id"]), &s("42"));
    assert_eq!(at(&trigger, &["trigger_message_id"]), &s("9001"));
    assert_eq!(at(&trigger, &["trigger_custom_id"]), &s("modal_builder:open:7"));
}

#[test]
fn gemini_tools_declare_functions_and_search() {
    let tool = VoicevoxTool::new();
    let decls = vec![FunctionDeclaration {
        name: tool.name(),
        description: tool.description(),
        parameters: tool.json_schema(),
    }];
    let tools = gemini_tools(decls, true).expect("tools present");
    let list = match &tools {
        Json::Array(items) => items,
        _ => panic!("array expected"),
    };
    assert_eq!(list.len(), 2);
    let decl = match at(&list[0], &["functionDeclarations"]) {
        Json::Array(d) => &d[0],
        _ => panic!("declarations expected"),
    };
    assert_eq!(at(decl, &["name"]), &s("voicevox-tool"));
    assert_eq!(at(decl, &["parameters", "properties", "speaker", "type"]), &s("integer"));
    assert_eq!(names(at(&list[1], &["googleSearch"])).len(), 0);

    assert!(gemini_tools(Vec::new(), false).is_none());
    match gemini_tools(Vec::new(), true) {
        Some(Json::Array(items)) => assert_eq!(items.len(), 1),
        _ => panic!("search only"),
    }
}

#[test]
fn modal_submission_becomes_a_user_message() {
    let fields = vec![
        ("name".to_string(), "Alice".to_string()),
        ("age".to_string(), "30".to_string()),
        ("name".to_string(), "Bob".to_string()),
    ];
    let msg = nelfie::modal_builder::modal_submission_message("alice", "Alice", "modal_builder:submit:3", 42, &fields);
    assert_eq!(at(&msg, &["type"]), &s("modal_submit"));
    assert_eq!(at(&msg, &["channel_id"]), &s("42"));
    assert_eq!(names(at(&msg, &["fields"])), vec!["name", "age"]);
    assert_eq!(at(&msg, &["fields", "name"]), &s("Bob"));
}
