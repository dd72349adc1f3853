use nelfie::chat::{gemini_fallback_next, read_gemini_reply, GeminiStep};
use nelfie::get_time::time_message;
use nelfie::schema::Json;

fn s(text: &str) -> Json {
    Json::Str(text.to_string())
}

fn obj(members: Vec<(&str, Json)>) -> Json {
    Json::Object(members.into_iter().map(|(k, v)| (k.to_string(), v)).collect())
}

#[test]
fn reply_steps_in_part_order() {
    let reply = obj(vec![(
        "candidates",
        Json::Array(vec![obj(vec![(
            "content",
            obj(vec![(
                "parts",
                Json::Array(vec![
                    obj(vec![("text", s("Hello"))]),
                    obj(vec![("text", s(""))]),
                    obj(vec![(
                        "functionCall",
                        obj(vec![("name", s("get-location-time")), ("args", obj(vec![("country_code", s("JP"))]))]),
                    )]),
                ]),
            )]),
        )])]),
    )]);
    let turn = read_gemini_reply(&reply).expect("turn");
    assert_eq!(turn.steps.len(), 2);
    assert!(matches!(&turn.steps[0], GeminiStep::Text(t) if t == "Hello"));
    match &turn.steps[1] {
        GeminiStep::Call { name, args } => {
            assert_eq!(name, "get-location-time");
            assert_eq!(args, &obj(vec![("country_code", s("JP"))]));
        }
        _ => panic!("call expected"),
    }
    assert!(!turn.is_done());

    let text_only = obj(vec![(
        "candidates",
        Json::Array(vec![obj(vec![("content", obj(vec![("parts", Json::Array(vec![obj(vec![("text", s("ok"))])]))]))])]),
    )]);
    assert!(read_gemini_reply(&text_only).expect("turn").is_done());
}

#[test]
fn reply_errors() {
    let blocked = obj(vec![("promptFeedback", obj(vec![("blockReason", s("SAFETY"))]))]);
    assert_eq!(read_gemini_reply(&blocked).err(), Some("Gemini returned no candidates: SAFETY".to_string()));
    let empty = obj(vec![("candidates", Json::Array(vec![]))]);
    assert_eq!(read_gemini_reply(&empty).err(), Some("Gemini returned no candidates: unknown".to_string()));
    let no_content = obj(vec![("candidates", Json::Array(vec![obj(vec![("finishReason", s("STOP"))])]))]);
    assert_eq!(read_gemini_reply(&no_content).err(), Some("Gemini candidate had no content".to_string()));
}

#[test]
fn failover_tries_models_in_order() {
    let models = vec!["a".to_string(), "b".to_string()];
    assert_eq!(gemini_fallback_next(&models, &vec![]), Ok(0));
    let one = vec![("a".to_string(), "boom".to_string())];
    assert_eq!(gemini_fallback_next(&models, &one), Ok(1));
    let two = vec![("a".to_string(), "boom".to_string()), ("b".to_string(), "bust".to_string())];
    assert_eq!(
        gemini_fallback_next(&models, &two),
        Err("all gemini-auto models failed: a: boom | b: bust".to_string())
    );
}

#[test]
fn time_message_wraps_the_time_text() {
    assert_eq!(
        time_message("JP", "Asia/Tokyo", "2024-01-01 09:00:00 JST"),
        "The current time in JP (Asia/Tokyo) is: 2024-01-01 09:00:00 JST"
    );
}
