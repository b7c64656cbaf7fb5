use agent::image::{encode_image_source, image_data_uri, is_sent_as_is, mime_type_for, ImageFile};
use agent::json::{parse_json, Json};
use agent::message::LanguageModelToolResultContent;
use agent::vision::{
    authorization, begin_run, chat_endpoint, end_run, initial_title, load_image, read_config,
    request_body, request_text, status_error, status_error_from_bytes, ReplyNext, ReplyStep, VisionConfig, VisionEnd,
    VisionEnvironment, VisionReply, VisionRequest, VisionTool, VisionToolInput, VisionToolOutput,
    VisionToolSettings, NOT_CONFIGURED,
};

fn some(value: &str) -> Option<String> {
    Some(value.to_string())
}

fn no_environment() -> VisionEnvironment {
    VisionEnvironment {
        z_ai_api_key: None,
        zhipu_api_key: None,
        zai_api_key: None,
        z_ai_base_url: None,
        z_ai_vision_model: None,
    }
}

fn config(api_key: &str, api_url: &str, model: &str) -> VisionConfig {
    VisionConfig {
        api_key: api_key.to_string(),
        api_url: api_url.to_string(),
        model: model.to_string(),
    }
}

fn error(text: &str) -> VisionToolOutput {
    VisionToolOutput::Error { error: text.to_string() }
}

const URL: &str = "https://api.z.ai/api/coding/paas/v4/";

#[test]
fn settings_with_a_key_come_first() {
    let environment = VisionEnvironment {
        z_ai_api_key: some("env"),
        z_ai_base_url: some("env-url"),
        ..no_environment()
    };
    let settings = VisionToolSettings { api_key: some("key"), api_url: None, model: some("m") };
    assert_eq!(read_config(Some(&settings), &environment), Ok(config("key", URL, "m")));
    let without_key = VisionToolSettings { api_key: None, api_url: some("u"), model: some("m") };
    assert_eq!(
        read_config(Some(&without_key), &environment),
        Ok(config("env", "env-url", "glm-4.6v"))
    );
}

#[test]
fn the_environment_gives_the_first_key() {
    let mut environment = VisionEnvironment {
        z_ai_api_key: some("1"),
        zhipu_api_key: some("2"),
        zai_api_key: some("3"),
        z_ai_base_url: None,
        z_ai_vision_model: some("v"),
    };
    assert_eq!(read_config(None, &environment), Ok(config("1", URL, "v")));
    environment.z_ai_api_key = None;
    assert_eq!(read_config(None, &environment), Ok(config("2", URL, "v")));
    environment.zhipu_api_key = None;
    assert_eq!(read_config(None, &environment), Ok(config("3", URL, "v")));
    environment.zai_api_key = None;
    assert_eq!(read_config(None, &environment), Err(error(NOT_CONFIGURED)));
}

#[test]
fn without_a_key_the_user_is_told() {
    assert_eq!(
        NOT_CONFIGURED,
        "Vision tool not configured. Set `vision_tool.api_key` in settings, \
         or set Z_AI_API_KEY environment variable."
    );
}

#[test]
fn sources_that_are_sent_as_they_are() {
    for source in ["data:image/png;base64,AA", "http://x/y.png", "https://x"] {
        assert!(is_sent_as_is(source));
        assert_eq!(encode_image_source(source, &ImageFile::Missing), Ok(source.to_string()));
    }
    assert!(!is_sent_as_is("/tmp/a.png"));
    assert!(!is_sent_as_is("data:text/plain,x"));
    assert!(!is_sent_as_is("HTTP://x"));
}

#[test]
fn files_become_data_uris() {
    let bytes = |value: &[u8]| ImageFile::Bytes(value.to_vec());
    let cases: [(&str, &[u8], &str); 8] = [
        ("/tmp/a.png", b"", "data:image/png;base64,"),
        ("/tmp/a.JPG", b"f", "data:image/jpeg;base64,Zg=="),
        ("a.jpeg", b"fo", "data:image/jpeg;base64,Zm8="),
        ("/x.y/a.gif", b"foo", "data:image/gif;base64,Zm9v"),
        ("a.b.webp", b"foob", "data:image/webp;base64,Zm9vYg=="),
        ("a.bmp", b"fooba", "data:image/bmp;base64,Zm9vYmE="),
        ("a.tiff", b"foobar", "data:image/png;base64,Zm9vYmFy"),
        ("/x.gif/noextension", &[0xff, 0xfb, 0xf0], "data:image/png;base64,//vw"),
    ];
    for (source, contents, expected) in cases {
        assert_eq!(encode_image_source(source, &bytes(contents)), Ok(expected.to_string()));
    }
    assert_eq!(
        encode_image_source("/tmp/.gif", &bytes(b"f")),
        Ok("data:image/png;base64,Zg==".to_string())
    );
}

#[test]
fn the_media_type_is_the_same_on_every_platform() {
    let file = || ImageFile::Bytes(b"f".to_vec());
    for (source, mime) in [
        ("C:\\Users\\photo.jpg", "image/jpeg"),
        ("C:photo.GIF", "image/gif"),
        ("C:/dir.gif/a.b.webp", "image/webp"),
        ("..\\dir\\...bmp", "image/bmp"),
        ("C:\\dir.gif\\photo", "image/png"),
        ("dir.gif:photo", "image/png"),
    ] {
        assert_eq!(encode_image_source(source, &file()), Ok(format!("data:{mime};base64,Zg==")));
    }
    assert_eq!(
        image_data_uri(Some("gif\\photo"), &vec![102]),
        "data:image/png;base64,Zg=="
    );
}

#[test]
fn an_encoded_file_is_not_encoded_again() {
    let uri = image_data_uri(Some("gif"), &vec![1, 2, 3, 4]);
    assert_eq!(uri, "data:image/gif;base64,AQIDBA==");
    assert_eq!(encode_image_source(&uri, &ImageFile::Unreadable), Ok(uri.clone()));
    assert_eq!(image_data_uri(None, &vec![]), "data:image/png;base64,");
    assert_eq!(mime_type_for("GIF"), "image/png");
}

#[test]
fn files_that_cannot_be_read() {
    assert_eq!(
        encode_image_source("/tmp/a.png", &ImageFile::Missing),
        Err("Image file not found: /tmp/a.png".to_string())
    );
    assert_eq!(
        load_image("/tmp/a.png", &ImageFile::Missing),
        Err(error("Failed to load image: Image file not found: /tmp/a.png"))
    );
    assert_eq!(
        load_image("/tmp/a.png", &ImageFile::Unreadable),
        Err(error("Failed to load image: Failed to read image file"))
    );
    assert_eq!(
        load_image("/tmp/a.png", &ImageFile::Bytes(b"f".to_vec())),
        Ok("data:image/png;base64,Zg==".to_string())
    );
}

#[test]
fn titles() {
    let input = |source: String| VisionToolInput { image_source: source, prompt: String::new() };
    assert_eq!(initial_title(None), "Analyze image");
    assert_eq!(initial_title(Some(&input("/a.png".to_string()))), "Analyze image: /a.png");
    let sixty = "x".repeat(60);
    assert_eq!(initial_title(Some(&input(sixty.clone()))), format!("Analyze image: {sixty}"));
    let longer = "x".repeat(61);
    assert_eq!(
        initial_title(Some(&input(longer))),
        format!("Analyze image: {}...", "x".repeat(57))
    );
    let accents = format!("x{}", "é".repeat(30));
    assert_eq!(
        initial_title(Some(&input(accents))),
        format!("Analyze image: x{}...", "é".repeat(28))
    );
}

#[test]
fn requests() {
    assert_eq!(chat_endpoint("https://x/v4/"), "https://x/v4/chat/completions");
    assert_eq!(authorization(" key\n"), "Bearer key");
    let expected = "{\"model\":\"m\",\"messages\":[{\"role\":\"user\",\"content\":[\
        {\"type\":\"image_url\",\"image_url\":{\"url\":\"data:image/png;base64,AA\"}},\
        {\"type\":\"text\",\"text\":\"what \\\"is\\\" it\"}]}],\
        \"thinking\":{\"type\":\"enabled\"},\"stream\":true,\"max_tokens\":32768}";
    let text = request_text("m", "what \"is\" it", "data:image/png;base64,AA");
    assert_eq!(text, Ok(expected.to_string()));
    let body = request_body("m", "p", "u");
    assert_eq!(body.get("stream"), Some(&Json::Bool(true)));
    assert_eq!(
        status_error("404 Not Found", "nothing"),
        "Vision API error (status 404 Not Found): nothing"
    );
    assert_eq!(
        status_error_from_bytes("500", &"né".as_bytes().to_vec()),
        "Vision API error (status 500): né"
    );
    assert_eq!(
        status_error_from_bytes("500", &vec![0x61, 0xff, 0x62]),
        "Vision API error (status 500): a\u{fffd}b"
    );
}

fn step(preview: Option<&str>, next: ReplyNext) -> ReplyStep {
    ReplyStep { preview: preview.map(|text| text.to_string()), next }
}

#[test]
fn a_reply_is_collected_line_by_line() {
    let mut reply = VisionReply::new();
    assert_eq!(reply.on_line(Some("")), step(None, ReplyNext::Continue));
    assert_eq!(reply.on_line(Some(": comment")), step(None, ReplyNext::Continue));
    assert_eq!(reply.on_line(Some("data: {broken")), step(None, ReplyNext::Continue));
    assert_eq!(reply.on_line(Some("data: {}")), step(None, ReplyNext::Continue));
    assert_eq!(reply.on_line(Some("data: {\"choices\":[]}")), step(None, ReplyNext::Continue));
    assert_eq!(
        reply.on_line(Some("data: {\"choices\":[{\"finish_reason\":\"stop\"}]}")),
        step(None, ReplyNext::Continue)
    );
    assert_eq!(
        reply.on_line(Some("data:{\"choices\":[{\"delta\":{\"reasoning_content\":\"hm\"}}]}")),
        step(None, ReplyNext::Continue)
    );
    assert_eq!(
        reply.on_line(Some("data: {\"choices\":[{\"delta\":{\"content\":\"A \"}}]}")),
        step(Some("A "), ReplyNext::Continue)
    );
    assert_eq!(
        reply.on_line(Some(
            "data:   {\"choices\":[{\"delta\":{\"content\":\"cat\"},\"finish_reason\":\"stop\"}]} "
        )),
        step(Some("A cat"), ReplyNext::Finished)
    );
    assert_eq!(reply.thinking_text, "hm");
    assert_eq!(reply.finish(), Ok("A cat".to_string()));
}

#[test]
fn a_reply_ends_when_it_says_so_or_breaks_off() {
    let mut reply = VisionReply::new();
    assert_eq!(reply.on_line(Some("data: [DONE]")), step(None, ReplyNext::Finished));
    assert_eq!(reply.on_line(None), step(None, ReplyNext::Finished));
    assert_eq!(reply.finish(), Err("Vision model returned no content".to_string()));
}

#[test]
fn a_reply_can_report_an_error() {
    let mut reply = VisionReply::new();
    let event = parse_json("{\"error\":{\"message\":\"too large\"},\"choices\":[]}").unwrap();
    assert_eq!(
        reply.on_event(&event),
        step(None, ReplyNext::Failed("Vision API stream error: too large".to_string()))
    );
    // An error without a message is no error.
    let event = parse_json("{\"error\":{\"code\":1}}").unwrap();
    assert_eq!(reply.on_event(&event), step(None, ReplyNext::Continue));
}

#[test]
fn long_previews_are_cut_at_a_character() {
    let mut reply = VisionReply::new();
    let content = |text: &str| {
        Json::Object(vec![(
            "choices".to_string(),
            Json::Array(vec![Json::Object(vec![(
                "delta".to_string(),
                Json::Object(vec![("content".to_string(), Json::Text(text.to_string()))]),
            )])]),
        )])
    };
    let first = "x".repeat(299);
    assert_eq!(reply.on_event(&content(&first)).preview, Some(first.clone()));
    assert_eq!(reply.on_event(&content("é")).preview, Some(format!("{first}...")));
    assert_eq!(reply.content_text.len(), 301);
}

#[test]
fn runs_begin_with_an_input_and_a_configuration() {
    let input = || VisionToolInput { image_source: "s".to_string(), prompt: "p".to_string() };
    assert_eq!(
        begin_run(Err("closed".to_string()), Err(error("unused"))),
        Err(error("Failed to receive tool input: closed"))
    );
    assert_eq!(begin_run(Ok(input()), Err(error("no key"))), Err(error("no key")));
    assert_eq!(
        begin_run(Ok(input()), Ok(config("k", "u", "m"))),
        Ok(VisionRequest { config: config("k", "u", "m"), input: input() })
    );
}

#[test]
fn runs_end_one_way_or_another() {
    assert_eq!(
        end_run(VisionEnd::Cancelled),
        Err(error("Vision analysis cancelled by user"))
    );
    assert_eq!(
        end_run(VisionEnd::Answered(Err("offline".to_string()))),
        Err(error("Vision analysis failed: offline"))
    );
    let success = VisionToolOutput::Success { description: "a cat".to_string() };
    assert_eq!(end_run(VisionEnd::Answered(Ok("a cat".to_string()))), Ok(success));
}

#[test]
fn outputs_become_tool_results() {
    let success = VisionToolOutput::Success { description: "a cat".to_string() };
    assert_eq!(
        LanguageModelToolResultContent::from(success),
        LanguageModelToolResultContent::Text("a cat".to_string())
    );
    assert_eq!(
        LanguageModelToolResultContent::from(error("bad")),
        LanguageModelToolResultContent::Text("bad".to_string())
    );
}

#[test]
fn a_tool_keeps_its_client() {
    assert_eq!(VisionTool::new("client").http_client, "client");
}
