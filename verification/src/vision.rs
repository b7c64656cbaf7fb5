//! The vision tool: it sends an image with a prompt to a model that can see, and hands back what
//! the model says of it.

use crate::image;
use crate::image::ImageFile;
use crate::json;
use crate::json::{Json, JsonView};
use crate::message::LanguageModelToolResultContent;
use crate::text;
use vstd::prelude::*;
use vstd::string::*;
use vstd::utf8::*;

verus! {

/// The name under which the tool is called.
pub const NAME: &'static str = "vision";

/// Where requests go if nothing else is configured.
pub const DEFAULT_API_URL: &'static str = "https://api.z.ai/api/coding/paas/v4/";

/// The model that is asked if no other is configured.
pub const DEFAULT_MODEL: &'static str = "glm-4.6v";

/// What is said where no key is configured.
pub const NOT_CONFIGURED: &'static str =
    "Vision tool not configured. Set `vision_tool.api_key` in settings, or set Z_AI_API_KEY environment variable.";

/// The title of the tool call while the answer arrives.
pub const ANALYZING_TITLE: &'static str = "Analyzing image...";

/// The title of the tool call once the answer is there.
pub const ANALYZED_TITLE: &'static str = "Image analyzed";

/// The most tokens that the model may answer with.
pub const MAX_ANSWER_TOKENS: u64 = 32768;

/// The longest preview of an answer, in bytes.
pub const PREVIEW_LIMIT: usize = 300;

/// The longest image source that a title shows whole, in bytes.
pub const TITLE_SOURCE_LIMIT: usize = 60;

/// The bytes that a title shows of a longer image source.
pub const TITLE_SOURCE_PREFIX: usize = 57;

/// What the tool is asked to do.
#[derive(Debug, PartialEq)]
pub struct VisionToolInput {
    /// Absolute path to the image file to analyze (e.g. "/tmp/image.png" or
    /// "C:\\Users\\photo.jpg"), or a data URI in the format
    /// `data:image/png;base64,<base64_data>`.
    pub image_source: String,
    /// What to analyze, extract, or understand from the image.
    pub prompt: String,
}

/// What comes of it.
#[derive(Debug, PartialEq)]
pub enum VisionToolOutput {
    Success { description: String },
    Error { error: String },
}

/// What a [`VisionToolOutput`] stands for.
pub enum OutputView {
    Success(Seq<char>),
    Error(Seq<char>),
}

impl View for VisionToolOutput {
    type V = OutputView;

    open spec fn view(&self) -> OutputView {
        match self {
            VisionToolOutput::Success { description } => OutputView::Success(description@),
            VisionToolOutput::Error { error } => OutputView::Error(error@),
        }
    }
}

impl vstd::std_specs::convert::FromSpecImpl<VisionToolOutput> for LanguageModelToolResultContent {
    open spec fn obeys_from_spec() -> bool {
        true
    }

    open spec fn from_spec(value: VisionToolOutput) -> Self {
        match value {
            VisionToolOutput::Success { description } => LanguageModelToolResultContent::Text(
                description,
            ),
            VisionToolOutput::Error { error } => LanguageModelToolResultContent::Text(error),
        }
    }
}

impl From<VisionToolOutput> for LanguageModelToolResultContent {
    fn from(value: VisionToolOutput) -> (content: Self) {
        match value {
            VisionToolOutput::Success { description } => LanguageModelToolResultContent::Text(
                description,
            ),
            VisionToolOutput::Error { error } => LanguageModelToolResultContent::Text(error),
        }
    }
}

/// The tool, with the client through which it sends its requests.
#[derive(Debug)]
pub struct VisionTool<Client> {
    pub http_client: Client,
}

impl<Client> VisionTool<Client> {
    /// A tool that sends its requests through the given client.
    pub fn new(http_client: Client) -> (tool: Self)
        ensures
            tool.http_client == http_client,
    {
        VisionTool { http_client }
    }
}

/// The section of the settings for the tool.
#[derive(Debug, PartialEq)]
pub struct VisionToolSettings {
    pub api_key: Option<String>,
    pub api_url: Option<String>,
    pub model: Option<String>,
}

/// The environment variables that the tool looks at, each by its name, where it is set.
#[derive(Debug, PartialEq)]
pub struct VisionEnvironment {
    pub z_ai_api_key: Option<String>,
    pub zhipu_api_key: Option<String>,
    pub zai_api_key: Option<String>,
    pub z_ai_base_url: Option<String>,
    pub z_ai_vision_model: Option<String>,
}

/// Where and as whom the tool asks which model.
#[derive(Debug, PartialEq)]
pub struct VisionConfig {
    pub api_key: String,
    pub api_url: String,
    pub model: String,
}

/// What a [`VisionConfig`] stands for.
pub struct ConfigView {
    pub api_key: Seq<char>,
    pub api_url: Seq<char>,
    pub model: Seq<char>,
}

impl View for VisionConfig {
    type V = ConfigView;

    open spec fn view(&self) -> ConfigView {
        ConfigView { api_key: self.api_key@, api_url: self.api_url@, model: self.model@ }
    }
}

/// The text, or another where there is none.
pub open spec fn text_or(text: Option<String>, fallback: Seq<char>) -> Seq<char> {
    match text {
        Some(text) => text@,
        None => fallback,
    }
}

/// The key that the environment gives: of three variables the first that is set.
pub open spec fn environment_key(environment: VisionEnvironment) -> Option<Seq<char>> {
    match (environment.z_ai_api_key, environment.zhipu_api_key, environment.zai_api_key) {
        (Some(key), _, _) => Some(key@),
        (None, Some(key), _) => Some(key@),
        (None, None, Some(key)) => Some(key@),
        (None, None, None) => None,
    }
}

/// The configuration of the tool. Settings with a key count for everything; without one, the
/// environment does.
pub open spec fn vision_config(
    settings: Option<VisionToolSettings>,
    environment: VisionEnvironment,
) -> Option<ConfigView> {
    match settings {
        Some(VisionToolSettings { api_key: Some(api_key), api_url, model }) => Some(
            ConfigView {
                api_key: api_key@,
                api_url: text_or(api_url, DEFAULT_API_URL@),
                model: text_or(model, DEFAULT_MODEL@),
            },
        ),
        _ => match environment_key(environment) {
            Some(api_key) => Some(
                ConfigView {
                    api_key,
                    api_url: text_or(environment.z_ai_base_url, DEFAULT_API_URL@),
                    model: text_or(environment.z_ai_vision_model, DEFAULT_MODEL@),
                },
            ),
            None => None,
        },
    }
}

fn copy_or(text: &Option<String>, fallback: &str) -> (copy: String)
    ensures
        copy@ == text_or(*text, fallback@),
{
    match text {
        Some(text) => text.clone(),
        None => fallback.to_owned(),
    }
}

/// Finds the configuration of the tool in the settings or, failing that, in the environment.
pub fn read_config(
    settings: Option<&VisionToolSettings>,
    environment: &VisionEnvironment,
) -> (config: Result<VisionConfig, VisionToolOutput>)
    ensures
        ({
            let expected = vision_config(
                match settings {
                    Some(settings) => Some(*settings),
                    None => None,
                },
                *environment,
            );
            match config {
                Ok(config) => expected == Some(config@),
                Err(output) => expected is None && output@ == OutputView::Error(NOT_CONFIGURED@),
            }
        }),
{
    if let Some(settings) = settings {
        if let Some(api_key) = &settings.api_key {
            return Ok(
                VisionConfig {
                    api_key: api_key.clone(),
                    api_url: copy_or(&settings.api_url, DEFAULT_API_URL),
                    model: copy_or(&settings.model, DEFAULT_MODEL),
                },
            );
        }
    }
    let api_key = if let Some(api_key) = &environment.z_ai_api_key {
        api_key.clone()
    } else if let Some(api_key) = &environment.zhipu_api_key {
        api_key.clone()
    } else if let Some(api_key) = &environment.zai_api_key {
        api_key.clone()
    } else {
        return Err(VisionToolOutput::Error { error: NOT_CONFIGURED.to_owned() });
    };
    Ok(
        VisionConfig {
            api_key,
            api_url: copy_or(&environment.z_ai_base_url, DEFAULT_API_URL),
            model: copy_or(&environment.z_ai_vision_model, DEFAULT_MODEL),
        },
    )
}

/// Two texts one after the other.
fn joined(left: &str, right: &str) -> (both: String)
    ensures
        both@ == left@ + right@,
{
    let mut both = left.to_owned();
    both.append(right);
    both
}

/// The title of a tool call before it has run, where `input` is what is known of its input.
pub open spec fn title_of(input: Option<VisionToolInput>) -> Seq<char> {
    match input {
        Some(input) => "Analyze image: "@ + if text::utf8_len(input.image_source@)
            > TITLE_SOURCE_LIMIT {
            text::prefix_within(input.image_source@, TITLE_SOURCE_PREFIX as nat) + "..."@
        } else {
            input.image_source@
        },
        None => "Analyze image"@,
    }
}

/// The title of a tool call before it has run. A long source is cut behind its first bytes, which
/// have to end at a character boundary.
pub fn initial_title(input: Option<&VisionToolInput>) -> (title: String)
    requires
        input matches Some(input) ==> (text::utf8_len(input.image_source@) > TITLE_SOURCE_LIMIT
            ==> is_char_boundary(
            encode_utf8(input.image_source@),
            TITLE_SOURCE_PREFIX as int,
        )),
    ensures
        title@ == title_of(
            match input {
                Some(input) => Some(*input),
                None => None,
            },
        ),
{
    match input {
        Some(input) => {
            let source = input.image_source.as_str();
            let mut title = "Analyze image: ".to_owned();
            if text::byte_len(source) > TITLE_SOURCE_LIMIT {
                let mut short = text::floor_prefix(source, TITLE_SOURCE_PREFIX).to_owned();
                short.append("...");
                title.append(short.as_str());
            } else {
                title.append(source);
            }
            title
        },
        None => "Analyze image".to_owned(),
    }
}

/// The address that requests are sent to.
pub fn chat_endpoint(api_url: &str) -> (endpoint: String)
    ensures
        endpoint@ == api_url@ + "chat/completions"@,
{
    joined(api_url, "chat/completions")
}

/// What the `Authorization` header of a request says.
pub fn authorization(api_key: &str) -> (header: String)
    ensures
        header@ == "Bearer "@ + text::trimmed(api_key@),
{
    joined("Bearer ", api_key.trim())
}

/// The body of a request.
pub open spec fn body_view(
    model: Seq<char>,
    prompt: Seq<char>,
    image_data_url: Seq<char>,
) -> JsonView {
    let image = JsonView::Object(
        seq![
            ("type"@, JsonView::Text("image_url"@)),
            ("image_url"@, JsonView::Object(seq![("url"@, JsonView::Text(image_data_url))])),
        ],
    );
    let question = JsonView::Object(
        seq![("type"@, JsonView::Text("text"@)), ("text"@, JsonView::Text(prompt))],
    );
    let message = JsonView::Object(
        seq![
            ("role"@, JsonView::Text("user"@)),
            ("content"@, JsonView::Array(seq![image, question])),
        ],
    );
    JsonView::Object(
        seq![
            ("model"@, JsonView::Text(model)),
            ("messages"@, JsonView::Array(seq![message])),
            ("thinking"@, JsonView::Object(seq![("type"@, JsonView::Text("enabled"@))])),
            ("stream"@, JsonView::Bool(true)),
            ("max_tokens"@, JsonView::Number(json::json_number(MAX_ANSWER_TOKENS))),
        ],
    )
}

fn text_member(key: &str, value: &str) -> (member: (String, Json))
    ensures
        member.0@ == key@,
        member.1@ == JsonView::Text(value@),
{
    (key.to_owned(), Json::Text(value.to_owned()))
}

/// The body of a request to describe an image.
pub fn request_body(model: &str, prompt: &str, image_data_url: &str) -> (body: Json)
    ensures
        body@ == body_view(model@, prompt@, image_data_url@),
        json::well_formed(body@),
{
    let url: Vec<(String, Json)> = vec![text_member("url", image_data_url)];
    let url = Json::Object(url);
    let image: Vec<(String, Json)> = vec![
        text_member("type", "image_url"),
        ("image_url".to_owned(), url),
    ];
    let image = Json::Object(image);
    let question: Vec<(String, Json)> = vec![
        text_member("type", "text"),
        text_member("text", prompt),
    ];
    let question = Json::Object(question);
    let content: Vec<Json> = vec![image, question];
    let content = Json::Array(content);
    let message: Vec<(String, Json)> = vec![
        text_member("role", "user"),
        ("content".to_owned(), content),
    ];
    let message = Json::Object(message);
    let messages: Vec<Json> = vec![message];
    let messages = Json::Array(messages);
    let thinking: Vec<(String, Json)> = vec![text_member("type", "enabled")];
    let thinking = Json::Object(thinking);
    let members: Vec<(String, Json)> = vec![
        text_member("model", model),
        ("messages".to_owned(), messages),
        ("thinking".to_owned(), thinking),
        ("stream".to_owned(), Json::Bool(true)),
        ("max_tokens".to_owned(), Json::Number(json::number_from(MAX_ANSWER_TOKENS))),
    ];
    let body = Json::Object(members);
    proof {
        let view = body_view(model@, prompt@, image_data_url@);
        let message_view = view->Object_0[1].1->Array_0[0];
        let image_view = message_view->Object_0[1].1->Array_0[0];
        let question_view = message_view->Object_0[1].1->Array_0[1];
        assert(url@->Object_0 =~= image_view->Object_0[1].1->Object_0);
        assert(image@->Object_0 =~= image_view->Object_0);
        assert(question@->Object_0 =~= question_view->Object_0);
        assert(content@->Array_0 =~= seq![image_view, question_view]);
        assert(message@->Object_0 =~= message_view->Object_0);
        assert(messages@->Array_0 =~= seq![message_view]);
        assert(thinking@->Object_0 =~= view->Object_0[2].1->Object_0);
        assert(members@[3].1@ == JsonView::Bool(true));
        assert(members@[4].1@ == JsonView::Number(json::json_number(MAX_ANSWER_TOKENS)));
        assert forall|i: int| 0 <= i < 5 implies body@->Object_0[i] == view->Object_0[i] by {
            assert(body@->Object_0[i] == (members@[i].0@, members@[i].1@));
        }
        assert(body@->Object_0 =~= view->Object_0);
        lemma_body_well_formed(model@, prompt@, image_data_url@);
    }
    body
}

/// An object is well formed where its members are, under distinct keys.
proof fn lemma_object_well_formed(members: Seq<(Seq<char>, JsonView)>)
    requires
        json::distinct_keys(members),
        forall|i: int| 0 <= i < members.len() ==> json::well_formed((#[trigger] members[i]).1),
    ensures
        json::well_formed(JsonView::Object(members)),
{
}

/// An array is well formed where its items are.
proof fn lemma_array_well_formed(items: Seq<JsonView>)
    requires
        forall|i: int| 0 <= i < items.len() ==> json::well_formed(#[trigger] items[i]),
    ensures
        json::well_formed(JsonView::Array(items)),
{
}

/// A text is well formed.
proof fn lemma_text_well_formed(text: Seq<char>)
    ensures
        json::well_formed(JsonView::Text(text)),
{
}

proof fn lemma_body_well_formed(
    model: Seq<char>,
    prompt: Seq<char>,
    image_data_url: Seq<char>,
)
    ensures
        json::well_formed(body_view(model, prompt, image_data_url)),
{
    reveal_strlit("type");
    reveal_strlit("image_url");
    reveal_strlit("text");
    reveal_strlit("role");
    reveal_strlit("content");
    reveal_strlit("model");
    reveal_strlit("messages");
    reveal_strlit("thinking");
    reveal_strlit("stream");
    reveal_strlit("max_tokens");
    let members = body_view(model, prompt, image_data_url)->Object_0;
    let message = members[1].1->Array_0[0];
    let content = message->Object_0[1].1;
    let image = content->Array_0[0];
    let question = content->Array_0[1];
    lemma_text_well_formed(image_data_url);
    lemma_object_well_formed(image->Object_0[1].1->Object_0);
    lemma_text_well_formed("image_url"@);
    assert("type"@.len() != "image_url"@.len());
    lemma_object_well_formed(image->Object_0);
    lemma_text_well_formed("text"@);
    lemma_text_well_formed(prompt);
    assert("type"@[1] != "text"@[1]);
    lemma_object_well_formed(question->Object_0);
    lemma_array_well_formed(content->Array_0);
    lemma_text_well_formed("user"@);
    assert("role"@.len() != "content"@.len());
    lemma_object_well_formed(message->Object_0);
    lemma_array_well_formed(members[1].1->Array_0);
    lemma_text_well_formed("enabled"@);
    lemma_object_well_formed(members[2].1->Object_0);
    lemma_text_well_formed(model);
    assert(members[0].0.len() == 5 && members[1].0.len() == 8 && members[2].0.len() == 8
        && members[3].0.len() == 6 && members[4].0.len() == 10);
    assert(members[1].0[0] != members[2].0[0]);
    assert(json::distinct_keys(members));
    assert(json::well_formed(members[3].1));
    assert(json::well_formed(members[4].1));
    lemma_object_well_formed(members);
}

/// The text of a request to describe an image.
pub fn request_text(model: &str, prompt: &str, image_data_url: &str) -> (request: Result<
    String,
    String,
>)
    ensures
        request is Ok,
        request->Ok_0@ == json::json_compact(body_view(model@, prompt@, image_data_url@)),
{
    let body = request_body(model, prompt, image_data_url);
    match json::compact_json(&body) {
        Ok(document) => Ok(document),
        Err(_) => Err("Failed to serialize vision API request".to_owned()),
    }
}

/// What is said of a reply whose status is not a success.
pub fn status_error(status: &str, body: &str) -> (error: String)
    ensures
        error@ == "Vision API error (status "@ + status@ + "): "@ + body@,
{
    let mut error = joined("Vision API error (status ", status);
    error.append("): ");
    error.append(body);
    error
}

/// What is said of a reply whose status is not a success, from the bytes of its body.
pub fn status_error_from_bytes(status: &str, body: &Vec<u8>) -> (error: String)
    ensures
        error@ == "Vision API error (status "@ + status@ + "): "@ + text::lossy_text(body@),
{
    let body = text::from_utf8_lossy(body);
    status_error(status, body.as_str())
}

/// The data of a line of the reply's event stream, where it has any.
pub open spec fn sse_data(line: Seq<char>) -> Option<Seq<char>> {
    if text::has_prefix(line, "data: "@) {
        Some(text::trimmed(line.skip("data: "@.len() as int)))
    } else if text::has_prefix(line, "data:"@) {
        Some(text::trimmed(line.skip("data:"@.len() as int)))
    } else {
        None
    }
}

/// What has been received of an answer.
pub struct AnswerView {
    pub thinking: Seq<char>,
    pub content: Seq<char>,
}

/// What follows from a piece of the reply.
pub enum NextView {
    Continue,
    Finished,
    Failed(Seq<char>),
}

/// What a piece of the reply brings about: what has been received then, the preview that is shown
/// because of it, and what follows.
pub struct ReplyStepView {
    pub answer: AnswerView,
    pub preview: Option<Seq<char>>,
    pub next: NextView,
}

/// The member of a member.
pub open spec fn nested_member(value: JsonView, outer: Seq<char>, inner: Seq<char>) -> Option<
    JsonView,
> {
    match json::member(value, outer) {
        Some(value) => json::member(value, inner),
        None => None,
    }
}

/// The text under a key, where there is one.
pub open spec fn member_text(value: JsonView, key: Seq<char>) -> Option<Seq<char>> {
    match json::member(value, key) {
        Some(value) => json::text_of(value),
        None => None,
    }
}

/// The error that an event reports.
pub open spec fn event_error(event: JsonView) -> Option<Seq<char>> {
    match nested_member(event, "error"@, "message"@) {
        Some(message) => json::text_of(message),
        None => None,
    }
}

/// The first choice that an event offers.
pub open spec fn first_choice(event: JsonView) -> Option<JsonView> {
    match json::member(event, "choices"@) {
        Some(choices) => match json::items_of(choices) {
            Some(items) => if items.len() > 0 {
                Some(items[0])
            } else {
                None
            },
            None => None,
        },
        None => None,
    }
}

/// What is shown of an answer that is still arriving.
pub open spec fn preview_of(content: Seq<char>) -> Seq<char> {
    if text::utf8_len(content) > PREVIEW_LIMIT {
        text::prefix_within(content, PREVIEW_LIMIT as nat) + "..."@
    } else {
        content
    }
}

/// What an event brings about.
pub open spec fn event_step(answer: AnswerView, event: JsonView) -> ReplyStepView {
    match event_error(event) {
        Some(error) => ReplyStepView {
            answer,
            preview: None,
            next: NextView::Failed("Vision API stream error: "@ + error),
        },
        None => match first_choice(event) {
            None => ReplyStepView { answer, preview: None, next: NextView::Continue },
            Some(choice) => match json::member(choice, "delta"@) {
                None => ReplyStepView { answer, preview: None, next: NextView::Continue },
                Some(delta) => {
                    let thinking = match member_text(delta, "reasoning_content"@) {
                        Some(reasoning) => answer.thinking + reasoning,
                        None => answer.thinking,
                    };
                    let next = if member_text(choice, "finish_reason"@) is Some {
                        NextView::Finished
                    } else {
                        NextView::Continue
                    };
                    match member_text(delta, "content"@) {
                        Some(more) => {
                            let content = answer.content + more;
                            ReplyStepView {
                                answer: AnswerView { thinking, content },
                                preview: Some(preview_of(content)),
                                next,
                            }
                        },
                        None => ReplyStepView {
                            answer: AnswerView { thinking, content: answer.content },
                            preview: None,
                            next,
                        },
                    }
                },
            },
        },
    }
}

/// What a line of the reply brings about, or that no more lines can be read. Lines without data,
/// and data that is no JSON document, are passed over.
pub open spec fn line_step(answer: AnswerView, line: Option<Seq<char>>) -> ReplyStepView {
    match line {
        None => ReplyStepView { answer, preview: None, next: NextView::Finished },
        Some(line) => match sse_data(line) {
            None => ReplyStepView { answer, preview: None, next: NextView::Continue },
            Some(data) => if data == "[DONE]"@ {
                ReplyStepView { answer, preview: None, next: NextView::Finished }
            } else {
                match json::json_document(data) {
                    None => ReplyStepView { answer, preview: None, next: NextView::Continue },
                    Some(event) => event_step(answer, event),
                }
            },
        },
    }
}

/// What follows from a piece of the reply.
#[derive(Debug, PartialEq)]
pub enum ReplyNext {
    /// Read on.
    Continue,
    /// The answer is complete.
    Finished,
    /// There is no answer, for the given reason.
    Failed(String),
}

impl View for ReplyNext {
    type V = NextView;

    open spec fn view(&self) -> NextView {
        match self {
            ReplyNext::Continue => NextView::Continue,
            ReplyNext::Finished => NextView::Finished,
            ReplyNext::Failed(error) => NextView::Failed(error@),
        }
    }
}

/// What a piece of the reply brings about.
#[derive(Debug, PartialEq)]
pub struct ReplyStep {
    /// What to show of the answer so far, where it has grown.
    pub preview: Option<String>,
    pub next: ReplyNext,
}

/// An answer that is being received.
#[derive(Debug, PartialEq)]
pub struct VisionReply {
    pub thinking_text: String,
    pub content_text: String,
}

impl View for VisionReply {
    type V = AnswerView;

    open spec fn view(&self) -> AnswerView {
        AnswerView { thinking: self.thinking_text@, content: self.content_text@ }
    }
}

impl ReplyStep {
    fn without_preview(next: ReplyNext) -> (step: Self)
        ensures
            step.preview is None,
            step.next == next,
    {
        ReplyStep { preview: None, next }
    }

    /// What this step stands for, where `answer` has been received.
    pub open spec fn describes(self, answer: AnswerView) -> ReplyStepView {
        ReplyStepView {
            answer,
            preview: match self.preview {
                Some(preview) => Some(preview@),
                None => None,
            },
            next: self.next@,
        }
    }
}

/// What to show of an answer that is still arriving.
fn preview(content: &str) -> (preview: String)
    ensures
        preview@ == preview_of(content@),
{
    if text::byte_len(content) > PREVIEW_LIMIT {
        joined(text::floor_prefix(content, PREVIEW_LIMIT), "...")
    } else {
        content.to_owned()
    }
}

/// The text under a key, where there is one.
fn text_at<'a>(value: &'a Json, key: &str) -> (found: Option<&'a str>)
    ensures
        text::optional_view(found) == member_text(value@, key@),
{
    match value.get(key) {
        Some(value) => value.as_text(),
        None => None,
    }
}

impl VisionReply {
    /// An answer of which nothing has arrived.
    pub fn new() -> (reply: Self)
        ensures
            reply@ == (AnswerView { thinking: Seq::empty(), content: Seq::empty() }),
    {
        let reply = VisionReply { thinking_text: String::new(), content_text: String::new() };
        assert(reply@.thinking =~= Seq::empty());
        assert(reply@.content =~= Seq::empty());
        reply
    }

    /// Takes an event of the reply into account.
    pub fn on_event(&mut self, event: &Json) -> (step: ReplyStep)
        ensures
            step.describes(final(self)@) == event_step(old(self)@, event@),
    {
        if let Some(error) = event.get("error") {
            if let Some(message) = text_at(error, "message") {
                return ReplyStep::without_preview(
                    ReplyNext::Failed(joined("Vision API stream error: ", message)),
                );
            }
        }
        let choices = match event.get("choices") {
            Some(choices) => choices,
            None => return ReplyStep::without_preview(ReplyNext::Continue),
        };
        let choices = match choices.as_array() {
            Some(choices) => choices,
            None => return ReplyStep::without_preview(ReplyNext::Continue),
        };
        if choices.len() == 0 {
            return ReplyStep::without_preview(ReplyNext::Continue);
        }
        let choice = &choices[0];
        assert(first_choice(event@) == Some(choice@));
        let delta = match choice.get("delta") {
            Some(delta) => delta,
            None => return ReplyStep::without_preview(ReplyNext::Continue),
        };
        if let Some(reasoning) = text_at(delta, "reasoning_content") {
            self.thinking_text.append(reasoning);
        }
        let mut shown: Option<String> = None;
        if let Some(content) = text_at(delta, "content") {
            self.content_text.append(content);
            shown = Some(preview(self.content_text.as_str()));
        }
        let next = match text_at(choice, "finish_reason") {
            Some(_) => ReplyNext::Finished,
            None => ReplyNext::Continue,
        };
        ReplyStep { preview: shown, next }
    }

    /// Takes a line of the reply into account, or, with `None`, that no more can be read.
    pub fn on_line(&mut self, line: Option<&str>) -> (step: ReplyStep)
        ensures
            step.describes(final(self)@) == line_step(old(self)@, text::optional_view(line)),
    {
        let line = match line {
            Some(line) => line,
            None => return ReplyStep::without_preview(ReplyNext::Finished),
        };
        let data = match text::strip_prefix(line, "data: ") {
            Some(data) => data,
            None => match text::strip_prefix(line, "data:") {
                Some(data) => data,
                None => return ReplyStep::without_preview(ReplyNext::Continue),
            },
        };
        let data = data.trim();
        if text::same_text(data, "[DONE]") {
            return ReplyStep::without_preview(ReplyNext::Finished);
        }
        match json::parse_json(data) {
            Ok(event) => self.on_event(&event),
            Err(_) => ReplyStep::without_preview(ReplyNext::Continue),
        }
    }

    /// The answer, once nothing more comes.
    pub fn finish(self) -> (answer: Result<String, String>)
        ensures
            match answer {
                Ok(content) => content@ == self@.content && content@.len() > 0,
                Err(error) => {
                    &&& self@.content.len() == 0
                    &&& error@ == "Vision model returned no content"@
                },
            },
    {
        if self.content_text.as_str().is_empty() {
            Err("Vision model returned no content".to_owned())
        } else {
            Ok(self.content_text)
        }
    }
}

/// The request that is made for an input: the configuration and the input.
#[derive(Debug, PartialEq)]
pub struct VisionRequest {
    pub config: VisionConfig,
    pub input: VisionToolInput,
}

/// What the tool goes on with: an input that was not received ends the run before anything else,
/// then a missing configuration does.
pub fn begin_run(
    input: Result<VisionToolInput, String>,
    config: Result<VisionConfig, VisionToolOutput>,
) -> (request: Result<VisionRequest, VisionToolOutput>)
    ensures
        match (input, config) {
            (Err(error), _) => request is Err && request->Err_0@ == OutputView::Error(
                "Failed to receive tool input: "@ + error@,
            ),
            (Ok(_), Err(output)) => request == Err::<VisionRequest, _>(output),
            (Ok(input), Ok(config)) => request == Ok::<_, VisionToolOutput>(
                VisionRequest { config, input },
            ),
        },
{
    match input {
        Ok(input) => match config {
            Ok(config) => Ok(VisionRequest { config, input }),
            Err(output) => Err(output),
        },
        Err(error) => Err(
            VisionToolOutput::Error {
                error: joined("Failed to receive tool input: ", error.as_str()),
            },
        ),
    }
}

/// The URL under which the image of a request is sent, or how the run ends without one.
pub fn load_image(image_source: &str, file: &ImageFile) -> (url: Result<String, VisionToolOutput>)
    requires
        !image::sent_as_is(image_source@) ==> (file matches ImageFile::Bytes(bytes)
            ==> image::base64_fits(bytes@.len())),
    ensures
        url is Ok <==> image::sent_as_is(image_source@) || file is Bytes,
        image::sent_as_is(image_source@) ==> url->Ok_0@ == image_source@,
        !image::sent_as_is(image_source@) ==> match file {
            ImageFile::Missing => url->Err_0@ == OutputView::Error(
                "Failed to load image: "@ + ("Image file not found: "@ + image_source@),
            ),
            ImageFile::Unreadable => url->Err_0@ == OutputView::Error(
                "Failed to load image: "@ + "Failed to read image file"@,
            ),
            ImageFile::Bytes(bytes) => exists|extension: Option<Seq<char>>| #[trigger]
                image::possible_extension(image_source@, extension) && url->Ok_0@
                    == image::data_uri(image::image_mime_type(extension), bytes@),
        },
        !image::sent_as_is(image_source@) && (image::ends_in_extension(image_source@)
            || image::ends_without_dot(image_source@)) ==> (file matches ImageFile::Bytes(bytes)
            ==> url->Ok_0@ == image::data_uri(
            image::image_mime_type(image::name_extension(image::last_part(image_source@))),
            bytes@,
        )),
{
    match image::encode_image_source(image_source, file) {
        Ok(url) => Ok(url),
        Err(error) => Err(
            VisionToolOutput::Error { error: joined("Failed to load image: ", error.as_str()) },
        ),
    }
}

/// What ended the wait for an answer.
#[derive(Debug, PartialEq)]
pub enum VisionEnd {
    /// The user cancelled first.
    Cancelled,
    /// The answer came, or it failed for the given reason.
    Answered(Result<String, String>),
}

/// What the end of a run means.
pub open spec fn run_outcome(end: VisionEnd) -> Result<OutputView, OutputView> {
    match end {
        VisionEnd::Cancelled => Err(OutputView::Error("Vision analysis cancelled by user"@)),
        VisionEnd::Answered(Ok(description)) => Ok(OutputView::Success(description@)),
        VisionEnd::Answered(Err(error)) => Err(
            OutputView::Error("Vision analysis failed: "@ + error@),
        ),
    }
}

/// What the tool hands back. A success is shown under [`ANALYZED_TITLE`] with its description.
pub fn end_run(end: VisionEnd) -> (outcome: Result<VisionToolOutput, VisionToolOutput>)
    ensures
        match outcome {
            Ok(output) => run_outcome(end) == Ok::<_, OutputView>(output@),
            Err(output) => run_outcome(end) == Err::<OutputView, _>(output@),
        },
{
    match end {
        VisionEnd::Cancelled => Err(
            VisionToolOutput::Error { error: "Vision analysis cancelled by user".to_owned() },
        ),
        VisionEnd::Answered(Ok(description)) => Ok(VisionToolOutput::Success { description }),
        VisionEnd::Answered(Err(error)) => Err(
            VisionToolOutput::Error { error: joined("Vision analysis failed: ", error.as_str()) },
        ),
    }
}

} // verus!
