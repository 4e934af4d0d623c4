//! The data model: the operating context gathered for the model, the typed
//! shape of the model's reply, the request envelope, and the error taxonomy.

use vstd::prelude::*;

verus! {

/// What went wrong while validating the user's selection.
#[derive(Debug)]
pub enum CustomParserError {
    /// The input was not an unsigned decimal numeral that fits the index
    /// type; carries the offending input.
    ParseIntError(String),
    /// The input parsed but does not index the suggestion list; carries the
    /// parsed value.
    OutOfBoundError(usize),
}

/// Which stage of decoding a reply failed.
#[derive(Clone, Copy, Debug, PartialEq, Eq, Structural)]
pub enum DecodeError {
    /// The transport envelope is not of the expected shape.
    Envelope,
    /// The assistant content is not a well-formed suggestion payload.
    Content,
    /// A serialized context is not of the context shape.
    Context,
    /// A history log is not a list of history records.
    History,
}

/// What went wrong while resolving placeholders in a command template.
#[derive(Debug)]
pub enum ResolveError {
    /// A missing-field key has no `<key>` placeholder in the template it
    /// belongs to: the reply violates its own contract.
    UnmatchedKey(String),
    /// The caller supplied a different number of values than there are
    /// missing fields.
    ValueCountMismatch,
}

/// Which prompt template a compilation uses.
#[derive(Clone, Copy, Debug, PartialEq, Eq, Structural)]
pub enum PromptPolicy {
    /// Flat suggestion schema: one command per suggestion.
    SchemaOnly,
    /// Nested schema: each suggestion carries an ordered command chain.
    ChainAware,
}

/// The kind of a directory entry.
#[derive(Clone, Copy, Debug, PartialEq, Eq, Structural)]
pub enum FileKind {
    File,
    Directory,
}

/// One entry of the working directory listing.
#[derive(Clone, Debug, PartialEq, Eq)]
pub struct File {
    pub name: String,
    pub kind: FileKind,
}

pub ghost struct FileV {
    pub name: Seq<char>,
    pub kind: FileKind,
}

impl View for File {
    type V = FileV;

    open spec fn view(&self) -> FileV {
        FileV { name: self.name@, kind: self.kind }
    }
}

/// One record of the persisted command history.
#[derive(Clone, Debug, PartialEq, Eq)]
pub struct History {
    pub dir: String,
    pub cmd: String,
    pub datetime: String,
}

pub ghost struct HistoryV {
    pub dir: Seq<char>,
    pub cmd: Seq<char>,
    pub datetime: Seq<char>,
}

impl View for History {
    type V = HistoryV;

    open spec fn view(&self) -> HistoryV {
        HistoryV { dir: self.dir@, cmd: self.cmd@, datetime: self.datetime@ }
    }
}

/// The snapshot of the user's environment handed to the prompt compiler.
#[derive(Clone, Debug, PartialEq, Eq)]
pub struct Context {
    pub cwd: String,
    pub ls: Vec<File>,
    pub history: Vec<History>,
}

pub ghost struct ContextV {
    pub cwd: Seq<char>,
    pub ls: Seq<FileV>,
    pub history: Seq<HistoryV>,
}

impl View for Context {
    type V = ContextV;

    open spec fn view(&self) -> ContextV {
        ContextV {
            cwd: self.cwd@,
            ls: self.ls@.map_values(|f: File| f@),
            history: self.history@.map_values(|h: History| h@),
        }
    }
}

/// One pre-computed hint for a missing field.
#[derive(Clone, Debug, PartialEq, Eq)]
pub struct MissingFieldSuggestion {
    pub value: String,
    pub reasoning: String,
}

pub ghost struct MissingFieldSuggestionV {
    pub value: Seq<char>,
    pub reasoning: Seq<char>,
}

impl View for MissingFieldSuggestion {
    type V = MissingFieldSuggestionV;

    open spec fn view(&self) -> MissingFieldSuggestionV {
        MissingFieldSuggestionV { value: self.value@, reasoning: self.reasoning@ }
    }
}

/// A placeholder the user must fill before a command can run.
#[derive(Clone, Debug, PartialEq, Eq)]
pub struct MissingField {
    pub key: String,
    pub reasoning: String,
    pub suggestions: Vec<MissingFieldSuggestion>,
}

pub ghost struct MissingFieldV {
    pub key: Seq<char>,
    pub reasoning: Seq<char>,
    pub suggestions: Seq<MissingFieldSuggestionV>,
}

impl View for MissingField {
    type V = MissingFieldV;

    open spec fn view(&self) -> MissingFieldV {
        MissingFieldV {
            key: self.key@,
            reasoning: self.reasoning@,
            suggestions: self.suggestions@.map_values(|s: MissingFieldSuggestion| s@),
        }
    }
}

/// One command template proposed by the model.
#[derive(Clone, Debug, PartialEq, Eq)]
pub struct SuggestedCommand {
    pub reasoning: String,
    pub cmd: String,
    pub missing_fields: Vec<MissingField>,
}

pub ghost struct SuggestedCommandV {
    pub reasoning: Seq<char>,
    pub cmd: Seq<char>,
    pub missing_fields: Seq<MissingFieldV>,
}

impl View for SuggestedCommand {
    type V = SuggestedCommandV;

    open spec fn view(&self) -> SuggestedCommandV {
        SuggestedCommandV {
            reasoning: self.reasoning@,
            cmd: self.cmd@,
            missing_fields: self.missing_fields@.map_values(|f: MissingField| f@),
        }
    }
}

/// One suggestion: a rationale and an ordered command chain.
#[derive(Clone, Debug, PartialEq, Eq)]
pub struct ModelSuggestion {
    pub reasoning: String,
    pub commands: Vec<SuggestedCommand>,
}

pub ghost struct ModelSuggestionV {
    pub reasoning: Seq<char>,
    pub commands: Seq<SuggestedCommandV>,
}

impl View for ModelSuggestion {
    type V = ModelSuggestionV;

    open spec fn view(&self) -> ModelSuggestionV {
        ModelSuggestionV {
            reasoning: self.reasoning@,
            commands: self.commands@.map_values(|c: SuggestedCommand| c@),
        }
    }
}

/// The decoded assistant content: a list of suggestions.
#[derive(Clone, Debug, PartialEq, Eq)]
pub struct OllamaPlaceholderResponse {
    pub response: Vec<ModelSuggestion>,
}

impl View for OllamaPlaceholderResponse {
    type V = Seq<ModelSuggestionV>;

    open spec fn view(&self) -> Seq<ModelSuggestionV> {
        self.response@.map_values(|s: ModelSuggestion| s@)
    }
}

/// One chat message of the transport protocol.
#[derive(Clone, Debug, PartialEq, Eq)]
pub struct OllamaMessage {
    pub role: String,
    pub content: String,
}

pub ghost struct OllamaMessageV {
    pub role: Seq<char>,
    pub content: Seq<char>,
}

impl View for OllamaMessage {
    type V = OllamaMessageV;

    open spec fn view(&self) -> OllamaMessageV {
        OllamaMessageV { role: self.role@, content: self.content@ }
    }
}

/// The request body sent to the inference backend.
#[derive(Clone, Debug, PartialEq, Eq)]
pub struct OllamaRequest {
    pub model: String,
    pub format: String,
    pub stream: bool,
    pub messages: Vec<OllamaMessage>,
}

pub ghost struct OllamaRequestV {
    pub model: Seq<char>,
    pub format: Seq<char>,
    pub stream: bool,
    pub messages: Seq<OllamaMessageV>,
}

impl View for OllamaRequest {
    type V = OllamaRequestV;

    open spec fn view(&self) -> OllamaRequestV {
        OllamaRequestV {
            model: self.model@,
            format: self.format@,
            stream: self.stream,
            messages: self.messages@.map_values(|m: OllamaMessage| m@),
        }
    }
}

/// The transport reply envelope; `message.content` carries the suggestion
/// payload as a JSON document encoded in a string.
#[derive(Clone, Debug, PartialEq, Eq)]
pub struct OllamaResponse {
    pub model: String,
    pub created_at: String,
    pub message: OllamaMessage,
    pub done_reason: String,
    pub total_duration: u64,
    pub load_duration: u64,
    pub prompt_eval_count: u64,
    pub prompt_eval_duration: u64,
    pub eval_count: u64,
    pub eval_duration: u64,
}

pub ghost struct OllamaResponseV {
    pub model: Seq<char>,
    pub created_at: Seq<char>,
    pub message: OllamaMessageV,
    pub done_reason: Seq<char>,
    pub total_duration: u64,
    pub load_duration: u64,
    pub prompt_eval_count: u64,
    pub prompt_eval_duration: u64,
    pub eval_count: u64,
    pub eval_duration: u64,
}

impl View for OllamaResponse {
    type V = OllamaResponseV;

    open spec fn view(&self) -> OllamaResponseV {
        OllamaResponseV {
            model: self.model@,
            created_at: self.created_at@,
            message: self.message@,
            done_reason: self.done_reason@,
            total_duration: self.total_duration,
            load_duration: self.load_duration,
            prompt_eval_count: self.prompt_eval_count,
            prompt_eval_duration: self.prompt_eval_duration,
            eval_count: self.eval_count,
            eval_duration: self.eval_duration,
        }
    }
}


/// A canned transport reply, used in place of a live backend.
pub struct DummyResponse;

/// The text of the canned reply.
pub open spec fn sp_dummy_response() -> Seq<char> {
    r#"{"model":"qwen2.5","created_at":"2024-11-04T06:13:34.765879Z","message":{"role":"assistant","content":"{ \"response\": [ { \"reasoning\" : \"The user might want to create a new branch or switch to an existing one in their RustoverProjects directory.\", \"commands\" : [ { \"cmd\": \"git checkout -b <branch_name>\", \"missing_fields\": [ { \"key\": \"branch_name\", \"reasoning\": \"The user needs to specify the name of the branch they want to create or switch to.\" }, { \"suggestions\": [ { \"value\": \"feature_12345\", \"reasoning\": \"Example of a common branch naming convention for feature development.\" } ] } ], \"reasoning\": \"Switching to or creating a new branch is a common operation when working with Git repositories.\" } ] }, { \"reasoning\" : \"The user might want to create a new directory or move files around in the RustoverProjects directory.\", \"commands\" : [ { \"cmd\": \"mkdir <directory_name>\", \"missing_fields\": [ { \"key\": \"directory_name\", \"reasoning\": \"The user needs to specify the name of the new directory.\" }, { \"suggestions\": [ { \"value\": \"new_module\", \"reasoning\": \"Creating a new module within the project structure is a common task.\" } ] } ], \"reasoning\": \"Creating directories helps organize code better and follows good development practices.\" } ] }, { \"reasoning\" : \"The user might want to run tests or perform checks on the Rust code in this project.\", \"commands\" : [ { \"cmd\": \"cargo test\", \"missing_fields\": [], \"reasoning\": \"Running tests is a common operation after making changes to Rust code to ensure functionality.\" } ] }, { \"reasoning\" : \"The user might want to commit changes and push them to the repository.\", \"commands\" : [ { \"cmd\": \"git add .; git commit -m '<commit_message>'\", \"missing_fields\": [ { \"key\": \"commit_message\", \"reasoning\": \"The user needs to provide a commit message for their changes.\" }, { \"suggestions\": [ { \"value\": \"Add initial implementation of feature_12345\", \"reasoning\": \"Example commit message based on the branch name.\" } ] } ], \"reasoning\": \"Committing and pushing changes is a standard part of version control workflows.\" } ] } ] }"},"done_reason":"stop","total_duration":54367747041,"load_duration":36362250,"prompt_eval_count":1834,"prompt_eval_duration":2014534000,"eval_count":491,"eval_duration":52294908000}"#@
}

impl DummyResponse {
    /// Hands out the canned raw reply text.
    pub fn get_dummy_response() -> (r: String)
        ensures
            r@ == sp_dummy_response(),
    {
        String::from_str(
            r#"{"model":"qwen2.5","created_at":"2024-11-04T06:13:34.765879Z","message":{"role":"assistant","content":"{ \"response\": [ { \"reasoning\" : \"The user might want to create a new branch or switch to an existing one in their RustoverProjects directory.\", \"commands\" : [ { \"cmd\": \"git checkout -b <branch_name>\", \"missing_fields\": [ { \"key\": \"branch_name\", \"reasoning\": \"The user needs to specify the name of the branch they want to create or switch to.\" }, { \"suggestions\": [ { \"value\": \"feature_12345\", \"reasoning\": \"Example of a common branch naming convention for feature development.\" } ] } ], \"reasoning\": \"Switching to or creating a new branch is a common operation when working with Git repositories.\" } ] }, { \"reasoning\" : \"The user might want to create a new directory or move files around in the RustoverProjects directory.\", \"commands\" : [ { \"cmd\": \"mkdir <directory_name>\", \"missing_fields\": [ { \"key\": \"directory_name\", \"reasoning\": \"The user needs to specify the name of the new directory.\" }, { \"suggestions\": [ { \"value\": \"new_module\", \"reasoning\": \"Creating a new module within the project structure is a common task.\" } ] } ], \"reasoning\": \"Creating directories helps organize code better and follows good development practices.\" } ] }, { \"reasoning\" : \"The user might want to run tests or perform checks on the Rust code in this project.\", \"commands\" : [ { \"cmd\": \"cargo test\", \"missing_fields\": [], \"reasoning\": \"Running tests is a common operation after making changes to Rust code to ensure functionality.\" } ] }, { \"reasoning\" : \"The user might want to commit changes and push them to the repository.\", \"commands\" : [ { \"cmd\": \"git add .; git commit -m '<commit_message>'\", \"missing_fields\": [ { \"key\": \"commit_message\", \"reasoning\": \"The user needs to provide a commit message for their changes.\" }, { \"suggestions\": [ { \"value\": \"Add initial implementation of feature_12345\", \"reasoning\": \"Example commit message based on the branch name.\" } ] } ], \"reasoning\": \"Committing and pushing changes is a standard part of version control workflows.\" } ] } ] }"},"done_reason":"stop","total_duration":54367747041,"load_duration":36362250,"prompt_eval_count":1834,"prompt_eval_duration":2014534000,"eval_count":491,"eval_duration":52294908000}"#,
        )
    }
}

} // verus!
