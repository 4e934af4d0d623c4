//! The prompt compiler: renders the operating context and the fixed
//! instructional text into the model's system prompt, and builds the full
//! chat request. The instructional text is whitespace-normalized; the
//! serialized context is appended verbatim, so the compiled prompt embeds
//! it unchanged and holds no raw newline. Normalizing the whole compiled
//! string instead would collapse whitespace runs inside context strings
//! and so rewrite the embedded JSON; keeping the context verbatim trades
//! the single-space guarantee, for the prompt as a whole, for an
//! unconditional embed-exactly-once guarantee.

use vstd::prelude::*;
use crate::models::{Context, ContextV, PromptPolicy, OllamaMessage, OllamaMessageV, OllamaRequest,
    OllamaRequestV};
use crate::codec::{sp_encode_context, sp_json_of_context, json_of_context};
use crate::json::{enc_json, lemma_enc_json_no_breaks};
use crate::strutil::{sp_normalize, sp_norm_go, normalize_ws, chars_of, string_of, is_unicode_space,
    sp_match_at, sp_has_sub, has_sub, lemma_norm_go_no_oddspace};

verus! {

/// The instructional text of the flat, schema-only policy.
pub open spec fn sp_schema_template() -> Seq<char> {
    r#"You are a command line terminal assistant. Your primary job is to help the user perform
            tasks in the terminal by suggesting up to 5 commands that might satisfy their needs.

            You will be provided a context from the user to help you help them. The context will be
            given to you as a JSON string with the following schema:

            context = {
              "cwd": string // current working directory of the user,
              "files_in_cwd": []file_entry // list of files in the current working directory,
              "history": []history_entry // command line history of the commands executed by the user
            }

            file_entry = {
              "name": string // name of the file,
              "kind": string // what kind of a file is it, i.e., file, directory, etc.
            }

            history_entry = {
              "dir": string // directory where the command was run,
              "command": string // command which was run,
              "datetime": string // when the command was run
            }

            The actual context will be given below.

            Your output should always be a valid JSON with the following schema:

            output = {
              "response": [] suggestion // list of up to 5 suggestions
            }

            suggestion = {
              "cmd": string // command you think will help the user; if there is a missing field in
              the command it should be enclosed in <> brackets this is very important,
              "missing_fields": [] missing_fields // list of fields you might need to make the
              command a valid command; should match the template key in the command exactly,
              "reasoning": "<your reasoning for suggesting the command based on the context>"
            }

            missing_fields = {
              "key": string // what field you need from the user,
              "reasoning": string // why you need the field
            }

            It is important to remember that for each missing field you have for a command an equivalent
            <key> should be there which is surrounded by <>. If that is not possible, do not return
            any missing fields.

            With all this said, here are some key instructions and points to remember:

            1) Feel free to assume that the user is lazy, so the prompts can be half-assed and
            incomplete. It is your job to infer what the user wants.
            2) The user is always going to be on macOS; some packages might not be installed. For
            those, chain the commands in the output, something like `brew install package && package
            doSomething` etc.
            3) Assume basic packages such as git, grep, http and other similar packages are installed.

            Here are some examples:

            example 1 ->
            user query - show me all the files
            output = {
              "response": [
                {
                  "cmd": "ls",
                  "missing_fields": [],
                  "reasoning": "the ls command shows all the files in the current directory"
                },
                {
                  "cmd": "ls <path>",
                  "missing_fields": [
                    {
                      "key": "path",
                      "reasoning": "the user might want to see all files in a different directory"
                    }
                  ],
                  "reasoning": "the ls command shows all the files in the current directory"
                },
                {
                  "cmd": "ls -la",
                  "missing_fields": [],
                  "reasoning": "the ls -la command shows all the files in the current directory as a
                  proper list with more information"
                }
              ]
            }

            example 2 ->
            user query - scp json
            output = {
              "response": [
                {
                  "cmd": "scp ./*.json root@172.186.26.5:/root/destination",
                  "missing_fields": [],
                  "reasoning": "the user did an scp command earlier, assuming they want to do the
                  same scp command, this time send all json from local to remote"
                },
                {
                  "cmd": "scp ./*.json user@172.186.26.5:<path>",
                  "missing_fields": [
                    {
                      "key": "path",
                      "reasoning": "the user did the a scp command earlier, they might want to send
                      all json files to the same machine, but in a different directory"
                    }
                  ],
                  "reasoning": "the user did an scp command earlier, assuming they want to do the
                  same scp command, this time send all json from local to remote"
                }
              ]
            }

            Also a side note - do not suggest commands which have a curly brace in them.

            That's it for the examples; here is the context:"#@
}

/// The instructional text of the chain-aware policy.
pub open spec fn sp_chain_template() -> Seq<char> {
    r#" You are a command line assistant and your job is to help the user find the right command or set of
            commands which they will then execute on their terminal. To help you out with this, I will provide
            you with some context such as what the users current working directory is, what are the files in their current working
            directory, for each file you'll also have information on what the type of the file is (directory or file).
            I will also provide you with a list of commands which they have executed in the past - this list
            will also have context for each command such as which directory the command was executed in and when it was executed.

            The context provided won't always be helpful since sometimes the user would want to execute a command which
            they haven't done so in the past.

            You will use this context and provide upto 5 suggestion for the user. A single suggestion can be of 2 types
            "chain" and "not chain"
            A chain suggestion is a series of commands which if the user runs will solve their issue. Following are
            some examples of chains
                git add -A; git commit -m <message>; git push -> this can be made into a chain of 3 commands
                    command 1 -> git add -A
                    command 2 -> git commit -m <message>
                    command 3 -> git push
                cd ../ && nvim foo.txt -> this can be broken into a chain of 2 commands
                    command 1 -> cd ../
                    command 2 -> nvim foo.txt

            In the above git example, as you see there is a missing field as well in the git commit -m <message> command. What this
            means is that the message field is something which you think should be provided by the user.
            You will keep track of each missing field in a command and present them to me as well. Each missing field has to be
            surrounded by angular brackets in following format <{missing_field}>
            If you think you have a suggestion for a missing field do provide that as well.

            Your suggestions should always be given in json format, this is very important as it will then be parsed by code
            to actually take in the user input if needed and to execute the command. Your output will always be of the following
            format

            if the user query is -> push to git
            output = {
              "response": [
                    {
                        "reasoning" : "this is the command for git push"
                        "commands" : [
                            {
                                "cmd": "git push",
                                "missing_fields": [],
                                "reasoning": "assuming the user has already added and commited the changes, all we need to do is push them"
                            }
                        ]
                    },
                    {
                        "reasoning" : "chain of commands to do a git add, commit and push, add some details here of why you decided to go with this chain"
                        "commands" : [
                            {
                                "cmd": "git add <files>",
                                "missing_fields": [
                                    {
                                         "key": "files",
                                         "reasoning": "the user needs to specify what file they want to add"
                                         "suggestions" : [
                                            {
                                                "value" : "-A"
                                                "reasoning" : "the -A flag adds all files which have been changed"
                                            },
                                            {
                                                "value" : "."
                                                "reasoning" : "the . adds all files in this dir"
                                            }
                                         ]
                                    }
                                ],
                                "reasoning": "we need to add the files before we do the git push"
                            },
                            {
                                "cmd": "git commit -m <message>",
                                "missing_fields": [
                                    {
                                         "key": "message", // it is very important that this key is present in the command enclosed in angulare braces
                                         "reasoning": "the user needs to specify what is it that they did in this commit"
                                         "suggestions" : [
                                            {
                                                "value" : "nits"
                                                "reasoning" : "the user might have fixed some nits"
                                            },
                                         ]
                                    }
                                ],
                                "reasoning": "before we actually push the changes on to git, we need to do a git commit"
                            },
                            {
                                "cmd": "git push",
                                "missing_fields": [],
                                "reasoning": "pushing the changes onto git"
                            }
                        ]
                    }
              ]
            }

            Notice in the above response commands is always a list of commands, I will infer from the list size whether or not it is a chain. If there is no missing
            field in a command, just return an empty list.
            Follow the schema exactly as given above.

            Another example which I'll just talk through is if the user says to scp all json files. What you can do in that case is check the users
            history for any other scp or ssh command and use that to suggest commands.

            The missing field should always be enclosed in angular brackets like the following
            <missing_field> please do not forget this

            When your command has files or username/password or ip addresses or anything specific like that
            always provide a missing field, and if you think you have a suggestion for that specific field
            provide it in the suggestions list of that missing field.

            Avoid outputting the same command again and again, if all that has changed is the missing field, in that case
            provide the command with a missing field and provide suggestions over there.b

            You can make the following assumptions:
                1) The user is lazy, so the prompts can be half-assed and incomplete. It is your job to infer what the user wants.
                2) Assume the user has access to basic packages on their machine such as git, grep, curl, vim, etc

            Only give a suggestion if your reasoning for that suggestion is strong and firm, if you think that a particular suggestion
            might or might not work, then it is fine to not give that suggestion."#@
}

/// The compiled system prompt: the normalized instructional text, one
/// space, then the serialized context, verbatim.
pub open spec fn sp_prompt(template: Seq<char>, c: ContextV) -> Seq<char> {
    sp_normalize(template) + seq![' '] + sp_encode_context(c)
}

/// The system prompt of a policy.
pub open spec fn sp_system_prompt(p: PromptPolicy, c: ContextV) -> Seq<char> {
    if p is SchemaOnly {
        sp_prompt(sp_schema_template(), c)
    } else {
        sp_prompt(sp_chain_template(), c)
    }
}

/// The chat request built for a context, a user query and a policy.
pub open spec fn sp_request(c: ContextV, q: Seq<char>, p: PromptPolicy) -> OllamaRequestV {
    OllamaRequestV {
        model: "qwen2.5"@,
        format: "json"@,
        stream: false,
        messages: seq![
            OllamaMessageV { role: "system"@, content: sp_system_prompt(p, c) },
            OllamaMessageV { role: "user"@, content: q },
        ],
    }
}

/// The characters of the schema-only instructional text.
fn schema_template_chars() -> (r: Vec<char>)
    ensures
        r@ == sp_schema_template(),
{
    chars_of(
        r#"You are a command line terminal assistant. Your primary job is to help the user perform
            tasks in the terminal by suggesting up to 5 commands that might satisfy their needs.

            You will be provided a context from the user to help you help them. The context will be
            given to you as a JSON string with the following schema:

            context = {
              "cwd": string // current working directory of the user,
              "files_in_cwd": []file_entry // list of files in the current working directory,
              "history": []history_entry // command line history of the commands executed by the user
            }

            file_entry = {
              "name": string // name of the file,
              "kind": string // what kind of a file is it, i.e., file, directory, etc.
            }

            history_entry = {
              "dir": string // directory where the command was run,
              "command": string // command which was run,
              "datetime": string // when the command was run
            }

            The actual context will be given below.

            Your output should always be a valid JSON with the following schema:

            output = {
              "response": [] suggestion // list of up to 5 suggestions
            }

            suggestion = {
              "cmd": string // command you think will help the user; if there is a missing field in
              the command it should be enclosed in <> brackets this is very important,
              "missing_fields": [] missing_fields // list of fields you might need to make the
              command a valid command; should match the template key in the command exactly,
              "reasoning": "<your reasoning for suggesting the command based on the context>"
            }

            missing_fields = {
              "key": string // what field you need from the user,
              "reasoning": string // why you need the field
            }

            It is important to remember that for each missing field you have for a command an equivalent
            <key> should be there which is surrounded by <>. If that is not possible, do not return
            any missing fields.

            With all this said, here are some key instructions and points to remember:

            1) Feel free to assume that the user is lazy, so the prompts can be half-assed and
            incomplete. It is your job to infer what the user wants.
            2) The user is always going to be on macOS; some packages might not be installed. For
            those, chain the commands in the output, something like `brew install package && package
            doSomething` etc.
            3) Assume basic packages such as git, grep, http and other similar packages are installed.

            Here are some examples:

            example 1 ->
            user query - show me all the files
            output = {
              "response": [
                {
                  "cmd": "ls",
                  "missing_fields": [],
                  "reasoning": "the ls command shows all the files in the current directory"
                },
                {
                  "cmd": "ls <path>",
                  "missing_fields": [
                    {
                      "key": "path",
                      "reasoning": "the user might want to see all files in a different directory"
                    }
                  ],
                  "reasoning": "the ls command shows all the files in the current directory"
                },
                {
                  "cmd": "ls -la",
                  "missing_fields": [],
                  "reasoning": "the ls -la command shows all the files in the current directory as a
                  proper list with more information"
                }
              ]
            }

            example 2 ->
            user query - scp json
            output = {
              "response": [
                {
                  "cmd": "scp ./*.json root@172.186.26.5:/root/destination",
                  "missing_fields": [],
                  "reasoning": "the user did an scp command earlier, assuming they want to do the
                  same scp command, this time send all json from local to remote"
                },
                {
                  "cmd": "scp ./*.json user@172.186.26.5:<path>",
                  "missing_fields": [
                    {
                      "key": "path",
                      "reasoning": "the user did the a scp command earlier, they might want to send
                      all json files to the same machine, but in a different directory"
                    }
                  ],
                  "reasoning": "the user did an scp command earlier, assuming they want to do the
                  same scp command, this time send all json from local to remote"
                }
              ]
            }

            Also a side note - do not suggest commands which have a curly brace in them.

            That's it for the examples; here is the context:"#,
    )
}

/// The characters of the chain-aware instructional text.
fn chain_template_chars() -> (r: Vec<char>)
    ensures
        r@ == sp_chain_template(),
{
    chars_of(
        r#" You are a command line assistant and your job is to help the user find the right command or set of
            commands which they will then execute on their terminal. To help you out with this, I will provide
            you with some context such as what the users current working directory is, what are the files in their current working
            directory, for each file you'll also have information on what the type of the file is (directory or file).
            I will also provide you with a list of commands which they have executed in the past - this list
            will also have context for each command such as which directory the command was executed in and when it was executed.

            The context provided won't always be helpful since sometimes the user would want to execute a command which
            they haven't done so in the past.

            You will use this context and provide upto 5 suggestion for the user. A single suggestion can be of 2 types
            "chain" and "not chain"
            A chain suggestion is a series of commands which if the user runs will solve their issue. Following are
            some examples of chains
                git add -A; git commit -m <message>; git push -> this can be made into a chain of 3 commands
                    command 1 -> git add -A
                    command 2 -> git commit -m <message>
                    command 3 -> git push
                cd ../ && nvim foo.txt -> this can be broken into a chain of 2 commands
                    command 1 -> cd ../
                    command 2 -> nvim foo.txt

            In the above git example, as you see there is a missing field as well in the git commit -m <message> command. What this
            means is that the message field is something which you think should be provided by the user.
            You will keep track of each missing field in a command and present them to me as well. Each missing field has to be
            surrounded by angular brackets in following format <{missing_field}>
            If you think you have a suggestion for a missing field do provide that as well.

            Your suggestions should always be given in json format, this is very important as it will then be parsed by code
            to actually take in the user input if needed and to execute the command. Your output will always be of the following
            format

            if the user query is -> push to git
            output = {
              "response": [
                    {
                        "reasoning" : "this is the command for git push"
                        "commands" : [
                            {
                                "cmd": "git push",
                                "missing_fields": [],
                                "reasoning": "assuming the user has already added and commited the changes, all we need to do is push them"
                            }
                        ]
                    },
                    {
                        "reasoning" : "chain of commands to do a git add, commit and push, add some details here of why you decided to go with this chain"
                        "commands" : [
                            {
                                "cmd": "git add <files>",
                                "missing_fields": [
                                    {
                                         "key": "files",
                                         "reasoning": "the user needs to specify what file they want to add"
                                         "suggestions" : [
                                            {
                                                "value" : "-A"
                                                "reasoning" : "the -A flag adds all files which have been changed"
                                            },
                                            {
                                                "value" : "."
                                                "reasoning" : "the . adds all files in this dir"
                                            }
                                         ]
                                    }
                                ],
                                "reasoning": "we need to add the files before we do the git push"
                            },
                            {
                                "cmd": "git commit -m <message>",
                                "missing_fields": [
                                    {
                                         "key": "message", // it is very important that this key is present in the command enclosed in angulare braces
                                         "reasoning": "the user needs to specify what is it that they did in this commit"
                                         "suggestions" : [
                                            {
                                                "value" : "nits"
                                                "reasoning" : "the user might have fixed some nits"
                                            },
                                         ]
                                    }
                                ],
                                "reasoning": "before we actually push the changes on to git, we need to do a git commit"
                            },
                            {
                                "cmd": "git push",
                                "missing_fields": [],
                                "reasoning": "pushing the changes onto git"
                            }
                        ]
                    }
              ]
            }

            Notice in the above response commands is always a list of commands, I will infer from the list size whether or not it is a chain. If there is no missing
            field in a command, just return an empty list.
            Follow the schema exactly as given above.

            Another example which I'll just talk through is if the user says to scp all json files. What you can do in that case is check the users
            history for any other scp or ssh command and use that to suggest commands.

            The missing field should always be enclosed in angular brackets like the following
            <missing_field> please do not forget this

            When your command has files or username/password or ip addresses or anything specific like that
            always provide a missing field, and if you think you have a suggestion for that specific field
            provide it in the suggestions list of that missing field.

            Avoid outputting the same command again and again, if all that has changed is the missing field, in that case
            provide the command with a missing field and provide suggestions over there.b

            You can make the following assumptions:
                1) The user is lazy, so the prompts can be half-assed and incomplete. It is your job to infer what the user wants.
                2) Assume the user has access to basic packages on their machine such as git, grep, curl, vim, etc

            Only give a suggestion if your reasoning for that suggestion is strong and firm, if you think that a particular suggestion
            might or might not work, then it is fine to not give that suggestion."#,
    )
}

fn compile_prompt(template: &Vec<char>, ctx: &Context) -> (r: String)
    ensures
        r@ == sp_normalize(template@) + seq![' '] + sp_encode_context(ctx@),
{
    let mut out = normalize_ws(template);
    out.push(' ');
    let ghost mid = out@;
    let doc = json_of_context(ctx);
    enc_json(&doc, &mut out);
    proof {
        assert(mid =~= sp_normalize(template@) + seq![' ']);
        assert(out@ =~= sp_normalize(template@) + seq![' '] + sp_encode_context(ctx@));
    }
    string_of(&out)
}

/// The prompt templates.
pub struct Prompts;

impl Prompts {
    /// Compiles the schema-only system prompt for a context.
    pub fn get_system_prompt(ctx: &Context) -> (r: String)
        ensures
            r@ == sp_system_prompt(PromptPolicy::SchemaOnly, ctx@),
            r@.len() > 0,
    {
        proof {
            lemma_enc_context_head(ctx@);
        }
        let template = schema_template_chars();
        compile_prompt(&template, ctx)
    }

    /// Compiles the chain-aware system prompt for a context.
    pub fn get_system_prompt_2(ctx: &Context) -> (r: String)
        ensures
            r@ == sp_system_prompt(PromptPolicy::ChainAware, ctx@),
            r@.len() > 0,
    {
        proof {
            lemma_enc_context_head(ctx@);
        }
        let template = chain_template_chars();
        compile_prompt(&template, ctx)
    }
}

/// Builds the chat request: the compiled system prompt as the system
/// message and the user query, verbatim, as the user message.
pub fn build_request(ctx: &Context, query: &String, policy: PromptPolicy) -> (r: OllamaRequest)
    ensures
        r@ == sp_request(ctx@, query@, policy),
{
    let prompt = match policy {
        PromptPolicy::SchemaOnly => Prompts::get_system_prompt(ctx),
        PromptPolicy::ChainAware => Prompts::get_system_prompt_2(ctx),
    };
    let mut messages: Vec<OllamaMessage> = Vec::new();
    messages.push(OllamaMessage { role: String::from_str("system"), content: prompt });
    messages.push(OllamaMessage { role: String::from_str("user"), content: query.clone() });
    let r = OllamaRequest {
        model: String::from_str("qwen2.5"),
        format: String::from_str("json"),
        stream: false,
        messages,
    };
    proof {
        assert(r@.messages =~= sp_request(ctx@, query@, policy).messages);
    }
    r
}

/// Prompt compilation is deterministic: the same context, query and policy
/// give the byte-identical request, system prompt included.
pub proof fn lemma_prompt_deterministic(
    c1: ContextV,
    c2: ContextV,
    q1: Seq<char>,
    q2: Seq<char>,
    p1: PromptPolicy,
    p2: PromptPolicy,
)
    requires
        c1 == c2,
        q1 == q2,
        p1 == p2,
    ensures
        sp_request(c1, q1, p1) == sp_request(c2, q2, p2),
{
}

/// The compiled system prompt holds no raw newline: normalization leaves
/// only single spaces between tokens, and the serialized context escapes
/// every line break.
pub proof fn lemma_prompt_no_newline(p: PromptPolicy, c: ContextV)
    ensures
        forall|k: int|
            0 <= k < sp_system_prompt(p, c).len() ==> #[trigger] sp_system_prompt(p, c)[k]
                != '\n',
{
    let t = if p is SchemaOnly {
        sp_schema_template()
    } else {
        sp_chain_template()
    };
    let norm = sp_normalize(t);
    let enc = sp_encode_context(c);
    let whole = sp_system_prompt(p, c);
    lemma_norm_go_no_oddspace(t, 0, false, false);
    crate::codec::lemma_context_encodable(c);
    lemma_enc_json_no_breaks(sp_json_of_context(c));
    assert(whole == norm + seq![' '] + enc);
    assert forall|k: int| 0 <= k < whole.len() implies #[trigger] whole[k] != '\n' by {
        if k < norm.len() {
            assert(whole[k] == norm[k]);
            assert(norm[k] == ' ' || !is_unicode_space(norm[k]));
        } else if k == norm.len() {
            assert(whole[k] == ' ');
        } else {
            assert(whole[k] == enc[k - norm.len() - 1]);
        }
    }
}

/// The compiled system prompt embeds the serialized context verbatim,
/// right after the instructional text.
pub proof fn lemma_prompt_embeds_context(p: PromptPolicy, c: ContextV)
    ensures
        sp_match_at(
            sp_system_prompt(p, c),
            sp_normalize(
                if p is SchemaOnly {
                    sp_schema_template()
                } else {
                    sp_chain_template()
                },
            ).len() as int + 1,
            sp_encode_context(c),
        ),
        sp_has_sub(sp_system_prompt(p, c), sp_encode_context(c)),
{
    let t = if p is SchemaOnly {
        sp_schema_template()
    } else {
        sp_chain_template()
    };
    let norm = sp_normalize(t);
    let enc = sp_encode_context(c);
    let whole = sp_system_prompt(p, c);
    assert(whole == norm + seq![' '] + enc);
    assert(whole.subrange(norm.len() as int + 1, norm.len() as int + 1 + enc.len() as int) =~= enc);
}

/// `c1` occurs immediately before `c2` somewhere in `s`.
pub open spec fn sp_adj_pair(s: Seq<char>, c1: char, c2: char) -> bool {
    exists|j: int| 0 <= j && j + 1 < s.len() && #[trigger] s[j] == c1 && #[trigger] s[j + 1] == c2
}

/// An adjacent `{` `"` pair is the same thing as an occurrence of the
/// two-character substring.
proof fn lemma_adj_pair_is_sub(s: Seq<char>)
    ensures
        sp_adj_pair(s, '{', '"') <==> sp_has_sub(s, seq!['{', '"']),
{
    let pat = seq!['{', '"'];
    if sp_adj_pair(s, '{', '"') {
        let j = choose|j: int| 0 <= j && j + 1 < s.len() && #[trigger] s[j] == '{'
            && #[trigger] s[j + 1] == '"';
        assert(s.subrange(j, j + 2) =~= pat);
        assert(sp_match_at(s, j, pat));
    }
    if sp_has_sub(s, pat) {
        let k = choose|k: int| sp_match_at(s, k, pat);
        assert(s.subrange(k, k + 2)[0] == s[k]);
        assert(s.subrange(k, k + 2)[1] == s[k + 1]);
        assert(s[k] == '{' && s[k + 1] == '"');
    }
}

/// Scans both instructional texts for a `{` immediately followed by `"`:
/// where this returns true, [`lemma_prompt_contains_context_once`] applies
/// to both policies.
pub fn templates_are_brace_quote_free() -> (r: bool)
    ensures
        r <==> !sp_adj_pair(sp_schema_template(), '{', '"') && !sp_adj_pair(
            sp_chain_template(),
            '{',
            '"',
        ),
{
    let mut pat: Vec<char> = Vec::new();
    pat.push('{');
    pat.push('"');
    proof {
        assert(pat@ =~= seq!['{', '"']);
        lemma_adj_pair_is_sub(sp_schema_template());
        lemma_adj_pair_is_sub(sp_chain_template());
    }
    let t1 = schema_template_chars();
    let t2 = chain_template_chars();
    !has_sub(&t1, &pat) && !has_sub(&t2, &pat)
}

/// With a gap pending, normalization emits a space first, if anything.
proof fn lemma_norm_gap_first(s: Seq<char>, i: int)
    requires
        0 <= i,
    ensures
        sp_norm_go(s, i, true, true).len() > 0 ==> sp_norm_go(s, i, true, true)[0] == ' ',
    decreases s.len() - i,
{
    if i < s.len() && is_unicode_space(s[i]) {
        lemma_norm_gap_first(s, i + 1);
    }
}

/// Normalization never brings two non-space characters together: an
/// adjacent `{` `"` pair in the output, neither being a space, was adjacent
/// in the input already.
proof fn lemma_norm_adj_pair(s: Seq<char>, i: int, emitted: bool, gap: bool)
    requires
        0 <= i,
        sp_adj_pair(sp_norm_go(s, i, emitted, gap), '{', '"'),
    ensures
        exists|j: int|
            i <= j && j + 1 < s.len() && #[trigger] s[j] == '{' && #[trigger] s[j + 1] == '"',
    decreases s.len() - i,
{
    let out = sp_norm_go(s, i, emitted, gap);
    let k = choose|k: int| 0 <= k && k + 1 < out.len() && #[trigger] out[k] == '{'
        && #[trigger] out[k + 1] == '"';
    if i >= s.len() {
        assert(out.len() == 0);
    } else if is_unicode_space(s[i]) {
        lemma_norm_adj_pair(s, i + 1, emitted, emitted);
    } else {
        let rest = sp_norm_go(s, i + 1, true, false);
        let pre = if gap {
            seq![' ', s[i]]
        } else {
            seq![s[i]]
        };
        assert(out == pre + rest);
        if k + 1 < pre.len() {
            assert(out[k] == pre[k]);
            assert(pre[k] == ' ');
        } else if k == pre.len() - 1 {
            assert(out[k] == pre[k]);
            assert(out[k] == s[i]);
            assert(out[k + 1] == rest[0]);
            if i + 1 >= s.len() {
                assert(rest.len() == 0);
            } else if is_unicode_space(s[i + 1]) {
                assert(rest == sp_norm_go(s, i + 2, true, true));
                lemma_norm_gap_first(s, i + 2);
                assert(rest[0] == ' ');
            } else {
                assert(rest == seq![s[i + 1]] + sp_norm_go(s, i + 2, true, false));
                assert(rest[0] == s[i + 1]);
                assert(s[i] == '{' && s[i + 1] == '"');
            }
        } else {
            let jr = k - pre.len() as int;
            assert(out[k] == rest[jr]);
            assert(out[k + 1] == rest[jr + 1]);
            assert(0 <= jr && jr + 1 < rest.len() && rest[jr] == '{' && rest[jr + 1] == '"');
            assert(sp_adj_pair(rest, '{', '"'));
            lemma_norm_adj_pair(s, i + 1, true, false);
        }
    }
}

/// An adjacent `{` `"` pair in a normalized text was already in the raw
/// text.
pub proof fn lemma_normalize_adj_pair(t: Seq<char>)
    requires
        sp_adj_pair(sp_normalize(t), '{', '"'),
    ensures
        sp_adj_pair(t, '{', '"'),
{
    lemma_norm_adj_pair(t, 0, false, false);
}

/// The serialized context starts with `{"` and is at least two characters.
proof fn lemma_enc_context_head(c: ContextV)
    ensures
        sp_encode_context(c).len() >= 2,
        sp_encode_context(c)[0] == '{',
        sp_encode_context(c)[1] == '"',
{
    let doc = sp_json_of_context(c);
    let ms = doc->Obj_0;
    let inner = crate::json::sp_enc_members(ms, 0);
    let enc = sp_encode_context(c);
    assert(enc == seq!['{'] + inner + seq!['}']);
    assert(inner[0] == '"') by {
        let head = seq!['"'] + crate::json::sp_esc(ms[0].0) + seq!['"', ':']
            + crate::json::sp_enc_json(ms[0].1);
        if ms.len() == 1 {
            assert(inner == head);
        } else {
            assert(inner == head + seq![','] + crate::json::sp_enc_members(ms, 1));
        }
        assert(head[0] == '"');
    }
    assert(enc[0] == '{');
    assert(enc[1] == inner[0]);
}

/// For an instructional text that never holds `{` immediately followed by
/// `"` — true of both templates above, where every brace is followed by a
/// line break — the compiled prompt contains the serialized context exactly
/// once: right after the instructional text, and nowhere else.
pub proof fn lemma_prompt_contains_context_once(t: Seq<char>, c: ContextV)
    requires
        !sp_adj_pair(t, '{', '"'),
    ensures
        forall|k: int|
            sp_match_at(sp_prompt(t, c), k, sp_encode_context(c)) <==> k == sp_normalize(
                t,
            ).len() + 1,
{
    let norm = sp_normalize(t);
    let enc = sp_encode_context(c);
    let whole = sp_prompt(t, c);
    let p = norm.len() as int + 1;
    lemma_enc_context_head(c);
    assert(whole == norm + seq![' '] + enc);
    assert(whole.subrange(p, p + enc.len() as int) =~= enc);
    assert(sp_match_at(whole, p, enc));
    assert forall|k: int| sp_match_at(whole, k, enc) implies k == p by {
        assert(k + enc.len() <= whole.len());
        assert(k <= p);
        if k < p {
            assert(whole.subrange(k, k + enc.len())[0] == enc[0]);
            assert(whole.subrange(k, k + enc.len())[1] == enc[1]);
            assert(whole[k] == '{');
            assert(whole[k + 1] == '"');
            if k == p - 1 {
                assert(whole[k] == ' ');
            } else if k + 1 == p - 1 {
                assert(whole[k + 1] == ' ');
            } else {
                assert(whole[k] == norm[k]);
                assert(whole[k + 1] == norm[k + 1]);
                assert(sp_adj_pair(norm, '{', '"'));
                lemma_normalize_adj_pair(t);
            }
        }
    }
}

} // verus!
