//! The wire codec: how the context, the history log, the transport
//! envelope and the suggestion payload are laid out as JSON documents, and
//! the decoders and encoders that pin the executable code to those layouts.

use vstd::prelude::*;
use crate::json::{JsonV, JsonValue, jv_view, jv_view_list, jv_view_members, sp_enc_json,
    sp_parse_json, parse_json, to_json_string, enc_json, lemma_jv_view_list_index,
    lemma_jv_view_members_index, lemma_jv_view_list_push, lemma_jv_view_members_push};
use crate::models::{Context, ContextV, File, FileV, FileKind, History, HistoryV, DecodeError,
    MissingField, MissingFieldV, MissingFieldSuggestion, MissingFieldSuggestionV, SuggestedCommand,
    SuggestedCommandV, ModelSuggestion, ModelSuggestionV, OllamaMessage, OllamaMessageV,
    OllamaResponse, OllamaResponseV, OllamaPlaceholderResponse};
use crate::strutil::chars_of;

verus! {

/// How a directory-entry kind is written on the wire.
pub open spec fn sp_kind_str(k: FileKind) -> Seq<char> {
    if k is File {
        "file"@
    } else {
        "directory"@
    }
}

/// Executable mirror of [`sp_kind_str`].
pub fn kind_string(k: FileKind) -> (r: String)
    ensures
        r@ == sp_kind_str(k),
{
    match k {
        FileKind::File => String::from_str("file"),
        FileKind::Directory => String::from_str("directory"),
    }
}

/// The wire kind read back, if it names a kind.
pub open spec fn sp_kind_of(s: Seq<char>) -> Option<FileKind> {
    if s == "file"@ {
        Some(FileKind::File)
    } else if s == "directory"@ {
        Some(FileKind::Directory)
    } else {
        None
    }
}

/// A directory entry as a JSON document.
pub open spec fn sp_json_of_file(f: FileV) -> JsonV {
    JsonV::Obj(
        seq![("name"@, JsonV::Str(f.name)), ("kind"@, JsonV::Str(sp_kind_str(f.kind)))],
    )
}

/// A history record as a JSON document.
pub open spec fn sp_json_of_hist(h: HistoryV) -> JsonV {
    JsonV::Obj(
        seq![
            ("dir"@, JsonV::Str(h.dir)),
            ("cmd"@, JsonV::Str(h.cmd)),
            ("datetime"@, JsonV::Str(h.datetime)),
        ],
    )
}

/// The context as a JSON document: `cwd`, then `ls`, then `history`.
pub open spec fn sp_json_of_context(c: ContextV) -> JsonV {
    JsonV::Obj(
        seq![
            ("cwd"@, JsonV::Str(c.cwd)),
            ("ls"@, JsonV::Arr(c.ls.map_values(|f: FileV| sp_json_of_file(f)))),
            (
                "history"@,
                JsonV::Arr(c.history.map_values(|h: HistoryV| sp_json_of_hist(h))),
            ),
        ],
    )
}

/// The serialized form of a context: the canonical encoding of its
/// document.
pub open spec fn sp_encode_context(c: ContextV) -> Seq<char> {
    sp_enc_json(sp_json_of_context(c))
}

/// Builds the document of one directory entry.
fn json_of_file(f: &File) -> (r: JsonValue)
    ensures
        r@ == sp_json_of_file(f@),
{
    let mut ms: Vec<(String, JsonValue)> = Vec::new();
    ms.push((String::from_str("name"), JsonValue::Str(f.name.clone())));
    ms.push((String::from_str("kind"), JsonValue::Str(kind_string(f.kind))));
    let r = JsonValue::Obj(ms);
    proof {
        lemma_jv_view_members_index(r->Obj_0@);
        assert(jv_view_members(r->Obj_0@) =~= seq![
            ("name"@, JsonV::Str(f@.name)),
            ("kind"@, JsonV::Str(sp_kind_str(f@.kind))),
        ]);
    }
    r
}

/// Builds the document of one history record.
fn json_of_hist(h: &History) -> (r: JsonValue)
    ensures
        r@ == sp_json_of_hist(h@),
{
    let mut ms: Vec<(String, JsonValue)> = Vec::new();
    ms.push((String::from_str("dir"), JsonValue::Str(h.dir.clone())));
    ms.push((String::from_str("cmd"), JsonValue::Str(h.cmd.clone())));
    ms.push((String::from_str("datetime"), JsonValue::Str(h.datetime.clone())));
    let r = JsonValue::Obj(ms);
    proof {
        lemma_jv_view_members_index(r->Obj_0@);
        assert(jv_view_members(r->Obj_0@) =~= seq![
            ("dir"@, JsonV::Str(h@.dir)),
            ("cmd"@, JsonV::Str(h@.cmd)),
            ("datetime"@, JsonV::Str(h@.datetime)),
        ]);
    }
    r
}

/// Builds the document of a whole context.
pub fn json_of_context(ctx: &Context) -> (r: JsonValue)
    ensures
        r@ == sp_json_of_context(ctx@),
{
    let mut files: Vec<JsonValue> = Vec::new();
    let mut k: usize = 0;
    while k < ctx.ls.len()
        invariant
            0 <= k <= ctx.ls@.len(),
            jv_view_list(files@) =~= ctx.ls@.subrange(0, k as int).map_values(|f: File| f@)
                .map_values(|f: FileV| sp_json_of_file(f)),
        decreases ctx.ls@.len() - k,
    {
        let ghost files0 = files@;
        files.push(json_of_file(&ctx.ls[k]));
        proof {
            lemma_jv_view_list_push(files0, files@[files@.len() - 1]);
            assert(jv_view_list(files@) =~= ctx.ls@.subrange(0, k as int + 1).map_values(
                |f: File| f@,
            ).map_values(|f: FileV| sp_json_of_file(f)));
        }
        k = k + 1;
    }
    let mut hists: Vec<JsonValue> = Vec::new();
    let mut k2: usize = 0;
    while k2 < ctx.history.len()
        invariant
            0 <= k2 <= ctx.history@.len(),
            jv_view_list(hists@) =~= ctx.history@.subrange(0, k2 as int).map_values(
                |h: History| h@,
            ).map_values(|h: HistoryV| sp_json_of_hist(h)),
        decreases ctx.history@.len() - k2,
    {
        let ghost hists0 = hists@;
        hists.push(json_of_hist(&ctx.history[k2]));
        proof {
            lemma_jv_view_list_push(hists0, hists@[hists@.len() - 1]);
            assert(jv_view_list(hists@) =~= ctx.history@.subrange(0, k2 as int + 1).map_values(
                |h: History| h@,
            ).map_values(|h: HistoryV| sp_json_of_hist(h)));
        }
        k2 = k2 + 1;
    }
    let mut ms: Vec<(String, JsonValue)> = Vec::new();
    ms.push((String::from_str("cwd"), JsonValue::Str(ctx.cwd.clone())));
    ms.push((String::from_str("ls"), JsonValue::Arr(files)));
    ms.push((String::from_str("history"), JsonValue::Arr(hists)));
    let r = JsonValue::Obj(ms);
    proof {
        assert(ctx.ls@.subrange(0, ctx.ls@.len() as int) =~= ctx.ls@);
        assert(ctx.history@.subrange(0, ctx.history@.len() as int) =~= ctx.history@);
        lemma_jv_view_members_index(r->Obj_0@);
        assert(jv_view_members(r->Obj_0@) =~= seq![
            ("cwd"@, JsonV::Str(ctx@.cwd)),
            ("ls"@, JsonV::Arr(ctx@.ls.map_values(|f: FileV| sp_json_of_file(f)))),
            (
                "history"@,
                JsonV::Arr(ctx@.history.map_values(|h: HistoryV| sp_json_of_hist(h))),
            ),
        ]);
    }
    r
}

/// Serializes a context to its canonical JSON text.
pub fn encode_context(ctx: &Context) -> (r: String)
    ensures
        r@ == sp_encode_context(ctx@),
{
    let doc = json_of_context(ctx);
    to_json_string(&doc)
}

/// The first member with the given key, searched in textual order.
pub open spec fn sp_lookup(ms: Seq<(Seq<char>, JsonV)>, key: Seq<char>) -> Option<JsonV>
    decreases ms.len(),
{
    if ms.len() == 0 {
        None
    } else if ms[0].0 == key {
        Some(ms[0].1)
    } else {
        sp_lookup(ms.drop_first(), key)
    }
}

/// Finds the first member named `key`.
fn lookup<'a>(ms: &'a Vec<(String, JsonValue)>, key: &String) -> (r: Option<&'a JsonValue>)
    ensures
        match r {
            Some(v) => sp_lookup(jv_view_members(ms@), key@) == Some((*v)@),
            None => sp_lookup(jv_view_members(ms@), key@) is None,
        },
{
    let ghost vms = jv_view_members(ms@);
    proof {
        lemma_jv_view_members_index(ms@);
    }
    let mut k: usize = 0;
    proof {
        assert(vms.skip(0) =~= vms);
    }
    while k < ms.len()
        invariant
            0 <= k <= ms@.len(),
            vms == jv_view_members(ms@),
            vms.len() == ms@.len(),
            forall|m: int| 0 <= m < ms@.len() ==> vms[m] == (ms@[m].0@, jv_view(ms@[m].1)),
            sp_lookup(vms, key@) == sp_lookup(vms.skip(k as int), key@),
        decreases ms@.len() - k,
    {
        if ms[k].0.eq(key) {
            proof {
                assert(vms.skip(k as int)[0] == vms[k as int]);
            }
            return Some(&ms[k].1);
        }
        proof {
            assert(vms.skip(k as int)[0] == vms[k as int]);
            assert(vms.skip(k as int).drop_first() =~= vms.skip(k as int + 1));
        }
        k = k + 1;
    }
    proof {
        assert(vms.skip(k as int) =~= Seq::<(Seq<char>, JsonV)>::empty());
    }
    None
}

/// The string a document holds, if it is a string.
pub open spec fn sp_str_of(v: JsonV) -> Option<Seq<char>> {
    match v {
        JsonV::Str(s) => Some(s),
        _ => None,
    }
}

/// The number a document holds, if it is a number.
pub open spec fn sp_u64_of(v: JsonV) -> Option<u64> {
    match v {
        JsonV::Num(n) => Some(n),
        _ => None,
    }
}

/// Clones the string a document holds.
fn str_of(v: &JsonValue) -> (r: Option<String>)
    ensures
        match r {
            Some(s) => sp_str_of((*v)@) == Some(s@),
            None => sp_str_of((*v)@) is None,
        },
{
    match v {
        JsonValue::Str(s) => Some(s.clone()),
        _ => None,
    }
}

/// Reads the number a document holds.
fn u64_of(v: &JsonValue) -> (r: Option<u64>)
    ensures
        match r {
            Some(n) => sp_u64_of((*v)@) == Some(n),
            None => sp_u64_of((*v)@) is None,
        },
{
    match v {
        JsonValue::Num(n) => Some(*n),
        _ => None,
    }
}

/// A directory entry read back from its document.
pub open spec fn sp_file_of_json(v: JsonV) -> Option<FileV> {
    match v {
        JsonV::Obj(ms) => {
            match (sp_lookup(ms, "name"@), sp_lookup(ms, "kind"@)) {
                (Some(nv), Some(kv)) => match (sp_str_of(nv), sp_str_of(kv)) {
                    (Some(name), Some(ks)) => match sp_kind_of(ks) {
                        Some(kind) => Some(FileV { name, kind }),
                        None => None,
                    },
                    _ => None,
                },
                _ => None,
            }
        },
        _ => None,
    }
}

/// Reads a directory entry back.
fn file_of_json(v: &JsonValue) -> (r: Option<File>)
    ensures
        match r {
            Some(f) => sp_file_of_json((*v)@) == Some(f@),
            None => sp_file_of_json((*v)@) is None,
        },
{
    let ms = match v {
        JsonValue::Obj(ms) => ms,
        _ => { return None; },
    };
    let nv = match lookup(ms, &String::from_str("name")) {
        Some(nv) => nv,
        None => { return None; },
    };
    let kv = match lookup(ms, &String::from_str("kind")) {
        Some(kv) => kv,
        None => { return None; },
    };
    let name = match str_of(nv) {
        Some(s) => s,
        None => { return None; },
    };
    let ks = match str_of(kv) {
        Some(s) => s,
        None => { return None; },
    };
    let kind = if ks.eq(&String::from_str("file")) {
        FileKind::File
    } else if ks.eq(&String::from_str("directory")) {
        FileKind::Directory
    } else {
        return None;
    };
    Some(File { name, kind })
}

/// A history record read back from its document.
pub open spec fn sp_hist_of_json(v: JsonV) -> Option<HistoryV> {
    match v {
        JsonV::Obj(ms) => {
            match (sp_lookup(ms, "dir"@), sp_lookup(ms, "cmd"@), sp_lookup(ms, "datetime"@)) {
                (Some(dv), Some(cv), Some(tv)) => match (sp_str_of(dv), sp_str_of(cv), sp_str_of(
                    tv,
                )) {
                    (Some(dir), Some(cmd), Some(datetime)) => Some(
                        HistoryV { dir, cmd, datetime },
                    ),
                    _ => None,
                },
                _ => None,
            }
        },
        _ => None,
    }
}

/// Reads a history record back.
fn hist_of_json(v: &JsonValue) -> (r: Option<History>)
    ensures
        match r {
            Some(h) => sp_hist_of_json((*v)@) == Some(h@),
            None => sp_hist_of_json((*v)@) is None,
        },
{
    let ms = match v {
        JsonValue::Obj(ms) => ms,
        _ => { return None; },
    };
    let dv = match lookup(ms, &String::from_str("dir")) {
        Some(x) => x,
        None => { return None; },
    };
    let cv = match lookup(ms, &String::from_str("cmd")) {
        Some(x) => x,
        None => { return None; },
    };
    let tv = match lookup(ms, &String::from_str("datetime")) {
        Some(x) => x,
        None => { return None; },
    };
    let dir = match str_of(dv) {
        Some(s) => s,
        None => { return None; },
    };
    let cmd = match str_of(cv) {
        Some(s) => s,
        None => { return None; },
    };
    let datetime = match str_of(tv) {
        Some(s) => s,
        None => { return None; },
    };
    Some(History { dir, cmd, datetime })
}

/// All directory entries of an `ls` array, or nothing if one is malformed.
pub open spec fn sp_files_of_json(es: Seq<JsonV>) -> Option<Seq<FileV>>
    decreases es.len(),
{
    if es.len() == 0 {
        Some(Seq::empty())
    } else {
        match sp_file_of_json(es[0]) {
            None => None,
            Some(f) => match sp_files_of_json(es.drop_first()) {
                None => None,
                Some(rest) => Some(seq![f] + rest),
            },
        }
    }
}

/// All history records of a `history` array, or nothing if one is
/// malformed.
pub open spec fn sp_hists_of_json(es: Seq<JsonV>) -> Option<Seq<HistoryV>>
    decreases es.len(),
{
    if es.len() == 0 {
        Some(Seq::empty())
    } else {
        match sp_hist_of_json(es[0]) {
            None => None,
            Some(h) => match sp_hists_of_json(es.drop_first()) {
                None => None,
                Some(rest) => Some(seq![h] + rest),
            },
        }
    }
}

/// Reads every directory entry of an array.
fn files_of_json(es: &Vec<JsonValue>) -> (r: Option<Vec<File>>)
    ensures
        match r {
            Some(fs) => sp_files_of_json(jv_view_list(es@)) == Some(
                fs@.map_values(|f: File| f@),
            ),
            None => sp_files_of_json(jv_view_list(es@)) is None,
        },
{
    let ghost l = jv_view_list(es@);
    proof {
        lemma_jv_view_list_index(es@);
    }
    let mut out: Vec<File> = Vec::new();
    let mut k: usize = 0;
    proof {
        if sp_files_of_json(l.skip(0)) is Some {
            let rest = sp_files_of_json(l.skip(0))->0;
            assert(out@.map_values(|f: File| f@) + rest =~= rest);
            assert(l.skip(0) =~= l);
        } else {
            assert(l.skip(0) =~= l);
        }
    }
    while k < es.len()
        invariant
            0 <= k <= es@.len(),
            l == jv_view_list(es@),
            l.len() == es@.len(),
            forall|m: int| 0 <= m < es@.len() ==> l[m] == jv_view(es@[m]),
            (match sp_files_of_json(l.skip(k as int)) {
                Some(rest) => sp_files_of_json(l) == Some(
                    out@.map_values(|f: File| f@) + rest,
                ),
                None => sp_files_of_json(l) is None,
            }),
        decreases es@.len() - k,
    {
        let f = match file_of_json(&es[k]) {
            Some(f) => f,
            None => {
                proof {
                    assert(l.skip(k as int)[0] == l[k as int]);
                }
                return None;
            },
        };
        let ghost out0 = out@;
        out.push(f);
        proof {
            assert(l.skip(k as int)[0] == l[k as int]);
            assert(l.skip(k as int).drop_first() =~= l.skip(k as int + 1));
            if sp_files_of_json(l.skip(k as int + 1)) is Some {
                let rest = sp_files_of_json(l.skip(k as int + 1))->0;
                assert(out@.map_values(|f2: File| f2@) =~= out0.map_values(|f2: File| f2@)
                    + seq![f@]);
                assert(out0.map_values(|f2: File| f2@) + (seq![f@] + rest) =~= (out0.map_values(
                    |f2: File| f2@,
                ) + seq![f@]) + rest);
            }
        }
        k = k + 1;
    }
    proof {
        assert(l.skip(k as int) =~= Seq::<JsonV>::empty());
        let rest = sp_files_of_json(l.skip(k as int))->0;
        assert(out@.map_values(|f: File| f@) + rest =~= out@.map_values(|f: File| f@));
    }
    Some(out)
}

/// Reads every history record of an array.
fn hists_of_json(es: &Vec<JsonValue>) -> (r: Option<Vec<History>>)
    ensures
        match r {
            Some(hs) => sp_hists_of_json(jv_view_list(es@)) == Some(
                hs@.map_values(|h: History| h@),
            ),
            None => sp_hists_of_json(jv_view_list(es@)) is None,
        },
{
    let ghost l = jv_view_list(es@);
    proof {
        lemma_jv_view_list_index(es@);
    }
    let mut out: Vec<History> = Vec::new();
    let mut k: usize = 0;
    proof {
        if sp_hists_of_json(l.skip(0)) is Some {
            let rest = sp_hists_of_json(l.skip(0))->0;
            assert(out@.map_values(|h: History| h@) + rest =~= rest);
            assert(l.skip(0) =~= l);
        } else {
            assert(l.skip(0) =~= l);
        }
    }
    while k < es.len()
        invariant
            0 <= k <= es@.len(),
            l == jv_view_list(es@),
            l.len() == es@.len(),
            forall|m: int| 0 <= m < es@.len() ==> l[m] == jv_view(es@[m]),
            (match sp_hists_of_json(l.skip(k as int)) {
                Some(rest) => sp_hists_of_json(l) == Some(
                    out@.map_values(|h: History| h@) + rest,
                ),
                None => sp_hists_of_json(l) is None,
            }),
        decreases es@.len() - k,
    {
        let h = match hist_of_json(&es[k]) {
            Some(h) => h,
            None => {
                proof {
                    assert(l.skip(k as int)[0] == l[k as int]);
                }
                return None;
            },
        };
        let ghost out0 = out@;
        out.push(h);
        proof {
            assert(l.skip(k as int)[0] == l[k as int]);
            assert(l.skip(k as int).drop_first() =~= l.skip(k as int + 1));
            if sp_hists_of_json(l.skip(k as int + 1)) is Some {
                let rest = sp_hists_of_json(l.skip(k as int + 1))->0;
                assert(out@.map_values(|h2: History| h2@) =~= out0.map_values(
                    |h2: History| h2@,
                ) + seq![h@]);
                assert(out0.map_values(|h2: History| h2@) + (seq![h@] + rest) =~= (
                out0.map_values(|h2: History| h2@) + seq![h@]) + rest);
            }
        }
        k = k + 1;
    }
    proof {
        assert(l.skip(k as int) =~= Seq::<JsonV>::empty());
        let rest = sp_hists_of_json(l.skip(k as int))->0;
        assert(out@.map_values(|h: History| h@) + rest =~= out@.map_values(|h: History| h@));
    }
    Some(out)
}

/// A context read back from its document.
pub open spec fn sp_context_of_json(v: JsonV) -> Option<ContextV> {
    match v {
        JsonV::Obj(ms) => {
            match (sp_lookup(ms, "cwd"@), sp_lookup(ms, "ls"@), sp_lookup(ms, "history"@)) {
                (Some(cv), Some(JsonV::Arr(ls)), Some(JsonV::Arr(hs))) => match (sp_str_of(cv),
                sp_files_of_json(ls), sp_hists_of_json(hs)) {
                    (Some(cwd), Some(files), Some(hists)) => Some(
                        ContextV { cwd, ls: files, history: hists },
                    ),
                    _ => None,
                },
                _ => None,
            }
        },
        _ => None,
    }
}

/// What decoding a serialized context yields.
pub open spec fn sp_decode_context(s: Seq<char>) -> Option<ContextV> {
    match sp_parse_json(s) {
        Some(v) => sp_context_of_json(v),
        None => None,
    }
}

/// Decodes a serialized context; fails with [`DecodeError::Context`] on any
/// text that is not of the context shape.
pub fn decode_context(text: &str) -> (r: Result<Context, DecodeError>)
    ensures
        match r {
            Ok(c) => sp_decode_context(text@) == Some(c@),
            Err(e) => e == DecodeError::Context && sp_decode_context(text@) is None,
        },
{
    let cs = chars_of(text);
    let doc = match parse_json(&cs) {
        Some(doc) => doc,
        None => { return Err(DecodeError::Context); },
    };
    let ms = match &doc {
        JsonValue::Obj(ms) => ms,
        _ => { return Err(DecodeError::Context); },
    };
    let cv = match lookup(ms, &String::from_str("cwd")) {
        Some(x) => x,
        None => { return Err(DecodeError::Context); },
    };
    let lsv = match lookup(ms, &String::from_str("ls")) {
        Some(x) => x,
        None => { return Err(DecodeError::Context); },
    };
    let hsv = match lookup(ms, &String::from_str("history")) {
        Some(x) => x,
        None => { return Err(DecodeError::Context); },
    };
    let cwd = match str_of(cv) {
        Some(s) => s,
        None => { return Err(DecodeError::Context); },
    };
    let ls_arr = match lsv {
        JsonValue::Arr(es) => es,
        _ => { return Err(DecodeError::Context); },
    };
    let hs_arr = match hsv {
        JsonValue::Arr(es) => es,
        _ => { return Err(DecodeError::Context); },
    };
    let files = match files_of_json(ls_arr) {
        Some(fs) => fs,
        None => { return Err(DecodeError::Context); },
    };
    let hists = match hists_of_json(hs_arr) {
        Some(hs) => hs,
        None => { return Err(DecodeError::Context); },
    };
    Ok(Context { cwd, ls: files, history: hists })
}

/// What decoding a history log yields: the records of a top-level array.
pub open spec fn sp_decode_history(s: Seq<char>) -> Option<Seq<HistoryV>> {
    match sp_parse_json(s) {
        Some(v) => match v {
            JsonV::Arr(es) => sp_hists_of_json(es),
            _ => None,
        },
        None => None,
    }
}

/// Decodes a persisted history log; fails with [`DecodeError::History`] on
/// any text that is not a JSON array of history records.
pub fn decode_history(text: &str) -> (r: Result<Vec<History>, DecodeError>)
    ensures
        match r {
            Ok(hs) => sp_decode_history(text@) == Some(hs@.map_values(|h: History| h@)),
            Err(e) => e == DecodeError::History && sp_decode_history(text@) is None,
        },
{
    let cs = chars_of(text);
    let doc = match parse_json(&cs) {
        Some(doc) => doc,
        None => { return Err(DecodeError::History); },
    };
    let es = match &doc {
        JsonValue::Arr(es) => es,
        _ => { return Err(DecodeError::History); },
    };
    match hists_of_json(es) {
        Some(hs) => Ok(hs),
        None => Err(DecodeError::History),
    }
}

/// Reading a kind back from its wire form yields the kind.
proof fn lemma_kind_round(k: FileKind)
    ensures
        sp_kind_of(sp_kind_str(k)) == Some(k),
{
    reveal_strlit("file");
    reveal_strlit("directory");
    assert("file"@.len() != "directory"@.len());
}

/// Reading a directory entry back from its document yields the entry.
proof fn lemma_file_round(f: FileV)
    ensures
        sp_file_of_json(sp_json_of_file(f)) == Some(f),
{
    reveal_strlit("name");
    reveal_strlit("kind");
    assert("name"@[0] != "kind"@[0]);
    assert("name"@ != "kind"@);
    let ms = sp_json_of_file(f)->Obj_0;
    assert(ms[0].0 == "name"@);
    assert(ms.drop_first() =~= seq![("kind"@, JsonV::Str(sp_kind_str(f.kind)))]);
    assert(sp_lookup(ms, "name"@) == Some(JsonV::Str(f.name)));
    assert(sp_lookup(ms.drop_first(), "kind"@) == Some(JsonV::Str(sp_kind_str(f.kind))));
    assert(sp_lookup(ms, "kind"@) == Some(JsonV::Str(sp_kind_str(f.kind))));
    lemma_kind_round(f.kind);
}

/// Reading a history record back from its document yields the record.
proof fn lemma_hist_round(h: HistoryV)
    ensures
        sp_hist_of_json(sp_json_of_hist(h)) == Some(h),
{
    reveal_strlit("dir");
    reveal_strlit("cmd");
    reveal_strlit("datetime");
    assert("dir"@[0] != "cmd"@[0]);
    assert("dir"@ != "cmd"@);
    assert("dir"@.len() != "datetime"@.len());
    assert("cmd"@.len() != "datetime"@.len());
    let ms = sp_json_of_hist(h)->Obj_0;
    let tail = ms.drop_first();
    assert(tail =~= seq![("cmd"@, JsonV::Str(h.cmd)), ("datetime"@, JsonV::Str(h.datetime))]);
    assert(tail.drop_first() =~= seq![("datetime"@, JsonV::Str(h.datetime))]);
    assert(sp_lookup(ms, "dir"@) == Some(JsonV::Str(h.dir)));
    assert(sp_lookup(tail, "cmd"@) == Some(JsonV::Str(h.cmd)));
    assert(sp_lookup(ms, "cmd"@) == Some(JsonV::Str(h.cmd)));
    assert(sp_lookup(tail.drop_first(), "datetime"@) == Some(JsonV::Str(h.datetime)));
    assert(sp_lookup(tail, "datetime"@) == Some(JsonV::Str(h.datetime)));
    assert(sp_lookup(ms, "datetime"@) == Some(JsonV::Str(h.datetime)));
}

/// Reading every entry of an encoded `ls` array back yields the entries.
proof fn lemma_files_round(fs: Seq<FileV>)
    ensures
        sp_files_of_json(fs.map_values(|f: FileV| sp_json_of_file(f))) == Some(fs),
    decreases fs.len(),
{
    let docs = fs.map_values(|f: FileV| sp_json_of_file(f));
    if fs.len() == 0 {
        assert(fs =~= Seq::<FileV>::empty());
    } else {
        lemma_file_round(fs[0]);
        lemma_files_round(fs.drop_first());
        assert(docs.drop_first() =~= fs.drop_first().map_values(|f: FileV| sp_json_of_file(f)));
        assert(docs[0] == sp_json_of_file(fs[0]));
        assert(seq![fs[0]] + fs.drop_first() =~= fs);
    }
}

/// Reading every record of an encoded `history` array back yields the
/// records.
proof fn lemma_hists_round(hs: Seq<HistoryV>)
    ensures
        sp_hists_of_json(hs.map_values(|h: HistoryV| sp_json_of_hist(h))) == Some(hs),
    decreases hs.len(),
{
    let docs = hs.map_values(|h: HistoryV| sp_json_of_hist(h));
    if hs.len() == 0 {
        assert(hs =~= Seq::<HistoryV>::empty());
    } else {
        lemma_hist_round(hs[0]);
        lemma_hists_round(hs.drop_first());
        assert(docs.drop_first() =~= hs.drop_first().map_values(|h: HistoryV| sp_json_of_hist(h)));
        assert(docs[0] == sp_json_of_hist(hs[0]));
        assert(seq![hs[0]] + hs.drop_first() =~= hs);
    }
}

/// Reading a context back from its document yields the context.
proof fn lemma_context_of_json_round(c: ContextV)
    ensures
        sp_context_of_json(sp_json_of_context(c)) == Some(c),
{
    reveal_strlit("cwd");
    reveal_strlit("ls");
    reveal_strlit("history");
    assert("cwd"@.len() != "ls"@.len());
    assert("cwd"@.len() != "history"@.len());
    assert("ls"@.len() != "history"@.len());
    let ms = sp_json_of_context(c)->Obj_0;
    let lsdoc = JsonV::Arr(c.ls.map_values(|f: FileV| sp_json_of_file(f)));
    let hsdoc = JsonV::Arr(c.history.map_values(|h: HistoryV| sp_json_of_hist(h)));
    let tail = ms.drop_first();
    assert(tail =~= seq![("ls"@, lsdoc), ("history"@, hsdoc)]);
    assert(tail.drop_first() =~= seq![("history"@, hsdoc)]);
    assert(sp_lookup(ms, "cwd"@) == Some(JsonV::Str(c.cwd)));
    assert(sp_lookup(tail, "ls"@) == Some(lsdoc));
    assert(sp_lookup(ms, "ls"@) == Some(lsdoc));
    assert(sp_lookup(tail.drop_first(), "history"@) == Some(hsdoc));
    assert(sp_lookup(tail, "history"@) == Some(hsdoc));
    assert(sp_lookup(ms, "history"@) == Some(hsdoc));
    lemma_files_round(c.ls);
    lemma_hists_round(c.history);
}

/// Every directory-entry document is free of raw numeric tokens.
proof fn lemma_files_encodable(fs: Seq<FileV>)
    ensures
        crate::json::jv_wf_list(fs.map_values(|f: FileV| sp_json_of_file(f))),
    decreases fs.len(),
{
    let docs = fs.map_values(|f: FileV| sp_json_of_file(f));
    if fs.len() > 0 {
        lemma_files_encodable(fs.drop_first());
        assert(docs.drop_first() =~= fs.drop_first().map_values(|f: FileV| sp_json_of_file(f)));
        let ms = sp_json_of_file(fs[0])->Obj_0;
        assert(ms.drop_first() =~= seq![
            ("kind"@, JsonV::Str(sp_kind_str(fs[0].kind))),
        ]);
        assert(ms.drop_first().drop_first() =~= Seq::<(Seq<char>, JsonV)>::empty());
        assert(crate::json::jv_wf_members(ms.drop_first().drop_first()));
        assert(crate::json::jv_encodable(ms.drop_first()[0].1));
        assert(crate::json::jv_wf_members(ms.drop_first()));
        assert(crate::json::jv_encodable(ms[0].1));
        assert(crate::json::jv_wf_members(ms));
        assert(docs[0] == sp_json_of_file(fs[0]));
        assert(crate::json::jv_encodable(docs[0]));
    }
}

/// Every history-record document is free of raw numeric tokens.
proof fn lemma_hists_encodable(hs: Seq<HistoryV>)
    ensures
        crate::json::jv_wf_list(hs.map_values(|h: HistoryV| sp_json_of_hist(h))),
    decreases hs.len(),
{
    let docs = hs.map_values(|h: HistoryV| sp_json_of_hist(h));
    if hs.len() > 0 {
        lemma_hists_encodable(hs.drop_first());
        assert(docs.drop_first() =~= hs.drop_first().map_values(|h: HistoryV| sp_json_of_hist(h)));
        let ms = sp_json_of_hist(hs[0])->Obj_0;
        assert(ms.drop_first() =~= seq![
            ("cmd"@, JsonV::Str(hs[0].cmd)),
            ("datetime"@, JsonV::Str(hs[0].datetime)),
        ]);
        assert(ms.drop_first().drop_first() =~= seq![("datetime"@, JsonV::Str(hs[0].datetime))]);
        assert(ms.drop_first().drop_first().drop_first() =~= Seq::<(Seq<char>, JsonV)>::empty());
        assert(crate::json::jv_wf_members(ms.drop_first().drop_first().drop_first()));
        assert(crate::json::jv_encodable(ms.drop_first().drop_first()[0].1));
        assert(crate::json::jv_wf_members(ms.drop_first().drop_first()));
        assert(crate::json::jv_encodable(ms.drop_first()[0].1));
        assert(crate::json::jv_wf_members(ms.drop_first()));
        assert(crate::json::jv_encodable(ms[0].1));
        assert(crate::json::jv_wf_members(ms));
        assert(docs[0] == sp_json_of_hist(hs[0]));
        assert(crate::json::jv_encodable(docs[0]));
    }
}

/// A context document holds only strings, arrays and objects: every number
/// constraint of the encodable predicate is vacuous.
pub proof fn lemma_context_encodable(c: ContextV)
    ensures
        crate::json::jv_encodable(sp_json_of_context(c)),
{
    let ms = sp_json_of_context(c)->Obj_0;
    let lsdoc = JsonV::Arr(c.ls.map_values(|f: FileV| sp_json_of_file(f)));
    let hsdoc = JsonV::Arr(c.history.map_values(|h: HistoryV| sp_json_of_hist(h)));
    lemma_files_encodable(c.ls);
    lemma_hists_encodable(c.history);
    assert(ms.drop_first() =~= seq![("ls"@, lsdoc), ("history"@, hsdoc)]);
    assert(ms.drop_first().drop_first() =~= seq![("history"@, hsdoc)]);
    assert(ms.drop_first().drop_first().drop_first() =~= Seq::<(Seq<char>, JsonV)>::empty());
    assert(crate::json::jv_wf_members(ms.drop_first().drop_first().drop_first()));
    assert(crate::json::jv_encodable(ms.drop_first().drop_first()[0].1));
    assert(crate::json::jv_wf_members(ms.drop_first().drop_first()));
    assert(crate::json::jv_encodable(ms.drop_first()[0].1));
    assert(crate::json::jv_wf_members(ms.drop_first()));
    assert(crate::json::jv_encodable(ms[0].1));
    assert(crate::json::jv_wf_members(ms));
}

/// Round trip: decoding the serialized form of any context yields an
/// equal context, field for field.
pub proof fn lemma_context_round_trip(c: ContextV)
    ensures
        sp_decode_context(sp_encode_context(c)) == Some(c),
{
    lemma_context_encodable(c);
    crate::json::lemma_parse_json_of_enc(sp_json_of_context(c));
    lemma_context_of_json_round(c);
}

/// One pre-computed hint read back: `{value, reasoning}`.
pub open spec fn sp_mfsug_of_json(v: JsonV) -> Option<MissingFieldSuggestionV> {
    match v {
        JsonV::Obj(ms) => match (sp_lookup(ms, "value"@), sp_lookup(ms, "reasoning"@)) {
            (Some(vv), Some(rv)) => match (sp_str_of(vv), sp_str_of(rv)) {
                (Some(value), Some(reasoning)) => Some(
                    MissingFieldSuggestionV { value, reasoning },
                ),
                _ => None,
            },
            _ => None,
        },
        _ => None,
    }
}

pub open spec fn sp_mfsugs_of_json(es: Seq<JsonV>) -> Option<Seq<MissingFieldSuggestionV>>
    decreases es.len(),
{
    if es.len() == 0 {
        Some(Seq::empty())
    } else {
        match sp_mfsug_of_json(es[0]) {
            None => None,
            Some(x) => match sp_mfsugs_of_json(es.drop_first()) {
                None => None,
                Some(rest) => Some(seq![x] + rest),
            },
        }
    }
}

/// One missing field read back: `key` and `reasoning` are required, the
/// `suggestions` member may be absent and then stands for no hints.
pub open spec fn sp_mf_of_json(v: JsonV) -> Option<MissingFieldV> {
    match v {
        JsonV::Obj(ms) => match (sp_lookup(ms, "key"@), sp_lookup(ms, "reasoning"@)) {
            (Some(kv), Some(rv)) => match (sp_str_of(kv), sp_str_of(rv)) {
                (Some(key), Some(reasoning)) => match sp_lookup(ms, "suggestions"@) {
                    None => Some(MissingFieldV { key, reasoning, suggestions: Seq::empty() }),
                    Some(JsonV::Arr(es)) => match sp_mfsugs_of_json(es) {
                        Some(suggestions) => Some(MissingFieldV { key, reasoning, suggestions }),
                        None => None,
                    },
                    Some(_) => None,
                },
                _ => None,
            },
            _ => None,
        },
        _ => None,
    }
}

pub open spec fn sp_mfs_of_json(es: Seq<JsonV>) -> Option<Seq<MissingFieldV>>
    decreases es.len(),
{
    if es.len() == 0 {
        Some(Seq::empty())
    } else {
        match sp_mf_of_json(es[0]) {
            None => None,
            Some(x) => match sp_mfs_of_json(es.drop_first()) {
                None => None,
                Some(rest) => Some(seq![x] + rest),
            },
        }
    }
}

/// One command read back: `cmd`, `reasoning` and `missing_fields` are all
/// required.
pub open spec fn sp_cmd_of_json(v: JsonV) -> Option<SuggestedCommandV> {
    match v {
        JsonV::Obj(ms) => match (sp_lookup(ms, "cmd"@), sp_lookup(ms, "reasoning"@), sp_lookup(
            ms,
            "missing_fields"@,
        )) {
            (Some(cv), Some(rv), Some(JsonV::Arr(fs))) => match (sp_str_of(cv), sp_str_of(rv),
            sp_mfs_of_json(fs)) {
                (Some(cmd), Some(reasoning), Some(missing_fields)) => Some(
                    SuggestedCommandV { reasoning, cmd, missing_fields },
                ),
                _ => None,
            },
            _ => None,
        },
        _ => None,
    }
}

pub open spec fn sp_cmds_of_json(es: Seq<JsonV>) -> Option<Seq<SuggestedCommandV>>
    decreases es.len(),
{
    if es.len() == 0 {
        Some(Seq::empty())
    } else {
        match sp_cmd_of_json(es[0]) {
            None => None,
            Some(x) => match sp_cmds_of_json(es.drop_first()) {
                None => None,
                Some(rest) => Some(seq![x] + rest),
            },
        }
    }
}

/// One suggestion of the chain-aware shape: `reasoning` and a `commands`
/// array.
pub open spec fn sp_sugg_nested_of_json(v: JsonV) -> Option<ModelSuggestionV> {
    match v {
        JsonV::Obj(ms) => match (sp_lookup(ms, "reasoning"@), sp_lookup(ms, "commands"@)) {
            (Some(rv), Some(JsonV::Arr(cs))) => match (sp_str_of(rv), sp_cmds_of_json(cs)) {
                (Some(reasoning), Some(commands)) => Some(
                    ModelSuggestionV { reasoning, commands },
                ),
                _ => None,
            },
            _ => None,
        },
        _ => None,
    }
}

/// One suggestion of the flat shape: `cmd`, `missing_fields` and
/// `reasoning` sit directly on the suggestion, which then stands for a
/// chain of one command.
pub open spec fn sp_sugg_flat_of_json(v: JsonV) -> Option<ModelSuggestionV> {
    match v {
        JsonV::Obj(ms) => match (sp_lookup(ms, "cmd"@), sp_lookup(ms, "reasoning"@), sp_lookup(
            ms,
            "missing_fields"@,
        )) {
            (Some(cv), Some(rv), Some(JsonV::Arr(fs))) => match (sp_str_of(cv), sp_str_of(rv),
            sp_mfs_of_json(fs)) {
                (Some(cmd), Some(reasoning), Some(missing_fields)) => Some(
                    ModelSuggestionV {
                        reasoning,
                        commands: seq![SuggestedCommandV { reasoning, cmd, missing_fields }],
                    },
                ),
                _ => None,
            },
            _ => None,
        },
        _ => None,
    }
}

pub open spec fn sp_suggs_nested_of_json(es: Seq<JsonV>) -> Option<Seq<ModelSuggestionV>>
    decreases es.len(),
{
    if es.len() == 0 {
        Some(Seq::empty())
    } else {
        match sp_sugg_nested_of_json(es[0]) {
            None => None,
            Some(x) => match sp_suggs_nested_of_json(es.drop_first()) {
                None => None,
                Some(rest) => Some(seq![x] + rest),
            },
        }
    }
}

pub open spec fn sp_suggs_flat_of_json(es: Seq<JsonV>) -> Option<Seq<ModelSuggestionV>>
    decreases es.len(),
{
    if es.len() == 0 {
        Some(Seq::empty())
    } else {
        match sp_sugg_flat_of_json(es[0]) {
            None => None,
            Some(x) => match sp_suggs_flat_of_json(es.drop_first()) {
                None => None,
                Some(rest) => Some(seq![x] + rest),
            },
        }
    }
}

/// The suggestion list of a content payload: an object with a `response`
/// array, its elements read in the chain-aware shape, or, where that
/// fails, all read in the flat shape.
pub open spec fn sp_content_of_json(v: JsonV) -> Option<Seq<ModelSuggestionV>> {
    match v {
        JsonV::Obj(ms) => match sp_lookup(ms, "response"@) {
            Some(JsonV::Arr(es)) => match sp_suggs_nested_of_json(es) {
                Some(sugs) => Some(sugs),
                None => sp_suggs_flat_of_json(es),
            },
            _ => None,
        },
        _ => None,
    }
}

/// What decoding an assistant content payload yields.
pub open spec fn sp_decode_content(s: Seq<char>) -> Option<Seq<ModelSuggestionV>> {
    match sp_parse_json(s) {
        Some(v) => sp_content_of_json(v),
        None => None,
    }
}

/// One chat message read back: `role` and `content`.
pub open spec fn sp_message_of_json(v: JsonV) -> Option<OllamaMessageV> {
    match v {
        JsonV::Obj(ms) => match (sp_lookup(ms, "role"@), sp_lookup(ms, "content"@)) {
            (Some(rv), Some(cv)) => match (sp_str_of(rv), sp_str_of(cv)) {
                (Some(role), Some(content)) => Some(OllamaMessageV { role, content }),
                _ => None,
            },
            _ => None,
        },
        _ => None,
    }
}

/// The transport envelope read back: every field of the reply shape is
/// required.
pub open spec fn sp_envelope_of_json(v: JsonV) -> Option<OllamaResponseV> {
    match v {
        JsonV::Obj(ms) => match (sp_lookup(ms, "model"@), sp_lookup(ms, "created_at"@), sp_lookup(
            ms,
            "message"@,
        ), sp_lookup(ms, "done_reason"@)) {
            (Some(mv), Some(av), Some(gv), Some(dv)) => match (sp_str_of(mv), sp_str_of(av),
            sp_message_of_json(gv), sp_str_of(dv)) {
                (Some(model), Some(created_at), Some(message), Some(done_reason)) => match (
                sp_lookup(ms, "total_duration"@),
                sp_lookup(ms, "load_duration"@),
                sp_lookup(ms, "prompt_eval_count"@),
                sp_lookup(ms, "prompt_eval_duration"@),
                sp_lookup(ms, "eval_count"@),
                sp_lookup(ms, "eval_duration"@),
            ) {
                    (
                        Some(JsonV::Num(total_duration)),
                        Some(JsonV::Num(load_duration)),
                        Some(JsonV::Num(prompt_eval_count)),
                        Some(JsonV::Num(prompt_eval_duration)),
                        Some(JsonV::Num(eval_count)),
                        Some(JsonV::Num(eval_duration)),
                    ) => Some(
                        OllamaResponseV {
                            model,
                            created_at,
                            message,
                            done_reason,
                            total_duration,
                            load_duration,
                            prompt_eval_count,
                            prompt_eval_duration,
                            eval_count,
                            eval_duration,
                        },
                    ),
                    _ => None,
                },
                _ => None,
            },
            _ => None,
        },
        _ => None,
    }
}

/// What decoding a transport envelope yields.
pub open spec fn sp_decode_envelope(s: Seq<char>) -> Option<OllamaResponseV> {
    match sp_parse_json(s) {
        Some(v) => sp_envelope_of_json(v),
        None => None,
    }
}

fn mfsug_of_json(v: &JsonValue) -> (r: Option<MissingFieldSuggestion>)
    ensures
        match r {
            Some(x) => sp_mfsug_of_json((*v)@) == Some(x@),
            None => sp_mfsug_of_json((*v)@) is None,
        },
{
    let ms = match v {
        JsonValue::Obj(ms) => ms,
        _ => { return None; },
    };
    let vv = match lookup(ms, &String::from_str("value")) {
        Some(x) => x,
        None => { return None; },
    };
    let rv = match lookup(ms, &String::from_str("reasoning")) {
        Some(x) => x,
        None => { return None; },
    };
    let value = match str_of(vv) {
        Some(s) => s,
        None => { return None; },
    };
    let reasoning = match str_of(rv) {
        Some(s) => s,
        None => { return None; },
    };
    Some(MissingFieldSuggestion { value, reasoning })
}

fn mfsugs_of_json(es: &Vec<JsonValue>) -> (r: Option<Vec<MissingFieldSuggestion>>)
    ensures
        match r {
            Some(xs) => sp_mfsugs_of_json(jv_view_list(es@)) == Some(
                xs@.map_values(|x: MissingFieldSuggestion| x@),
            ),
            None => sp_mfsugs_of_json(jv_view_list(es@)) is None,
        },
{
    let ghost l = jv_view_list(es@);
    proof {
        lemma_jv_view_list_index(es@);
    }
    let mut out: Vec<MissingFieldSuggestion> = Vec::new();
    let mut k: usize = 0;
    proof {
        assert(l.skip(0) =~= l);
        if sp_mfsugs_of_json(l) is Some {
            let rest = sp_mfsugs_of_json(l)->0;
            assert(out@.map_values(|x: MissingFieldSuggestion| x@) + rest =~= rest);
        }
    }
    while k < es.len()
        invariant
            0 <= k <= es@.len(),
            l == jv_view_list(es@),
            l.len() == es@.len(),
            forall|m: int| 0 <= m < es@.len() ==> l[m] == jv_view(es@[m]),
            (match sp_mfsugs_of_json(l.skip(k as int)) {
                Some(rest) => sp_mfsugs_of_json(l) == Some(
                    out@.map_values(|x: MissingFieldSuggestion| x@) + rest,
                ),
                None => sp_mfsugs_of_json(l) is None,
            }),
        decreases es@.len() - k,
    {
        let x = match mfsug_of_json(&es[k]) {
            Some(x) => x,
            None => {
                proof {
                    assert(l.skip(k as int)[0] == l[k as int]);
                }
                return None;
            },
        };
        let ghost out0 = out@;
        out.push(x);
        proof {
            assert(l.skip(k as int)[0] == l[k as int]);
            assert(l.skip(k as int).drop_first() =~= l.skip(k as int + 1));
            if sp_mfsugs_of_json(l.skip(k as int + 1)) is Some {
                let rest = sp_mfsugs_of_json(l.skip(k as int + 1))->0;
                assert(out@.map_values(|y: MissingFieldSuggestion| y@) =~= out0.map_values(
                    |y: MissingFieldSuggestion| y@,
                ) + seq![x@]);
                assert(out0.map_values(|y: MissingFieldSuggestion| y@) + (seq![x@] + rest) =~= (
                out0.map_values(|y: MissingFieldSuggestion| y@) + seq![x@]) + rest);
            }
        }
        k = k + 1;
    }
    proof {
        assert(l.skip(k as int) =~= Seq::<JsonV>::empty());
        let rest = sp_mfsugs_of_json(l.skip(k as int))->0;
        assert(out@.map_values(|x: MissingFieldSuggestion| x@) + rest =~= out@.map_values(
            |x: MissingFieldSuggestion| x@,
        ));
    }
    Some(out)
}

fn mf_of_json(v: &JsonValue) -> (r: Option<MissingField>)
    ensures
        match r {
            Some(x) => sp_mf_of_json((*v)@) == Some(x@),
            None => sp_mf_of_json((*v)@) is None,
        },
{
    let ms = match v {
        JsonValue::Obj(ms) => ms,
        _ => { return None; },
    };
    let kv = match lookup(ms, &String::from_str("key")) {
        Some(x) => x,
        None => { return None; },
    };
    let rv = match lookup(ms, &String::from_str("reasoning")) {
        Some(x) => x,
        None => { return None; },
    };
    let key = match str_of(kv) {
        Some(s) => s,
        None => { return None; },
    };
    let reasoning = match str_of(rv) {
        Some(s) => s,
        None => { return None; },
    };
    match lookup(ms, &String::from_str("suggestions")) {
        None => {
            let suggestions: Vec<MissingFieldSuggestion> = Vec::new();
            proof {
                assert(suggestions@.map_values(|x: MissingFieldSuggestion| x@) =~= Seq::<
                    MissingFieldSuggestionV,
                >::empty());
            }
            Some(MissingField { key, reasoning, suggestions })
        },
        Some(sv) => {
            let es = match sv {
                JsonValue::Arr(es) => es,
                _ => { return None; },
            };
            match mfsugs_of_json(es) {
                Some(suggestions) => Some(MissingField { key, reasoning, suggestions }),
                None => None,
            }
        },
    }
}

fn mfs_of_json(es: &Vec<JsonValue>) -> (r: Option<Vec<MissingField>>)
    ensures
        match r {
            Some(xs) => sp_mfs_of_json(jv_view_list(es@)) == Some(
                xs@.map_values(|x: MissingField| x@),
            ),
            None => sp_mfs_of_json(jv_view_list(es@)) is None,
        },
{
    let ghost l = jv_view_list(es@);
    proof {
        lemma_jv_view_list_index(es@);
    }
    let mut out: Vec<MissingField> = Vec::new();
    let mut k: usize = 0;
    proof {
        assert(l.skip(0) =~= l);
        if sp_mfs_of_json(l) is Some {
            let rest = sp_mfs_of_json(l)->0;
            assert(out@.map_values(|x: MissingField| x@) + rest =~= rest);
        }
    }
    while k < es.len()
        invariant
            0 <= k <= es@.len(),
            l == jv_view_list(es@),
            l.len() == es@.len(),
            forall|m: int| 0 <= m < es@.len() ==> l[m] == jv_view(es@[m]),
            (match sp_mfs_of_json(l.skip(k as int)) {
                Some(rest) => sp_mfs_of_json(l) == Some(
                    out@.map_values(|x: MissingField| x@) + rest,
                ),
                None => sp_mfs_of_json(l) is None,
            }),
        decreases es@.len() - k,
    {
        let x = match mf_of_json(&es[k]) {
            Some(x) => x,
            None => {
                proof {
                    assert(l.skip(k as int)[0] == l[k as int]);
                }
                return None;
            },
        };
        let ghost out0 = out@;
        out.push(x);
        proof {
            assert(l.skip(k as int)[0] == l[k as int]);
            assert(l.skip(k as int).drop_first() =~= l.skip(k as int + 1));
            if sp_mfs_of_json(l.skip(k as int + 1)) is Some {
                let rest = sp_mfs_of_json(l.skip(k as int + 1))->0;
                assert(out@.map_values(|y: MissingField| y@) =~= out0.map_values(
                    |y: MissingField| y@,
                ) + seq![x@]);
                assert(out0.map_values(|y: MissingField| y@) + (seq![x@] + rest) =~= (
                out0.map_values(|y: MissingField| y@) + seq![x@]) + rest);
            }
        }
        k = k + 1;
    }
    proof {
        assert(l.skip(k as int) =~= Seq::<JsonV>::empty());
        let rest = sp_mfs_of_json(l.skip(k as int))->0;
        assert(out@.map_values(|x: MissingField| x@) + rest =~= out@.map_values(
            |x: MissingField| x@,
        ));
    }
    Some(out)
}

fn cmd_of_json(v: &JsonValue) -> (r: Option<SuggestedCommand>)
    ensures
        match r {
            Some(x) => sp_cmd_of_json((*v)@) == Some(x@),
            None => sp_cmd_of_json((*v)@) is None,
        },
{
    let ms = match v {
        JsonValue::Obj(ms) => ms,
        _ => { return None; },
    };
    let cv = match lookup(ms, &String::from_str("cmd")) {
        Some(x) => x,
        None => { return None; },
    };
    let rv = match lookup(ms, &String::from_str("reasoning")) {
        Some(x) => x,
        None => { return None; },
    };
    let fv = match lookup(ms, &String::from_str("missing_fields")) {
        Some(x) => x,
        None => { return None; },
    };
    let cmd = match str_of(cv) {
        Some(s) => s,
        None => { return None; },
    };
    let reasoning = match str_of(rv) {
        Some(s) => s,
        None => { return None; },
    };
    let fs = match fv {
        JsonValue::Arr(es) => es,
        _ => { return None; },
    };
    match mfs_of_json(fs) {
        Some(missing_fields) => Some(SuggestedCommand { reasoning, cmd, missing_fields }),
        None => None,
    }
}

fn cmds_of_json(es: &Vec<JsonValue>) -> (r: Option<Vec<SuggestedCommand>>)
    ensures
        match r {
            Some(xs) => sp_cmds_of_json(jv_view_list(es@)) == Some(
                xs@.map_values(|x: SuggestedCommand| x@),
            ),
            None => sp_cmds_of_json(jv_view_list(es@)) is None,
        },
{
    let ghost l = jv_view_list(es@);
    proof {
        lemma_jv_view_list_index(es@);
    }
    let mut out: Vec<SuggestedCommand> = Vec::new();
    let mut k: usize = 0;
    proof {
        assert(l.skip(0) =~= l);
        if sp_cmds_of_json(l) is Some {
            let rest = sp_cmds_of_json(l)->0;
            assert(out@.map_values(|x: SuggestedCommand| x@) + rest =~= rest);
        }
    }
    while k < es.len()
        invariant
            0 <= k <= es@.len(),
            l == jv_view_list(es@),
            l.len() == es@.len(),
            forall|m: int| 0 <= m < es@.len() ==> l[m] == jv_view(es@[m]),
            (match sp_cmds_of_json(l.skip(k as int)) {
                Some(rest) => sp_cmds_of_json(l) == Some(
                    out@.map_values(|x: SuggestedCommand| x@) + rest,
                ),
                None => sp_cmds_of_json(l) is None,
            }),
        decreases es@.len() - k,
    {
        let x = match cmd_of_json(&es[k]) {
            Some(x) => x,
            None => {
                proof {
                    assert(l.skip(k as int)[0] == l[k as int]);
                }
                return None;
            },
        };
        let ghost out0 = out@;
        out.push(x);
        proof {
            assert(l.skip(k as int)[0] == l[k as int]);
            assert(l.skip(k as int).drop_first() =~= l.skip(k as int + 1));
            if sp_cmds_of_json(l.skip(k as int + 1)) is Some {
                let rest = sp_cmds_of_json(l.skip(k as int + 1))->0;
                assert(out@.map_values(|y: SuggestedCommand| y@) =~= out0.map_values(
                    |y: SuggestedCommand| y@,
                ) + seq![x@]);
                assert(out0.map_values(|y: SuggestedCommand| y@) + (seq![x@] + rest) =~= (
                out0.map_values(|y: SuggestedCommand| y@) + seq![x@]) + rest);
            }
        }
        k = k + 1;
    }
    proof {
        assert(l.skip(k as int) =~= Seq::<JsonV>::empty());
        let rest = sp_cmds_of_json(l.skip(k as int))->0;
        assert(out@.map_values(|x: SuggestedCommand| x@) + rest =~= out@.map_values(
            |x: SuggestedCommand| x@,
        ));
    }
    Some(out)
}

fn sugg_nested_of_json(v: &JsonValue) -> (r: Option<ModelSuggestion>)
    ensures
        match r {
            Some(x) => sp_sugg_nested_of_json((*v)@) == Some(x@),
            None => sp_sugg_nested_of_json((*v)@) is None,
        },
{
    let ms = match v {
        JsonValue::Obj(ms) => ms,
        _ => { return None; },
    };
    let rv = match lookup(ms, &String::from_str("reasoning")) {
        Some(x) => x,
        None => { return None; },
    };
    let cv = match lookup(ms, &String::from_str("commands")) {
        Some(x) => x,
        None => { return None; },
    };
    let reasoning = match str_of(rv) {
        Some(s) => s,
        None => { return None; },
    };
    let cs = match cv {
        JsonValue::Arr(es) => es,
        _ => { return None; },
    };
    match cmds_of_json(cs) {
        Some(commands) => Some(ModelSuggestion { reasoning, commands }),
        None => None,
    }
}

fn sugg_flat_of_json(v: &JsonValue) -> (r: Option<ModelSuggestion>)
    ensures
        match r {
            Some(x) => sp_sugg_flat_of_json((*v)@) == Some(x@),
            None => sp_sugg_flat_of_json((*v)@) is None,
        },
{
    let ms = match v {
        JsonValue::Obj(ms) => ms,
        _ => { return None; },
    };
    let cv = match lookup(ms, &String::from_str("cmd")) {
        Some(x) => x,
        None => { return None; },
    };
    let rv = match lookup(ms, &String::from_str("reasoning")) {
        Some(x) => x,
        None => { return None; },
    };
    let fv = match lookup(ms, &String::from_str("missing_fields")) {
        Some(x) => x,
        None => { return None; },
    };
    let cmd = match str_of(cv) {
        Some(s) => s,
        None => { return None; },
    };
    let reasoning = match str_of(rv) {
        Some(s) => s,
        None => { return None; },
    };
    let fs = match fv {
        JsonValue::Arr(es) => es,
        _ => { return None; },
    };
    let missing_fields = match mfs_of_json(fs) {
        Some(x) => x,
        None => { return None; },
    };
    let mut commands: Vec<SuggestedCommand> = Vec::new();
    commands.push(SuggestedCommand { reasoning: reasoning.clone(), cmd, missing_fields });
    let r = ModelSuggestion { reasoning, commands };
    proof {
        assert(r@.commands =~= seq![
            SuggestedCommandV {
                reasoning: r@.reasoning,
                cmd: r@.commands[0].cmd,
                missing_fields: r@.commands[0].missing_fields,
            },
        ]);
    }
    Some(r)
}

fn suggs_nested_of_json(es: &Vec<JsonValue>) -> (r: Option<Vec<ModelSuggestion>>)
    ensures
        match r {
            Some(xs) => sp_suggs_nested_of_json(jv_view_list(es@)) == Some(
                xs@.map_values(|x: ModelSuggestion| x@),
            ),
            None => sp_suggs_nested_of_json(jv_view_list(es@)) is None,
        },
{
    let ghost l = jv_view_list(es@);
    proof {
        lemma_jv_view_list_index(es@);
    }
    let mut out: Vec<ModelSuggestion> = Vec::new();
    let mut k: usize = 0;
    proof {
        assert(l.skip(0) =~= l);
        if sp_suggs_nested_of_json(l) is Some {
            let rest = sp_suggs_nested_of_json(l)->0;
            assert(out@.map_values(|x: ModelSuggestion| x@) + rest =~= rest);
        }
    }
    while k < es.len()
        invariant
            0 <= k <= es@.len(),
            l == jv_view_list(es@),
            l.len() == es@.len(),
            forall|m: int| 0 <= m < es@.len() ==> l[m] == jv_view(es@[m]),
            (match sp_suggs_nested_of_json(l.skip(k as int)) {
                Some(rest) => sp_suggs_nested_of_json(l) == Some(
                    out@.map_values(|x: ModelSuggestion| x@) + rest,
                ),
                None => sp_suggs_nested_of_json(l) is None,
            }),
        decreases es@.len() - k,
    {
        let x = match sugg_nested_of_json(&es[k]) {
            Some(x) => x,
            None => {
                proof {
                    assert(l.skip(k as int)[0] == l[k as int]);
                }
                return None;
            },
        };
        let ghost out0 = out@;
        out.push(x);
        proof {
            assert(l.skip(k as int)[0] == l[k as int]);
            assert(l.skip(k as int).drop_first() =~= l.skip(k as int + 1));
            if sp_suggs_nested_of_json(l.skip(k as int + 1)) is Some {
                let rest = sp_suggs_nested_of_json(l.skip(k as int + 1))->0;
                assert(out@.map_values(|y: ModelSuggestion| y@) =~= out0.map_values(
                    |y: ModelSuggestion| y@,
                ) + seq![x@]);
                assert(out0.map_values(|y: ModelSuggestion| y@) + (seq![x@] + rest) =~= (
                out0.map_values(|y: ModelSuggestion| y@) + seq![x@]) + rest);
            }
        }
        k = k + 1;
    }
    proof {
        assert(l.skip(k as int) =~= Seq::<JsonV>::empty());
        let rest = sp_suggs_nested_of_json(l.skip(k as int))->0;
        assert(out@.map_values(|x: ModelSuggestion| x@) + rest =~= out@.map_values(
            |x: ModelSuggestion| x@,
        ));
    }
    Some(out)
}

fn suggs_flat_of_json(es: &Vec<JsonValue>) -> (r: Option<Vec<ModelSuggestion>>)
    ensures
        match r {
            Some(xs) => sp_suggs_flat_of_json(jv_view_list(es@)) == Some(
                xs@.map_values(|x: ModelSuggestion| x@),
            ),
            None => sp_suggs_flat_of_json(jv_view_list(es@)) is None,
        },
{
    let ghost l = jv_view_list(es@);
    proof {
        lemma_jv_view_list_index(es@);
    }
    let mut out: Vec<ModelSuggestion> = Vec::new();
    let mut k: usize = 0;
    proof {
        assert(l.skip(0) =~= l);
        if sp_suggs_flat_of_json(l) is Some {
            let rest = sp_suggs_flat_of_json(l)->0;
            assert(out@.map_values(|x: ModelSuggestion| x@) + rest =~= rest);
        }
    }
    while k < es.len()
        invariant
            0 <= k <= es@.len(),
            l == jv_view_list(es@),
            l.len() == es@.len(),
            forall|m: int| 0 <= m < es@.len() ==> l[m] == jv_view(es@[m]),
            (match sp_suggs_flat_of_json(l.skip(k as int)) {
                Some(rest) => sp_suggs_flat_of_json(l) == Some(
                    out@.map_values(|x: ModelSuggestion| x@) + rest,
                ),
                None => sp_suggs_flat_of_json(l) is None,
            }),
        decreases es@.len() - k,
    {
        let x = match sugg_flat_of_json(&es[k]) {
            Some(x) => x,
            None => {
                proof {
                    assert(l.skip(k as int)[0] == l[k as int]);
                }
                return None;
            },
        };
        let ghost out0 = out@;
        out.push(x);
        proof {
            assert(l.skip(k as int)[0] == l[k as int]);
            assert(l.skip(k as int).drop_first() =~= l.skip(k as int + 1));
            if sp_suggs_flat_of_json(l.skip(k as int + 1)) is Some {
                let rest = sp_suggs_flat_of_json(l.skip(k as int + 1))->0;
                assert(out@.map_values(|y: ModelSuggestion| y@) =~= out0.map_values(
                    |y: ModelSuggestion| y@,
                ) + seq![x@]);
                assert(out0.map_values(|y: ModelSuggestion| y@) + (seq![x@] + rest) =~= (
                out0.map_values(|y: ModelSuggestion| y@) + seq![x@]) + rest);
            }
        }
        k = k + 1;
    }
    proof {
        assert(l.skip(k as int) =~= Seq::<JsonV>::empty());
        let rest = sp_suggs_flat_of_json(l.skip(k as int))->0;
        assert(out@.map_values(|x: ModelSuggestion| x@) + rest =~= out@.map_values(
            |x: ModelSuggestion| x@,
        ));
    }
    Some(out)
}

/// Decodes an assistant content payload into the suggestion list; fails
/// with [`DecodeError::Content`] on any text that is not of either
/// suggestion shape.
pub fn decode_content(text: &str) -> (r: Result<OllamaPlaceholderResponse, DecodeError>)
    ensures
        match r {
            Ok(p) => sp_decode_content(text@) == Some(p@),
            Err(e) => e == DecodeError::Content && sp_decode_content(text@) is None,
        },
{
    let cs = chars_of(text);
    let doc = match parse_json(&cs) {
        Some(doc) => doc,
        None => { return Err(DecodeError::Content); },
    };
    let ms = match &doc {
        JsonValue::Obj(ms) => ms,
        _ => { return Err(DecodeError::Content); },
    };
    let rv = match lookup(ms, &String::from_str("response")) {
        Some(x) => x,
        None => { return Err(DecodeError::Content); },
    };
    let es = match rv {
        JsonValue::Arr(es) => es,
        _ => { return Err(DecodeError::Content); },
    };
    match suggs_nested_of_json(es) {
        Some(response) => Ok(OllamaPlaceholderResponse { response }),
        None => match suggs_flat_of_json(es) {
            Some(response) => Ok(OllamaPlaceholderResponse { response }),
            None => Err(DecodeError::Content),
        },
    }
}

fn message_of_json(v: &JsonValue) -> (r: Option<OllamaMessage>)
    ensures
        match r {
            Some(m) => sp_message_of_json((*v)@) == Some(m@),
            None => sp_message_of_json((*v)@) is None,
        },
{
    let ms = match v {
        JsonValue::Obj(ms) => ms,
        _ => { return None; },
    };
    let rv = match lookup(ms, &String::from_str("role")) {
        Some(x) => x,
        None => { return None; },
    };
    let cv = match lookup(ms, &String::from_str("content")) {
        Some(x) => x,
        None => { return None; },
    };
    let role = match str_of(rv) {
        Some(s) => s,
        None => { return None; },
    };
    let content = match str_of(cv) {
        Some(s) => s,
        None => { return None; },
    };
    Some(OllamaMessage { role, content })
}

/// Decodes a transport envelope; fails with [`DecodeError::Envelope`] on
/// any text that is not of the reply shape.
pub fn decode_envelope(text: &str) -> (r: Result<OllamaResponse, DecodeError>)
    ensures
        match r {
            Ok(resp) => sp_decode_envelope(text@) == Some(resp@),
            Err(e) => e == DecodeError::Envelope && sp_decode_envelope(text@) is None,
        },
{
    let cs = chars_of(text);
    let doc = match parse_json(&cs) {
        Some(doc) => doc,
        None => { return Err(DecodeError::Envelope); },
    };
    let ms = match &doc {
        JsonValue::Obj(ms) => ms,
        _ => { return Err(DecodeError::Envelope); },
    };
    let mv = match lookup(ms, &String::from_str("model")) {
        Some(x) => x,
        None => { return Err(DecodeError::Envelope); },
    };
    let av = match lookup(ms, &String::from_str("created_at")) {
        Some(x) => x,
        None => { return Err(DecodeError::Envelope); },
    };
    let gv = match lookup(ms, &String::from_str("message")) {
        Some(x) => x,
        None => { return Err(DecodeError::Envelope); },
    };
    let dv = match lookup(ms, &String::from_str("done_reason")) {
        Some(x) => x,
        None => { return Err(DecodeError::Envelope); },
    };
    let model = match str_of(mv) {
        Some(s) => s,
        None => { return Err(DecodeError::Envelope); },
    };
    let created_at = match str_of(av) {
        Some(s) => s,
        None => { return Err(DecodeError::Envelope); },
    };
    let message = match message_of_json(gv) {
        Some(m) => m,
        None => { return Err(DecodeError::Envelope); },
    };
    let done_reason = match str_of(dv) {
        Some(s) => s,
        None => { return Err(DecodeError::Envelope); },
    };
    let tdv = match lookup(ms, &String::from_str("total_duration")) {
        Some(x) => x,
        None => { return Err(DecodeError::Envelope); },
    };
    let ldv = match lookup(ms, &String::from_str("load_duration")) {
        Some(x) => x,
        None => { return Err(DecodeError::Envelope); },
    };
    let pcv = match lookup(ms, &String::from_str("prompt_eval_count")) {
        Some(x) => x,
        None => { return Err(DecodeError::Envelope); },
    };
    let pdv = match lookup(ms, &String::from_str("prompt_eval_duration")) {
        Some(x) => x,
        None => { return Err(DecodeError::Envelope); },
    };
    let ecv = match lookup(ms, &String::from_str("eval_count")) {
        Some(x) => x,
        None => { return Err(DecodeError::Envelope); },
    };
    let edv = match lookup(ms, &String::from_str("eval_duration")) {
        Some(x) => x,
        None => { return Err(DecodeError::Envelope); },
    };
    let total_duration = match u64_of(tdv) {
        Some(n) => n,
        None => { return Err(DecodeError::Envelope); },
    };
    let load_duration = match u64_of(ldv) {
        Some(n) => n,
        None => { return Err(DecodeError::Envelope); },
    };
    let prompt_eval_count = match u64_of(pcv) {
        Some(n) => n,
        None => { return Err(DecodeError::Envelope); },
    };
    let prompt_eval_duration = match u64_of(pdv) {
        Some(n) => n,
        None => { return Err(DecodeError::Envelope); },
    };
    let eval_count = match u64_of(ecv) {
        Some(n) => n,
        None => { return Err(DecodeError::Envelope); },
    };
    let eval_duration = match u64_of(edv) {
        Some(n) => n,
        None => { return Err(DecodeError::Envelope); },
    };
    Ok(
        OllamaResponse {
            model,
            created_at,
            message,
            done_reason,
            total_duration,
            load_duration,
            prompt_eval_count,
            prompt_eval_duration,
            eval_count,
            eval_duration,
        },
    )
}

/// Decodes a raw transport reply end to end: first the envelope, then the
/// suggestion payload carried in `message.content`. The two stages fail
/// with the distinct errors [`DecodeError::Envelope`] and
/// [`DecodeError::Content`].
pub fn parse_response(text: &str) -> (r: Result<Vec<ModelSuggestion>, DecodeError>)
    ensures
        match r {
            Ok(sugs) => sp_decode_envelope(text@) is Some && sp_decode_content(
                sp_decode_envelope(text@)->0.message.content,
            ) == Some(sugs@.map_values(|s: ModelSuggestion| s@)),
            Err(e) => match e {
                DecodeError::Envelope => sp_decode_envelope(text@) is None,
                DecodeError::Content => sp_decode_envelope(text@) is Some && sp_decode_content(
                    sp_decode_envelope(text@)->0.message.content,
                ) is None,
                _ => false,
            },
        },
{
    let envelope = match decode_envelope(text) {
        Ok(envelope) => envelope,
        Err(_) => { return Err(DecodeError::Envelope); },
    };
    match decode_content(envelope.message.content.as_str()) {
        Ok(p) => Ok(p.response),
        Err(_) => Err(DecodeError::Content),
    }
}

} // verus!
