//! Reads JSON trees into the response shapes.
//!
//! Each `reads_*` spec function says when a JSON value reads as a given
//! value of a shape; the matching `read_*` function finds that value, or
//! reports that there is none. Members are looked up by their names on the
//! wire (camelCase in responses); other members are ignored; a member whose
//! value is `null` counts as absent.
use vstd::prelude::*;
use crate::json::{JsonTree, JsonValue, items_tree, lookup, member, members_tree, find_member};
use crate::types::{
    CountTokensRequest, CountTokensResponse, FunctionDeclaration, FunctionParameters,
    FunctionParametersProperty, RequestContent, Tools,
    Candidate, Citation, CitationMetadata, Content, GenerateContentResponse,
    GenerateContentResponseChunk, GenerateContentResponseError,
    GenerateContentResponseErrorDetails, Part, SafetyRating, UsageMetadata,
};

verus! {

broadcast use {
    crate::json::lemma_items_tree,
    crate::json::lemma_members_tree,
    crate::json::lemma_items_len,
    crate::json::lemma_members_len,
};

/// The member `key`, with `null` counted as absent.
pub open spec fn field(m: Seq<(Seq<char>, JsonTree)>, key: Seq<char>) -> Option<JsonTree> {
    match lookup(m, key) {
        Some(JsonTree::Null) => None,
        x => x,
    }
}

pub open spec fn str_is(v: JsonTree, s: String) -> bool {
    match v {
        JsonTree::Str(t) => s@ == t,
        _ => false,
    }
}

pub open spec fn i32_is(v: JsonTree, n: i32) -> bool {
    match v {
        JsonTree::Int(i) => i as int == n as int,
        _ => false,
    }
}

pub open spec fn u32_is(v: JsonTree, n: u32) -> bool {
    match v {
        JsonTree::Int(i) => i as int == n as int,
        _ => false,
    }
}

/// A required string member.
pub open spec fn str_field(m: Seq<(Seq<char>, JsonTree)>, key: Seq<char>, s: String) -> bool {
    match field(m, key) {
        Some(v) => str_is(v, s),
        None => false,
    }
}

/// An optional string member.
pub open spec fn opt_str_field(m: Seq<(Seq<char>, JsonTree)>, key: Seq<char>, s: Option<String>) -> bool {
    match (field(m, key), s) {
        (None, None) => true,
        (Some(v), Some(t)) => str_is(v, t),
        _ => false,
    }
}

/// A required `i32` member.
pub open spec fn i32_field(m: Seq<(Seq<char>, JsonTree)>, key: Seq<char>, n: i32) -> bool {
    match field(m, key) {
        Some(v) => i32_is(v, n),
        None => false,
    }
}

/// An optional `i32` member.
pub open spec fn opt_i32_field(m: Seq<(Seq<char>, JsonTree)>, key: Seq<char>, n: Option<i32>) -> bool {
    match (field(m, key), n) {
        (None, None) => true,
        (Some(v), Some(k)) => i32_is(v, k),
        _ => false,
    }
}

/// A required `u32` member.
pub open spec fn u32_field(m: Seq<(Seq<char>, JsonTree)>, key: Seq<char>, n: u32) -> bool {
    match field(m, key) {
        Some(v) => u32_is(v, n),
        None => false,
    }
}

/// Looks up a member, with `null` counted as absent.
pub fn field_of<'a>(m: &'a Vec<(String, JsonValue)>, key: &str) -> (r: Option<&'a JsonValue>)
    ensures
        r is None <==> field(members_tree(m@), key@) is None,
        r is Some ==> (*r->0)@ == field(members_tree(m@), key@)->0,
{
    match find_member(m, key) {
        Some(JsonValue::Null) => None,
        x => x,
    }
}

/// Reads a string value.
pub fn read_str(v: &JsonValue) -> (r: Option<String>)
    ensures
        r is Some <==> v is Str,
        r is Some ==> str_is(v@, r->0),
{
    match v {
        JsonValue::Str(s) => Some(s.clone()),
        _ => None,
    }
}

/// Reads an integer value that fits in an `i32`.
pub fn read_i32(v: &JsonValue) -> (r: Option<i32>)
    ensures
        r is Some ==> i32_is(v@, r->0),
        r is None ==> forall|n: i32| !i32_is(v@, n),
{
    match v {
        JsonValue::Int(i) => {
            if -2147483648 <= *i && *i <= 2147483647 {
                Some(*i as i32)
            } else {
                None
            }
        },
        _ => None,
    }
}

/// Reads an integer value that fits in a `u32`.
pub fn read_u32(v: &JsonValue) -> (r: Option<u32>)
    ensures
        r is Some ==> u32_is(v@, r->0),
        r is None ==> forall|n: u32| !u32_is(v@, n),
{
    match v {
        JsonValue::Int(i) => {
            if 0 <= *i && *i <= 4294967295 {
                Some(*i as u32)
            } else {
                None
            }
        },
        _ => None,
    }
}

/// Reads a required string member.
fn str_member(m: &Vec<(String, JsonValue)>, key: &str) -> (r: Option<String>)
    ensures
        r is Some ==> str_field(members_tree(m@), key@, r->0),
        r is None ==> forall|s: String| !str_field(members_tree(m@), key@, s),
{
    match field_of(m, key) {
        Some(v) => read_str(v),
        None => None,
    }
}

/// Reads an optional string member; `Err` where it is present but no string.
fn opt_str_member(m: &Vec<(String, JsonValue)>, key: &str) -> (r: Result<Option<String>, ()>)
    ensures
        r is Ok ==> opt_str_field(members_tree(m@), key@, r->Ok_0),
        r is Err ==> forall|s: Option<String>| !opt_str_field(members_tree(m@), key@, s),
{
    match field_of(m, key) {
        Some(v) => match read_str(v) {
            Some(s) => Ok(Some(s)),
            None => Err(()),
        },
        None => Ok(None),
    }
}

fn i32_member(m: &Vec<(String, JsonValue)>, key: &str) -> (r: Option<i32>)
    ensures
        r is Some ==> i32_field(members_tree(m@), key@, r->0),
        r is None ==> forall|n: i32| !i32_field(members_tree(m@), key@, n),
{
    match field_of(m, key) {
        Some(v) => read_i32(v),
        None => None,
    }
}

fn opt_i32_member(m: &Vec<(String, JsonValue)>, key: &str) -> (r: Result<Option<i32>, ()>)
    ensures
        r is Ok ==> opt_i32_field(members_tree(m@), key@, r->Ok_0),
        r is Err ==> forall|n: Option<i32>| !opt_i32_field(members_tree(m@), key@, n),
{
    match field_of(m, key) {
        Some(v) => match read_i32(v) {
            Some(n) => Ok(Some(n)),
            None => Err(()),
        },
        None => Ok(None),
    }
}

fn u32_member(m: &Vec<(String, JsonValue)>, key: &str) -> (r: Option<u32>)
    ensures
        r is Some ==> u32_field(members_tree(m@), key@, r->0),
        r is None ==> forall|n: u32| !u32_field(members_tree(m@), key@, n),
{
    match field_of(m, key) {
        Some(v) => read_u32(v),
        None => None,
    }
}

// ---------------------------------------------------------------- safety ratings

pub open spec fn reads_safety_rating(v: JsonTree, r: SafetyRating) -> bool {
    match v {
        JsonTree::Object(m) => {
            &&& str_field(m, "category"@, r.category)
            &&& str_field(m, "probability"@, r.probability)
        },
        _ => false,
    }
}

pub fn read_safety_rating(v: &JsonValue) -> (r: Option<SafetyRating>)
    ensures
        r is Some ==> reads_safety_rating(v@, r->0),
        r is None ==> forall|x: SafetyRating| !reads_safety_rating(v@, x),
{
    match v {
        JsonValue::Object(m) => {
            let category = match str_member(m, "category") {
                Some(s) => s,
                None => return None,
            };
            let probability = match str_member(m, "probability") {
                Some(s) => s,
                None => return None,
            };
            Some(SafetyRating { category, probability })
        },
        _ => None,
    }
}

pub open spec fn reads_safety_ratings(v: JsonTree, r: Seq<SafetyRating>) -> bool {
    match v {
        JsonTree::Array(items) => {
            &&& items.len() == r.len()
            &&& forall|i: int| 0 <= i < r.len() ==> #[trigger] reads_safety_rating(items[i], r[i])
        },
        _ => false,
    }
}

pub fn read_safety_ratings(v: &JsonValue) -> (r: Option<Vec<SafetyRating>>)
    ensures
        r is Some ==> reads_safety_ratings(v@, r->0@),
        r is None ==> forall|x: Seq<SafetyRating>| !reads_safety_ratings(v@, x),
{
    match v {
        JsonValue::Array(items) => {
            let mut out: Vec<SafetyRating> = Vec::new();
            let mut i: usize = 0;
            while i < items.len()
                invariant
                    *v == JsonValue::Array(*items),
                    v@ == JsonTree::Array(items_tree(items@)),
                    i <= items@.len(),
                    out@.len() == i,
                    forall|j: int| 0 <= j < i ==> #[trigger] reads_safety_rating(items@[j]@, out@[j]),
                decreases items@.len() - i,
            {
                match read_safety_rating(&items[i]) {
                    Some(x) => out.push(x),
                    None => {
                        assert forall|x: Seq<SafetyRating>| !reads_safety_ratings(v@, x) by {
                            if reads_safety_ratings(v@, x) {
                                assert(items_tree(items@)[i as int] == items@[i as int]@);
                                assert(reads_safety_rating(items@[i as int]@, x[i as int]));
                            }
                        }
                        return None;
                    },
                }
                i = i + 1;
            }
            Some(out)
        },
        _ => None,
    }
}

// ---------------------------------------------------------------- citations

pub open spec fn reads_citation(v: JsonTree, r: Citation) -> bool {
    match v {
        JsonTree::Object(m) => {
            &&& u32_field(m, "endIndex"@, r.end_index)
            &&& str_field(m, "license"@, r.license)
            &&& u32_field(m, "startIndex"@, r.start_index)
            &&& str_field(m, "uri"@, r.uri)
        },
        _ => false,
    }
}

pub fn read_citation(v: &JsonValue) -> (r: Option<Citation>)
    ensures
        r is Some ==> reads_citation(v@, r->0),
        r is None ==> forall|x: Citation| !reads_citation(v@, x),
{
    match v {
        JsonValue::Object(m) => {
            let end_index = match u32_member(m, "endIndex") {
                Some(n) => n,
                None => return None,
            };
            let license = match str_member(m, "license") {
                Some(s) => s,
                None => return None,
            };
            let start_index = match u32_member(m, "startIndex") {
                Some(n) => n,
                None => return None,
            };
            let uri = match str_member(m, "uri") {
                Some(s) => s,
                None => return None,
            };
            Some(Citation { end_index, license, start_index, uri })
        },
        _ => None,
    }
}

pub open spec fn reads_citations(v: JsonTree, r: Seq<Citation>) -> bool {
    match v {
        JsonTree::Array(items) => {
            &&& items.len() == r.len()
            &&& forall|i: int| 0 <= i < r.len() ==> #[trigger] reads_citation(items[i], r[i])
        },
        _ => false,
    }
}

pub open spec fn reads_citation_metadata(v: JsonTree, r: CitationMetadata) -> bool {
    match v {
        JsonTree::Object(m) => match field(m, "citationSources"@) {
            Some(x) => reads_citations(x, r.citation_sources@),
            None => false,
        },
        _ => false,
    }
}

fn read_citations(v: &JsonValue) -> (r: Option<Vec<Citation>>)
    ensures
        r is Some ==> reads_citations(v@, r->0@),
        r is None ==> forall|x: Seq<Citation>| !reads_citations(v@, x),
{
    match v {
        JsonValue::Array(items) => {
            let mut out: Vec<Citation> = Vec::new();
            let mut i: usize = 0;
            while i < items.len()
                invariant
                    *v == JsonValue::Array(*items),
                    v@ == JsonTree::Array(items_tree(items@)),
                    i <= items@.len(),
                    out@.len() == i,
                    forall|j: int| 0 <= j < i ==> #[trigger] reads_citation(items@[j]@, out@[j]),
                decreases items@.len() - i,
            {
                match read_citation(&items[i]) {
                    Some(x) => out.push(x),
                    None => {
                        assert forall|x: Seq<Citation>| !reads_citations(v@, x) by {
                            if reads_citations(v@, x) {
                                assert(items_tree(items@)[i as int] == items@[i as int]@);
                                assert(reads_citation(items@[i as int]@, x[i as int]));
                            }
                        }
                        return None;
                    },
                }
                i = i + 1;
            }
            Some(out)
        },
        _ => None,
    }
}

pub fn read_citation_metadata(v: &JsonValue) -> (r: Option<CitationMetadata>)
    ensures
        r is Some ==> reads_citation_metadata(v@, r->0),
        r is None ==> forall|x: CitationMetadata| !reads_citation_metadata(v@, x),
{
    match v {
        JsonValue::Object(m) => match field_of(m, "citationSources") {
            Some(x) => match read_citations(x) {
                Some(citation_sources) => Some(CitationMetadata { citation_sources }),
                None => None,
            },
            None => None,
        },
        _ => None,
    }
}

// ---------------------------------------------------------------- usage

pub open spec fn reads_usage_metadata(v: JsonTree, r: UsageMetadata) -> bool {
    match v {
        JsonTree::Object(m) => {
            &&& opt_i32_field(m, "candidatesTokenCount"@, r.candidates_token_count)
            &&& i32_field(m, "promptTokenCount"@, r.prompt_token_count)
            &&& i32_field(m, "totalTokenCount"@, r.total_token_count)
        },
        _ => false,
    }
}

pub fn read_usage_metadata(v: &JsonValue) -> (r: Option<UsageMetadata>)
    ensures
        r is Some ==> reads_usage_metadata(v@, r->0),
        r is None ==> forall|x: UsageMetadata| !reads_usage_metadata(v@, x),
{
    match v {
        JsonValue::Object(m) => {
            let candidates_token_count = match opt_i32_member(m, "candidatesTokenCount") {
                Ok(n) => n,
                Err(_) => return None,
            };
            let prompt_token_count = match i32_member(m, "promptTokenCount") {
                Some(n) => n,
                None => return None,
            };
            let total_token_count = match i32_member(m, "totalTokenCount") {
                Some(n) => n,
                None => return None,
            };
            Some(UsageMetadata { candidates_token_count, prompt_token_count, total_token_count })
        },
        _ => None,
    }
}

// ---------------------------------------------------------------- parts

/// One function-call argument: its name and its string value.
pub open spec fn arg_is(m: (Seq<char>, JsonTree), a: (String, String)) -> bool {
    a.0@ == m.0 && str_is(m.1, a.1)
}

/// No two members have the same name.
pub open spec fn distinct_keys(m: Seq<(Seq<char>, JsonTree)>) -> bool {
    forall|i: int, j: int| 0 <= i < j < m.len() ==> #[trigger] m[i].0 != #[trigger] m[j].0
}

/// No two arguments have the same name.
pub open spec fn args_distinct(args: Seq<(String, String)>) -> bool {
    forall|i: int, j: int| 0 <= i < j < args.len() ==> #[trigger] args[i].0@ != #[trigger] args[j].0@
}

/// No two properties have the same name.
pub open spec fn properties_distinct(ps: Seq<(String, FunctionParametersProperty)>) -> bool {
    forall|i: int, j: int| 0 <= i < j < ps.len() ==> #[trigger] ps[i].0@ != #[trigger] ps[j].0@
}

/// A part whose argument names, if it has any, are distinct.
pub open spec fn part_wf(p: Part) -> bool {
    match p {
        Part::FunctionCall { args, .. } => args_distinct(args@),
        _ => true,
    }
}

pub open spec fn parts_wf(ps: Seq<Part>) -> bool {
    forall|i: int| 0 <= i < ps.len() ==> #[trigger] part_wf(ps[i])
}

pub open spec fn candidate_wf(c: Candidate) -> bool {
    match c.content {
        Some(content) => parts_wf(content.parts@),
        None => true,
    }
}

/// A chunk whose function calls have distinct argument names.
pub open spec fn chunk_wf(c: GenerateContentResponseChunk) -> bool {
    forall|i: int| 0 <= i < c.candidates@.len() ==> #[trigger] candidate_wf(c.candidates@[i])
}

pub open spec fn declaration_wf(d: FunctionDeclaration) -> bool {
    properties_distinct(d.parameters.properties@)
}

/// Tools whose declarations have distinct property names.
pub open spec fn tools_wf(t: Tools) -> bool {
    match t.function_declarations {
        Some(ds) => forall|i: int| 0 <= i < ds@.len() ==> #[trigger] declaration_wf(ds@[i]),
        None => true,
    }
}

/// Tells whether no two members have the same name.
pub fn has_distinct_names(items: &Vec<(String, JsonValue)>) -> (r: bool)
    ensures
        r == distinct_keys(members_tree(items@)),
{
    let ghost t = members_tree(items@);
    let mut i: usize = 0;
    while i < items.len()
        invariant
            t == members_tree(items@),
            i <= items@.len(),
            forall|a: int, b: int| 0 <= a < b < i ==> #[trigger] t[a].0 != #[trigger] t[b].0,
        decreases items@.len() - i,
    {
        let mut j: usize = 0;
        while j < i
            invariant
                t == members_tree(items@),
                i < items@.len(),
                j <= i,
                forall|a: int, b: int| 0 <= a < b < i ==> #[trigger] t[a].0 != #[trigger] t[b].0,
                forall|a: int| 0 <= a < j ==> #[trigger] t[a].0 != t[i as int].0,
            decreases i - j,
        {
            assert(t[j as int].0 == items@[j as int].0@);
            assert(t[i as int].0 == items@[i as int].0@);
            if items[j].0 == items[i].0 {
                return false;
            }
            j = j + 1;
        }
        i = i + 1;
    }
    true
}

pub open spec fn reads_args(v: JsonTree, args: Seq<(String, String)>) -> bool {
    match v {
        JsonTree::Object(n) => {
            &&& distinct_keys(n)
            &&& n.len() == args.len()
            &&& forall|i: int| 0 <= i < args.len() ==> #[trigger] arg_is(n[i], args[i])
        },
        _ => false,
    }
}

/// The single member of a part, named `k` with value `x`, reads as `p`.
pub open spec fn part_member(k: Seq<char>, x: JsonTree, p: Part) -> bool {
    match p {
        Part::Text(s) => k == "text"@ && str_is(x, s),
        Part::InlineData { mime_type, data } => k == "inlineData"@ && match x {
            JsonTree::Object(n) => str_field(n, "mimeType"@, mime_type) && str_field(n, "data"@, data),
            _ => false,
        },
        Part::FileData { mime_type, file_uri } => k == "fileData"@ && match x {
            JsonTree::Object(n) => str_field(n, "mimeType"@, mime_type) && str_field(n, "fileUri"@, file_uri),
            _ => false,
        },
        Part::FunctionCall { name, args } => k == "functionCall"@ && match x {
            JsonTree::Object(n) => str_field(n, "name"@, name) && match field(n, "args"@) {
                Some(a) => reads_args(a, args@),
                None => false,
            },
            _ => false,
        },
    }
}

/// A part is an object with exactly one member, whose name says which kind of part it is.
pub open spec fn reads_part(v: JsonTree, p: Part) -> bool {
    match v {
        JsonTree::Object(m) => m.len() == 1 && part_member(m[0].0, m[0].1, p),
        _ => false,
    }
}

fn key_is(k: &String, name: &str) -> (r: bool)
    ensures
        r == (k@ == name@),
{
    let wanted = name.to_owned();
    *k == wanted
}

fn read_args(v: &JsonValue) -> (r: Option<Vec<(String, String)>>)
    ensures
        r is Some ==> reads_args(v@, r->0@),
        r is None ==> forall|x: Seq<(String, String)>| !reads_args(v@, x),
{
    match v {
        JsonValue::Object(items) => {
            if !has_distinct_names(items) {
                return None;
            }
            let mut out: Vec<(String, String)> = Vec::new();
            let mut i: usize = 0;
            while i < items.len()
                invariant
                    *v == JsonValue::Object(*items),
                    v@ == JsonTree::Object(members_tree(items@)),
                    distinct_keys(members_tree(items@)),
                    i <= items@.len(),
                    out@.len() == i,
                    forall|j: int| 0 <= j < i ==> #[trigger] arg_is((items@[j].0@, items@[j].1@), out@[j]),
                decreases items@.len() - i,
            {
                match read_str(&items[i].1) {
                    Some(x) => out.push((items[i].0.clone(), x)),
                    None => {
                        assert forall|x: Seq<(String, String)>| !reads_args(v@, x) by {
                            if reads_args(v@, x) {
                                assert(members_tree(items@)[i as int] == (items@[i as int].0@, items@[i as int].1@));
                                assert(arg_is((items@[i as int].0@, items@[i as int].1@), x[i as int]));
                            }
                        }
                        return None;
                    },
                }
                i = i + 1;
            }
            Some(out)
        },
        _ => None,
    }
}

/// The four names of part kinds differ.
proof fn lemma_part_names_distinct()
    ensures
        "text"@ != "inlineData"@,
        "text"@ != "fileData"@,
        "text"@ != "functionCall"@,
        "inlineData"@ != "fileData"@,
        "inlineData"@ != "functionCall"@,
        "fileData"@ != "functionCall"@,
{
    reveal_strlit("text");
    reveal_strlit("inlineData");
    reveal_strlit("fileData");
    reveal_strlit("functionCall");
    assert("text"@.len() == 4);
    assert("inlineData"@.len() == 10);
    assert("fileData"@.len() == 8);
    assert("functionCall"@.len() == 12);
}

/// Reads the value of a part whose one member is named `inlineData`.
fn read_inline_data(x: &JsonValue) -> (r: Option<Part>)
    ensures
        r is Some ==> part_member("inlineData"@, x@, r->0),
        r is None ==> forall|p: Part| !part_member("inlineData"@, x@, p),
{
    proof {
        lemma_part_names_distinct();
    }
    match x {
        JsonValue::Object(n) => {
            let mime_type = str_member(n, "mimeType");
            let data = str_member(n, "data");
            match (mime_type, data) {
                (Some(mime_type), Some(data)) => Some(Part::InlineData { mime_type, data }),
                _ => None,
            }
        },
        _ => None,
    }
}

/// Reads the value of a part whose one member is named `fileData`.
fn read_file_data(x: &JsonValue) -> (r: Option<Part>)
    ensures
        r is Some ==> part_member("fileData"@, x@, r->0),
        r is None ==> forall|p: Part| !part_member("fileData"@, x@, p),
{
    proof {
        lemma_part_names_distinct();
    }
    match x {
        JsonValue::Object(n) => {
            let mime_type = str_member(n, "mimeType");
            let file_uri = str_member(n, "fileUri");
            match (mime_type, file_uri) {
                (Some(mime_type), Some(file_uri)) => Some(Part::FileData { mime_type, file_uri }),
                _ => None,
            }
        },
        _ => None,
    }
}

/// Reads the value of a part whose one member is named `functionCall`.
fn read_function_call(x: &JsonValue) -> (r: Option<Part>)
    ensures
        r is Some ==> part_member("functionCall"@, x@, r->0),
        r is None ==> forall|p: Part| !part_member("functionCall"@, x@, p),
{
    proof {
        lemma_part_names_distinct();
    }
    match x {
        JsonValue::Object(n) => {
            let name = str_member(n, "name");
            let args = match field_of(n, "args") {
                Some(a) => read_args(a),
                None => None,
            };
            match (name, args) {
                (Some(name), Some(args)) => Some(Part::FunctionCall { name, args }),
                _ => None,
            }
        },
        _ => None,
    }
}

/// Reads the value of a part whose one member is named `text`.
fn read_text(x: &JsonValue) -> (r: Option<Part>)
    ensures
        r is Some ==> part_member("text"@, x@, r->0),
        r is None ==> forall|p: Part| !part_member("text"@, x@, p),
{
    proof {
        lemma_part_names_distinct();
    }
    match read_str(x) {
        Some(s) => Some(Part::Text(s)),
        None => None,
    }
}

pub fn read_part(v: &JsonValue) -> (r: Option<Part>)
    ensures
        r is Some ==> reads_part(v@, r->0),
        r is None ==> forall|x: Part| !reads_part(v@, x),
{
    proof {
        lemma_part_names_distinct();
    }
    match v {
        JsonValue::Object(m) => {
            if m.len() != 1 {
                return None;
            }
            let k = &m[0].0;
            let x = &m[0].1;
            if key_is(k, "text") {
                read_text(x)
            } else if key_is(k, "inlineData") {
                read_inline_data(x)
            } else if key_is(k, "fileData") {
                read_file_data(x)
            } else if key_is(k, "functionCall") {
                read_function_call(x)
            } else {
                None
            }
        },
        _ => None,
    }
}

// ---------------------------------------------------------------- content

pub open spec fn reads_parts(v: JsonTree, r: Seq<Part>) -> bool {
    match v {
        JsonTree::Array(items) => {
            &&& items.len() == r.len()
            &&& forall|i: int| 0 <= i < r.len() ==> #[trigger] reads_part(items[i], r[i])
        },
        _ => false,
    }
}

fn read_parts(v: &JsonValue) -> (r: Option<Vec<Part>>)
    ensures
        r is Some ==> reads_parts(v@, r->0@),
        r is None ==> forall|x: Seq<Part>| !reads_parts(v@, x),
{
    match v {
        JsonValue::Array(items) => {
            let mut out: Vec<Part> = Vec::new();
            let mut i: usize = 0;
            while i < items.len()
                invariant
                    *v == JsonValue::Array(*items),
                    v@ == JsonTree::Array(items_tree(items@)),
                    i <= items@.len(),
                    out@.len() == i,
                    forall|j: int| 0 <= j < i ==> #[trigger] reads_part(items@[j]@, out@[j]),
                decreases items@.len() - i,
            {
                match read_part(&items[i]) {
                    Some(x) => out.push(x),
                    None => {
                        assert forall|x: Seq<Part>| !reads_parts(v@, x) by {
                            if reads_parts(v@, x) {
                                assert(items_tree(items@)[i as int] == items@[i as int]@);
                                assert(reads_part(items@[i as int]@, x[i as int]));
                            }
                        }
                        return None;
                    },
                }
                i = i + 1;
            }
            Some(out)
        },
        _ => None,
    }
}

pub open spec fn reads_content(v: JsonTree, r: Content) -> bool {
    match v {
        JsonTree::Object(m) => {
            &&& str_field(m, "role"@, r.role)
            &&& match field(m, "parts"@) {
                Some(x) => reads_parts(x, r.parts@),
                None => false,
            }
        },
        _ => false,
    }
}

pub fn read_content(v: &JsonValue) -> (r: Option<Content>)
    ensures
        r is Some ==> reads_content(v@, r->0),
        r is None ==> forall|x: Content| !reads_content(v@, x),
{
    match v {
        JsonValue::Object(m) => {
            let role = str_member(m, "role");
            let parts = match field_of(m, "parts") {
                Some(x) => read_parts(x),
                None => None,
            };
            match (role, parts) {
                (Some(role), Some(parts)) => Some(Content { role, parts }),
                _ => None,
            }
        },
        _ => None,
    }
}

// ---------------------------------------------------------------- candidates

pub open spec fn reads_candidate(v: JsonTree, r: Candidate) -> bool {
    match v {
        JsonTree::Object(m) => {
            &&& match (field(m, "content"@), r.content) {
                (None, None) => true,
                (Some(x), Some(c)) => reads_content(x, c),
                _ => false,
            }
            &&& match (field(m, "citationMetadata"@), r.citation_metadata) {
                (None, None) => true,
                (Some(x), Some(c)) => reads_citation_metadata(x, c),
                _ => false,
            }
            &&& match (field(m, "safetyRatings"@), r.safety_ratings) {
                (None, None) => true,
                (Some(x), Some(c)) => reads_safety_ratings(x, c@),
                _ => false,
            }
            &&& opt_str_field(m, "finishReason"@, r.finish_reason)
        },
        _ => false,
    }
}

pub fn read_candidate(v: &JsonValue) -> (r: Option<Candidate>)
    ensures
        r is Some ==> reads_candidate(v@, r->0),
        r is None ==> forall|x: Candidate| !reads_candidate(v@, x),
{
    match v {
        JsonValue::Object(m) => {
            let content = match field_of(m, "content") {
                Some(x) => match read_content(x) {
                    Some(c) => Some(c),
                    None => return None,
                },
                None => None,
            };
            let citation_metadata = match field_of(m, "citationMetadata") {
                Some(x) => match read_citation_metadata(x) {
                    Some(c) => Some(c),
                    None => return None,
                },
                None => None,
            };
            let safety_ratings = match field_of(m, "safetyRatings") {
                Some(x) => match read_safety_ratings(x) {
                    Some(c) => Some(c),
                    None => return None,
                },
                None => None,
            };
            let finish_reason = match opt_str_member(m, "finishReason") {
                Ok(s) => s,
                Err(_) => return None,
            };
            Some(Candidate { content, citation_metadata, safety_ratings, finish_reason })
        },
        _ => None,
    }
}

pub open spec fn reads_candidates(v: JsonTree, r: Seq<Candidate>) -> bool {
    match v {
        JsonTree::Array(items) => {
            &&& items.len() == r.len()
            &&& forall|i: int| 0 <= i < r.len() ==> #[trigger] reads_candidate(items[i], r[i])
        },
        _ => false,
    }
}

fn read_candidates(v: &JsonValue) -> (r: Option<Vec<Candidate>>)
    ensures
        r is Some ==> reads_candidates(v@, r->0@),
        r is None ==> forall|x: Seq<Candidate>| !reads_candidates(v@, x),
{
    match v {
        JsonValue::Array(items) => {
            let mut out: Vec<Candidate> = Vec::new();
            let mut i: usize = 0;
            while i < items.len()
                invariant
                    *v == JsonValue::Array(*items),
                    v@ == JsonTree::Array(items_tree(items@)),
                    i <= items@.len(),
                    out@.len() == i,
                    forall|j: int| 0 <= j < i ==> #[trigger] reads_candidate(items@[j]@, out@[j]),
                decreases items@.len() - i,
            {
                match read_candidate(&items[i]) {
                    Some(x) => out.push(x),
                    None => {
                        assert forall|x: Seq<Candidate>| !reads_candidates(v@, x) by {
                            if reads_candidates(v@, x) {
                                assert(items_tree(items@)[i as int] == items@[i as int]@);
                                assert(reads_candidate(items@[i as int]@, x[i as int]));
                            }
                        }
                        return None;
                    },
                }
                i = i + 1;
            }
            Some(out)
        },
        _ => None,
    }
}

// ---------------------------------------------------------------- elements

pub open spec fn reads_chunk(v: JsonTree, r: GenerateContentResponseChunk) -> bool {
    match v {
        JsonTree::Object(m) => {
            &&& match field(m, "candidates"@) {
                Some(x) => reads_candidates(x, r.candidates@),
                None => false,
            }
            &&& match (field(m, "usageMetadata"@), r.usage_metadata) {
                (None, None) => true,
                (Some(x), Some(u)) => reads_usage_metadata(x, u),
                _ => false,
            }
        },
        _ => false,
    }
}

pub fn read_chunk(v: &JsonValue) -> (r: Option<GenerateContentResponseChunk>)
    ensures
        r is Some ==> reads_chunk(v@, r->0),
        r is None ==> forall|x: GenerateContentResponseChunk| !reads_chunk(v@, x),
{
    match v {
        JsonValue::Object(m) => {
            let candidates = match field_of(m, "candidates") {
                Some(x) => match read_candidates(x) {
                    Some(c) => c,
                    None => return None,
                },
                None => return None,
            };
            let usage_metadata = match field_of(m, "usageMetadata") {
                Some(x) => match read_usage_metadata(x) {
                    Some(u) => Some(u),
                    None => return None,
                },
                None => None,
            };
            Some(GenerateContentResponseChunk { candidates, usage_metadata })
        },
        _ => None,
    }
}

pub open spec fn reads_error_details(v: JsonTree, r: GenerateContentResponseErrorDetails) -> bool {
    match v {
        JsonTree::Object(m) => {
            &&& i32_field(m, "code"@, r.code)
            &&& str_field(m, "message"@, r.message)
            &&& str_field(m, "status"@, r.status)
        },
        _ => false,
    }
}

pub fn read_error_details(v: &JsonValue) -> (r: Option<GenerateContentResponseErrorDetails>)
    ensures
        r is Some ==> reads_error_details(v@, r->0),
        r is None ==> forall|x: GenerateContentResponseErrorDetails| !reads_error_details(v@, x),
{
    match v {
        JsonValue::Object(m) => {
            let code = i32_member(m, "code");
            let message = str_member(m, "message");
            let status = str_member(m, "status");
            match (code, message, status) {
                (Some(code), Some(message), Some(status)) => Some(
                    GenerateContentResponseErrorDetails { code, message, status },
                ),
                _ => None,
            }
        },
        _ => None,
    }
}

pub open spec fn reads_error(v: JsonTree, r: GenerateContentResponseError) -> bool {
    match v {
        JsonTree::Object(m) => match field(m, "error"@) {
            Some(x) => reads_error_details(x, r.error),
            None => false,
        },
        _ => false,
    }
}

pub fn read_error(v: &JsonValue) -> (r: Option<GenerateContentResponseError>)
    ensures
        r is Some ==> reads_error(v@, r->0),
        r is None ==> forall|x: GenerateContentResponseError| !reads_error(v@, x),
{
    match v {
        JsonValue::Object(m) => match field_of(m, "error") {
            Some(x) => match read_error_details(x) {
                Some(error) => Some(GenerateContentResponseError { error }),
                None => None,
            },
            None => None,
        },
        _ => None,
    }
}

/// An element is an error exactly when it has a member named `error`.
pub open spec fn has_error_key(v: JsonTree) -> bool {
    member(v, "error"@) is Some
}

pub open spec fn reads_response(v: JsonTree, r: GenerateContentResponse) -> bool {
    match r {
        GenerateContentResponse::Error(e) => has_error_key(v) && reads_error(v, e),
        GenerateContentResponse::Chunk(c) => !has_error_key(v) && reads_chunk(v, c),
    }
}

/// Why an array element is neither a chunk nor an error. Each variant holds
/// the offending element.
#[derive(Debug)]
pub enum SchemaError {
    /// The element is not a JSON object.
    NotAnObject(JsonValue),
    /// The element is an object without the members its kind requires.
    Mismatch(JsonValue),
}

impl SchemaError {
    pub open spec fn payload(self) -> JsonValue {
        match self {
            SchemaError::NotAnObject(v) => v,
            SchemaError::Mismatch(v) => v,
        }
    }
}

/// Classifies one array element: an error if it has an `error` member,
/// otherwise a chunk. The `error` member is tested first, so an error is
/// never read as a chunk.
pub fn classify(v: JsonValue) -> (r: Result<GenerateContentResponse, SchemaError>)
    ensures
        match r {
            Ok(x) => reads_response(v@, x),
            Err(SchemaError::NotAnObject(p)) => p == v && !(v is Object),
            Err(SchemaError::Mismatch(p)) => {
                &&& p == v
                &&& v is Object
                &&& forall|x: GenerateContentResponse| !reads_response(v@, x)
            },
        },
{
    let read = match &v {
        JsonValue::Object(m) => {
            if find_member(m, "error").is_some() {
                match read_error(&v) {
                    Some(e) => Some(GenerateContentResponse::Error(e)),
                    None => None,
                }
            } else {
                match read_chunk(&v) {
                    Some(c) => Some(GenerateContentResponse::Chunk(c)),
                    None => None,
                }
            }
        },
        _ => return Err(SchemaError::NotAnObject(v)),
    };
    match read {
        Some(x) => Ok(x),
        None => Err(SchemaError::Mismatch(v)),
    }
}

// ---------------------------------------------------------------- requests

pub open spec fn reads_request_content(v: JsonTree, r: RequestContent) -> bool {
    match v {
        JsonTree::Object(m) => {
            &&& opt_str_field(m, "role"@, r.role)
            &&& match field(m, "parts"@) {
                Some(x) => reads_parts(x, r.parts@),
                None => false,
            }
        },
        _ => false,
    }
}

pub open spec fn reads_count_tokens_request(v: JsonTree, r: CountTokensRequest) -> bool {
    match v {
        JsonTree::Object(m) => match field(m, "contents"@) {
            Some(x) => reads_content(x, r.contents),
            None => false,
        },
        _ => false,
    }
}

pub open spec fn reads_count_tokens_response(v: JsonTree, r: CountTokensResponse) -> bool {
    match v {
        JsonTree::Object(m) => i32_field(m, "totalTokens"@, r.total_tokens),
        _ => false,
    }
}

pub fn read_count_tokens_response(v: &JsonValue) -> (r: Option<CountTokensResponse>)
    ensures
        r is Some ==> reads_count_tokens_response(v@, r->0),
        r is None ==> forall|x: CountTokensResponse| !reads_count_tokens_response(v@, x),
{
    match v {
        JsonValue::Object(m) => match i32_member(m, "totalTokens") {
            Some(total_tokens) => Some(CountTokensResponse { total_tokens }),
            None => None,
        },
        _ => None,
    }
}

pub open spec fn reads_property(v: JsonTree, r: FunctionParametersProperty) -> bool {
    match v {
        JsonTree::Object(m) => {
            &&& str_field(m, "type"@, r.kind)
            &&& str_field(m, "description"@, r.description)
        },
        _ => false,
    }
}

/// One named property: its name and its description.
pub open spec fn property_is(m: (Seq<char>, JsonTree), p: (String, FunctionParametersProperty)) -> bool {
    p.0@ == m.0 && reads_property(m.1, p.1)
}

pub open spec fn reads_strings(v: JsonTree, r: Seq<String>) -> bool {
    match v {
        JsonTree::Array(items) => {
            &&& items.len() == r.len()
            &&& forall|i: int| 0 <= i < r.len() ==> #[trigger] str_is(items[i], r[i])
        },
        _ => false,
    }
}

pub open spec fn reads_parameters(v: JsonTree, r: FunctionParameters) -> bool {
    match v {
        JsonTree::Object(m) => {
            &&& str_field(m, "type"@, r.kind)
            &&& match field(m, "properties"@) {
                Some(JsonTree::Object(n)) => {
                    &&& distinct_keys(n)
                    &&& n.len() == r.properties@.len()
                    &&& forall|i: int| 0 <= i < n.len() ==> #[trigger] property_is(n[i], r.properties@[i])
                },
                _ => false,
            }
            &&& match field(m, "required"@) {
                Some(x) => reads_strings(x, r.required@),
                None => false,
            }
        },
        _ => false,
    }
}

pub open spec fn reads_declaration(v: JsonTree, r: FunctionDeclaration) -> bool {
    match v {
        JsonTree::Object(m) => {
            &&& str_field(m, "name"@, r.name)
            &&& str_field(m, "description"@, r.description)
            &&& match field(m, "parameters"@) {
                Some(x) => reads_parameters(x, r.parameters),
                None => false,
            }
        },
        _ => false,
    }
}

pub open spec fn reads_tools(v: JsonTree, r: Tools) -> bool {
    match v {
        JsonTree::Object(m) => match (field(m, "function_declarations"@), r.function_declarations) {
            (None, None) => true,
            (Some(JsonTree::Array(items)), Some(ds)) => {
                &&& items.len() == ds@.len()
                &&& forall|i: int| 0 <= i < ds@.len() ==> #[trigger] reads_declaration(items[i], ds@[i])
            },
            _ => false,
        },
        _ => false,
    }
}

/// A part read from a tree has distinct argument names.
pub proof fn lemma_read_part_wf(v: JsonTree, p: Part)
    requires
        reads_part(v, p),
    ensures
        part_wf(p),
{
    if let Part::FunctionCall { name, args } = p {
        let m = v->Object_0;
        let n = m[0].1->Object_0;
        let a = field(n, "args"@)->0;
        let k = a->Object_0;
        assert forall|i: int, j: int| 0 <= i < j < args@.len() implies #[trigger] args@[i].0@ != #[trigger] args@[j].0@ by {
            assert(arg_is(k[i], args@[i]));
            assert(arg_is(k[j], args@[j]));
        }
    }
}

/// A chunk read from a tree has distinct argument names in every function
/// call, so writing it back gives a tree that reads as it again.
pub proof fn lemma_read_chunk_wf(v: JsonTree, c: GenerateContentResponseChunk)
    requires
        reads_chunk(v, c),
    ensures
        chunk_wf(c),
{
    let cands = field(v->Object_0, "candidates"@)->0->Array_0;
    assert forall|i: int| 0 <= i < c.candidates@.len() implies #[trigger] candidate_wf(c.candidates@[i]) by {
        let cand = c.candidates@[i];
        assert(reads_candidate(cands[i], cand));
        if let Some(content) = cand.content {
            let x = field(cands[i]->Object_0, "content"@)->0;
            assert(reads_content(x, content));
            let items = field(x->Object_0, "parts"@)->0->Array_0;
            assert forall|j: int| 0 <= j < content.parts@.len() implies #[trigger] part_wf(content.parts@[j]) by {
                assert(reads_part(items[j], content.parts@[j]));
                lemma_read_part_wf(items[j], content.parts@[j]);
            }
        }
    }
}

} // verus!
